//! The kinds of edges of the code graph, and the filters that requests name them in.

use vstd::prelude::*;
use vstd::string::*;

use crate::json::{items_view, Json, JsonView};
use crate::text::same_text;

verus! {

/// How two symbols are related.
#[derive(Clone, Copy, Debug, PartialEq, Eq, Structural)]
pub enum EdgeKind {
    Calls,
    Instantiates,
    Implements,
    RegistersCallback,
    References,
    Contains,
    Imports,
    Includes,
    Exports,
    Extends,
    TypeOf,
    Returns,
    Overrides,
    Decorates,
    Defines,
    Argument,
    Parameter,
    Assigns,
    Reads,
    Writes,
    FieldRead,
    FieldWrite,
}

/// The name of an edge kind.
pub open spec fn edge_name(kind: EdgeKind) -> Seq<char> {
    match kind {
        EdgeKind::Calls => "calls"@,
        EdgeKind::Instantiates => "instantiates"@,
        EdgeKind::Implements => "implements"@,
        EdgeKind::RegistersCallback => "registers_callback"@,
        EdgeKind::References => "references"@,
        EdgeKind::Contains => "contains"@,
        EdgeKind::Imports => "imports"@,
        EdgeKind::Includes => "includes"@,
        EdgeKind::Exports => "exports"@,
        EdgeKind::Extends => "extends"@,
        EdgeKind::TypeOf => "typeof"@,
        EdgeKind::Returns => "returns"@,
        EdgeKind::Overrides => "overrides"@,
        EdgeKind::Decorates => "decorates"@,
        EdgeKind::Defines => "defines"@,
        EdgeKind::Argument => "argument"@,
        EdgeKind::Parameter => "parameter"@,
        EdgeKind::Assigns => "assigns"@,
        EdgeKind::Reads => "reads"@,
        EdgeKind::Writes => "writes"@,
        EdgeKind::FieldRead => "field_read"@,
        EdgeKind::FieldWrite => "field_write"@,
    }
}

/// Different edge kinds have different names.
pub proof fn law_edge_names_are_distinct(a: EdgeKind, b: EdgeKind)
    ensures
        edge_name(a) == edge_name(b) ==> a == b,
{
    reveal_strlit("calls");
    reveal_strlit("instantiates");
    reveal_strlit("implements");
    reveal_strlit("registers_callback");
    reveal_strlit("references");
    reveal_strlit("contains");
    reveal_strlit("imports");
    reveal_strlit("includes");
    reveal_strlit("exports");
    reveal_strlit("extends");
    reveal_strlit("typeof");
    reveal_strlit("returns");
    reveal_strlit("overrides");
    reveal_strlit("decorates");
    reveal_strlit("defines");
    reveal_strlit("argument");
    reveal_strlit("parameter");
    reveal_strlit("assigns");
    reveal_strlit("reads");
    reveal_strlit("writes");
    reveal_strlit("field_read");
    reveal_strlit("field_write");
    let x = edge_name(a);
    let y = edge_name(b);
    assert(x.len() == y.len() && x[0] == y[0] && x[1] == y[1] && x[2] == y[2] && x[3] == y[3]
        && (x.len() > 6 ==> x[6] == y[6]) ==> a == b);
}

/// The edge kind of a name.
pub open spec fn named_edge(name: Seq<char>) -> Option<EdgeKind> {
    if exists|kind: EdgeKind| #[trigger] edge_name(kind) == name {
        Some(choose|kind: EdgeKind| #[trigger] edge_name(kind) == name)
    } else {
        None
    }
}

/// The name of an edge kind is read as that kind.
pub proof fn law_edge_names_are_read_back(kind: EdgeKind)
    ensures
        named_edge(edge_name(kind)) == Some(kind),
{
    let name = edge_name(kind);
    let read = choose|k: EdgeKind| #[trigger] edge_name(k) == name;
    assert(edge_name(kind) == name);
    law_edge_names_are_distinct(read, kind);
}

/// What a request is told that names no edge kind.
pub open spec fn unknown_edge(name: Seq<char>) -> Seq<char> {
    "Unknown edge kind: '"@ + name
        + "'. Valid kinds: calls, instantiates, implements, registers_callback, references, contains, imports, includes, exports, extends, typeof, returns, overrides, decorates, defines, argument, parameter, assigns, reads, writes, field_read, field_write"@
}

impl EdgeKind {
    /// The name of the edge kind.
    pub fn as_str(self) -> (name: &'static str)
        ensures
            name@ == edge_name(self),
    {
        match self {
            EdgeKind::Calls => "calls",
            EdgeKind::Instantiates => "instantiates",
            EdgeKind::Implements => "implements",
            EdgeKind::RegistersCallback => "registers_callback",
            EdgeKind::References => "references",
            EdgeKind::Contains => "contains",
            EdgeKind::Imports => "imports",
            EdgeKind::Includes => "includes",
            EdgeKind::Exports => "exports",
            EdgeKind::Extends => "extends",
            EdgeKind::TypeOf => "typeof",
            EdgeKind::Returns => "returns",
            EdgeKind::Overrides => "overrides",
            EdgeKind::Decorates => "decorates",
            EdgeKind::Defines => "defines",
            EdgeKind::Argument => "argument",
            EdgeKind::Parameter => "parameter",
            EdgeKind::Assigns => "assigns",
            EdgeKind::Reads => "reads",
            EdgeKind::Writes => "writes",
            EdgeKind::FieldRead => "field_read",
            EdgeKind::FieldWrite => "field_write",
        }
    }
}

fn read_edge_kind(s: &str) -> (kind: Option<EdgeKind>)
    ensures
        match kind {
            Some(k) => s@ == edge_name(k),
            None => forall|k: EdgeKind| s@ != #[trigger] edge_name(k),
        },
{
    if same_text(s, "calls") {
        Some(EdgeKind::Calls)
    } else if same_text(s, "instantiates") {
        Some(EdgeKind::Instantiates)
    } else if same_text(s, "implements") {
        Some(EdgeKind::Implements)
    } else if same_text(s, "registers_callback") {
        Some(EdgeKind::RegistersCallback)
    } else if same_text(s, "references") {
        Some(EdgeKind::References)
    } else if same_text(s, "contains") {
        Some(EdgeKind::Contains)
    } else if same_text(s, "imports") {
        Some(EdgeKind::Imports)
    } else if same_text(s, "includes") {
        Some(EdgeKind::Includes)
    } else if same_text(s, "exports") {
        Some(EdgeKind::Exports)
    } else if same_text(s, "extends") {
        Some(EdgeKind::Extends)
    } else if same_text(s, "typeof") {
        Some(EdgeKind::TypeOf)
    } else if same_text(s, "returns") {
        Some(EdgeKind::Returns)
    } else if same_text(s, "overrides") {
        Some(EdgeKind::Overrides)
    } else if same_text(s, "decorates") {
        Some(EdgeKind::Decorates)
    } else if same_text(s, "defines") {
        Some(EdgeKind::Defines)
    } else if same_text(s, "argument") {
        Some(EdgeKind::Argument)
    } else if same_text(s, "parameter") {
        Some(EdgeKind::Parameter)
    } else if same_text(s, "assigns") {
        Some(EdgeKind::Assigns)
    } else if same_text(s, "reads") {
        Some(EdgeKind::Reads)
    } else if same_text(s, "writes") {
        Some(EdgeKind::Writes)
    } else if same_text(s, "field_read") {
        Some(EdgeKind::FieldRead)
    } else if same_text(s, "field_write") {
        Some(EdgeKind::FieldWrite)
    } else {
        None
    }
}

/// The edge kind of a name.
pub fn parse_edge_kind(s: &str) -> (kind: Result<EdgeKind, String>)
    ensures
        match kind {
            Ok(k) => named_edge(s@) == Some(k),
            Err(e) => named_edge(s@) is None && e@ == unknown_edge(s@),
        },
{
    match read_edge_kind(s) {
        Some(k) => {
            proof {
                assert(edge_name(k) == s@);
                let other = choose|kind: EdgeKind| #[trigger] edge_name(kind) == s@;
                law_edge_names_are_distinct(k, other);
            }
            Ok(k)
        },
        None => {
            let mut message = "Unknown edge kind: '".to_owned();
            message.append(s);
            message.append(
                "'. Valid kinds: calls, instantiates, implements, registers_callback, references, contains, imports, includes, exports, extends, typeof, returns, overrides, decorates, defines, argument, parameter, assigns, reads, writes, field_read, field_write",
            );
            Err(message)
        },
    }
}

/// Which edge kinds a request asks for.
pub enum KindFilter {
    /// It does not say.
    Default,
    /// All of them.
    All,
    /// The listed ones.
    Listed(Vec<EdgeKind>),
}

/// Which edge kinds a request asks for.
#[verifier::ext_equal]
pub enum FilterView {
    Default,
    All,
    Listed(Seq<EdgeKind>),
    Invalid(Seq<char>),
}

/// The string of a value; empty where it is none.
pub open spec fn text_or_blank(value: JsonView) -> Seq<char> {
    match value.text() {
        Some(text) => text,
        None => Seq::empty(),
    }
}

/// What a listed edge kind is, or why it is none.
pub open spec fn listed_kind(item: JsonView) -> Result<EdgeKind, Seq<char>> {
    if text_or_blank(item) == "*"@ {
        Err("'*' must be the only value in edge_kinds"@)
    } else {
        match named_edge(text_or_blank(item)) {
            Some(kind) => Ok(kind),
            None => Err(unknown_edge(text_or_blank(item))),
        }
    }
}

/// What a list of edge kinds is, or what is wrong with the first that is none.
pub open spec fn listed_kinds(items: Seq<JsonView>) -> Result<Seq<EdgeKind>, Seq<char>>
    decreases items.len(),
{
    if items.len() == 0 {
        Ok(Seq::empty())
    } else {
        match listed_kinds(items.drop_last()) {
            Ok(kinds) => match listed_kind(items.last()) {
                Ok(kind) => Ok(kinds.push(kind)),
                Err(message) => Err(message),
            },
            Err(message) => Err(message),
        }
    }
}

/// Which edge kinds the arguments ask for: without the field, or with nothing in
/// it, they do not say; an empty list or `*` alone stands for all.
pub open spec fn kind_filter(args: JsonView) -> FilterView {
    match args.field("edge_kinds"@) {
        None => FilterView::Default,
        Some(JsonView::Null) => FilterView::Default,
        Some(JsonView::Array(items)) => if items.len() == 0 || (items.len() == 1 && items[0].text()
            == Some("*"@)) {
            FilterView::All
        } else {
            match listed_kinds(items) {
                Ok(kinds) => FilterView::Listed(kinds),
                Err(message) => FilterView::Invalid(message),
            }
        },
        Some(_) => FilterView::Invalid("edge_kinds must be an array of strings"@),
    }
}

/// Whether a filter is the one that is asked for.
pub open spec fn reads_filter(asked: FilterView, filter: Result<KindFilter, String>) -> bool {
    match asked {
        FilterView::Default => filter matches Ok(f) && f is Default,
        FilterView::All => filter matches Ok(f) && f is All,
        FilterView::Listed(kinds) => filter matches Ok(KindFilter::Listed(list)) && list@ == kinds,
        FilterView::Invalid(message) => filter matches Err(e) && e@ == message,
    }
}

fn is_star(item: &Json) -> (yes: bool)
    ensures
        yes == (item@.text() == Some("*"@)),
{
    match item.as_str() {
        Some(text) => same_text(text, "*"),
        None => false,
    }
}

/// Which edge kinds the arguments ask for.
pub fn read_kind_filter(args: &Json) -> (filter: Result<KindFilter, String>)
    ensures
        reads_filter(kind_filter(args@), filter),
{
    let raw = match args.get("edge_kinds") {
        None => {
            return Ok(KindFilter::Default);
        },
        Some(raw) => raw,
    };
    match raw {
        Json::Null => {
            return Ok(KindFilter::Default);
        },
        _ => {},
    }
    let items = match raw.as_array() {
        Some(items) => items,
        None => {
            return Err("edge_kinds must be an array of strings".to_owned());
        },
    };
    let ghost all = items_view(items@);
    if items.len() == 0 {
        return Ok(KindFilter::All);
    }
    if items.len() == 1 && is_star(&items[0]) {
        return Ok(KindFilter::All);
    }
    let mut kinds: Vec<EdgeKind> = Vec::new();
    let mut i: usize = 0;
    while i < items.len()
        invariant
            i <= items@.len(),
            all == items_view(items@),
            args@.field("edge_kinds"@) == Some(JsonView::Array(all)),
            all.len() > 0,
            !(all.len() == 1 && all[0].text() == Some("*"@)),
            listed_kinds(all.take(i as int)) == Ok::<Seq<EdgeKind>, Seq<char>>(kinds@),
        decreases items@.len() - i,
    {
        proof {
            assert(all.take(i + 1).drop_last() =~= all.take(i as int));
            assert(all.take(i + 1).last() == items@[i as int]@);
        }
        let text = match items[i].as_str() {
            Some(text) => text,
            None => {
                proof {
                    reveal_strlit("");
                    assert(""@ =~= Seq::<char>::empty());
                }
                ""
            },
        };
        if same_text(text, "*") {
            proof {
                lemma_first_error(all, i + 1);
            }
            return Err("'*' must be the only value in edge_kinds".to_owned());
        }
        match parse_edge_kind(text) {
            Ok(kind) => {
                kinds.push(kind);
            },
            Err(message) => {
                proof {
                    lemma_first_error(all, i + 1);
                }
                return Err(message);
            },
        }
        i = i + 1;
    }
    proof {
        assert(all.take(i as int) =~= all);
    }
    Ok(KindFilter::Listed(kinds))
}

proof fn lemma_first_error(items: Seq<JsonView>, n: int)
    requires
        0 <= n <= items.len(),
        listed_kinds(items.take(n)) is Err,
    ensures
        listed_kinds(items) == listed_kinds(items.take(n)),
    decreases items.len() - n,
{
    if n < items.len() {
        assert(items.take(n + 1).drop_last() =~= items.take(n));
        lemma_first_error(items, n + 1);
    } else {
        assert(items.take(n) =~= items);
    }
}

/// The edge kinds of paths: relations along which control can pass.
pub open spec fn path_edges() -> Seq<EdgeKind> {
    seq![
        EdgeKind::Calls,
        EdgeKind::Instantiates,
        EdgeKind::Implements,
        EdgeKind::RegistersCallback,
    ]
}

/// The edge kinds of call graphs.
pub open spec fn call_edges() -> Seq<EdgeKind> {
    seq![EdgeKind::Calls, EdgeKind::Instantiates, EdgeKind::Implements]
}

/// The edge kinds of impact analysis.
pub open spec fn impact_edges() -> Seq<EdgeKind> {
    seq![
        EdgeKind::Calls,
        EdgeKind::Instantiates,
        EdgeKind::Implements,
        EdgeKind::RegistersCallback,
        EdgeKind::Imports,
        EdgeKind::Includes,
    ]
}

/// The edge kinds of call graphs.
pub fn default_call_edges() -> (kinds: Vec<EdgeKind>)
    ensures
        kinds@ == call_edges(),
{
    let mut kinds: Vec<EdgeKind> = Vec::new();
    kinds.push(EdgeKind::Calls);
    kinds.push(EdgeKind::Instantiates);
    kinds.push(EdgeKind::Implements);
    proof {
        assert(kinds@ =~= call_edges());
    }
    kinds
}

/// The edge kinds of paths.
pub fn default_path_edges() -> (kinds: Vec<EdgeKind>)
    ensures
        kinds@ == path_edges(),
{
    let mut kinds = default_call_edges();
    kinds.push(EdgeKind::RegistersCallback);
    proof {
        assert(kinds@ =~= path_edges());
    }
    kinds
}

/// The edge kinds of impact analysis.
pub fn default_impact_edges() -> (kinds: Vec<EdgeKind>)
    ensures
        kinds@ == impact_edges(),
{
    let mut kinds = default_path_edges();
    kinds.push(EdgeKind::Imports);
    kinds.push(EdgeKind::Includes);
    proof {
        assert(kinds@ =~= impact_edges());
    }
    kinds
}

/// The edge kinds of a path request: nothing stands for all of them.
pub open spec fn path_filter(args: JsonView) -> Result<Option<Seq<EdgeKind>>, Seq<char>> {
    match kind_filter(args) {
        FilterView::Default => Ok(Some(path_edges())),
        FilterView::All => Ok(None),
        FilterView::Listed(kinds) => Ok(Some(kinds)),
        FilterView::Invalid(message) => Err(message),
    }
}

/// The kinds of an optional list.
pub open spec fn kinds_view(kinds: Option<Vec<EdgeKind>>) -> Option<Seq<EdgeKind>> {
    match kinds {
        Some(list) => Some(list@),
        None => None,
    }
}

/// The edge kinds of a path request: nothing stands for all of them.
pub fn resolve_path_edge_kinds(args: &Json) -> (kinds: Result<Option<Vec<EdgeKind>>, String>)
    ensures
        match path_filter(args@) {
            Ok(asked) => kinds matches Ok(k) && kinds_view(k) == asked,
            Err(message) => kinds matches Err(e) && e@ == message,
        },
{
    match read_kind_filter(args) {
        Ok(KindFilter::Default) => Ok(Some(default_path_edges())),
        Ok(KindFilter::All) => Ok(None),
        Ok(KindFilter::Listed(kinds)) => Ok(Some(kinds)),
        Err(message) => Err(message),
    }
}

/// The edge kinds of a call graph request: an empty list stands for all of them.
pub open spec fn call_filter(args: JsonView) -> Result<Seq<EdgeKind>, Seq<char>> {
    match kind_filter(args) {
        FilterView::Default => Ok(call_edges()),
        FilterView::All => Ok(Seq::empty()),
        FilterView::Listed(kinds) => Ok(kinds),
        FilterView::Invalid(message) => Err(message),
    }
}

/// The edge kinds of a call graph request: an empty list stands for all of them.
pub fn resolve_call_edge_kinds(args: &Json) -> (kinds: Result<Vec<EdgeKind>, String>)
    ensures
        match call_filter(args@) {
            Ok(asked) => kinds matches Ok(k) && k@ == asked,
            Err(message) => kinds matches Err(e) && e@ == message,
        },
{
    match read_kind_filter(args) {
        Ok(KindFilter::Default) => Ok(default_call_edges()),
        Ok(KindFilter::All) => Ok(Vec::new()),
        Ok(KindFilter::Listed(kinds)) => Ok(kinds),
        Err(message) => Err(message),
    }
}

/// Whether an edge kind passes a filter; an empty filter lets all pass.
pub open spec fn edge_passes(kind: EdgeKind, allowed: Seq<EdgeKind>) -> bool {
    allowed.len() == 0 || allowed.contains(kind)
}

/// Whether an edge kind passes a filter; an empty filter lets all pass.
pub fn is_allowed_edge(kind: EdgeKind, allowed: &Vec<EdgeKind>) -> (passes: bool)
    ensures
        passes == edge_passes(kind, allowed@),
{
    if allowed.len() == 0 {
        return true;
    }
    let mut i: usize = 0;
    while i < allowed.len()
        invariant
            i <= allowed@.len(),
            allowed@.len() > 0,
            forall|j: int| 0 <= j < i ==> allowed@[j] != kind,
        decreases allowed@.len() - i,
    {
        if allowed[i] == kind {
            proof {
                assert(allowed@.contains(kind));
            }
            return true;
        }
        i = i + 1;
    }
    false
}

/// Asking for all edges lets every edge pass.
pub proof fn law_wildcard_passes_every_edge(args: JsonView, kind: EdgeKind)
    requires
        kind_filter(args) is All,
    ensures
        call_filter(args) matches Ok(kinds) && edge_passes(kind, kinds),
        path_filter(args) == Ok::<Option<Seq<EdgeKind>>, Seq<char>>(None),
{
}

/// The wildcard stands alone: a longer list that holds it is refused.
pub proof fn law_wildcard_stands_alone(args: JsonView, items: Seq<JsonView>, i: int)
    requires
        args.field("edge_kinds"@) == Some(JsonView::Array(items)),
        items.len() > 1,
        0 <= i < items.len(),
        items[i].text() == Some("*"@),
    ensures
        kind_filter(args) is Invalid,
{
    let prefix = items.take(i + 1);
    assert(prefix.last() == items[i]);
    assert(listed_kinds(prefix) is Err);
    lemma_first_error(items, i + 1);
}

/// A list of edge kinds is read where every element names a kind, and then as these kinds,
/// in order.
pub proof fn law_listed_kinds_are_those_named(items: Seq<JsonView>)
    ensures
        listed_kinds(items) matches Ok(kinds) ==> kinds.len() == items.len() && forall|i: int|
            0 <= i < items.len() ==> text_or_blank(#[trigger] items[i]) == edge_name(kinds[i]),
        listed_kinds(items) is Ok <==> forall|i: int|
            0 <= i < items.len() ==> text_or_blank(#[trigger] items[i]) != "*"@ && named_edge(
                text_or_blank(items[i]),
            ) is Some,
    decreases items.len(),
{
    if items.len() > 0 {
        let rest = items.drop_last();
        law_listed_kinds_are_those_named(rest);
        assert forall|i: int| 0 <= i < rest.len() implies #[trigger] rest[i] == items[i] by {}
        if listed_kinds(items) is Ok {
            let kinds = listed_kinds(items)->Ok_0;
            let before = listed_kinds(rest)->Ok_0;
            assert forall|i: int| 0 <= i < items.len() implies text_or_blank(#[trigger] items[i])
                == edge_name(kinds[i]) by {
                if i < rest.len() {
                    assert(rest[i] == items[i]);
                    assert(kinds[i] == before[i]);
                }
            }
            assert forall|i: int| 0 <= i < items.len() implies text_or_blank(#[trigger] items[i])
                != "*"@ && named_edge(text_or_blank(items[i])) is Some by {
                if i < rest.len() {
                    assert(rest[i] == items[i]);
                }
            }
        } else if forall|i: int|
            0 <= i < items.len() ==> text_or_blank(#[trigger] items[i]) != "*"@ && named_edge(
                text_or_blank(items[i]),
            ) is Some {
            assert(text_or_blank(items[items.len() - 1]) != "*"@);
        }
    }
}

/// A call graph follows only relations that paths follow, and paths only those along which
/// a change has an impact; each is named once.
pub proof fn law_defaults_are_nested(kind: EdgeKind)
    ensures
        call_edges().contains(kind) ==> path_edges().contains(kind),
        path_edges().contains(kind) ==> impact_edges().contains(kind),
        call_edges().contains(EdgeKind::Calls),
        impact_edges().no_duplicates(),
        path_edges().no_duplicates(),
        call_edges().no_duplicates(),
{
    assert(impact_edges()[0] == EdgeKind::Calls && impact_edges()[1] == EdgeKind::Instantiates
        && impact_edges()[2] == EdgeKind::Implements && impact_edges()[3]
        == EdgeKind::RegistersCallback);
    assert(path_edges()[0] == EdgeKind::Calls && path_edges()[1] == EdgeKind::Instantiates
        && path_edges()[2] == EdgeKind::Implements);
    assert(call_edges()[0] == EdgeKind::Calls);
}

/// All edges are asked for by an empty list or a star alone, and the defaults by nothing;
/// what is no list is refused.
pub proof fn law_filters_are_read(args: JsonView, items: Seq<JsonView>)
    ensures
        kind_filter(args) is Default <==> (args.field("edge_kinds"@) matches Some(value) ==> value
            is Null),
        args.field("edge_kinds"@) == Some(JsonView::Array(items)) ==> (kind_filter(args) is All
            <==> items.len() == 0 || (items.len() == 1 && items[0].text() == Some("*"@))),
        args.field("edge_kinds"@) == Some(JsonView::Array(items)) && !(kind_filter(args) is All)
            ==> (kind_filter(args) is Listed <==> listed_kinds(items) is Ok),
        (args.field("edge_kinds"@) matches Some(value) && !(value is Null) && !(value is Array))
            ==> kind_filter(args) is Invalid,
{
}

/// A filter is read as what is asked for.
pub proof fn law_filters_are_read_as_asked(
    asked: FilterView,
    filter: Result<KindFilter, String>,
)
    requires
        reads_filter(asked, filter),
    ensures
        filter is Err <==> asked is Invalid,
        filter matches Err(e) ==> asked == FilterView::Invalid(e@),
        filter matches Ok(KindFilter::Listed(kinds)) ==> asked == FilterView::Listed(kinds@),
        filter matches Ok(KindFilter::All) ==> asked is All,
        filter matches Ok(KindFilter::Default) ==> asked is Default,
{
}

} // verus!
