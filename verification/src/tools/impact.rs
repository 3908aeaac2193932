//! Impact analysis: what a change of a symbol reaches, grouped by file.

use vstd::prelude::*;
use vstd::string::*;

use crate::json::{items_view, no_fields, Json, JsonObject, JsonView};
use crate::protocol::{text_array, texts_to_json};
use crate::text::{same_text, strings_view};
use crate::tools::args::{flag_arg, flag_of, number_arg, number_of};
use crate::tools::calls::{checked_symbol, symbol_refusal};
use crate::tools::edges::{
    default_impact_edges, edge_name, impact_edges, kind_filter, read_kind_filter, reads_filter,
    EdgeKind, FilterView, KindFilter,
};
use crate::tools::path::TraversalDirection;
use crate::tools::symbols::SymbolInput;

verus! {

/// How far an impact analysis goes.
pub const MAX_IMPACT_DEPTH: u64 = 5;

/// How many reached symbols are listed.
pub const MAX_SHOWN_IMPACTS: usize = 30;

/// How many symbols a traversal reaches at most.
pub const IMPACT_BFS_LIMIT: usize = 1000;

/// What an impact request asks for.
pub struct ImpactPlan {
    pub input: SymbolInput,
    pub depth: u64,
    pub semantic: bool,
    pub include_children: bool,
    pub direction: TraversalDirection,
    /// The direction, as the request writes it.
    pub direction_name: String,
    pub edge_kinds: KindFilter,
}

impl ImpactPlan {
    /// How far the traversal goes.
    pub open spec fn reach(self) -> u64 {
        if self.depth < MAX_IMPACT_DEPTH {
            self.depth
        } else {
            MAX_IMPACT_DEPTH
        }
    }

    /// How far the traversal goes.
    pub fn search_depth(&self) -> (depth: u64)
        ensures
            depth == self.reach(),
    {
        if self.depth < MAX_IMPACT_DEPTH {
            self.depth
        } else {
            MAX_IMPACT_DEPTH
        }
    }
}

/// The direction that an impact request writes: forward, unless it names one.
pub open spec fn impact_direction_name(args: JsonView) -> Seq<char> {
    match args.text_field("direction"@) {
        Some(d) => d,
        None => "outgoing"@,
    }
}

/// The direction with a name.
pub open spec fn named_direction(name: Seq<char>) -> Option<TraversalDirection> {
    if name == "outgoing"@ {
        Some(TraversalDirection::Outgoing)
    } else if name == "incoming"@ {
        Some(TraversalDirection::Incoming)
    } else if name == "both"@ {
        Some(TraversalDirection::Both)
    } else {
        None
    }
}

fn find_direction(name: &str) -> (direction: Option<TraversalDirection>)
    ensures
        direction == named_direction(name@),
{
    if same_text(name, "outgoing") {
        Some(TraversalDirection::Outgoing)
    } else if same_text(name, "incoming") {
        Some(TraversalDirection::Incoming)
    } else if same_text(name, "both") {
        Some(TraversalDirection::Both)
    } else {
        None
    }
}

/// Why an impact request is refused.
pub open spec fn impact_refusal(
    args: JsonView,
    input: Result<SymbolInput, String>,
    max_name_length: nat,
) -> Option<Seq<char>> {
    match symbol_refusal(input, max_name_length) {
        Some(e) => Some(e),
        None => if named_direction(impact_direction_name(args)) is None {
            Some(
                "direction must be 'outgoing', 'incoming', or 'both', got: "@
                    + impact_direction_name(args),
            )
        } else {
            match kind_filter(args) {
                FilterView::Invalid(e) => Some(e),
                _ => None,
            }
        },
    }
}

/// Reads an impact request.
pub fn plan_impact(
    args: &Json,
    input: Result<SymbolInput, String>,
    max_name_length: usize,
) -> (plan: Result<ImpactPlan, String>)
    ensures
        match plan {
            Ok(p) => input == Ok::<SymbolInput, String>(p.input) && impact_refusal(
                args@,
                input,
                max_name_length as nat,
            ) is None && p.depth == number_of(args@, "depth"@, 3) && p.semantic == flag_of(
                args@,
                "semantic"@,
                false,
            ) && p.include_children == flag_of(args@, "include_children"@, false)
                && p.direction_name@ == impact_direction_name(args@) && named_direction(
                p.direction_name@,
            ) == Some(p.direction) && reads_filter(
                kind_filter(args@),
                Ok::<KindFilter, String>(p.edge_kinds),
            ),
            Err(e) => impact_refusal(args@, input, max_name_length as nat) == Some(e@),
        },
{
    let symbol = match checked_symbol(input, max_name_length) {
        Ok(i) => i,
        Err(e) => return Err(e),
    };
    let direction_name = match args.get_str("direction") {
        Some(d) => d.to_owned(),
        None => "outgoing".to_owned(),
    };
    let direction = match find_direction(direction_name.as_str()) {
        Some(d) => d,
        None => {
            let mut message =
                "direction must be 'outgoing', 'incoming', or 'both', got: ".to_owned();
            message.append(direction_name.as_str());
            return Err(message);
        },
    };
    match read_kind_filter(args) {
        Ok(edge_kinds) => Ok(
            ImpactPlan {
                input: symbol,
                depth: number_arg(args, "depth", 3),
                semantic: flag_arg(args, "semantic", false),
                include_children: flag_arg(args, "include_children", false),
                direction,
                direction_name,
                edge_kinds,
            },
        ),
        Err(e) => Err(e),
    }
}

/// A symbol that a change reaches.
pub struct ImpactNode {
    /// The identifier of the file.
    pub file_id: String,
    /// The path of the file.
    pub file: String,
    pub name: String,
    pub qualified_name: String,
    pub kind_name: String,
    pub line: u32,
}

/// A reached symbol as it is listed.
pub open spec fn impact_view(node: ImpactNode) -> JsonView {
    JsonView::Object(
        no_fields().insert("name"@, JsonView::Str(node.name@)).insert(
            "qualified_name"@,
            JsonView::Str(node.qualified_name@),
        ).insert("kind"@, JsonView::Str(node.kind_name@)).insert(
            "line"@,
            JsonView::Unsigned(node.line as u64),
        ),
    )
}

/// The reached symbols of a file.
#[verifier::ext_equal]
pub struct GroupView {
    pub file_id: Seq<char>,
    pub file: Seq<char>,
    pub symbols: Seq<JsonView>,
}

/// The place of the group of a file.
pub open spec fn group_place(groups: Seq<GroupView>, file_id: Seq<char>, from: int) -> Option<int>
    decreases groups.len() - from,
{
    if from < 0 || from >= groups.len() {
        None
    } else if groups[from].file_id == file_id {
        Some(from)
    } else {
        group_place(groups, file_id, from + 1)
    }
}

/// Adds a symbol to the group of its file.
pub open spec fn with_node(groups: Seq<GroupView>, node: ImpactNode) -> Seq<GroupView> {
    match group_place(groups, node.file_id@, 0) {
        Some(at) => groups.update(
            at,
            (GroupView { symbols: groups[at].symbols.push(impact_view(node)), ..groups[at] }),
        ),
        None => groups.push(
            (GroupView {
                file_id: node.file_id@,
                file: node.file@,
                symbols: seq![impact_view(node)],
            }),
        ),
    }
}

/// Symbols in groups by file, in the order in which files and symbols are reached.
pub open spec fn grouped(nodes: Seq<ImpactNode>) -> Seq<GroupView>
    decreases nodes.len(),
{
    if nodes.len() == 0 {
        Seq::empty()
    } else {
        with_node(grouped(nodes.drop_last()), nodes.last())
    }
}

/// The symbols that are listed.
pub open spec fn shown_nodes(nodes: Seq<ImpactNode>) -> Seq<ImpactNode> {
    if nodes.len() < MAX_SHOWN_IMPACTS {
        nodes
    } else {
        nodes.take(MAX_SHOWN_IMPACTS as int)
    }
}

/// Groups as they are listed.
pub open spec fn groups_json(groups: Seq<GroupView>) -> JsonView {
    JsonView::Array(
        Seq::new(
            groups.len(),
            |i: int|
                JsonView::Object(
                    no_fields().insert("file"@, JsonView::Str(groups[i].file)).insert(
                        "symbols"@,
                        JsonView::Array(groups[i].symbols),
                    ),
                ),
        ),
    )
}

struct FileGroup {
    file_id: String,
    file: String,
    symbols: Vec<Json>,
}

impl FileGroup {
    spec fn view(self) -> GroupView {
        GroupView {
            file_id: self.file_id@,
            file: self.file@,
            symbols: items_view(self.symbols@),
        }
    }
}

spec fn groups_view(groups: Seq<FileGroup>) -> Seq<GroupView> {
    Seq::new(groups.len(), |i: int| groups[i]@)
}

proof fn lemma_group_place(
    groups: Seq<GroupView>,
    file_id: Seq<char>,
    from: int,
    place: Option<int>,
)
    requires
        0 <= from <= groups.len(),
        match place {
            Some(i) => from <= i < groups.len() && groups[i].file_id == file_id && forall|j: int|
                from <= j < i ==> (#[trigger] groups[j]).file_id != file_id,
            None => forall|j: int|
                from <= j < groups.len() ==> (#[trigger] groups[j]).file_id != file_id,
        },
    ensures
        group_place(groups, file_id, from) == place,
    decreases groups.len() - from,
{
    if from < groups.len() && groups[from].file_id != file_id {
        lemma_group_place(groups, file_id, from + 1, place);
    }
}

fn find_group(groups: &Vec<FileGroup>, file_id: &str) -> (place: Option<usize>)
    ensures
        match place {
            Some(i) => i < groups@.len() && group_place(groups_view(groups@), file_id@, 0) == Some(
                i as int,
            ),
            None => group_place(groups_view(groups@), file_id@, 0) is None,
        },
{
    let mut i: usize = 0;
    while i < groups.len()
        invariant
            i <= groups@.len(),
            forall|j: int|
                0 <= j < i ==> (#[trigger] groups_view(groups@)[j]).file_id != file_id@,
        decreases groups@.len() - i,
    {
        if same_text(groups[i].file_id.as_str(), file_id) {
            proof {
                lemma_group_place(groups_view(groups@), file_id@, 0, Some(i as int));
            }
            return Some(i);
        }
        i = i + 1;
    }
    proof {
        lemma_group_place(groups_view(groups@), file_id@, 0, None);
    }
    None
}

fn impact_to_json(node: &ImpactNode) -> (json: Json)
    ensures
        json@ == impact_view(*node),
{
    let mut object = JsonObject::new();
    object.put("name", Json::text(node.name.as_str()));
    object.put("qualified_name", Json::text(node.qualified_name.as_str()));
    object.put("kind", Json::text(node.kind_name.as_str()));
    object.put("line", Json::Unsigned(node.line as u64));
    Json::Object(object)
}

fn add_node(groups: &mut Vec<FileGroup>, node: &ImpactNode)
    ensures
        groups_view(final(groups)@) == with_node(groups_view(old(groups)@), *node),
{
    let ghost before = groups@;
    match find_group(groups, node.file_id.as_str()) {
        Some(at) => {
            let group = groups.remove(at);
            let mut symbols = group.symbols;
            let ghost listed = symbols@;
            symbols.push(impact_to_json(node));
            proof {
                assert(items_view(symbols@) =~= items_view(listed).push(impact_view(*node)));
            }
            groups.insert(at, FileGroup { file_id: group.file_id, file: group.file, symbols });
            proof {
                assert(groups_view(groups@) =~= with_node(groups_view(before), *node));
            }
        },
        None => {
            let mut symbols: Vec<Json> = Vec::new();
            symbols.push(impact_to_json(node));
            proof {
                assert(items_view(symbols@) =~= seq![impact_view(*node)]);
            }
            groups.push(
                FileGroup { file_id: node.file_id.clone(), file: node.file.clone(), symbols },
            );
            proof {
                assert(groups_view(groups@) =~= with_node(groups_view(before), *node));
            }
        },
    }
}

fn group_nodes(nodes: &Vec<ImpactNode>, count: usize) -> (groups: Vec<FileGroup>)
    requires
        count <= nodes@.len(),
    ensures
        groups_view(groups@) == grouped(nodes@.take(count as int)),
{
    let mut groups: Vec<FileGroup> = Vec::new();
    let mut i: usize = 0;
    proof {
        assert(nodes@.take(0) =~= Seq::empty());
        assert(groups_view(groups@) =~= Seq::empty());
    }
    while i < count
        invariant
            i <= count <= nodes@.len(),
            groups_view(groups@) == grouped(nodes@.take(i as int)),
        decreases count - i,
    {
        add_node(&mut groups, &nodes[i]);
        proof {
            assert(nodes@.take(i + 1).drop_last() =~= nodes@.take(i as int));
        }
        i = i + 1;
    }
    groups
}

fn groups_to_json(groups: Vec<FileGroup>) -> (json: Json)
    ensures
        json@ == groups_json(groups_view(groups@)),
{
    let mut items: Vec<Json> = Vec::new();
    let ghost all = groups_view(groups@);
    let mut i: usize = 0;
    while i < groups.len()
        invariant
            i <= groups@.len(),
            all == groups_view(groups@),
            items@.len() == i,
            forall|j: int|
                0 <= j < i ==> (#[trigger] items@[j])@ == JsonView::Object(
                    no_fields().insert("file"@, JsonView::Str(all[j].file)).insert(
                        "symbols"@,
                        JsonView::Array(all[j].symbols),
                    ),
                ),
        decreases groups@.len() - i,
    {
        let mut symbols: Vec<Json> = Vec::new();
        let mut k: usize = 0;
        while k < groups[i].symbols.len()
            invariant
                i < groups@.len(),
                k <= groups@[i as int].symbols@.len(),
                symbols@.len() == k,
                forall|j: int|
                    0 <= j < k ==> (#[trigger] symbols@[j])@ == groups@[i as int].symbols@[j]@,
            decreases groups@[i as int].symbols@.len() - k,
        {
            symbols.push(groups[i].symbols[k].clone());
            k = k + 1;
        }
        proof {
            assert(items_view(symbols@) =~= items_view(groups@[i as int].symbols@));
        }
        let mut object = JsonObject::new();
        object.put("file", Json::text(groups[i].file.as_str()));
        object.put("symbols", Json::Array(symbols));
        items.push(Json::Object(object));
        i = i + 1;
    }
    proof {
        assert(groups_json(all) matches JsonView::Array(listed) && items_view(items@) =~= listed);
    }
    Json::Array(items)
}

/// The names of edge kinds.
pub open spec fn edge_names(kinds: Seq<EdgeKind>) -> Seq<Seq<char>> {
    Seq::new(kinds.len(), |i: int| edge_name(kinds[i]))
}

/// The names of the edge kinds that are followed.
pub open spec fn kinds_used(filter: KindFilter) -> Seq<Seq<char>> {
    match filter {
        KindFilter::Default => edge_names(impact_edges()),
        KindFilter::All => seq!["*"@],
        KindFilter::Listed(kinds) => edge_names(kinds@),
    }
}

fn names_of(kinds: &Vec<EdgeKind>) -> (names: Vec<String>)
    ensures
        strings_view(names@) == edge_names(kinds@),
{
    let mut names: Vec<String> = Vec::new();
    let mut i: usize = 0;
    while i < kinds.len()
        invariant
            i <= kinds@.len(),
            names@.len() == i,
            forall|j: int| 0 <= j < i ==> (#[trigger] names@[j])@ == edge_name(kinds@[j]),
        decreases kinds@.len() - i,
    {
        names.push(kinds[i].as_str().to_owned());
        i = i + 1;
    }
    proof {
        assert(strings_view(names@) =~= edge_names(kinds@));
    }
    names
}

fn names_used(filter: &KindFilter) -> (names: Vec<String>)
    ensures
        strings_view(names@) == kinds_used(*filter),
{
    match filter {
        KindFilter::Default => names_of(&default_impact_edges()),
        KindFilter::All => {
            let mut names: Vec<String> = Vec::new();
            names.push("*".to_owned());
            proof {
                assert(strings_view(names@) =~= seq!["*"@]);
            }
            names
        },
        KindFilter::Listed(kinds) => names_of(kinds),
    }
}

/// Whether module edges are among the names.
pub open spec fn follows_modules(names: Seq<Seq<char>>) -> bool {
    names.contains("imports"@) || names.contains("includes"@)
}

fn check_modules(names: &Vec<String>) -> (found: bool)
    ensures
        found == follows_modules(strings_view(names@)),
{
    let mut i: usize = 0;
    while i < names.len()
        invariant
            i <= names@.len(),
            forall|j: int|
                0 <= j < i ==> (#[trigger] strings_view(names@)[j]) != "imports"@ && strings_view(
                    names@,
                )[j] != "includes"@,
        decreases names@.len() - i,
    {
        if same_text(names[i].as_str(), "imports") || same_text(names[i].as_str(), "includes") {
            proof {
                assert(strings_view(names@)[i as int] == names@[i as int]@);
            }
            return true;
        }
        i = i + 1;
    }
    false
}

/// The response to an impact request.
pub open spec fn impact_fields(
    qname: Seq<char>,
    plan: ImpactPlan,
    nodes: Seq<ImpactNode>,
    meta: JsonView,
    semantic: Option<JsonView>,
    full_index: bool,
) -> Map<Seq<char>, JsonView> {
    let shown = shown_nodes(nodes).len();
    let base = no_fields().insert("symbol"@, JsonView::Str(qname)).insert(
        "max_depth"@,
        JsonView::Unsigned(plan.depth),
    ).insert("total_reached"@, JsonView::Unsigned(nodes.len() as u64)).insert(
        "shown"@,
        JsonView::Unsigned(shown as u64),
    ).insert(
        "truncated"@,
        JsonView::Bool(nodes.len() > shown || nodes.len() >= IMPACT_BFS_LIMIT),
    ).insert("bfs_limit"@, JsonView::Unsigned(1000)).insert(
        "file_groups"@,
        groups_json(grouped(shown_nodes(nodes))),
    ).insert("edge_kinds_used"@, text_array(kinds_used(plan.edge_kinds))).insert(
        "include_children"@,
        JsonView::Bool(plan.include_children),
    ).insert("direction"@, JsonView::Str(plan.direction_name@)).insert("resolution"@, meta);
    let analysed = match semantic {
        Some(s) => base.insert("semantic_impact"@, s),
        None => base,
    };
    let noted = if full_index {
        analysed
    } else {
        analysed.insert(
            "capability_note"@,
            JsonView::Str(
                "focus mode: impact is bounded by the current focus closure; background refinement may discover additional affected symbols."@,
            ),
        ).insert(
            "note"@,
            JsonView::Str(
                "Impact is complete only within the current focus closure. Use CLI `atlas index --analysis full` only when you want an explicit project-wide cache."@,
            ),
        )
    };
    if plan.direction is Both && follows_modules(kinds_used(plan.edge_kinds)) {
        noted.insert(
            "noise_note"@,
            JsonView::Str(
                "Bidirectional traversal with imports/includes may include unrelated consumer modules. Consider direction='outgoing' for narrower impact radius."@,
            ),
        )
    } else {
        noted
    }
}

/// The response to an impact request, for the symbols that are reached.
pub fn impact_body(
    qname: &str,
    plan: &ImpactPlan,
    nodes: &Vec<ImpactNode>,
    meta: &Json,
    semantic: &Option<Json>,
    full_index: bool,
) -> (body: Json)
    ensures
        body@ == JsonView::Object(
            impact_fields(
                qname@,
                *plan,
                nodes@,
                meta@,
                crate::json::json_view(*semantic),
                full_index,
            ),
        ),
{
    let total: usize = nodes.len();
    let shown: usize = if total < MAX_SHOWN_IMPACTS {
        total
    } else {
        MAX_SHOWN_IMPACTS
    };
    proof {
        assert(nodes@.take(shown as int) =~= shown_nodes(nodes@));
    }
    let groups = group_nodes(nodes, shown);
    let names = names_used(&plan.edge_kinds);
    let mut object = JsonObject::new();
    object.put("symbol", Json::text(qname));
    object.put("max_depth", Json::Unsigned(plan.depth));
    object.put("total_reached", Json::count(total));
    object.put("shown", Json::count(shown));
    object.put("truncated", Json::Bool(total > shown || total >= IMPACT_BFS_LIMIT));
    object.put("bfs_limit", Json::count(IMPACT_BFS_LIMIT));
    object.put("file_groups", groups_to_json(groups));
    object.put("edge_kinds_used", texts_to_json(&names));
    object.put("include_children", Json::Bool(plan.include_children));
    object.put("direction", Json::text(plan.direction_name.as_str()));
    object.put("resolution", meta.clone());
    match semantic {
        Some(s) => {
            object.put("semantic_impact", s.clone());
        },
        None => {},
    }
    if !full_index {
        object.put(
            "capability_note",
            Json::text(
                "focus mode: impact is bounded by the current focus closure; background refinement may discover additional affected symbols.",
            ),
        );
        object.put(
            "note",
            Json::text(
                "Impact is complete only within the current focus closure. Use CLI `atlas index --analysis full` only when you want an explicit project-wide cache.",
            ),
        );
    }
    let both = match plan.direction {
        TraversalDirection::Both => true,
        _ => false,
    };
    if both && check_modules(&names) {
        object.put(
            "noise_note",
            Json::text(
                "Bidirectional traversal with imports/includes may include unrelated consumer modules. Consider direction='outgoing' for narrower impact radius.",
            ),
        );
    }
    Json::Object(object)
}

/// How many symbols are in some groups.
pub open spec fn grouped_count(groups: Seq<GroupView>) -> nat
    decreases groups.len(),
{
    if groups.len() == 0 {
        0
    } else {
        grouped_count(groups.drop_last()) + groups.last().symbols.len()
    }
}

proof fn lemma_place_is_first(groups: Seq<GroupView>, file_id: Seq<char>, from: int)
    requires
        0 <= from <= groups.len(),
    ensures
        match group_place(groups, file_id, from) {
            Some(i) => from <= i < groups.len() && groups[i].file_id == file_id,
            None => forall|j: int|
                from <= j < groups.len() ==> (#[trigger] groups[j]).file_id != file_id,
        },
    decreases groups.len() - from,
{
    if from < groups.len() && groups[from].file_id != file_id {
        lemma_place_is_first(groups, file_id, from + 1);
    }
}

proof fn lemma_count_of_update(groups: Seq<GroupView>, at: int, group: GroupView)
    requires
        0 <= at < groups.len(),
    ensures
        grouped_count(groups.update(at, group)) == grouped_count(groups) - groups[at].symbols.len()
            + group.symbols.len(),
    decreases groups.len(),
{
    if at < groups.len() - 1 {
        lemma_count_of_update(groups.drop_last(), at, group);
        assert(groups.update(at, group).drop_last() =~= groups.drop_last().update(at, group));
    } else {
        assert(groups.update(at, group).drop_last() =~= groups.drop_last());
    }
}

/// Grouping loses no symbol, and makes one group of each file.
pub proof fn law_grouping_keeps_every_symbol(nodes: Seq<ImpactNode>)
    ensures
        grouped_count(grouped(nodes)) == nodes.len(),
        forall|i: int, j: int|
            0 <= i < j < grouped(nodes).len() ==> (#[trigger] grouped(nodes)[i]).file_id != (
            #[trigger] grouped(nodes)[j]).file_id,
    decreases nodes.len(),
{
    if nodes.len() > 0 {
        law_grouping_keeps_every_symbol(nodes.drop_last());
        let before = grouped(nodes.drop_last());
        let node = nodes.last();
        let after = grouped(nodes);
        lemma_place_is_first(before, node.file_id@, 0);
        match group_place(before, node.file_id@, 0) {
            Some(at) => {
                let group = GroupView {
                    symbols: before[at].symbols.push(impact_view(node)),
                    ..before[at]
                };
                lemma_count_of_update(before, at, group);
                assert forall|i: int, j: int| 0 <= i < j < after.len() implies (
                #[trigger] after[i]).file_id != (#[trigger] after[j]).file_id by {
                    assert(before[i].file_id != before[j].file_id);
                    assert(after[i].file_id == before[i].file_id);
                    assert(after[j].file_id == before[j].file_id);
                }
            },
            None => {
                assert(after.drop_last() =~= before);
                assert forall|i: int, j: int| 0 <= i < j < after.len() implies (
                #[trigger] after[i]).file_id != (#[trigger] after[j]).file_id by {
                    assert(after[i] == before[i]);
                    if j < before.len() {
                        assert(after[j] == before[j]);
                    }
                }
            },
        }
    }
}

/// However many symbols are reached, few are listed; all, where there are few.
pub proof fn law_impact_is_bounded(nodes: Seq<ImpactNode>)
    ensures
        shown_nodes(nodes).len() <= MAX_SHOWN_IMPACTS,
        shown_nodes(nodes).len() <= nodes.len(),
        nodes.len() <= MAX_SHOWN_IMPACTS ==> shown_nodes(nodes) == nodes,
{
    assert(nodes.take(nodes.len() as int) =~= nodes);
}

/// Whether a listed value tells a reached symbol.
pub open spec fn tells_symbol(listed: JsonView, node: ImpactNode) -> bool {
    &&& listed.text_field("name"@) == Some(node.name@)
    &&& listed.text_field("qualified_name"@) == Some(node.qualified_name@)
    &&& listed.text_field("kind"@) == Some(node.kind_name@)
    &&& listed.unsigned_field("line"@) == Some(node.line as u64)
}

proof fn lemma_symbol_is_told(node: ImpactNode)
    ensures
        tells_symbol(impact_view(node), node),
{
    reveal_strlit("name");
    reveal_strlit("qualified_name");
    reveal_strlit("kind");
    reveal_strlit("line");
    assert("name"@[0] != "kind"@[0] && "name"@[0] != "line"@[0] && "kind"@[0] != "line"@[0]);
}

/// The reached symbols of a file, in order.
pub open spec fn nodes_of_file(nodes: Seq<ImpactNode>, file_id: Seq<char>) -> Seq<ImpactNode> {
    nodes.filter(|node: ImpactNode| node.file_id@ == file_id)
}

/// Whether a group lists the reached symbols of its file, all of them and in order, under
/// the path that the first of them has.
pub open spec fn groups_its_file(group: GroupView, nodes: Seq<ImpactNode>) -> bool {
    let own = nodes_of_file(nodes, group.file_id);
    &&& own.len() > 0
    &&& group.file == own[0].file@
    &&& group.symbols.len() == own.len()
    &&& forall|i: int| 0 <= i < own.len() ==> tells_symbol(#[trigger] group.symbols[i], own[i])
}

proof fn lemma_filter_goes_on(nodes: Seq<ImpactNode>, file_id: Seq<char>)
    requires
        nodes.len() > 0,
    ensures
        nodes_of_file(nodes, file_id) == if nodes.last().file_id@ == file_id {
            nodes_of_file(nodes.drop_last(), file_id).push(nodes.last())
        } else {
            nodes_of_file(nodes.drop_last(), file_id)
        },
{
    reveal(Seq::filter);
}

/// Each group lists the reached symbols that are in its file, all of them, in order and no
/// others, under the path of that file; and the file of every reached symbol has a group.
pub proof fn law_groups_hold_the_symbols_of_their_files(nodes: Seq<ImpactNode>)
    ensures
        forall|g: int|
            0 <= g < grouped(nodes).len() ==> groups_its_file(#[trigger] grouped(nodes)[g], nodes),
        forall|i: int|
            0 <= i < nodes.len() ==> exists|g: int|
                0 <= g < grouped(nodes).len() && (#[trigger] grouped(nodes)[g]).file_id == (
                #[trigger] nodes[i]).file_id@,
    decreases nodes.len(), 0int,
{
    let after = grouped(nodes);
    if nodes.len() > 0 {
        let fewer = nodes.drop_last();
        let before = grouped(fewer);
        let node = nodes.last();
        law_groups_hold_the_symbols_of_their_files(fewer);
        law_grouping_keeps_every_symbol(fewer);
        lemma_place_is_first(before, node.file_id@, 0);
        lemma_symbol_is_told(node);
        match group_place(before, node.file_id@, 0) {
            Some(at) => {
                assert forall|g: int| 0 <= g < after.len() implies groups_its_file(
                    #[trigger] after[g],
                    nodes,
                ) by {
                    assert(groups_its_file(before[g], fewer));
                    lemma_filter_goes_on(nodes, before[g].file_id);
                    if g != at {
                        assert(before[g].file_id != before[at].file_id) by {
                            if g < at {
                                assert(before[g].file_id != before[at].file_id);
                            } else {
                                assert(before[at].file_id != before[g].file_id);
                            }
                        }
                    } else {
                        let own = nodes_of_file(nodes, after[g].file_id);
                        assert forall|i: int| 0 <= i < own.len() implies tells_symbol(
                            #[trigger] after[g].symbols[i],
                            own[i],
                        ) by {
                            if i < before[g].symbols.len() {
                                assert(after[g].symbols[i] == before[g].symbols[i]);
                            }
                        }
                    }
                }
            },
            None => {
                assert forall|g: int| 0 <= g < after.len() implies groups_its_file(
                    #[trigger] after[g],
                    nodes,
                ) by {
                    lemma_filter_goes_on(nodes, after[g].file_id);
                    if g < before.len() {
                        assert(after[g] == before[g]);
                    } else {
                        lemma_no_group_no_nodes(fewer, node.file_id@);
                    }
                }
            },
        }
        assert forall|i: int| 0 <= i < nodes.len() implies exists|g: int|
            0 <= g < after.len() && (#[trigger] after[g]).file_id == (
            #[trigger] nodes[i]).file_id@ by {
            if i < fewer.len() {
                assert(fewer[i] == nodes[i]);
                let g = choose|g: int|
                    0 <= g < before.len() && (#[trigger] before[g]).file_id == nodes[i].file_id@;
                assert(after[g].file_id == nodes[i].file_id@);
            } else {
                match group_place(before, node.file_id@, 0) {
                    Some(at) => assert(after[at].file_id == nodes[i].file_id@),
                    None => assert(after[before.len() as int].file_id == nodes[i].file_id@),
                }
            }
        }
    }
}

proof fn lemma_no_group_no_nodes(nodes: Seq<ImpactNode>, file_id: Seq<char>)
    requires
        forall|g: int|
            0 <= g < grouped(nodes).len() ==> (#[trigger] grouped(nodes)[g]).file_id != file_id,
    ensures
        nodes_of_file(nodes, file_id).len() == 0,
    decreases nodes.len(), 1int,
{
    law_groups_hold_the_symbols_of_their_files(nodes);
    assert forall|i: int| 0 <= i < nodes.len() implies (#[trigger] nodes[i]).file_id@ != file_id by {
        let g = choose|g: int|
            0 <= g < grouped(nodes).len() && (#[trigger] grouped(nodes)[g]).file_id
                == nodes[i].file_id@;
    }
    lemma_filter_of_others(nodes, file_id);
}

proof fn lemma_filter_of_others(nodes: Seq<ImpactNode>, file_id: Seq<char>)
    requires
        forall|i: int| 0 <= i < nodes.len() ==> (#[trigger] nodes[i]).file_id@ != file_id,
    ensures
        nodes_of_file(nodes, file_id).len() == 0,
    decreases nodes.len(),
{
    reveal(Seq::filter);
    if nodes.len() > 0 {
        lemma_filter_goes_on(nodes, file_id);
        assert(nodes[nodes.len() - 1].file_id@ != file_id);
        assert forall|i: int| 0 <= i < nodes.drop_last().len() implies (
        #[trigger] nodes.drop_last()[i]).file_id@ != file_id by {
            assert(nodes.drop_last()[i] == nodes[i]);
        }
        lemma_filter_of_others(nodes.drop_last(), file_id);
    }
}

proof fn lemma_impact_names_differ()
    ensures
        "symbol"@ != "max_depth"@,
        "symbol"@ != "total_reached"@,
        "symbol"@ != "shown"@,
        "symbol"@ != "truncated"@,
        "symbol"@ != "bfs_limit"@,
        "symbol"@ != "file_groups"@,
        "symbol"@ != "edge_kinds_used"@,
        "symbol"@ != "include_children"@,
        "symbol"@ != "direction"@,
        "symbol"@ != "resolution"@,
        "symbol"@ != "semantic_impact"@,
        "symbol"@ != "capability_note"@,
        "symbol"@ != "note"@,
        "symbol"@ != "noise_note"@,
        "max_depth"@ != "total_reached"@,
        "max_depth"@ != "shown"@,
        "max_depth"@ != "truncated"@,
        "max_depth"@ != "bfs_limit"@,
        "max_depth"@ != "file_groups"@,
        "max_depth"@ != "edge_kinds_used"@,
        "max_depth"@ != "include_children"@,
        "max_depth"@ != "direction"@,
        "max_depth"@ != "resolution"@,
        "max_depth"@ != "semantic_impact"@,
        "max_depth"@ != "capability_note"@,
        "max_depth"@ != "note"@,
        "max_depth"@ != "noise_note"@,
        "total_reached"@ != "shown"@,
        "total_reached"@ != "truncated"@,
        "total_reached"@ != "bfs_limit"@,
        "total_reached"@ != "file_groups"@,
        "total_reached"@ != "edge_kinds_used"@,
        "total_reached"@ != "include_children"@,
        "total_reached"@ != "direction"@,
        "total_reached"@ != "resolution"@,
        "total_reached"@ != "semantic_impact"@,
        "total_reached"@ != "capability_note"@,
        "total_reached"@ != "note"@,
        "total_reached"@ != "noise_note"@,
        "shown"@ != "truncated"@,
        "shown"@ != "bfs_limit"@,
        "shown"@ != "file_groups"@,
        "shown"@ != "edge_kinds_used"@,
        "shown"@ != "include_children"@,
        "shown"@ != "direction"@,
        "shown"@ != "resolution"@,
        "shown"@ != "semantic_impact"@,
        "shown"@ != "capability_note"@,
        "shown"@ != "note"@,
        "shown"@ != "noise_note"@,
        "truncated"@ != "bfs_limit"@,
        "truncated"@ != "file_groups"@,
        "truncated"@ != "edge_kinds_used"@,
        "truncated"@ != "include_children"@,
        "truncated"@ != "direction"@,
        "truncated"@ != "resolution"@,
        "truncated"@ != "semantic_impact"@,
        "truncated"@ != "capability_note"@,
        "truncated"@ != "note"@,
        "truncated"@ != "noise_note"@,
        "file_groups"@ != "edge_kinds_used"@,
        "file_groups"@ != "include_children"@,
        "file_groups"@ != "direction"@,
        "file_groups"@ != "resolution"@,
        "file_groups"@ != "semantic_impact"@,
        "file_groups"@ != "capability_note"@,
        "file_groups"@ != "note"@,
        "file_groups"@ != "noise_note"@,
        "include_children"@ != "direction"@,
        "include_children"@ != "resolution"@,
        "include_children"@ != "semantic_impact"@,
        "include_children"@ != "capability_note"@,
        "include_children"@ != "note"@,
        "include_children"@ != "noise_note"@,
        "direction"@ != "resolution"@,
        "direction"@ != "semantic_impact"@,
        "direction"@ != "capability_note"@,
        "direction"@ != "note"@,
        "direction"@ != "noise_note"@,
        "resolution"@ != "semantic_impact"@,
        "resolution"@ != "capability_note"@,
        "resolution"@ != "note"@,
        "resolution"@ != "noise_note"@,
        "semantic_impact"@ != "capability_note"@,
        "semantic_impact"@ != "note"@,
        "semantic_impact"@ != "noise_note"@,
        "note"@ != "noise_note"@,
        "semantic_impact"@ != "bfs_limit"@,
        "semantic_impact"@ != "edge_kinds_used"@,
        "note"@ != "bfs_limit"@,
        "note"@ != "edge_kinds_used"@,
        "note"@ != "capability_note"@,
        "file"@ != "symbols"@,
{
    reveal_strlit("symbol");
    reveal_strlit("max_depth");
    reveal_strlit("total_reached");
    reveal_strlit("shown");
    reveal_strlit("truncated");
    reveal_strlit("bfs_limit");
    reveal_strlit("file_groups");
    reveal_strlit("edge_kinds_used");
    reveal_strlit("include_children");
    reveal_strlit("direction");
    reveal_strlit("resolution");
    reveal_strlit("semantic_impact");
    reveal_strlit("capability_note");
    reveal_strlit("note");
    reveal_strlit("noise_note");
    reveal_strlit("file");
    reveal_strlit("symbols");
    assert("symbol"@.len() != "max_depth"@.len());
    assert("symbol"@.len() != "total_reached"@.len());
    assert("symbol"@.len() != "shown"@.len());
    assert("symbol"@.len() != "truncated"@.len());
    assert("symbol"@.len() != "bfs_limit"@.len());
    assert("symbol"@.len() != "file_groups"@.len());
    assert("symbol"@.len() != "edge_kinds_used"@.len());
    assert("symbol"@.len() != "include_children"@.len());
    assert("symbol"@.len() != "direction"@.len());
    assert("symbol"@.len() != "resolution"@.len());
    assert("symbol"@.len() != "semantic_impact"@.len());
    assert("symbol"@.len() != "capability_note"@.len());
    assert("symbol"@.len() != "note"@.len());
    assert("symbol"@.len() != "noise_note"@.len());
    assert("max_depth"@.len() != "total_reached"@.len());
    assert("max_depth"@.len() != "shown"@.len());
    assert("max_depth"@[0] != "truncated"@[0]);
    assert("max_depth"@[0] != "bfs_limit"@[0]);
    assert("max_depth"@.len() != "file_groups"@.len());
    assert("max_depth"@.len() != "edge_kinds_used"@.len());
    assert("max_depth"@.len() != "include_children"@.len());
    assert("max_depth"@[0] != "direction"@[0]);
    assert("max_depth"@.len() != "resolution"@.len());
    assert("max_depth"@.len() != "semantic_impact"@.len());
    assert("max_depth"@.len() != "capability_note"@.len());
    assert("max_depth"@.len() != "note"@.len());
    assert("max_depth"@.len() != "noise_note"@.len());
    assert("total_reached"@.len() != "shown"@.len());
    assert("total_reached"@.len() != "truncated"@.len());
    assert("total_reached"@.len() != "bfs_limit"@.len());
    assert("total_reached"@.len() != "file_groups"@.len());
    assert("total_reached"@.len() != "edge_kinds_used"@.len());
    assert("total_reached"@.len() != "include_children"@.len());
    assert("total_reached"@.len() != "direction"@.len());
    assert("total_reached"@.len() != "resolution"@.len());
    assert("total_reached"@.len() != "semantic_impact"@.len());
    assert("total_reached"@.len() != "capability_note"@.len());
    assert("total_reached"@.len() != "note"@.len());
    assert("total_reached"@.len() != "noise_note"@.len());
    assert("shown"@.len() != "truncated"@.len());
    assert("shown"@.len() != "bfs_limit"@.len());
    assert("shown"@.len() != "file_groups"@.len());
    assert("shown"@.len() != "edge_kinds_used"@.len());
    assert("shown"@.len() != "include_children"@.len());
    assert("shown"@.len() != "direction"@.len());
    assert("shown"@.len() != "resolution"@.len());
    assert("shown"@.len() != "semantic_impact"@.len());
    assert("shown"@.len() != "capability_note"@.len());
    assert("shown"@.len() != "note"@.len());
    assert("shown"@.len() != "noise_note"@.len());
    assert("truncated"@[0] != "bfs_limit"@[0]);
    assert("truncated"@.len() != "file_groups"@.len());
    assert("truncated"@.len() != "edge_kinds_used"@.len());
    assert("truncated"@.len() != "include_children"@.len());
    assert("truncated"@[0] != "direction"@[0]);
    assert("truncated"@.len() != "resolution"@.len());
    assert("truncated"@.len() != "semantic_impact"@.len());
    assert("truncated"@.len() != "capability_note"@.len());
    assert("truncated"@.len() != "note"@.len());
    assert("truncated"@.len() != "noise_note"@.len());
    assert("file_groups"@.len() != "edge_kinds_used"@.len());
    assert("file_groups"@.len() != "include_children"@.len());
    assert("file_groups"@.len() != "direction"@.len());
    assert("file_groups"@.len() != "resolution"@.len());
    assert("file_groups"@.len() != "semantic_impact"@.len());
    assert("file_groups"@.len() != "capability_note"@.len());
    assert("file_groups"@.len() != "note"@.len());
    assert("file_groups"@.len() != "noise_note"@.len());
    assert("include_children"@.len() != "direction"@.len());
    assert("include_children"@.len() != "resolution"@.len());
    assert("include_children"@.len() != "semantic_impact"@.len());
    assert("include_children"@.len() != "capability_note"@.len());
    assert("include_children"@.len() != "note"@.len());
    assert("include_children"@.len() != "noise_note"@.len());
    assert("direction"@.len() != "resolution"@.len());
    assert("direction"@.len() != "semantic_impact"@.len());
    assert("direction"@.len() != "capability_note"@.len());
    assert("direction"@.len() != "note"@.len());
    assert("direction"@.len() != "noise_note"@.len());
    assert("resolution"@.len() != "semantic_impact"@.len());
    assert("resolution"@.len() != "capability_note"@.len());
    assert("resolution"@.len() != "note"@.len());
    assert("resolution"@[0] != "noise_note"@[0]);
    assert("semantic_impact"@[0] != "capability_note"@[0]);
    assert("semantic_impact"@.len() != "note"@.len());
    assert("semantic_impact"@.len() != "noise_note"@.len());
    assert("note"@.len() != "noise_note"@.len());
    assert("semantic_impact"@.len() != "bfs_limit"@.len());
    assert("semantic_impact"@[0] != "edge_kinds_used"@[0]);
    assert("note"@.len() != "bfs_limit"@.len());
    assert("note"@.len() != "edge_kinds_used"@.len());
    assert("note"@.len() != "capability_note"@.len());
    assert("file"@.len() != "symbols"@.len());
}

/// What an impact response tells: the groups of the first symbols that are reached, with
/// the path and the symbols of each, how many are reached and shown, and whether that is
/// all of them.
pub proof fn law_impact_tells_what_is_reached(
    qname: Seq<char>,
    plan: ImpactPlan,
    nodes: Seq<ImpactNode>,
    meta: JsonView,
    semantic: Option<JsonView>,
    full_index: bool,
)
    requires
        nodes.len() <= u64::MAX,
    ensures
        ({
            let body = JsonView::Object(
                impact_fields(qname, plan, nodes, meta, semantic, full_index),
            );
            let shown = if nodes.len() <= 30 {
                nodes
            } else {
                nodes.take(30)
            };
            &&& body.text_field("symbol"@) == Some(qname)
            &&& body.unsigned_field("max_depth"@) == Some(plan.depth)
            &&& body.unsigned_field("total_reached"@) == Some(nodes.len() as u64)
            &&& body.unsigned_field("shown"@) == Some(shown.len() as u64)
            &&& body.bool_field("truncated"@) == Some(nodes.len() > 30)
            &&& body.text_field("direction"@) == Some(plan.direction_name@)
            &&& body.bool_field("include_children"@) == Some(plan.include_children)
            &&& body.field("resolution"@) == Some(meta)
            &&& body.field("semantic_impact"@) == semantic
            &&& body.field("note"@) is None == full_index
            &&& body.field("file_groups"@) matches Some(JsonView::Array(told)) && {
                &&& told.len() == grouped(shown).len()
                &&& forall|g: int|
                    0 <= g < told.len() ==> (#[trigger] told[g]).text_field("file"@) == Some(
                        grouped(shown)[g].file,
                    ) && told[g].field("symbols"@) == Some(
                        JsonView::Array(grouped(shown)[g].symbols),
                    )
            }
        }),
{
    lemma_impact_names_differ();
    assert(nodes.take(nodes.len() as int) =~= nodes);
    let shown = shown_nodes(nodes);
    let groups = grouped(shown);
    let told = Seq::new(
        groups.len(),
        |i: int|
            JsonView::Object(
                no_fields().insert("file"@, JsonView::Str(groups[i].file)).insert(
                    "symbols"@,
                    JsonView::Array(groups[i].symbols),
                ),
            ),
    );
    let body = JsonView::Object(impact_fields(qname, plan, nodes, meta, semantic, full_index));
    assert(body.field("file_groups"@) == Some(JsonView::Array(told)));
    assert forall|g: int| 0 <= g < told.len() implies (#[trigger] told[g]).text_field("file"@)
        == Some(groups[g].file) && told[g].field("symbols"@) == Some(
        JsonView::Array(groups[g].symbols),
    ) by {
        assert("file"@ != "symbols"@);
    }
}

/// A traversal goes as far as it is asked to, and no farther than traversals may go.
pub proof fn law_traversal_is_bounded(plan: ImpactPlan)
    ensures
        plan.reach() <= plan.depth && plan.reach() <= MAX_IMPACT_DEPTH,
        plan.reach() == plan.depth || plan.reach() == MAX_IMPACT_DEPTH,
{
}

/// The kinds that are followed are told by their names, in order; all of them by a star.
/// Without a filter modules are followed too.
pub proof fn law_kinds_that_are_followed_are_named(filter: KindFilter)
    ensures
        filter matches KindFilter::Listed(kinds) ==> kinds_used(filter).len() == kinds@.len()
            && forall|i: int|
            0 <= i < kinds@.len() ==> #[trigger] kinds_used(filter)[i] == edge_name(kinds@[i]),
        filter is All ==> kinds_used(filter) == seq!["*"@],
        filter is Default ==> follows_modules(kinds_used(filter)),
        filter is Default ==> forall|kind: EdgeKind|
            impact_edges().contains(kind) ==> kinds_used(filter).contains(
                #[trigger] edge_name(kind),
            ),
{
    if filter is Default {
        let names = kinds_used(filter);
        assert(names[4] == edge_name(EdgeKind::Imports));
        assert(names.contains("imports"@));
        assert forall|kind: EdgeKind| impact_edges().contains(kind) implies names.contains(
            #[trigger] edge_name(kind),
        ) by {
            let i = choose|i: int| 0 <= i < impact_edges().len() && impact_edges()[i] == kind;
            assert(names[i] == edge_name(kind));
        }
    }
}

/// An impact request is accepted exactly where its symbol is, its direction is one of the
/// three or not given, and its edge kinds can be read.
pub proof fn law_readable_impact_requests_are_accepted(
    args: JsonView,
    input: Result<SymbolInput, String>,
    max_name_length: nat,
)
    ensures
        impact_refusal(args, input, max_name_length) is None <==> symbol_refusal(
            input,
            max_name_length,
        ) is None && !(kind_filter(args) is Invalid) && (args.text_field("direction"@) matches Some(
            name,
        ) ==> name == "outgoing"@ || name == "incoming"@ || name == "both"@),
        args.text_field("direction"@) is None ==> named_direction(impact_direction_name(args))
            == Some(TraversalDirection::Outgoing),
        args.text_field("direction"@) == Some("incoming"@) ==> named_direction(
            impact_direction_name(args),
        ) == Some(TraversalDirection::Incoming),
        args.text_field("direction"@) == Some("both"@) ==> named_direction(
            impact_direction_name(args),
        ) == Some(TraversalDirection::Both),
{
    reveal_strlit("incoming");
    reveal_strlit("both");
    reveal_strlit("outgoing");
    assert("incoming"@.len() != "both"@.len());
    assert("incoming"@[0] != "outgoing"@[0]);
    assert("both"@.len() != "outgoing"@.len());
}

} // verus!
