//! The callers and callees of a symbol, one hop away.

use vstd::prelude::*;
use vstd::string::*;

use crate::json::{items_view, no_fields, Json, JsonObject, JsonView};
use crate::text::{byte_len, decimal, push_decimal, strings_view};
use crate::tools::args::{capped, number_arg, number_of, text_arg, text_of, to_count};
use crate::tools::call_graph::at_most;
use crate::tools::edges::{
    call_filter, edge_passes, is_allowed_edge, named_edge, parse_edge_kind, resolve_call_edge_kinds,
    EdgeKind,
};
use crate::tools::symbols::{
    contains_symbol, endpoint_meta, ids_view, input_name, line_number, missing_name, name_too_long,
    not_found_resolution_qname, resolution_ids, resolution_to_symbol_ids_and_meta, shown_line,
    symbol_input_qname, unresolved_message, validate_symbol_name_length, SymbolFacts, SymbolId,
    SymbolInput, SymbolResolution,
};

verus! {

/// Which calls of a symbol are asked for.
#[derive(Clone, Copy, Debug, PartialEq, Eq, Structural)]
pub enum CallSide {
    /// The calls to the symbol.
    Incoming,
    /// The calls from the symbol.
    Outgoing,
}

/// Why a request is refused that names a symbol.
pub open spec fn symbol_refusal(
    input: Result<SymbolInput, String>,
    max_name_length: nat,
) -> Option<Seq<char>> {
    match input {
        Err(e) => Some(e@),
        Ok(i) => if byte_len(input_name(i)) > max_name_length {
            Some(name_too_long(max_name_length))
        } else {
            None
        },
    }
}

/// The symbol argument of a request, where it is one and its name is not too long.
pub fn checked_symbol(
    input: Result<SymbolInput, String>,
    max_name_length: usize,
) -> (checked: Result<SymbolInput, String>)
    ensures
        match checked {
            Ok(i) => input == Ok::<SymbolInput, String>(i) && symbol_refusal(
                input,
                max_name_length as nat,
            ) is None,
            Err(e) => symbol_refusal(input, max_name_length as nat) == Some(e@),
        },
{
    match input {
        Ok(i) => match validate_symbol_name_length(symbol_input_qname(&i), max_name_length) {
            Ok(_) => Ok(i),
            Err(e) => Err(e),
        },
        Err(e) => Err(e),
    }
}

/// What a request for callers or callees asks for.
pub struct CallsPlan {
    pub input: SymbolInput,
    pub limit: usize,
    pub warnings: Vec<String>,
}

/// What a request is told that asks for more than one hop.
pub open spec fn depth_warning(side: CallSide) -> Seq<char> {
    match side {
        CallSide::Incoming => "depth is not honored for calls(direction=incoming); use direction=both with depth, or the callgraph tool, for multi-hop"@,
        CallSide::Outgoing => "depth is not honored for calls(direction=outgoing); use direction=both with depth, or the callgraph tool, for multi-hop"@,
    }
}

/// The warnings of a request for callers or callees.
pub open spec fn calls_warnings(
    warnings: Seq<Seq<char>>,
    args: JsonView,
    side: CallSide,
) -> Seq<Seq<char>> {
    if args.field("depth"@) is Some {
        warnings.push(depth_warning(side))
    } else {
        warnings
    }
}

/// Reads a request for callers or callees. The symbol is what its argument was read
/// as; the warnings are those of its other arguments.
pub fn plan_calls(
    args: &Json,
    input: Result<SymbolInput, String>,
    side: CallSide,
    warnings: Vec<String>,
    max_name_length: usize,
) -> (plan: Result<CallsPlan, String>)
    ensures
        match plan {
            Ok(p) => input == Ok::<SymbolInput, String>(p.input) && symbol_refusal(
                input,
                max_name_length as nat,
            ) is None && p.limit == capped(number_of(args@, "limit"@, 20)) && strings_view(
                p.warnings@,
            ) == calls_warnings(strings_view(warnings@), args@, side),
            Err(e) => symbol_refusal(input, max_name_length as nat) == Some(e@),
        },
{
    let symbol = match checked_symbol(input, max_name_length) {
        Ok(i) => i,
        Err(e) => return Err(e),
    };
    let mut all = warnings;
    if args.get("depth").is_some() {
        let ghost before = all@;
        match side {
            CallSide::Incoming => {
                all.push(
                    "depth is not honored for calls(direction=incoming); use direction=both with depth, or the callgraph tool, for multi-hop".to_owned(),
                );
            },
            CallSide::Outgoing => {
                all.push(
                    "depth is not honored for calls(direction=outgoing); use direction=both with depth, or the callgraph tool, for multi-hop".to_owned(),
                );
            },
        }
        proof {
            assert(strings_view(all@) =~= strings_view(before).push(depth_warning(side)));
        }
    }
    Ok(CallsPlan { input: symbol, limit: to_count(number_arg(args, "limit", 20)), warnings: all })
}

/// What a request for a call graph asks for.
pub struct CallGraphPlan {
    pub input: SymbolInput,
    pub depth: u64,
    pub limit: usize,
    pub direction: String,
    /// The edges to follow: all, where the list is empty.
    pub edge_kinds: Vec<EdgeKind>,
}

/// Why a request for a call graph is refused.
pub open spec fn call_graph_refusal(
    args: JsonView,
    input: Result<SymbolInput, String>,
    max_name_length: nat,
) -> Option<Seq<char>> {
    match symbol_refusal(input, max_name_length) {
        Some(e) => Some(e),
        None => match call_filter(args) {
            Err(e) => Some(e),
            Ok(_) => None,
        },
    }
}

/// Reads a request for a call graph.
pub fn plan_call_graph(
    args: &Json,
    input: Result<SymbolInput, String>,
    max_name_length: usize,
) -> (plan: Result<CallGraphPlan, String>)
    ensures
        match plan {
            Ok(p) => input == Ok::<SymbolInput, String>(p.input) && call_graph_refusal(
                args@,
                input,
                max_name_length as nat,
            ) is None && p.depth == number_of(args@, "depth"@, 3) && p.limit == capped(
                number_of(args@, "limit"@, 100),
            ) && p.direction@ == text_of(args@, "direction"@) && call_filter(args@) == Ok::<
                Seq<EdgeKind>,
                Seq<char>,
            >(p.edge_kinds@),
            Err(e) => call_graph_refusal(args@, input, max_name_length as nat) == Some(e@),
        },
{
    let symbol = match checked_symbol(input, max_name_length) {
        Ok(i) => i,
        Err(e) => return Err(e),
    };
    match resolve_call_edge_kinds(args) {
        Ok(edge_kinds) => Ok(
            CallGraphPlan {
                input: symbol,
                depth: number_arg(args, "depth", 3),
                limit: to_count(number_arg(args, "limit", 100)),
                direction: text_arg(args, "direction"),
                edge_kinds,
            },
        ),
        Err(e) => Err(e),
    }
}

/// What became of the symbol that a request starts from.
pub enum Roots {
    /// The symbols that it stands for, and the metadata of the resolution.
    Found { ids: Vec<SymbolId>, meta: Json },
    /// It is not known yet: the request may be repeated later.
    Missing { qname: String, detail: String },
    /// It cannot be used.
    Failed(String),
}

/// What became of the symbol that a request starts from.
pub open spec fn roots_are(
    roots: Roots,
    resolution: SymbolResolution,
    qname: Seq<char>,
    detail: Seq<char>,
) -> bool {
    match roots {
        Roots::Found { ids, meta } => resolution_ids(resolution).len() > 0 && ids_view(ids@)
            == resolution_ids(resolution) && meta@ == endpoint_meta(resolution),
        Roots::Missing { qname: name, detail: told } => missing_name(resolution) == Some(name@)
            && told@ == detail,
        Roots::Failed(e) => resolution_ids(resolution).len() == 0 && missing_name(resolution)
            is None && e@ == unresolved_message(resolution, qname),
    }
}

fn find_roots(resolution: &SymbolResolution, qname: &str, detail: &str) -> (roots: Roots)
    ensures
        roots_are(roots, *resolution, qname@, detail@),
{
    match resolution_to_symbol_ids_and_meta(resolution, qname) {
        Ok((ids, meta)) => Roots::Found { ids, meta },
        Err(e) => match not_found_resolution_qname(resolution) {
            Some(name) => Roots::Missing { qname: name.to_owned(), detail: detail.to_owned() },
            None => Roots::Failed(e),
        },
    }
}

/// What a request is told whose symbol is not known yet.
pub open spec fn calls_detail(side: CallSide) -> Seq<char> {
    match side {
        CallSide::Incoming => "calls(direction=incoming) requires the symbol to be materialized first"@,
        CallSide::Outgoing => "calls(direction=outgoing) requires the symbol to be materialized first"@,
    }
}

/// The symbols whose callers or callees are asked for.
pub fn calls_roots(resolution: &SymbolResolution, qname: &str, side: CallSide) -> (roots: Roots)
    ensures
        roots_are(roots, *resolution, qname@, calls_detail(side)),
{
    match side {
        CallSide::Incoming => find_roots(
            resolution,
            qname,
            "calls(direction=incoming) requires the symbol to be materialized first",
        ),
        CallSide::Outgoing => find_roots(
            resolution,
            qname,
            "calls(direction=outgoing) requires the symbol to be materialized first",
        ),
    }
}

/// The symbols that a call graph starts from.
pub fn call_graph_roots(resolution: &SymbolResolution, qname: &str) -> (roots: Roots)
    ensures
        roots_are(
            roots,
            *resolution,
            qname@,
            "callgraph traversal requires the root symbol to be materialized first"@,
        ),
{
    find_roots(
        resolution,
        qname,
        "callgraph traversal requires the root symbol to be materialized first",
    )
}

/// The symbols whose impact is asked for.
pub fn impact_roots(resolution: &SymbolResolution, qname: &str) -> (roots: Roots)
    ensures
        roots_are(
            roots,
            *resolution,
            qname@,
            "impact requires the root symbol to be materialized first"@,
        ),
{
    find_roots(resolution, qname, "impact requires the root symbol to be materialized first")
}

/// An edge that has not been confirmed.
pub struct CandidateEdge {
    pub kind: String,
    pub source: Vec<u8>,
    pub target: Option<Vec<u8>>,
}

/// Whether an edge of a named kind is followed.
pub open spec fn kind_passes(kind: Seq<char>, allowed: Seq<EdgeKind>) -> bool {
    match named_edge(kind) {
        Some(k) => edge_passes(k, allowed),
        None => false,
    }
}

/// The symbol at an end of an edge: identifiers have 32 bytes.
pub open spec fn edge_end(bytes: Option<Seq<u8>>) -> Option<Seq<u8>> {
    match bytes {
        Some(b) => if b.len() == 32 {
            Some(b)
        } else {
            None
        },
        None => None,
    }
}

/// The end of an edge that is looked for.
pub open spec fn far_end(edge: CandidateEdge, side: CallSide) -> Option<Seq<u8>> {
    match side {
        CallSide::Incoming => edge_end(Some(edge.source@)),
        CallSide::Outgoing => match edge.target {
            Some(t) => edge_end(Some(t@)),
            None => None,
        },
    }
}

/// The symbols at the far ends of the edges that are followed, in order.
pub open spec fn candidate_ends(
    edges: Seq<CandidateEdge>,
    allowed: Seq<EdgeKind>,
    side: CallSide,
) -> Seq<Seq<u8>>
    decreases edges.len(),
{
    if edges.len() == 0 {
        Seq::empty()
    } else {
        let before = candidate_ends(edges.drop_last(), allowed, side);
        match far_end(edges.last(), side) {
            Some(id) => if kind_passes(edges.last().kind@, allowed) {
                before.push(id)
            } else {
                before
            },
            None => before,
        }
    }
}

fn id_from_bytes(bytes: &Vec<u8>) -> (id: Option<SymbolId>)
    ensures
        match id {
            Some(i) => edge_end(Some(bytes@)) == Some(i@),
            None => edge_end(Some(bytes@)) is None,
        },
{
    if bytes.len() != 32 {
        return None;
    }
    let mut array: [u8; 32] = [0;32];
    let mut i: usize = 0;
    while i < 32
        invariant
            i <= 32,
            bytes@.len() == 32,
            forall|j: int| 0 <= j < i ==> array@[j] == bytes@[j],
        decreases 32 - i,
    {
        array[i] = bytes[i];
        i = i + 1;
    }
    proof {
        assert(array@ =~= bytes@);
    }
    Some(SymbolId::from_bytes(array))
}

fn check_kind(kind: &str, allowed: &Vec<EdgeKind>) -> (passes: bool)
    ensures
        passes == kind_passes(kind@, allowed@),
{
    match parse_edge_kind(kind) {
        Ok(k) => is_allowed_edge(k, allowed),
        Err(_) => false,
    }
}

fn find_far_end(edge: &CandidateEdge, side: CallSide) -> (id: Option<SymbolId>)
    ensures
        match id {
            Some(i) => far_end(*edge, side) == Some(i@),
            None => far_end(*edge, side) is None,
        },
{
    match side {
        CallSide::Incoming => id_from_bytes(&edge.source),
        CallSide::Outgoing => match &edge.target {
            Some(t) => id_from_bytes(t),
            None => None,
        },
    }
}

fn candidate_neighbors(
    edges: &Vec<CandidateEdge>,
    allowed: &Vec<EdgeKind>,
    side: CallSide,
) -> (ids: Vec<SymbolId>)
    ensures
        ids_view(ids@) == candidate_ends(edges@, allowed@, side),
{
    let mut ids: Vec<SymbolId> = Vec::new();
    let mut i: usize = 0;
    proof {
        assert(edges@.take(0) =~= Seq::empty());
        assert(ids_view(ids@) =~= Seq::empty());
    }
    while i < edges.len()
        invariant
            i <= edges@.len(),
            ids_view(ids@) == candidate_ends(edges@.take(i as int), allowed@, side),
        decreases edges@.len() - i,
    {
        proof {
            assert(edges@.take(i + 1).drop_last() =~= edges@.take(i as int));
        }
        match find_far_end(&edges[i], side) {
            Some(id) => {
                if check_kind(edges[i].kind.as_str(), allowed) {
                    let ghost before = ids@;
                    ids.push(id);
                    proof {
                        assert(ids_view(ids@) =~= ids_view(before).push(id@));
                    }
                }
            },
            None => {},
        }
        i = i + 1;
    }
    proof {
        assert(edges@.take(i as int) =~= edges@);
    }
    ids
}

/// The symbols that unconfirmed edges lead to.
pub fn candidate_outgoing_neighbors(edges: &Vec<CandidateEdge>, allowed: &Vec<EdgeKind>) -> (ids:
    Vec<SymbolId>)
    ensures
        ids_view(ids@) == candidate_ends(edges@, allowed@, CallSide::Outgoing),
{
    candidate_neighbors(edges, allowed, CallSide::Outgoing)
}

/// The symbols that unconfirmed edges come from.
pub fn candidate_incoming_neighbors(edges: &Vec<CandidateEdge>, allowed: &Vec<EdgeKind>) -> (ids:
    Vec<SymbolId>)
    ensures
        ids_view(ids@) == candidate_ends(edges@, allowed@, CallSide::Incoming),
{
    candidate_neighbors(edges, allowed, CallSide::Incoming)
}

/// A stored symbol as a caller or callee.
pub open spec fn symbol_view(symbol: SymbolFacts) -> JsonView {
    JsonView::Object(
        no_fields().insert("name"@, JsonView::Str(symbol.name@)).insert(
            "qualified_name"@,
            JsonView::Str(symbol.qualified_name@),
        ).insert("kind"@, JsonView::Str(symbol.kind_name@)).insert(
            "file"@,
            JsonView::Str(symbol.file_path@),
        ).insert("line"@, JsonView::Unsigned(shown_line(symbol.start_line) as u64)).insert(
            "signature"@,
            match symbol.signature {
                Some(s) => JsonView::Str(s@),
                None => JsonView::Null,
            },
        ),
    )
}

/// A stored symbol as a caller or callee.
pub fn symbol_json(symbol: &SymbolFacts) -> (json: Json)
    ensures
        json@ == symbol_view(*symbol),
{
    let mut object = JsonObject::new();
    object.put("name", Json::text(symbol.name.as_str()));
    object.put("qualified_name", Json::text(symbol.qualified_name.as_str()));
    object.put("kind", Json::text(symbol.kind_name.as_str()));
    object.put("file", Json::text(symbol.file_path.as_str()));
    object.put("line", Json::Unsigned(line_number(symbol.start_line) as u64));
    object.put(
        "signature",
        match &symbol.signature {
            Some(s) => Json::text(s.as_str()),
            None => Json::Null,
        },
    );
    Json::Object(object)
}

/// A caller or callee, by the symbol and what is listed of it. One that is not
/// stored is not listed.
pub struct CallEntry {
    pub id: SymbolId,
    pub node: Option<Json>,
}

/// What was found for one of the symbols: in the graph, and over unconfirmed edges.
pub struct RootCalls {
    pub direct: Vec<CallEntry>,
    pub candidates: Vec<CallEntry>,
}

/// What has been collected.
#[verifier::ext_equal]
pub struct Collected {
    pub seen: Seq<Seq<u8>>,
    pub listed: Seq<JsonView>,
}

/// Collects one more entry: each symbol counts once.
pub open spec fn collect_one(so_far: Collected, entry: CallEntry) -> Collected {
    if so_far.seen.contains(entry.id@) {
        so_far
    } else {
        Collected {
            seen: so_far.seen.push(entry.id@),
            listed: match entry.node {
                Some(node) => so_far.listed.push(node@),
                None => so_far.listed,
            },
        }
    }
}

/// Collects entries in order.
pub open spec fn collect(so_far: Collected, entries: Seq<CallEntry>) -> Collected
    decreases entries.len(),
{
    if entries.len() == 0 {
        so_far
    } else {
        collect_one(collect(so_far, entries.drop_last()), entries.last())
    }
}

/// Collects the callers or callees of several symbols. Unconfirmed edges count
/// where the index is not complete.
pub open spec fn collect_all(roots: Seq<RootCalls>, full_index: bool) -> Collected
    decreases roots.len(),
{
    if roots.len() == 0 {
        Collected { seen: Seq::empty(), listed: Seq::empty() }
    } else {
        let before = collect_all(roots.drop_last(), full_index);
        let direct = collect(before, roots.last().direct@);
        if full_index {
            direct
        } else {
            collect(direct, roots.last().candidates@)
        }
    }
}

fn collect_entries(seen: &mut Vec<SymbolId>, listed: &mut Vec<Json>, entries: &Vec<CallEntry>)
    ensures
        ids_view(final(seen)@) == collect(
            (Collected { seen: ids_view(old(seen)@), listed: items_view(old(listed)@) }),
            entries@,
        ).seen,
        items_view(final(listed)@) == collect(
            (Collected { seen: ids_view(old(seen)@), listed: items_view(old(listed)@) }),
            entries@,
        ).listed,
{
    let ghost start = Collected { seen: ids_view(seen@), listed: items_view(listed@) };
    let mut i: usize = 0;
    proof {
        assert(entries@.take(0) =~= Seq::empty());
    }
    while i < entries.len()
        invariant
            i <= entries@.len(),
            ids_view(seen@) == collect(start, entries@.take(i as int)).seen,
            items_view(listed@) == collect(start, entries@.take(i as int)).listed,
        decreases entries@.len() - i,
    {
        let entry = &entries[i];
        proof {
            assert(entries@.take(i + 1).drop_last() =~= entries@.take(i as int));
        }
        if !contains_symbol(seen, entry.id) {
            let ghost seen_before = seen@;
            seen.push(entry.id);
            proof {
                assert(ids_view(seen@) =~= ids_view(seen_before).push(entry.id@));
            }
            match &entry.node {
                Some(node) => {
                    let ghost listed_before = listed@;
                    listed.push(node.clone());
                    proof {
                        assert(items_view(listed@) =~= items_view(listed_before).push(node@));
                    }
                },
                None => {},
            }
        }
        i = i + 1;
    }
    proof {
        assert(entries@.take(i as int) =~= entries@);
    }
}

/// Collects the callers or callees of several symbols, each once.
pub fn collect_calls(roots: &Vec<RootCalls>, full_index: bool) -> (listed: Vec<Json>)
    ensures
        items_view(listed@) == collect_all(roots@, full_index).listed,
{
    let mut seen: Vec<SymbolId> = Vec::new();
    let mut listed: Vec<Json> = Vec::new();
    let mut i: usize = 0;
    proof {
        assert(roots@.take(0) =~= Seq::empty());
        assert(ids_view(seen@) =~= Seq::empty());
        assert(items_view(listed@) =~= Seq::empty());
    }
    while i < roots.len()
        invariant
            i <= roots@.len(),
            ids_view(seen@) == collect_all(roots@.take(i as int), full_index).seen,
            items_view(listed@) == collect_all(roots@.take(i as int), full_index).listed,
        decreases roots@.len() - i,
    {
        proof {
            assert(roots@.take(i + 1).drop_last() =~= roots@.take(i as int));
        }
        collect_entries(&mut seen, &mut listed, &roots[i].direct);
        if !full_index {
            collect_entries(&mut seen, &mut listed, &roots[i].candidates);
        }
        i = i + 1;
    }
    proof {
        assert(roots@.take(i as int) =~= roots@);
    }
    listed
}

fn first_items(listed: Vec<Json>, limit: usize) -> (json: Json)
    ensures
        json@ == JsonView::Array(at_most(items_view(listed@), limit as nat)),
{
    let ghost before = listed@;
    let mut items = listed;
    if items.len() > limit {
        items.truncate(limit);
        proof {
            assert(items_view(items@) =~= items_view(before).take(limit as int));
        }
    }
    Json::Array(items)
}

/// Puts the metadata of a resolution that stands for several symbols.
pub open spec fn with_resolution(
    fields: Map<Seq<char>, JsonView>,
    meta: JsonView,
    count: nat,
) -> Map<Seq<char>, JsonView> {
    if count > 1 {
        fields.insert("resolution"@, meta)
    } else {
        fields
    }
}

/// The response to a request for callers.
pub open spec fn callers_fields(
    qname: Seq<char>,
    listed: Seq<JsonView>,
    limit: nat,
    meta: JsonView,
    count: nat,
    full_index: bool,
) -> Map<Seq<char>, JsonView> {
    let base = with_resolution(
        no_fields().insert("symbol"@, JsonView::Str(qname)).insert(
            "total_callers"@,
            JsonView::Unsigned(listed.len() as u64),
        ).insert("callers"@, JsonView::Array(at_most(listed, limit))),
        meta,
        count,
    );
    if full_index {
        base
    } else {
        base.insert(
            "note"@,
            JsonView::Str(
                "Incoming calls are complete only within the current focus closure. Background refinement may discover additional callers outside this closure."@,
            ),
        )
    }
}

/// The response to a request for the callers of a name that stands for `count`
/// symbols.
pub fn callers_body(
    qname: &str,
    listed: Vec<Json>,
    limit: usize,
    meta: &Json,
    count: usize,
    full_index: bool,
) -> (body: Json)
    ensures
        body@ == JsonView::Object(
            callers_fields(
                qname@,
                items_view(listed@),
                limit as nat,
                meta@,
                count as nat,
                full_index,
            ),
        ),
{
    let mut object = JsonObject::new();
    object.put("symbol", Json::text(qname));
    object.put("total_callers", Json::count(listed.len()));
    object.put("callers", first_items(listed, limit));
    if count > 1 {
        object.put("resolution", meta.clone());
    }
    if !full_index {
        object.put(
            "note",
            Json::text(
                "Incoming calls are complete only within the current focus closure. Background refinement may discover additional callers outside this closure.",
            ),
        );
    }
    Json::Object(object)
}

/// The warnings of a request for callers.
pub open spec fn callers_warnings_of(warnings: Seq<Seq<char>>, full_index: bool) -> Seq<Seq<char>> {
    if full_index {
        warnings
    } else {
        warnings.push(
            "Incoming call results are scoped to the current focus closure; absence of additional callers is not a repo-wide proof until full indexing completes."@,
        )
    }
}

/// The warnings of a request for callers.
pub fn callers_warnings(warnings: Vec<String>, full_index: bool) -> (all: Vec<String>)
    ensures
        strings_view(all@) == callers_warnings_of(strings_view(warnings@), full_index),
{
    let mut all = warnings;
    if !full_index {
        let ghost before = all@;
        all.push(
            "Incoming call results are scoped to the current focus closure; absence of additional callers is not a repo-wide proof until full indexing completes.".to_owned(),
        );
        proof {
            assert(strings_view(all@) =~= strings_view(before).push(all@.last()@));
        }
    }
    all
}

/// The response to a request for callees.
pub open spec fn callees_fields(
    qname: Seq<char>,
    listed: Seq<JsonView>,
    limit: nat,
    unresolved: Seq<JsonView>,
    total_unresolved: nat,
    meta: JsonView,
    count: nat,
    full_index: bool,
) -> Map<Seq<char>, JsonView> {
    let base = no_fields().insert("symbol"@, JsonView::Str(qname)).insert(
        "total_callees"@,
        JsonView::Unsigned(listed.len() as u64),
    ).insert("callees"@, JsonView::Array(at_most(listed, limit)));
    let with_unresolved = if total_unresolved > 0 {
        base.insert(
            "total_unresolved_callees"@,
            JsonView::Unsigned(total_unresolved as u64),
        ).insert("unresolved_callees"@, JsonView::Array(unresolved)).insert(
            "unresolved_callee_note"@,
            JsonView::Str(
                "These call tokens were extracted from the function body but did not resolve to local symbols. They may be macros, builtins, external helpers, or code outside the current focus/full index."@,
            ),
        )
    } else {
        base
    };
    let resolved = with_resolution(with_unresolved, meta, count);
    if full_index {
        resolved
    } else {
        resolved.insert(
            "note"@,
            JsonView::Str(
                "Outgoing calls are complete only within the current focus closure. Unresolved callees mark the refinement frontier."@,
            ),
        )
    }
}

/// The response to a request for the callees of a name that stands for `count`
/// symbols.
pub fn callees_body(
    qname: &str,
    listed: Vec<Json>,
    limit: usize,
    unresolved: Vec<Json>,
    total_unresolved: usize,
    meta: &Json,
    count: usize,
    full_index: bool,
) -> (body: Json)
    ensures
        body@ == JsonView::Object(
            callees_fields(
                qname@,
                items_view(listed@),
                limit as nat,
                items_view(unresolved@),
                total_unresolved as nat,
                meta@,
                count as nat,
                full_index,
            ),
        ),
{
    let mut object = JsonObject::new();
    object.put("symbol", Json::text(qname));
    object.put("total_callees", Json::count(listed.len()));
    object.put("callees", first_items(listed, limit));
    if total_unresolved > 0 {
        object.put("total_unresolved_callees", Json::count(total_unresolved));
        object.put("unresolved_callees", Json::Array(unresolved));
        object.put(
            "unresolved_callee_note",
            Json::text(
                "These call tokens were extracted from the function body but did not resolve to local symbols. They may be macros, builtins, external helpers, or code outside the current focus/full index.",
            ),
        );
    }
    if count > 1 {
        object.put("resolution", meta.clone());
    }
    if !full_index {
        object.put(
            "note",
            Json::text(
                "Outgoing calls are complete only within the current focus closure. Unresolved callees mark the refinement frontier.",
            ),
        );
    }
    Json::Object(object)
}

/// The warnings of a request for callees.
pub open spec fn callees_warnings_of(
    warnings: Seq<Seq<char>>,
    total_unresolved: nat,
    full_index: bool,
) -> Seq<Seq<char>> {
    if total_unresolved > 0 && !full_index {
        warnings.push(
            decimal(total_unresolved)
                + " outgoing call token(s) remain unresolved in the current focus closure."@,
        )
    } else {
        warnings
    }
}

/// The warnings of a request for callees.
pub fn callees_warnings(
    warnings: Vec<String>,
    total_unresolved: usize,
    full_index: bool,
) -> (all: Vec<String>)
    ensures
        strings_view(all@) == callees_warnings_of(
            strings_view(warnings@),
            total_unresolved as nat,
            full_index,
        ),
{
    let mut all = warnings;
    if total_unresolved > 0 && !full_index {
        let ghost before = all@;
        let mut warning = String::new();
        push_decimal(&mut warning, total_unresolved as u64);
        proof {
            assert(warning@ =~= decimal(total_unresolved as nat));
        }
        warning.append(" outgoing call token(s) remain unresolved in the current focus closure.");
        all.push(warning);
        proof {
            assert(strings_view(all@) =~= strings_view(before).push(warning@));
        }
    }
    all
}

proof fn lemma_collect_keeps_distinct(so_far: Collected, entries: Seq<CallEntry>)
    requires
        so_far.seen.no_duplicates(),
        so_far.listed.len() <= so_far.seen.len(),
    ensures
        collect(so_far, entries).seen.no_duplicates(),
        collect(so_far, entries).listed.len() <= collect(so_far, entries).seen.len(),
        forall|id: Seq<u8>|
            #![trigger collect(so_far, entries).seen.contains(id)]
            so_far.seen.contains(id) ==> collect(so_far, entries).seen.contains(id),
        forall|i: int|
            0 <= i < entries.len() ==> collect(so_far, entries).seen.contains(
                (#[trigger] entries[i]).id@,
            ),
    decreases entries.len(),
{
    if entries.len() > 0 {
        lemma_collect_keeps_distinct(so_far, entries.drop_last());
        let before = collect(so_far, entries.drop_last());
        let after = collect(so_far, entries);
        let last = entries.last();
        assert forall|id: Seq<u8>| before.seen.contains(id) implies #[trigger] after.seen.contains(
            id,
        ) by {
            let k = choose|k: int| 0 <= k < before.seen.len() && before.seen[k] == id;
            assert(after.seen[k] == id);
        }
        assert(after.seen.contains(last.id@)) by {
            if !before.seen.contains(last.id@) {
                assert(after.seen[before.seen.len() as int] == last.id@);
            }
        }
        assert forall|i: int| 0 <= i < entries.len() implies after.seen.contains(
            (#[trigger] entries[i]).id@,
        ) by {
            if i < entries.len() - 1 {
                assert(entries.drop_last()[i] == entries[i]);
                assert(before.seen.contains(entries.drop_last()[i].id@));
            }
        }
    }
}

/// However many symbols a name stands for, and however often a caller or callee is
/// found, each is counted once, and everything that was found is counted.
pub proof fn law_calls_are_collected_once(roots: Seq<RootCalls>, full_index: bool)
    ensures
        collect_all(roots, full_index).seen.no_duplicates(),
        collect_all(roots, full_index).listed.len() <= collect_all(roots, full_index).seen.len(),
        forall|r: int, i: int|
            #![trigger roots[r].direct@[i]]
            0 <= r < roots.len() && 0 <= i < roots[r].direct@.len() ==> collect_all(
                roots,
                full_index,
            ).seen.contains(roots[r].direct@[i].id@),
    decreases roots.len(),
{
    if roots.len() > 0 {
        law_calls_are_collected_once(roots.drop_last(), full_index);
        let before = collect_all(roots.drop_last(), full_index);
        let direct = collect(before, roots.last().direct@);
        lemma_collect_keeps_distinct(before, roots.last().direct@);
        lemma_collect_keeps_distinct(direct, roots.last().candidates@);
        assert forall|r: int, i: int|
            #![trigger roots[r].direct@[i]]
            0 <= r < roots.len() && 0 <= i < roots[r].direct@.len() implies collect_all(
            roots,
            full_index,
        ).seen.contains(roots[r].direct@[i].id@) by {
            if r < roots.len() - 1 {
                assert(roots.drop_last()[r].direct@[i] == roots[r].direct@[i]);
                assert(before.seen.contains(roots[r].direct@[i].id@));
            }
            assert(direct.seen.contains(roots[r].direct@[i].id@));
        }
    }
}

/// The entries that count for some symbols, in order: what the graph holds of the first, its
/// unconfirmed edges where the index is not complete, and so on.
pub open spec fn all_entries(roots: Seq<RootCalls>, full_index: bool) -> Seq<CallEntry>
    decreases roots.len(),
{
    if roots.len() == 0 {
        Seq::empty()
    } else {
        all_entries(roots.drop_last(), full_index) + roots.last().direct@ + if full_index {
            Seq::empty()
        } else {
            roots.last().candidates@
        }
    }
}

/// Whether the entry at a place is the first of its symbol.
pub open spec fn is_first(entries: Seq<CallEntry>, at: int) -> bool {
    forall|k: int| 0 <= k < at ==> (#[trigger] entries[k]).id@ != entries[at].id@
}

/// The places of the entries that are listed: the first of each symbol, where it is stored.
pub open spec fn listed_places(entries: Seq<CallEntry>) -> Seq<int> {
    Seq::new(entries.len(), |i: int| i).filter(
        |at: int| is_first(entries, at) && entries[at].node is Some,
    )
}

/// Whether what was collected is what the entries hold, each symbol by its first entry.
spec fn holds_first(so_far: Collected, entries: Seq<CallEntry>) -> bool {
    &&& forall|id: Seq<u8>| #[trigger]
        so_far.seen.contains(id) <==> exists|k: int|
            0 <= k < entries.len() && (#[trigger] entries[k]).id@ == id
    &&& so_far.listed == Seq::new(
        listed_places(entries).len(),
        |i: int| entries[listed_places(entries)[i]].node->Some_0@,
    )
    &&& forall|i: int|
        0 <= i < listed_places(entries).len() ==> 0 <= #[trigger] listed_places(entries)[i]
            < entries.len()
}

proof fn lemma_places_go_on(entries: Seq<CallEntry>)
    requires
        entries.len() > 0,
    ensures
        listed_places(entries) == ({
            let n = entries.len() - 1;
            let before = listed_places(entries.drop_last());
            if is_first(entries, n) && entries[n].node is Some {
                before.push(n)
            } else {
                before
            }
        }),
{
    let fewer = entries.drop_last();
    let n = entries.len() - 1;
    let all = Seq::new(entries.len(), |i: int| i);
    let some = Seq::new(fewer.len(), |i: int| i);
    let keep = |at: int| is_first(entries, at) && entries[at].node is Some;
    let keep_fewer = |at: int| is_first(fewer, at) && fewer[at].node is Some;
    assert(all.drop_last() =~= some);
    reveal(Seq::filter);
    assert(all.filter(keep) == if keep(n) {
        some.filter(keep).push(n)
    } else {
        some.filter(keep)
    });
    assert forall|at: int| 0 <= at < n implies #[trigger] keep(at) == keep_fewer(at) by {
        assert(fewer[at] == entries[at]);
        if is_first(fewer, at) {
            assert forall|k: int| 0 <= k < at implies (#[trigger] entries[k]).id@
                != entries[at].id@ by {
                assert(fewer[k] == entries[k]);
            }
        }
        if is_first(entries, at) {
            assert forall|k: int| 0 <= k < at implies (#[trigger] fewer[k]).id@
                != fewer[at].id@ by {
                assert(fewer[k] == entries[k]);
            }
        }
    }
    lemma_filters_agree(some, keep, keep_fewer);
}

proof fn lemma_filters_agree(
    list: Seq<int>,
    keep: spec_fn(int) -> bool,
    other: spec_fn(int) -> bool,
)
    requires
        forall|i: int| 0 <= i < list.len() ==> keep(#[trigger] list[i]) == other(list[i]),
    ensures
        list.filter(keep) == list.filter(other),
    decreases list.len(),
{
    reveal(Seq::filter);
    if list.len() > 0 {
        assert forall|i: int| 0 <= i < list.drop_last().len() implies keep(
            #[trigger] list.drop_last()[i],
        ) == other(list.drop_last()[i]) by {
            assert(list.drop_last()[i] == list[i]);
        }
        assert(keep(list[list.len() - 1]) == other(list[list.len() - 1]));
        lemma_filters_agree(list.drop_last(), keep, other);
    }
}

proof fn lemma_one_more_entry(so_far: Collected, entries: Seq<CallEntry>, entry: CallEntry)
    requires
        holds_first(so_far, entries),
    ensures
        holds_first(collect_one(so_far, entry), entries.push(entry)),
{
    let all = entries.push(entry);
    let after = collect_one(so_far, entry);
    let n = entries.len() as int;
    assert(all.drop_last() =~= entries);
    lemma_places_go_on(all);
    let (old_places, places) = (listed_places(entries), listed_places(all));
    assert(is_first(all, n) == !so_far.seen.contains(entry.id@)) by {
        if so_far.seen.contains(entry.id@) {
            let k = choose|k: int| 0 <= k < entries.len() && (#[trigger] entries[k]).id@ == entry.id@;
            assert(all[k].id@ == all[n].id@);
        } else {
            assert forall|k: int| 0 <= k < n implies (#[trigger] all[k]).id@ != all[n].id@ by {
                assert(all[k] == entries[k]);
            }
        }
    }
    assert forall|id: Seq<u8>| #[trigger] after.seen.contains(id) <==> exists|k: int|
        0 <= k < all.len() && (#[trigger] all[k]).id@ == id by {
        if after.seen.contains(id) {
            let m = choose|m: int| 0 <= m < after.seen.len() && after.seen[m] == id;
            if m < so_far.seen.len() {
                assert(so_far.seen[m] == id);
                assert(so_far.seen.contains(id));
                let k = choose|k: int| 0 <= k < entries.len() && (#[trigger] entries[k]).id@ == id;
                assert(all[k].id@ == id);
            } else {
                assert(all[n].id@ == id);
            }
        }
        if exists|k: int| 0 <= k < all.len() && (#[trigger] all[k]).id@ == id {
            let k = choose|k: int| 0 <= k < all.len() && (#[trigger] all[k]).id@ == id;
            if k < n {
                assert(entries[k].id@ == id);
                assert(so_far.seen.contains(id));
            }
            if so_far.seen.contains(id) {
                let m = choose|m: int| 0 <= m < so_far.seen.len() && so_far.seen[m] == id;
                assert(after.seen[m] == id);
            } else {
                assert(after.seen[so_far.seen.len() as int] == id);
            }
        }
    }
    assert forall|i: int| 0 <= i < places.len() implies 0 <= #[trigger] places[i] < all.len() by {
        if i < old_places.len() {
            assert(places[i] == old_places[i]);
        }
    }
    assert(after.listed =~= Seq::new(places.len(), |i: int| all[places[i]].node->Some_0@)) by {
        assert forall|i: int| 0 <= i < old_places.len() implies all[#[trigger] old_places[i]]
            == entries[old_places[i]] by {}
    }
}

proof fn lemma_more_entries(so_far: Collected, entries: Seq<CallEntry>, more: Seq<CallEntry>)
    requires
        holds_first(so_far, entries),
    ensures
        holds_first(collect(so_far, more), entries + more),
    decreases more.len(),
{
    if more.len() > 0 {
        lemma_more_entries(so_far, entries, more.drop_last());
        lemma_one_more_entry(
            collect(so_far, more.drop_last()),
            entries + more.drop_last(),
            more.last(),
        );
        assert((entries + more.drop_last()).push(more.last()) =~= entries + more);
    } else {
        assert(entries + more =~= entries);
    }
}

proof fn lemma_all_entries_are_held(roots: Seq<RootCalls>, full_index: bool)
    ensures
        holds_first(collect_all(roots, full_index), all_entries(roots, full_index)),
    decreases roots.len(),
{
    if roots.len() == 0 {
        reveal(Seq::filter);
        let none = Seq::<CallEntry>::empty();
        assert(Seq::new(0, |i: int| i) =~= Seq::<int>::empty());
        assert(listed_places(none).len() == 0);
        assert(collect_all(roots, full_index).listed =~= Seq::new(
            0,
            |i: int| none[listed_places(none)[i]].node->Some_0@,
        ));
    } else {
        let fewer = roots.drop_last();
        let last = roots.last();
        lemma_all_entries_are_held(fewer, full_index);
        let before = collect_all(fewer, full_index);
        let entries = all_entries(fewer, full_index);
        lemma_more_entries(before, entries, last.direct@);
        if full_index {
            assert(entries + last.direct@ + Seq::<CallEntry>::empty() =~= entries + last.direct@);
        } else {
            lemma_more_entries(
                collect(before, last.direct@),
                entries + last.direct@,
                last.candidates@,
            );
        }
    }
}

proof fn lemma_entries_of_a_root(roots: Seq<RootCalls>, full_index: bool, r: int)
    requires
        0 <= r < roots.len(),
    ensures
        forall|i: int|
            0 <= i < roots[r].direct@.len() ==> all_entries(roots, full_index).contains(
                #[trigger] roots[r].direct@[i],
            ),
        !full_index ==> forall|i: int|
            0 <= i < roots[r].candidates@.len() ==> all_entries(roots, full_index).contains(
                #[trigger] roots[r].candidates@[i],
            ),
    decreases roots.len(),
{
    let fewer = roots.drop_last();
    let before = all_entries(fewer, full_index);
    let all = all_entries(roots, full_index);
    let last = roots.last();
    if r < roots.len() - 1 {
        lemma_entries_of_a_root(fewer, full_index, r);
        assert(fewer[r] == roots[r]);
        assert forall|entry: CallEntry| before.contains(entry) implies #[trigger] all.contains(
            entry,
        ) by {
            let k = choose|k: int| 0 <= k < before.len() && before[k] == entry;
            assert(all[k] == entry);
        }
    } else {
        assert forall|i: int| 0 <= i < last.direct@.len() implies all.contains(
            #[trigger] last.direct@[i],
        ) by {
            assert(all[before.len() + i] == last.direct@[i]);
        }
        if !full_index {
            assert forall|i: int| 0 <= i < last.candidates@.len() implies all.contains(
                #[trigger] last.candidates@[i],
            ) by {
                assert(all[before.len() + last.direct@.len() + i] == last.candidates@[i]);
            }
        }
    }
}

/// What is listed of callers or callees is, in order, what is stored of the first entry of
/// each symbol: of all the symbols that the name stands for, what the graph holds, and the
/// unconfirmed edges where the index is not complete.
pub proof fn law_calls_of_all_symbols_are_listed(roots: Seq<RootCalls>, full_index: bool)
    ensures
        ({
            let entries = all_entries(roots, full_index);
            let places = listed_places(entries);
            let listed = collect_all(roots, full_index).listed;
            &&& listed.len() == places.len()
            &&& forall|i: int|
                0 <= i < listed.len() ==> 0 <= places[i] < entries.len() && Some(
                    #[trigger] listed[i],
                ) == match entries[places[i]].node {
                    Some(node) => Some(node@),
                    None => None,
                }
            &&& forall|i: int, j: int|
                0 <= i < j < places.len() ==> #[trigger] places[i] < #[trigger] places[j]
            &&& forall|at: int|
                0 <= at < entries.len() && #[trigger] is_first(entries, at) && entries[at].node
                    is Some ==> listed.contains(entries[at].node->Some_0@)
            &&& forall|r: int, i: int|
                #![trigger roots[r].direct@[i]]
                0 <= r < roots.len() && 0 <= i < roots[r].direct@.len() ==> entries.contains(
                    roots[r].direct@[i],
                )
            &&& !full_index ==> forall|r: int, i: int|
                #![trigger roots[r].candidates@[i]]
                0 <= r < roots.len() && 0 <= i < roots[r].candidates@.len() ==> entries.contains(
                    roots[r].candidates@[i],
                )
        }),
{
    lemma_all_entries_are_held(roots, full_index);
    let entries = all_entries(roots, full_index);
    let places = listed_places(entries);
    let listed = collect_all(roots, full_index).listed;
    lemma_listed_places(entries);
    assert forall|at: int|
        0 <= at < entries.len() && #[trigger] is_first(entries, at) && entries[at].node
            is Some implies listed.contains(entries[at].node->Some_0@) by {
        assert(places.contains(at));
        let i = choose|i: int| 0 <= i < places.len() && places[i] == at;
        assert(listed[i] == entries[at].node->Some_0@);
    }
    assert forall|r: int, i: int|
        #![trigger roots[r].direct@[i]]
        0 <= r < roots.len() && 0 <= i < roots[r].direct@.len() implies entries.contains(
        roots[r].direct@[i],
    ) by {
        lemma_entries_of_a_root(roots, full_index, r);
    }
    if !full_index {
        assert forall|r: int, i: int|
            #![trigger roots[r].candidates@[i]]
            0 <= r < roots.len() && 0 <= i < roots[r].candidates@.len() implies entries.contains(
            roots[r].candidates@[i],
        ) by {
            lemma_entries_of_a_root(roots, full_index, r);
        }
    }
}

proof fn lemma_listed_places(entries: Seq<CallEntry>)
    ensures
        forall|i: int|
            0 <= i < listed_places(entries).len() ==> 0 <= #[trigger] listed_places(entries)[i]
                < entries.len() && is_first(entries, listed_places(entries)[i])
                && entries[listed_places(entries)[i]].node is Some,
        forall|i: int, j: int|
            0 <= i < j < listed_places(entries).len() ==> #[trigger] listed_places(entries)[i]
                < #[trigger] listed_places(entries)[j],
        forall|at: int|
            0 <= at < entries.len() && is_first(entries, at) && (#[trigger] entries[at]).node
                is Some ==> listed_places(entries).contains(at),
    decreases entries.len(),
{
    reveal(Seq::filter);
    if entries.len() > 0 {
        let fewer = entries.drop_last();
        let n = entries.len() - 1;
        lemma_listed_places(fewer);
        lemma_places_go_on(entries);
        let (before, places) = (listed_places(fewer), listed_places(entries));
        assert forall|at: int| 0 <= at < n implies is_first(entries, at) == is_first(fewer, at) by {
            assert forall|k: int| 0 <= k < at implies entries[k] == #[trigger] fewer[k] by {}
            if is_first(fewer, at) {
                assert forall|k: int| 0 <= k < at implies (#[trigger] entries[k]).id@
                    != entries[at].id@ by {
                    assert(fewer[k].id@ != fewer[at].id@);
                }
            }
        }
        assert forall|i: int| 0 <= i < places.len() implies 0 <= #[trigger] places[i]
            < entries.len() && is_first(entries, places[i]) && entries[places[i]].node is Some by {
            if i < before.len() {
                assert(places[i] == before[i]);
                assert(fewer[before[i]] == entries[before[i]]);
            }
        }
        assert forall|i: int, j: int| 0 <= i < j < places.len() implies #[trigger] places[i]
            < #[trigger] places[j] by {
            assert(places[i] == before[i]);
            if j < before.len() {
                assert(places[j] == before[j]);
            }
        }
        assert forall|at: int|
            0 <= at < entries.len() && is_first(entries, at) && (#[trigger] entries[at]).node
                is Some implies places.contains(at) by {
            if at < n {
                assert(fewer[at] == entries[at]);
                assert(before.contains(at));
                let i = choose|i: int| 0 <= i < before.len() && before[i] == at;
                assert(places[i] == at);
            } else {
                assert(places[before.len() as int] == at);
            }
        }
    }
}

/// The far ends of unconfirmed edges are those of the edges that are followed and have a
/// whole identifier at that end, in the order of the edges: the sources where callers are
/// looked for, the targets where callees are.
pub proof fn law_candidate_ends_are_those_of_followed_edges(
    edges: Seq<CandidateEdge>,
    allowed: Seq<EdgeKind>,
)
    ensures
        ({
            let from = candidate_ends(edges, allowed, CallSide::Incoming);
            let kept = edges.filter(
                |edge: CandidateEdge|
                    kind_passes(edge.kind@, allowed) && edge.source@.len() == 32,
            );
            &&& from.len() == kept.len()
            &&& forall|i: int| 0 <= i < from.len() ==> #[trigger] from[i] == kept[i].source@
        }),
        ({
            let to = candidate_ends(edges, allowed, CallSide::Outgoing);
            let kept = edges.filter(
                |edge: CandidateEdge|
                    kind_passes(edge.kind@, allowed) && (edge.target matches Some(target)
                        && target@.len() == 32),
            );
            &&& to.len() == kept.len()
            &&& forall|i: int|
                0 <= i < to.len() ==> (kept[i].target matches Some(target) && #[trigger] to[i]
                    == target@)
        }),
    decreases edges.len(),
{
    reveal(Seq::filter);
    if edges.len() > 0 {
        law_candidate_ends_are_those_of_followed_edges(edges.drop_last(), allowed);
    }
}

/// A caller or callee is listed with the name, kind, file, line counted from one, and
/// signature of its symbol.
pub proof fn law_listed_call_tells_its_symbol(symbol: SymbolFacts)
    ensures
        ({
            let listed = symbol_view(symbol);
            &&& listed.text_field("name"@) == Some(symbol.name@)
            &&& listed.text_field("qualified_name"@) == Some(symbol.qualified_name@)
            &&& listed.text_field("kind"@) == Some(symbol.kind_name@)
            &&& listed.text_field("file"@) == Some(symbol.file_path@)
            &&& symbol.start_line < u32::MAX ==> listed.unsigned_field("line"@) == Some(
                (symbol.start_line + 1) as u64,
            )
            &&& listed.text_field("signature"@) == crate::text::string_view(symbol.signature)
        }),
{
    reveal_strlit("name");
    reveal_strlit("qualified_name");
    reveal_strlit("kind");
    reveal_strlit("file");
    reveal_strlit("line");
    reveal_strlit("signature");
    assert("name"@.len() != "qualified_name"@.len());
    assert("name"@[0] != "kind"@[0]);
    assert("name"@[0] != "file"@[0]);
    assert("name"@[0] != "line"@[0]);
    assert("name"@.len() != "signature"@.len());
    assert("qualified_name"@.len() != "kind"@.len());
    assert("qualified_name"@.len() != "file"@.len());
    assert("qualified_name"@.len() != "line"@.len());
    assert("qualified_name"@.len() != "signature"@.len());
    assert("kind"@[0] != "file"@[0]);
    assert("kind"@[0] != "line"@[0]);
    assert("kind"@.len() != "signature"@.len());
    assert("file"@[0] != "line"@[0]);
    assert("file"@.len() != "signature"@.len());
    assert("line"@.len() != "signature"@.len());
}

/// Whether values are listed: the number of all of them, and the first ones, in order,
/// as far as the limit goes.
pub open spec fn lists_first(
    body: JsonView,
    total_name: Seq<char>,
    list_name: Seq<char>,
    values: Seq<JsonView>,
    limit: nat,
) -> bool {
    &&& body.unsigned_field(total_name) == Some(values.len() as u64)
    &&& body.field(list_name) matches Some(JsonView::Array(listed)) && listed.len() <= limit
        && listed.len() <= values.len() && (listed.len() == limit || listed.len() == values.len())
        && forall|i: int| 0 <= i < listed.len() ==> #[trigger] listed[i] == values[i]
}

/// A response on callers counts all of them and lists the first; how the name was resolved
/// is told where it stands for several symbols, and that the list may not be complete
/// where not everything is indexed.
pub proof fn law_callers_are_counted_and_listed(
    qname: Seq<char>,
    listed: Seq<JsonView>,
    limit: nat,
    meta: JsonView,
    count: nat,
    full_index: bool,
)
    ensures
        ({
            let body = JsonView::Object(
                callers_fields(qname, listed, limit, meta, count, full_index),
            );
            &&& body.text_field("symbol"@) == Some(qname)
            &&& lists_first(body, "total_callers"@, "callers"@, listed, limit)
            &&& body.field("resolution"@) == if count > 1 {
                Some(meta)
            } else {
                None
            }
            &&& body.field("note"@) is None == full_index
        }),
{
    reveal_strlit("symbol");
    reveal_strlit("total_callers");
    reveal_strlit("callers");
    reveal_strlit("resolution");
    reveal_strlit("note");
    assert("symbol"@.len() != "total_callers"@.len());
    assert("symbol"@.len() != "callers"@.len());
    assert("symbol"@.len() != "resolution"@.len());
    assert("symbol"@.len() != "note"@.len());
    assert("total_callers"@.len() != "callers"@.len());
    assert("total_callers"@.len() != "resolution"@.len());
    assert("total_callers"@.len() != "note"@.len());
    assert("callers"@.len() != "resolution"@.len());
    assert("callers"@.len() != "note"@.len());
    assert("resolution"@.len() != "note"@.len());
}

/// A response on callees counts all of them and lists the first, and lists the calls that
/// resolve to nothing where there are any.
pub proof fn law_callees_are_counted_and_listed(
    qname: Seq<char>,
    listed: Seq<JsonView>,
    limit: nat,
    unresolved: Seq<JsonView>,
    total_unresolved: nat,
    meta: JsonView,
    count: nat,
    full_index: bool,
)
    ensures
        ({
            let body = JsonView::Object(
                callees_fields(
                    qname,
                    listed,
                    limit,
                    unresolved,
                    total_unresolved,
                    meta,
                    count,
                    full_index,
                ),
            );
            &&& body.text_field("symbol"@) == Some(qname)
            &&& lists_first(body, "total_callees"@, "callees"@, listed, limit)
            &&& body.unsigned_field("total_unresolved_callees"@) == if total_unresolved > 0 {
                Some(total_unresolved as u64)
            } else {
                None
            }
            &&& body.field("unresolved_callees"@) == if total_unresolved > 0 {
                Some(JsonView::Array(unresolved))
            } else {
                None
            }
            &&& body.field("resolution"@) == if count > 1 {
                Some(meta)
            } else {
                None
            }
            &&& body.field("note"@) is None == full_index
        }),
{
    reveal_strlit("symbol");
    reveal_strlit("total_callees");
    reveal_strlit("callees");
    reveal_strlit("total_unresolved_callees");
    reveal_strlit("unresolved_callees");
    reveal_strlit("unresolved_callee_note");
    reveal_strlit("resolution");
    reveal_strlit("note");
    assert("symbol"@.len() != "total_callees"@.len());
    assert("symbol"@.len() != "callees"@.len());
    assert("symbol"@.len() != "total_unresolved_callees"@.len());
    assert("symbol"@.len() != "unresolved_callees"@.len());
    assert("symbol"@.len() != "unresolved_callee_note"@.len());
    assert("symbol"@.len() != "resolution"@.len());
    assert("symbol"@.len() != "note"@.len());
    assert("total_callees"@.len() != "callees"@.len());
    assert("total_callees"@.len() != "total_unresolved_callees"@.len());
    assert("total_callees"@.len() != "unresolved_callees"@.len());
    assert("total_callees"@.len() != "unresolved_callee_note"@.len());
    assert("total_callees"@.len() != "resolution"@.len());
    assert("total_callees"@.len() != "note"@.len());
    assert("callees"@.len() != "total_unresolved_callees"@.len());
    assert("callees"@.len() != "unresolved_callees"@.len());
    assert("callees"@.len() != "unresolved_callee_note"@.len());
    assert("callees"@.len() != "resolution"@.len());
    assert("callees"@.len() != "note"@.len());
    assert("total_unresolved_callees"@.len() != "unresolved_callees"@.len());
    assert("total_unresolved_callees"@.len() != "unresolved_callee_note"@.len());
    assert("total_unresolved_callees"@.len() != "resolution"@.len());
    assert("total_unresolved_callees"@.len() != "note"@.len());
    assert("unresolved_callees"@.len() != "unresolved_callee_note"@.len());
    assert("unresolved_callees"@.len() != "resolution"@.len());
    assert("unresolved_callees"@.len() != "note"@.len());
    assert("unresolved_callee_note"@.len() != "resolution"@.len());
    assert("unresolved_callee_note"@.len() != "note"@.len());
    assert("resolution"@.len() != "note"@.len());
}

/// No warning is lost: those there were come first, and at most one follows, where not
/// everything is indexed.
pub proof fn law_warnings_on_calls_are_kept(
    warnings: Seq<Seq<char>>,
    total_unresolved: nat,
    full_index: bool,
)
    ensures
        warnings.is_prefix_of(callers_warnings_of(warnings, full_index)),
        callers_warnings_of(warnings, full_index).len() == warnings.len() + if full_index {
            0int
        } else {
            1
        },
        warnings.is_prefix_of(callees_warnings_of(warnings, total_unresolved, full_index)),
        callees_warnings_of(warnings, total_unresolved, full_index).len() == warnings.len() + if
            full_index || total_unresolved == 0 {
            0int
        } else {
            1
        },
{
}

/// A request for callers or callees that names a depth is warned, once, and nothing that it
/// was warned of before is lost; a request that names none is warned of nothing more.
pub proof fn law_depth_is_warned_of(
    warnings: Seq<Seq<char>>,
    args: JsonView,
    side: CallSide,
)
    ensures
        warnings.is_prefix_of(calls_warnings(warnings, args, side)),
        calls_warnings(warnings, args, side).len() == warnings.len() + if args.field("depth"@)
            is Some {
            1int
        } else {
            0
        },
{
}

/// Calls are looked up for every symbol that the name stands for, and for none where it
/// stands for nothing; then the name is told, or why there is none.
pub proof fn law_roots_are_what_the_name_stands_for(
    roots: Roots,
    resolution: SymbolResolution,
    qname: Seq<char>,
    detail: Seq<char>,
)
    requires
        roots_are(roots, resolution, qname, detail),
    ensures
        roots is Found <==> resolution is Single || (
        resolution matches SymbolResolution::Ambiguous { candidates, .. } && candidates@.len() > 0),
        roots is Missing <==> resolution is NotFound,
        roots matches Roots::Found { ids, .. } ==> match resolution {
            SymbolResolution::Single { symbol_id, .. } => ids@.len() == 1 && ids@[0]@
                == symbol_id@,
            SymbolResolution::Ambiguous { candidates, .. } => ids@.len() == candidates@.len()
                && forall|i: int|
                0 <= i < ids@.len() ==> (#[trigger] ids@[i])@ == candidates@[i].symbol_id@,
            SymbolResolution::NotFound { .. } => false,
        },
{
    if let Roots::Found { ids, .. } = roots {
        assert forall|i: int| 0 <= i < ids@.len() implies (#[trigger] ids@[i])@
            == resolution_ids(resolution)[i] by {
            assert(ids_view(ids@)[i] == ids@[i]@);
        }
        assert(ids_view(ids@).len() == ids@.len());
    }
}

/// A request that names a symbol is accepted exactly where it names one and the name is not
/// too long; and a request for a call graph where its edge kinds can be read as well. An
/// argument that could not be read is told as it is.
pub proof fn law_readable_symbols_are_accepted(
    args: JsonView,
    input: Result<SymbolInput, String>,
    max_name_length: nat,
)
    ensures
        symbol_refusal(input, max_name_length) is None <==> (input matches Ok(symbol) && byte_len(
            match symbol {
                SymbolInput::Name(name) => name@,
                SymbolInput::Selector(selector) => selector.qualified_name@,
            },
        ) <= max_name_length),
        input matches Err(e) ==> symbol_refusal(input, max_name_length) == Some(e@),
        call_graph_refusal(args, input, max_name_length) is None <==> symbol_refusal(
            input,
            max_name_length,
        ) is None && call_filter(args) is Ok,
        symbol_refusal(input, max_name_length) is Some ==> call_graph_refusal(
            args,
            input,
            max_name_length,
        ) == symbol_refusal(input, max_name_length),
{
}

/// The symbols are handed on with what is told of how the name was resolved, a missing name
/// with what it is needed for.
pub proof fn law_roots_tell_how_they_were_found(
    roots: Roots,
    resolution: SymbolResolution,
    qname: Seq<char>,
    detail: Seq<char>,
)
    requires
        roots_are(roots, resolution, qname, detail),
    ensures
        roots matches Roots::Found { meta, .. } ==> meta@ == endpoint_meta(resolution),
        roots matches Roots::Missing { qname: name, detail: told } ==> told@ == detail && (
        resolution matches SymbolResolution::NotFound { qname: missing, .. } && name@ == missing@),
{
}

/// A name that resolved to no symbols is told with the name that was asked for.
pub proof fn law_empty_resolutions_are_told(
    roots: Roots,
    resolution: SymbolResolution,
    qname: Seq<char>,
    detail: Seq<char>,
)
    requires
        roots_are(roots, resolution, qname, detail),
    ensures
        roots matches Roots::Failed(message) ==> crate::text::holds_text(message@, qname),
{
    if let Roots::Failed(message) = roots {
        let end = "' resolved but no matching symbols found"@;
        crate::text::law_text_holds_its_parts("Symbol '"@, qname, end);
        assert(message@ == "Symbol '"@ + qname + end);
    }
}

} // verus!
