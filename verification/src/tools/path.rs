//! Paths between two symbols: what a request asks for, which pairs of symbols are
//! tried, and what is answered when a path is found or not.

use vstd::prelude::*;
use vstd::string::*;

use crate::digest::{encode_hex, hex_text};
use crate::json::{items_view, no_fields, Json, JsonObject, JsonView};
use crate::text::{byte_len, decimal, push_decimal, same_text, string_view, strings_view};
use crate::tools::args::{flag_arg, flag_of, number_arg, number_of};
use crate::tools::edges::{edge_name, kinds_view, path_filter, resolve_path_edge_kinds, EdgeKind};
use crate::tools::symbols::{
    build_resolution_meta_for_path, candidate_json, candidate_view, endpoint_meta, ids_view,
    input_name, is_callable_kind, missing_name, name_too_long, not_found_resolution_qname,
    resolution_ids, resolution_to_symbol_ids_and_meta, same_symbol, symbol_input_qname,
    unresolved_message, validate_symbol_name_length, SymbolFacts, SymbolId, SymbolInput, SymbolKind,
    SymbolResolution, MAX_AMBIGUOUS_CANDIDATES,
};

verus! {

/// The longest path that is searched for.
pub const MAX_PATH_DEPTH: u64 = 10;

/// How many paths are ranked.
pub const MAX_RANKED_PATHS: usize = 5;

/// How many frontier nodes are listed when there is no path.
pub const MAX_FRONTIER_NODES: usize = 20;

/// How many dispatch boundaries are looked for on a poor path.
pub const MAX_BOUNDARIES: usize = 5;

/// The edges that a traversal follows.
#[derive(Clone, Copy, Debug, PartialEq, Eq, Structural)]
pub enum TraversalDirection {
    Outgoing,
    Incoming,
    Both,
}

/// The direction that a path request asks for: forward, unless it names another.
pub open spec fn path_direction(args: JsonView) -> TraversalDirection {
    match args.text_field("direction"@) {
        Some(d) => if d == "incoming"@ {
            TraversalDirection::Incoming
        } else if d == "both"@ {
            TraversalDirection::Both
        } else {
            TraversalDirection::Outgoing
        },
        None => TraversalDirection::Outgoing,
    }
}

/// The direction that a path request asks for.
pub fn resolve_path_direction(args: &Json) -> (direction: TraversalDirection)
    ensures
        direction == path_direction(args@),
{
    match args.get_str("direction") {
        Some(d) => if same_text(d, "incoming") {
            TraversalDirection::Incoming
        } else if same_text(d, "both") {
            TraversalDirection::Both
        } else {
            TraversalDirection::Outgoing
        },
        None => TraversalDirection::Outgoing,
    }
}

/// What a path request asks for.
pub struct PathPlan {
    pub from: SymbolInput,
    pub to: SymbolInput,
    pub max_depth: u64,
    pub prefer_production: bool,
    pub include_code: bool,
    pub direction: TraversalDirection,
    /// The edges to follow: all, where there is no list.
    pub edge_kinds: Option<Vec<EdgeKind>>,
}

impl PathPlan {
    /// How far the search goes.
    pub open spec fn reach(self) -> u64 {
        if self.max_depth < MAX_PATH_DEPTH {
            self.max_depth
        } else {
            MAX_PATH_DEPTH
        }
    }

    /// How far the search goes.
    pub fn search_depth(&self) -> (depth: u64)
        ensures
            depth == self.reach(),
    {
        if self.max_depth < MAX_PATH_DEPTH {
            self.max_depth
        } else {
            MAX_PATH_DEPTH
        }
    }
}

/// Why a path request is refused: the first of its endpoints that is no symbol,
/// the first whose name is too long, or its edge kinds.
pub open spec fn path_refusal(
    args: JsonView,
    from: Result<SymbolInput, String>,
    to: Result<SymbolInput, String>,
    max_name_length: nat,
) -> Option<Seq<char>> {
    match (from, to) {
        (Err(e), _) => Some(e@),
        (Ok(_), Err(e)) => Some(e@),
        (Ok(f), Ok(t)) => if byte_len(input_name(f)) > max_name_length || byte_len(input_name(t))
            > max_name_length {
            Some(name_too_long(max_name_length))
        } else {
            match path_filter(args) {
                Err(e) => Some(e),
                Ok(_) => None,
            }
        },
    }
}

/// Reads a path request. The endpoints are what its `from` and `to` arguments were
/// read as.
pub fn plan_path(
    args: &Json,
    from: Result<SymbolInput, String>,
    to: Result<SymbolInput, String>,
    max_name_length: usize,
) -> (plan: Result<PathPlan, String>)
    ensures
        match plan {
            Ok(p) => path_refusal(args@, from, to, max_name_length as nat) is None && from == Ok::<
                SymbolInput,
                String,
            >(p.from) && to == Ok::<SymbolInput, String>(p.to) && p.max_depth == number_of(
                args@,
                "max_depth"@,
                5,
            ) && p.prefer_production == flag_of(args@, "prefer_production"@, false)
                && p.include_code == flag_of(args@, "includeCode"@, false) && p.direction
                == path_direction(args@) && path_filter(args@) == Ok::<
                Option<Seq<EdgeKind>>,
                Seq<char>,
            >(kinds_view(p.edge_kinds)),
            Err(e) => path_refusal(args@, from, to, max_name_length as nat) == Some(e@),
        },
{
    let from_input = match from {
        Ok(input) => input,
        Err(e) => return Err(e),
    };
    let to_input = match to {
        Ok(input) => input,
        Err(e) => return Err(e),
    };
    match validate_symbol_name_length(symbol_input_qname(&from_input), max_name_length) {
        Ok(_) => {},
        Err(e) => return Err(e),
    }
    match validate_symbol_name_length(symbol_input_qname(&to_input), max_name_length) {
        Ok(_) => {},
        Err(e) => return Err(e),
    }
    match resolve_path_edge_kinds(args) {
        Ok(edge_kinds) => Ok(
            PathPlan {
                from: from_input,
                to: to_input,
                max_depth: number_arg(args, "max_depth", 5),
                prefer_production: flag_arg(args, "prefer_production", false),
                include_code: flag_arg(args, "includeCode", false),
                direction: resolve_path_direction(args),
                edge_kinds,
            },
        ),
        Err(e) => Err(e),
    }
}

/// What became of an endpoint of a path.
pub enum Endpoint {
    /// The symbols that it stands for.
    Found(Vec<SymbolId>),
    /// It is not known yet: the request may be repeated later.
    Missing { qname: String, detail: String },
    /// It cannot be used.
    Failed(String),
}

/// The source of a path, from what its name resolves to.
pub fn source_endpoint(resolution: &SymbolResolution, qname: &str) -> (endpoint: Endpoint)
    ensures
        match endpoint {
            Endpoint::Found(ids) => resolution_ids(*resolution).len() > 0 && ids_view(ids@)
                == resolution_ids(*resolution),
            Endpoint::Missing { qname: name, detail } => missing_name(*resolution) == Some(name@)
                && detail@ == "path requires the source symbol to be materialized first"@,
            Endpoint::Failed(e) => resolution_ids(*resolution).len() == 0 && missing_name(
                *resolution,
            ) is None && e@ == unresolved_message(*resolution, qname@),
        },
{
    match resolution_to_symbol_ids_and_meta(resolution, qname) {
        Ok((ids, _)) => Endpoint::Found(ids),
        Err(e) => match not_found_resolution_qname(resolution) {
            Some(name) => Endpoint::Missing {
                qname: name.to_owned(),
                detail: "path requires the source symbol to be materialized first".to_owned(),
            },
            None => Endpoint::Failed(e),
        },
    }
}

/// What a request is told of a target that is not known yet.
pub open spec fn target_detail(hint: Option<Seq<char>>) -> Seq<char> {
    match hint {
        Some(h) => h,
        None => "path requires the target symbol to be materialized first"@,
    }
}

/// What a request is told whose target stands for nothing.
pub open spec fn target_failure(message: Seq<char>, hint: Option<Seq<char>>) -> Seq<char> {
    match hint {
        Some(h) => message + "."@ + h,
        None => message,
    }
}

/// The target of a path, from what its name resolves to and what is known of it as
/// an unresolved call of the source.
pub fn target_endpoint(
    resolution: &SymbolResolution,
    qname: &str,
    hint: Option<String>,
) -> (endpoint: Endpoint)
    ensures
        match endpoint {
            Endpoint::Found(ids) => resolution_ids(*resolution).len() > 0 && ids_view(ids@)
                == resolution_ids(*resolution),
            Endpoint::Missing { qname: name, detail } => missing_name(*resolution) == Some(name@)
                && detail@ == target_detail(string_view(hint)),
            Endpoint::Failed(e) => resolution_ids(*resolution).len() == 0 && missing_name(
                *resolution,
            ) is None && e@ == target_failure(
                unresolved_message(*resolution, qname@),
                string_view(hint),
            ),
        },
{
    match resolution_to_symbol_ids_and_meta(resolution, qname) {
        Ok((ids, _)) => Endpoint::Found(ids),
        Err(e) => match not_found_resolution_qname(resolution) {
            Some(name) => Endpoint::Missing {
                qname: name.to_owned(),
                detail: match hint {
                    Some(h) => h,
                    None => "path requires the target symbol to be materialized first".to_owned(),
                },
            },
            None => match hint {
                Some(h) => {
                    let mut message = e;
                    message.append(".");
                    message.append(h.as_str());
                    Endpoint::Failed(message)
                },
                None => Endpoint::Failed(e),
            },
        },
    }
}

/// A symbol that an endpoint stands for.
pub struct Matched {
    pub id: SymbolId,
    /// The stored symbol.
    pub symbol: Option<SymbolFacts>,
    /// The file of the symbol, by its path or else by its identifier.
    pub location: String,
    /// Whether the symbol is in the graph.
    pub in_graph: bool,
}

/// Whether a pair of symbols is tried: both are in the graph, and a symbol is not
/// looked for from itself when both endpoints have the same name.
pub open spec fn pair_is_tried(
    from: Seq<Matched>,
    to: Seq<Matched>,
    same_name: bool,
    i: int,
    j: int,
) -> bool {
    from[i].in_graph && to[j].in_graph && !(same_name && from[i].id@ == to[j].id@)
}

/// Whether one pair comes before another: sources in order, and for each the
/// targets in order.
pub open spec fn pair_before(a: (int, int), b: (int, int)) -> bool {
    a.0 < b.0 || a.0 == b.0 && a.1 < b.1
}

/// The first pair to try at or after a pair.
pub fn next_pair(
    from: &Vec<Matched>,
    to: &Vec<Matched>,
    same_name: bool,
    start: (usize, usize),
) -> (pair: Option<(usize, usize)>)
    ensures
        match pair {
            Some((a, b)) => a < from@.len() && b < to@.len() && pair_is_tried(
                from@,
                to@,
                same_name,
                a as int,
                b as int,
            ) && !pair_before((a as int, b as int), (start.0 as int, start.1 as int)) && forall|
                i: int,
                j: int,
            |
                #![trigger pair_is_tried(from@, to@, same_name, i, j)]
                0 <= i < from@.len() && 0 <= j < to@.len() && !pair_before(
                    (i, j),
                    (start.0 as int, start.1 as int),
                ) && pair_before((i, j), (a as int, b as int)) ==> !pair_is_tried(
                    from@,
                    to@,
                    same_name,
                    i,
                    j,
                ),
            None => forall|i: int, j: int|
                #![trigger pair_is_tried(from@, to@, same_name, i, j)]
                0 <= i < from@.len() && 0 <= j < to@.len() && !pair_before(
                    (i, j),
                    (start.0 as int, start.1 as int),
                ) ==> !pair_is_tried(from@, to@, same_name, i, j),
        },
{
    let mut i: usize = start.0;
    let mut j: usize = start.1;
    while i < from.len()
        invariant
            start.0 <= i,
            i <= from@.len() || i == start.0,
            !pair_before((i as int, j as int), (start.0 as int, start.1 as int)),
            i != start.0 ==> j == 0,
            forall|a: int, b: int|
                #![trigger pair_is_tried(from@, to@, same_name, a, b)]
                0 <= a < from@.len() && 0 <= b < to@.len() && !pair_before(
                    (a, b),
                    (start.0 as int, start.1 as int),
                ) && a < i ==> !pair_is_tried(from@, to@, same_name, a, b),
            i == start.0 ==> j == start.1,
        decreases from@.len() - i,
    {
        while j < to.len()
            invariant
                i < from@.len(),
                start.0 <= i,
                !pair_before((i as int, j as int), (start.0 as int, start.1 as int)),
                forall|a: int, b: int|
                    #![trigger pair_is_tried(from@, to@, same_name, a, b)]
                    0 <= a < from@.len() && 0 <= b < to@.len() && !pair_before(
                        (a, b),
                        (start.0 as int, start.1 as int),
                    ) && pair_before((a, b), (i as int, j as int)) ==> !pair_is_tried(
                        from@,
                        to@,
                        same_name,
                        a,
                        b,
                    ),
            decreases to@.len() - j,
        {
            if from[i].in_graph && to[j].in_graph && !(same_name && same_symbol(
                from[i].id,
                to[j].id,
            )) {
                return Some((i, j));
            }
            j = j + 1;
        }
        i = i + 1;
        j = 0;
    }
    None
}

/// A node of a path.
pub struct PathNode {
    pub qualified_name: String,
    /// The node as it is listed by itself.
    pub summary: JsonObject,
    /// The source of the symbol, where it can be read.
    pub source: Option<String>,
    /// The edges that lead to the node, each with the name of the node that it
    /// comes from.
    pub incoming: Vec<(EdgeKind, String)>,
}

/// An edge of a path.
pub struct PathStep {
    pub kind: EdgeKind,
    pub direction: String,
    pub confidence: Json,
}

/// A place where a path may not be what happens.
pub struct Breakpoint {
    pub kind: String,
    pub edge_index: usize,
    pub message: String,
}

/// How a path was rated.
pub struct PathScores {
    pub overall: Json,
    pub semantic: Json,
    pub topology: Json,
    pub centrality: Json,
}

/// A path that was found.
pub struct RankedPath {
    pub nodes: Vec<PathNode>,
    pub steps: Vec<PathStep>,
    pub breakpoints: Vec<Breakpoint>,
    pub confidence: Json,
    pub total_weight: Json,
    pub test_hops: usize,
    pub indirect_hops: usize,
    pub scores: PathScores,
}

/// A node as a hop of a path.
pub open spec fn node_hop(node: PathNode, include_code: bool) -> JsonView {
    match node.source {
        Some(source) => if include_code {
            JsonView::Object(node.summary@.insert("source"@, JsonView::Str(source@)))
        } else {
            JsonView::Object(node.summary@)
        },
        None => JsonView::Object(node.summary@),
    }
}

/// An edge as a hop of a path.
pub open spec fn step_hop(step: PathStep) -> JsonView {
    JsonView::Object(
        no_fields().insert("edge_kind"@, JsonView::Str(edge_name(step.kind))).insert(
            "direction"@,
            JsonView::Str(step.direction@),
        ).insert("confidence"@, step.confidence@),
    )
}

/// The hops of the first `n` nodes of a path: each node is followed by its edge.
pub open spec fn hops_upto(
    nodes: Seq<PathNode>,
    steps: Seq<PathStep>,
    include_code: bool,
    n: nat,
) -> Seq<JsonView>
    decreases n,
{
    if n == 0 {
        Seq::empty()
    } else {
        let before = hops_upto(nodes, steps, include_code, (n - 1) as nat).push(
            node_hop(nodes[n - 1], include_code),
        );
        if n - 1 < steps.len() {
            before.push(step_hop(steps[n - 1]))
        } else {
            before
        }
    }
}

/// The hops of a path.
pub open spec fn path_hops(path: RankedPath, include_code: bool) -> JsonView {
    JsonView::Array(hops_upto(path.nodes@, path.steps@, include_code, path.nodes@.len()))
}

fn node_to_json(node: &PathNode, include_code: bool) -> (json: Json)
    ensures
        json@ == node_hop(*node, include_code),
{
    let mut object = node.summary.clone();
    if include_code {
        match &node.source {
            Some(source) => {
                object.put("source", Json::text(source.as_str()));
            },
            None => {},
        }
    }
    Json::Object(object)
}

fn step_to_json(step: &PathStep) -> (json: Json)
    ensures
        json@ == step_hop(*step),
{
    let mut object = JsonObject::new();
    object.put("edge_kind", Json::text(step.kind.as_str()));
    object.put("direction", Json::text(step.direction.as_str()));
    object.put("confidence", step.confidence.clone());
    Json::Object(object)
}

/// The hops of a path, with sources if they are asked for.
pub fn build_hops(path: &RankedPath, include_code: bool) -> (json: Json)
    ensures
        json@ == path_hops(*path, include_code),
{
    let mut hops: Vec<Json> = Vec::new();
    let mut i: usize = 0;
    proof {
        assert(items_view(hops@) =~= Seq::empty());
    }
    while i < path.nodes.len()
        invariant
            i <= path.nodes@.len(),
            items_view(hops@) == hops_upto(path.nodes@, path.steps@, include_code, i as nat),
        decreases path.nodes@.len() - i,
    {
        let ghost start = hops@;
        hops.push(node_to_json(&path.nodes[i], include_code));
        proof {
            assert(items_view(hops@) =~= items_view(start).push(
                node_hop(path.nodes@[i as int], include_code),
            ));
        }
        if i < path.steps.len() {
            let ghost middle = hops@;
            hops.push(step_to_json(&path.steps[i]));
            proof {
                assert(items_view(hops@) =~= items_view(middle).push(
                    step_hop(path.steps@[i as int]),
                ));
            }
        }
        i = i + 1;
    }
    Json::Array(hops)
}

/// A breakpoint as it is listed.
pub open spec fn breakpoint_view(breakpoint: Breakpoint) -> JsonView {
    JsonView::Object(
        no_fields().insert("kind"@, JsonView::Str(breakpoint.kind@)).insert(
            "edge_index"@,
            JsonView::Unsigned(breakpoint.edge_index as u64),
        ).insert("message"@, JsonView::Str(breakpoint.message@)),
    )
}

/// Breakpoints as they are listed.
pub open spec fn breakpoints_view(breakpoints: Seq<Breakpoint>) -> JsonView {
    JsonView::Array(Seq::new(breakpoints.len(), |i: int| breakpoint_view(breakpoints[i])))
}

fn breakpoints_to_json(breakpoints: &Vec<Breakpoint>) -> (json: Json)
    ensures
        json@ == breakpoints_view(breakpoints@),
{
    let mut items: Vec<Json> = Vec::new();
    let mut i: usize = 0;
    while i < breakpoints.len()
        invariant
            i <= breakpoints@.len(),
            items@.len() == i,
            forall|j: int| 0 <= j < i ==> (#[trigger] items@[j])@ == breakpoint_view(breakpoints@[j]),
        decreases breakpoints@.len() - i,
    {
        let breakpoint = &breakpoints[i];
        let mut object = JsonObject::new();
        object.put("kind", Json::text(breakpoint.kind.as_str()));
        object.put("edge_index", Json::count(breakpoint.edge_index));
        object.put("message", Json::text(breakpoint.message.as_str()));
        items.push(Json::Object(object));
        i = i + 1;
    }
    proof {
        assert(items_view(items@) =~= Seq::new(
            breakpoints@.len(),
            |i: int| breakpoint_view(breakpoints@[i]),
        ));
    }
    Json::Array(items)
}

/// The scores of a path as they are listed.
pub open spec fn scores_view(scores: PathScores) -> JsonView {
    JsonView::Object(
        no_fields().insert("overall"@, scores.overall@).insert(
            "semantic"@,
            scores.semantic@,
        ).insert("topology"@, scores.topology@).insert("centrality"@, scores.centrality@),
    )
}

fn scores_to_json(scores: &PathScores) -> (json: Json)
    ensures
        json@ == scores_view(*scores),
{
    let mut object = JsonObject::new();
    object.put("overall", scores.overall.clone());
    object.put("semantic", scores.semantic.clone());
    object.put("topology", scores.topology.clone());
    object.put("centrality", scores.centrality.clone());
    Json::Object(object)
}

/// The fields that describe the best path.
pub open spec fn primary_fields(
    from: Seq<char>,
    to: Seq<char>,
    path: RankedPath,
    include_code: bool,
) -> Map<Seq<char>, JsonView> {
    no_fields().insert("from"@, JsonView::Str(from)).insert("to"@, JsonView::Str(to)).insert(
        "path_length"@,
        JsonView::Unsigned(path.nodes@.len() as u64),
    ).insert("confidence"@, path.confidence@).insert("total_weight"@, path.total_weight@).insert(
        "test_hops"@,
        JsonView::Unsigned(path.test_hops as u64),
    ).insert("indirect_hops"@, JsonView::Unsigned(path.indirect_hops as u64)).insert(
        "path"@,
        path_hops(path, include_code),
    ).insert("breakpoints"@, breakpoints_view(path.breakpoints@)).insert(
        "score"@,
        scores_view(path.scores),
    )
}

fn primary_object(from: &str, to: &str, path: &RankedPath, include_code: bool) -> (object:
    JsonObject)
    ensures
        object@ == primary_fields(from@, to@, *path, include_code),
{
    let mut object = JsonObject::new();
    object.put("from", Json::text(from));
    object.put("to", Json::text(to));
    object.put("path_length", Json::count(path.nodes.len()));
    object.put("confidence", path.confidence.clone());
    object.put("total_weight", path.total_weight.clone());
    object.put("test_hops", Json::count(path.test_hops));
    object.put("indirect_hops", Json::count(path.indirect_hops));
    object.put("path", build_hops(path, include_code));
    object.put("breakpoints", breakpoints_to_json(&path.breakpoints));
    object.put("score", scores_to_json(&path.scores));
    object
}

/// A path that is listed after the best one.
pub open spec fn alternative_view(path: RankedPath) -> JsonView {
    JsonView::Object(
        no_fields().insert("path"@, path_hops(path, false)).insert(
            "total_weight"@,
            path.total_weight@,
        ).insert("score"@, scores_view(path.scores)),
    )
}

/// The paths that are listed after the best one.
pub open spec fn alternatives_view(ranked: Seq<RankedPath>) -> JsonView {
    JsonView::Array(
        Seq::new((ranked.len() - 1) as nat, |i: int| alternative_view(ranked[i + 1])),
    )
}

fn alternatives_to_json(ranked: &Vec<RankedPath>) -> (json: Json)
    requires
        ranked@.len() > 0,
    ensures
        json@ == alternatives_view(ranked@),
{
    let mut items: Vec<Json> = Vec::new();
    let mut i: usize = 1;
    while i < ranked.len()
        invariant
            1 <= i <= ranked@.len(),
            items@.len() == i - 1,
            forall|j: int|
                0 <= j < i - 1 ==> (#[trigger] items@[j])@ == alternative_view(ranked@[j + 1]),
        decreases ranked@.len() - i,
    {
        let path = &ranked[i];
        let mut object = JsonObject::new();
        object.put("path", build_hops(path, false));
        object.put("total_weight", path.total_weight.clone());
        object.put("score", scores_to_json(&path.scores));
        items.push(Json::Object(object));
        i = i + 1;
    }
    proof {
        assert(items_view(items@) =~= Seq::new(
            (ranked@.len() - 1) as nat,
            |i: int| alternative_view(ranked@[i + 1]),
        ));
    }
    Json::Array(items)
}

/// Where a symbol is, in short; its identifier, where it is not stored.
pub open spec fn label_of(matched: Matched) -> Seq<char> {
    match matched.symbol {
        Some(symbol) => matched.location@ + ":"@ + decimal((symbol.start_line + 1) as nat),
        None => hex_text(matched.id@),
    }
}

/// Whether the line after the start of a symbol can be counted.
pub open spec fn label_fits(matched: Matched) -> bool {
    matched.symbol matches Some(symbol) ==> symbol.start_line < u32::MAX
}

fn id_text(id: SymbolId) -> (text: String)
    ensures
        text@ == hex_text(id@),
{
    let mut bytes: Vec<u8> = Vec::new();
    let mut i: usize = 0;
    while i < 32
        invariant
            i <= 32,
            bytes@ == id@.take(i as int),
        decreases 32 - i,
    {
        bytes.push(id.bytes[i]);
        proof {
            assert(id@.take(i + 1) =~= id@.take(i as int).push(id@[i as int]));
        }
        i = i + 1;
    }
    proof {
        assert(id@.take(32) =~= id@);
    }
    encode_hex(&bytes)
}

/// Where a symbol is, in short.
pub fn symbol_label(matched: &Matched) -> (label: String)
    requires
        label_fits(*matched),
    ensures
        label@ == label_of(*matched),
{
    match &matched.symbol {
        Some(symbol) => {
            let mut label = matched.location.clone();
            label.append(":");
            push_decimal(&mut label, symbol.start_line as u64 + 1);
            label
        },
        None => id_text(matched.id),
    }
}

/// The candidates that are listed of an endpoint: the first few, with a mark on the
/// chosen one.
pub open spec fn candidates_view(matched: Seq<Matched>, chosen: Option<Seq<u8>>) -> JsonView {
    let listed = if matched.len() < MAX_AMBIGUOUS_CANDIDATES {
        matched.len()
    } else {
        MAX_AMBIGUOUS_CANDIDATES as nat
    };
    JsonView::Array(
        Seq::new(
            listed,
            |i: int| candidate_view(matched[i].symbol, chosen == Some(matched[i].id@)),
        ),
    )
}

/// The identifier of the chosen symbol.
pub open spec fn chosen_id(chosen: Option<SymbolId>) -> Option<Seq<u8>> {
    match chosen {
        Some(id) => Some(id@),
        None => None,
    }
}

fn candidates_to_json(matched: &Vec<Matched>, chosen: Option<SymbolId>) -> (json: Json)
    ensures
        json@ == candidates_view(matched@, chosen_id(chosen)),
{
    let mut items: Vec<Json> = Vec::new();
    let mut i: usize = 0;
    while i < matched.len() && i < MAX_AMBIGUOUS_CANDIDATES
        invariant
            i <= matched@.len(),
            i <= MAX_AMBIGUOUS_CANDIDATES,
            items@.len() == i,
            forall|j: int|
                0 <= j < i ==> (#[trigger] items@[j])@ == candidate_view(
                    matched@[j].symbol,
                    chosen_id(chosen) == Some(matched@[j].id@),
                ),
        decreases matched@.len() - i,
    {
        let selected = match chosen {
            Some(id) => same_symbol(id, matched[i].id),
            None => false,
        };
        items.push(candidate_json(&matched[i].symbol, selected));
        i = i + 1;
    }
    proof {
        assert(candidates_view(matched@, chosen_id(chosen)) matches JsonView::Array(listed)
            && items_view(items@) =~= listed);
    }
    Json::Array(items)
}

/// What is said of an endpoint that stands for several symbols.
pub open spec fn side_fields(
    fields: Map<Seq<char>, JsonView>,
    matched: Seq<Matched>,
    winner: int,
    matched_name: Seq<char>,
    count_name: Seq<char>,
    candidates_name: Seq<char>,
) -> Map<Seq<char>, JsonView> {
    if matched.len() > 1 {
        fields.insert(matched_name, JsonView::Str(label_of(matched[winner]))).insert(
            count_name,
            JsonView::Unsigned(matched.len() as u64),
        ).insert(candidates_name, candidates_view(matched, Some(matched[winner].id@)))
    } else {
        fields
    }
}

/// What is said of ambiguous endpoints.
pub open spec fn ambiguity_fields(
    from: Seq<Matched>,
    to: Seq<Matched>,
    winner: (int, int),
    from_resolution: SymbolResolution,
    to_resolution: SymbolResolution,
) -> Map<Seq<char>, JsonView> {
    let sides = side_fields(
        side_fields(
            no_fields(),
            from,
            winner.0,
            "matched_from"@,
            "from_count"@,
            "from_candidates"@,
        ),
        to,
        winner.1,
        "matched_to"@,
        "to_count"@,
        "to_candidates"@,
    ).insert("from_resolution"@, endpoint_meta(from_resolution));
    let resolved = if to.len() > 1 {
        sides.insert("to_resolution"@, endpoint_meta(to_resolution))
    } else {
        sides
    };
    resolved.insert(
        "selection_note"@,
        JsonView::Str("Selected first (from, to) pair with a discoverable path."@),
    )
}

fn put_side(
    object: &mut JsonObject,
    matched: &Vec<Matched>,
    winner: usize,
    matched_name: &str,
    count_name: &str,
    candidates_name: &str,
)
    requires
        winner < matched@.len(),
        matched@.len() > 1 ==> label_fits(matched@[winner as int]),
    ensures
        final(object)@ == side_fields(
            old(object)@,
            matched@,
            winner as int,
            matched_name@,
            count_name@,
            candidates_name@,
        ),
{
    if matched.len() > 1 {
        object.put(matched_name, Json::Str(symbol_label(&matched[winner])));
        object.put(count_name, Json::count(matched.len()));
        object.put(candidates_name, candidates_to_json(matched, Some(matched[winner].id)));
    }
}

fn ambiguity_to_json(
    from: &Vec<Matched>,
    to: &Vec<Matched>,
    winner: (usize, usize),
    from_resolution: &SymbolResolution,
    to_resolution: &SymbolResolution,
) -> (json: Json)
    requires
        winner.0 < from@.len(),
        winner.1 < to@.len(),
        from@.len() > 1 ==> label_fits(from@[winner.0 as int]),
        to@.len() > 1 ==> label_fits(to@[winner.1 as int]),
    ensures
        json@ == JsonView::Object(
            ambiguity_fields(
                from@,
                to@,
                (winner.0 as int, winner.1 as int),
                *from_resolution,
                *to_resolution,
            ),
        ),
{
    let mut object = JsonObject::new();
    put_side(&mut object, from, winner.0, "matched_from", "from_count", "from_candidates");
    put_side(&mut object, to, winner.1, "matched_to", "to_count", "to_candidates");
    object.put("from_resolution", build_resolution_meta_for_path(from_resolution));
    if to.len() > 1 {
        object.put("to_resolution", build_resolution_meta_for_path(to_resolution));
    }
    object.put(
        "selection_note",
        Json::text("Selected first (from, to) pair with a discoverable path."),
    );
    Json::Object(object)
}

/// How well a path stands for what happens.
#[derive(Clone, Copy, Debug, PartialEq, Eq, Structural)]
pub enum PathQuality {
    Direct,
    Indirect,
    Fallback,
}

/// The name of a quality.
pub open spec fn quality_name(quality: PathQuality) -> Seq<char> {
    match quality {
        PathQuality::Direct => "direct"@,
        PathQuality::Indirect => "indirect"@,
        PathQuality::Fallback => "fallback"@,
    }
}

impl PathQuality {
    /// The name of the quality.
    pub fn as_str(self) -> (name: &'static str)
        ensures
            name@ == quality_name(self),
    {
        match self {
            PathQuality::Direct => "direct",
            PathQuality::Indirect => "indirect",
            PathQuality::Fallback => "fallback",
        }
    }
}

/// A place where a callback is registered.
pub open spec fn site_view(at: Seq<char>, registers: Seq<char>) -> JsonView {
    JsonView::Object(
        no_fields().insert("at"@, JsonView::Str(at)).insert(
            "registers"@,
            JsonView::Str(registers),
        ).insert(
            "guidance"@,
            JsonView::Str(
                "fp_dispatches(action=\"add\", field_qname='"@ + at + "...', target_qname='"@
                    + registers + "')"@,
            ),
        ),
    )
}

/// The places where a node is registered as a callback.
pub open spec fn node_sites(
    incoming: Seq<(EdgeKind, String)>,
    registers: Seq<char>,
) -> Seq<JsonView>
    decreases incoming.len(),
{
    if incoming.len() == 0 {
        Seq::empty()
    } else {
        let before = node_sites(incoming.drop_last(), registers);
        if incoming.last().0 is RegistersCallback {
            before.push(site_view(incoming.last().1@, registers))
        } else {
            before
        }
    }
}

/// The places where nodes of a path are registered as callbacks. Nodes are looked
/// at until enough places are known.
pub open spec fn callback_sites(nodes: Seq<PathNode>) -> Seq<JsonView>
    decreases nodes.len(),
{
    if nodes.len() == 0 {
        Seq::empty()
    } else {
        let before = callback_sites(nodes.drop_last());
        if before.len() >= MAX_BOUNDARIES {
            before
        } else {
            before + node_sites(nodes.last().incoming@, nodes.last().qualified_name@)
        }
    }
}

fn site_to_json(at: &str, registers: &str) -> (json: Json)
    ensures
        json@ == site_view(at@, registers@),
{
    let mut guidance = "fp_dispatches(action=\"add\", field_qname='".to_owned();
    guidance.append(at);
    guidance.append("...', target_qname='");
    guidance.append(registers);
    guidance.append("')");
    let mut object = JsonObject::new();
    object.put("at", Json::text(at));
    object.put("registers", Json::text(registers));
    object.put("guidance", Json::Str(guidance));
    Json::Object(object)
}

proof fn lemma_sites_settle(nodes: Seq<PathNode>, n: nat)
    requires
        n <= nodes.len(),
        callback_sites(nodes.take(n as int)).len() >= MAX_BOUNDARIES,
    ensures
        callback_sites(nodes) == callback_sites(nodes.take(n as int)),
    decreases nodes.len() - n,
{
    if n < nodes.len() {
        assert(nodes.take((n + 1) as int).drop_last() =~= nodes.take(n as int));
        lemma_sites_settle(nodes, n + 1);
    } else {
        assert(nodes.take(n as int) =~= nodes);
    }
}

fn find_sites(nodes: &Vec<PathNode>) -> (sites: Vec<Json>)
    ensures
        items_view(sites@) == callback_sites(nodes@),
{
    let mut sites: Vec<Json> = Vec::new();
    let mut i: usize = 0;
    proof {
        assert(nodes@.take(0) =~= Seq::empty());
        assert(items_view(sites@) =~= Seq::empty());
    }
    while i < nodes.len() && sites.len() < MAX_BOUNDARIES
        invariant
            i <= nodes@.len(),
            items_view(sites@) == callback_sites(nodes@.take(i as int)),
        decreases nodes@.len() - i,
    {
        let node = &nodes[i];
        let ghost start = items_view(sites@);
        let mut j: usize = 0;
        proof {
            assert(node.incoming@.take(0) =~= Seq::empty());
            assert(start + Seq::<JsonView>::empty() =~= start);
        }
        while j < node.incoming.len()
            invariant
                j <= node.incoming@.len(),
                items_view(sites@) == start + node_sites(
                    node.incoming@.take(j as int),
                    node.qualified_name@,
                ),
            decreases node.incoming@.len() - j,
        {
            proof {
                assert(node.incoming@.take(j + 1).drop_last() =~= node.incoming@.take(j as int));
            }
            let registers = match node.incoming[j].0 {
                EdgeKind::RegistersCallback => true,
                _ => false,
            };
            if registers {
                let ghost before = sites@;
                sites.push(
                    site_to_json(node.incoming[j].1.as_str(), node.qualified_name.as_str()),
                );
                proof {
                    let site = site_view(node.incoming@[j as int].1@, node.qualified_name@);
                    assert(items_view(sites@) =~= items_view(before).push(site));
                    assert(start + node_sites(
                        node.incoming@.take(j + 1),
                        node.qualified_name@,
                    ) =~= (start + node_sites(
                        node.incoming@.take(j as int),
                        node.qualified_name@,
                    )).push(site));
                }
            }
            j = j + 1;
        }
        proof {
            assert(node.incoming@.take(j as int) =~= node.incoming@);
            assert(nodes@.take(i + 1).drop_last() =~= nodes@.take(i as int));
        }
        i = i + 1;
    }
    proof {
        if i < nodes@.len() {
            lemma_sites_settle(nodes@, i as nat);
        } else {
            assert(nodes@.take(i as int) =~= nodes@);
        }
    }
    sites
}

/// A node behind which the search found no further calls.
pub struct FrontierNode {
    pub qname: String,
    pub depth: u64,
    pub outgoing_call_count: u64,
}

/// How far a search came.
pub struct Frontier {
    pub nodes: Vec<FrontierNode>,
    pub depth_reached: u64,
}

/// The first few frontier nodes that call nothing.
pub open spec fn blocked_nodes(nodes: Seq<FrontierNode>) -> Seq<JsonView>
    decreases nodes.len(),
{
    if nodes.len() == 0 {
        Seq::empty()
    } else {
        let before = blocked_nodes(nodes.drop_last());
        let node = nodes.last();
        if node.outgoing_call_count == 0 {
            before.push(
                JsonView::Object(
                    no_fields().insert("qname"@, JsonView::Str(node.qname@)).insert(
                        "depth"@,
                        JsonView::Unsigned(node.depth),
                    ),
                ),
            )
        } else {
            before
        }
    }
}

/// The first nodes of a frontier, as many as are looked at.
pub open spec fn nearest(nodes: Seq<FrontierNode>) -> Seq<FrontierNode> {
    if nodes.len() < MAX_BOUNDARIES {
        nodes
    } else {
        nodes.take(MAX_BOUNDARIES as int)
    }
}

fn find_blocked(nodes: &Vec<FrontierNode>) -> (blocked: Vec<Json>)
    ensures
        items_view(blocked@) == blocked_nodes(nearest(nodes@)),
{
    let mut blocked: Vec<Json> = Vec::new();
    let mut i: usize = 0;
    proof {
        assert(nodes@.take(0) =~= Seq::empty());
        assert(items_view(blocked@) =~= Seq::empty());
    }
    while i < nodes.len() && i < MAX_BOUNDARIES
        invariant
            i <= nodes@.len(),
            i <= MAX_BOUNDARIES,
            items_view(blocked@) == blocked_nodes(nodes@.take(i as int)),
        decreases nodes@.len() - i,
    {
        proof {
            assert(nodes@.take(i + 1).drop_last() =~= nodes@.take(i as int));
        }
        if nodes[i].outgoing_call_count == 0 {
            let ghost before = blocked@;
            let mut object = JsonObject::new();
            object.put("qname", Json::text(nodes[i].qname.as_str()));
            object.put("depth", Json::Unsigned(nodes[i].depth));
            let ghost fields = object@;
            blocked.push(Json::Object(object));
            proof {
                assert(items_view(blocked@) =~= items_view(before).push(JsonView::Object(fields)));
            }
        }
        i = i + 1;
    }
    proof {
        assert(nodes@.take(i as int) =~= nearest(nodes@));
    }
    blocked
}

/// What a request is told of a path that probably is not the one that was meant.
pub open spec fn insight_fields(
    quality: PathQuality,
    nodes: Seq<PathNode>,
    frontier: Seq<FrontierNode>,
) -> Map<Seq<char>, JsonView> {
    let rated = no_fields().insert("quality"@, JsonView::Str(quality_name(quality)));
    if quality is Direct {
        rated
    } else {
        let sites = callback_sites(nodes);
        let sited = if sites.len() > 0 {
            rated.insert("fp_boundaries"@, JsonView::Array(sites))
        } else {
            rated
        };
        let blocked = blocked_nodes(nearest(frontier));
        let bounded = if blocked.len() > 0 {
            sited.insert(
                "blocked_at"@,
                JsonView::Object(
                    no_fields().insert(
                        "message"@,
                        JsonView::Str(
                            decimal(blocked.len())
                                + " node(s) with no static forward edges — likely function-pointer or dynamic-dispatch boundaries"@,
                        ),
                    ).insert("nodes"@, JsonView::Array(blocked)),
                ),
            )
        } else {
            sited
        };
        bounded.insert(
            "action"@,
            JsonView::Str(
                "The primary path is likely blocked by unresolved function pointers. Use 'fp_dispatches' (action='add') to declare known dispatches (e.g., curl handler tables, vtable assignments), then re-run the path query after annotation materialization."@,
            ),
        )
    }
}

fn insight_to_json(
    quality: PathQuality,
    nodes: &Vec<PathNode>,
    frontier: &Vec<FrontierNode>,
) -> (json: Json)
    ensures
        json@ == JsonView::Object(insight_fields(quality, nodes@, frontier@)),
{
    let mut object = JsonObject::new();
    object.put("quality", Json::text(quality.as_str()));
    match quality {
        PathQuality::Direct => {},
        _ => {
            let sites = find_sites(nodes);
            if sites.len() > 0 {
                object.put("fp_boundaries", Json::Array(sites));
            }
            let blocked = find_blocked(frontier);
            if blocked.len() > 0 {
                let mut message = String::new();
                push_decimal(&mut message, blocked.len() as u64);
                proof {
                    assert(message@ =~= decimal(blocked@.len()));
                }
                message.append(
                    " node(s) with no static forward edges — likely function-pointer or dynamic-dispatch boundaries",
                );
                let mut at = JsonObject::new();
                at.put("message", Json::Str(message));
                at.put("nodes", Json::Array(blocked));
                object.put("blocked_at", Json::Object(at));
            }
            object.put(
                "action",
                Json::text(
                    "The primary path is likely blocked by unresolved function pointers. Use 'fp_dispatches' (action='add') to declare known dispatches (e.g., curl handler tables, vtable assignments), then re-run the path query after annotation materialization.",
                ),
            );
        },
    }
    Json::Object(object)
}

/// The response to a path request for which paths were found.
pub open spec fn path_fields(
    from_name: Seq<char>,
    to_name: Seq<char>,
    ranked: Seq<RankedPath>,
    include_code: bool,
    from: Seq<Matched>,
    to: Seq<Matched>,
    winner: (int, int),
    from_resolution: SymbolResolution,
    to_resolution: SymbolResolution,
    quality: PathQuality,
    frontier: Seq<FrontierNode>,
) -> Map<Seq<char>, JsonView> {
    let primary = primary_fields(from_name, to_name, ranked[0], include_code);
    let with_alternatives = if ranked.len() > 1 {
        primary.insert("alternatives"@, alternatives_view(ranked))
    } else {
        primary
    };
    let with_ambiguity = if from.len() > 1 || to.len() > 1 {
        with_alternatives.insert(
            "ambiguity"@,
            JsonView::Object(
                ambiguity_fields(from, to, winner, from_resolution, to_resolution),
            ),
        )
    } else {
        with_alternatives
    };
    with_ambiguity.insert(
        "path_quality"@,
        JsonView::Object(insight_fields(quality, ranked[0].nodes@, frontier)),
    )
}

/// The response to a path request for which paths were found, best first, between
/// the pair `winner` of the symbols that the endpoints stand for.
pub fn path_body(
    from_name: &str,
    to_name: &str,
    ranked: &Vec<RankedPath>,
    include_code: bool,
    from: &Vec<Matched>,
    to: &Vec<Matched>,
    winner: (usize, usize),
    from_resolution: &SymbolResolution,
    to_resolution: &SymbolResolution,
    quality: PathQuality,
    frontier: &Vec<FrontierNode>,
) -> (body: Json)
    requires
        ranked@.len() > 0,
        winner.0 < from@.len(),
        winner.1 < to@.len(),
        from@.len() > 1 ==> label_fits(from@[winner.0 as int]),
        to@.len() > 1 ==> label_fits(to@[winner.1 as int]),
    ensures
        body@ == JsonView::Object(
            path_fields(
                from_name@,
                to_name@,
                ranked@,
                include_code,
                from@,
                to@,
                (winner.0 as int, winner.1 as int),
                *from_resolution,
                *to_resolution,
                quality,
                frontier@,
            ),
        ),
{
    let mut object = primary_object(from_name, to_name, &ranked[0], include_code);
    if ranked.len() > 1 {
        object.put("alternatives", alternatives_to_json(ranked));
    }
    if from.len() > 1 || to.len() > 1 {
        object.put(
            "ambiguity",
            ambiguity_to_json(from, to, winner, from_resolution, to_resolution),
        );
    }
    object.put("path_quality", insight_to_json(quality, &ranked[0].nodes, frontier));
    Json::Object(object)
}

/// The first sentence when there is no path.
pub open spec fn tried_message(reach: u64, pairs: nat) -> Seq<char> {
    "No path found within max_depth="@ + decimal(reach as nat) + " (tried "@ + decimal(pairs)
        + " SymbolId pair"@ + (if pairs == 1 {
        Seq::<char>::empty()
    } else {
        "s"@
    }) + ")"@
}

/// What is said when an endpoint stands for several symbols.
pub open spec fn pairs_note(
    from_name: Seq<char>,
    to_name: Seq<char>,
    from_count: nat,
    to_count: nat,
) -> Seq<char> {
    if from_count * to_count <= 1 {
        Seq::empty()
    } else if from_count > 10 || to_count > 10 {
        ". Note: '"@ + from_name + "' matched "@ + decimal(from_count) + " SymbolId(s), '"@
            + to_name + "' matched "@ + decimal(to_count)
            + " SymbolId(s) — this is likely symbol-name ambiguity across files. Use a fully-qualified name to narrow the search."@
    } else {
        ". Note: the same qualified name maps to multiple SymbolIds (e.g., declaration vs definition). All pairs were tried."@
    }
}

/// What a request may do when there is no path.
pub open spec fn no_path_tip(full_index: bool, max_depth: u64) -> Seq<char> {
    if full_index {
        ". The symbols may not be connected by call edges, or the path exceeds the depth limit. Try a higher max_depth."@
    } else if max_depth < MAX_PATH_DEPTH {
        ". In focus mode this is only a current-closure result, not a repo-wide proof. Tip: try a higher max_depth (up to 10), resume the query after refinement, or run a full structural index (CLI: 'atlas index --analysis full') for deeper call-graph edges."@
    } else {
        ". In focus mode this is only a current-closure result, not a repo-wide proof. Tip: the path may involve function pointers or dynamic dispatch not yet resolved; resume the query after refinement or run a full structural index (CLI: 'atlas index --analysis full')."@
    }
}

/// The kind of an endpoint, as far as the tools tell kinds apart, and its name.
pub struct EndpointKind {
    pub kind: SymbolKind,
    pub name: String,
}

/// What is said of the kinds of the endpoints, where both are known.
pub open spec fn kinds_note(
    from_name: Seq<char>,
    to_name: Seq<char>,
    from_kind: Option<EndpointKind>,
    to_kind: Option<EndpointKind>,
) -> Seq<char> {
    match (from_kind, to_kind) {
        (Some(f), Some(t)) => " (from '"@ + from_name + "' resolved as "@ + f.name@ + ", to '"@
            + to_name + "' resolved as "@ + t.name@ + ")"@ + (if t.kind is Function
            || t.kind is Method || t.kind is Constructor {
            Seq::<char>::empty()
        } else {
            ". Note: target is not a callable — specify a method or function instead (e.g. use the fully-qualified method name)."@
        }) + (if f.kind is Function || f.kind is Method || f.kind is Constructor {
            Seq::<char>::empty()
        } else {
            ". Note: source is not a callable — outgoing call edges originate from functions/methods, not from type definitions."@
        }),
        _ => Seq::empty(),
    }
}

/// What is said of the frontier of a forward search.
pub open spec fn frontier_note(direction: TraversalDirection, frontier: Frontier) -> Seq<char> {
    let total = frontier.nodes@.len();
    if !(direction is Outgoing) || total == 0 {
        Seq::empty()
    } else {
        "\nForward frontier reached depth "@ + decimal(frontier.depth_reached as nat) + " — "@
            + decimal(total) + " node(s) with no further static callees (showing first "@
            + decimal(
            if total < MAX_FRONTIER_NODES {
                total
            } else {
                MAX_FRONTIER_NODES as nat
            },
        ) + ")."@ + (if total > MAX_FRONTIER_NODES {
            " These are likely dynamic-dispatch (function pointer / virtual call) boundaries."@
        } else {
            Seq::<char>::empty()
        })
    }
}

/// What is said of how to tell several symbols apart.
pub open spec fn selector_note(ambiguous: bool) -> Seq<char> {
    if ambiguous {
        "\nUse a SymbolSelector object (for example, {\"qualified_name\": \"...\", \"file_path\": \"...\"}) to disambiguate; symbol_ref from search or symbol results can be reused directly."@
    } else {
        Seq::empty()
    }
}

/// A search that found no path.
pub struct FruitlessSearch {
    pub max_depth: u64,
    pub direction: TraversalDirection,
    pub full_index: bool,
    pub from_kind: Option<EndpointKind>,
    pub to_kind: Option<EndpointKind>,
    pub frontier: Frontier,
}

impl FruitlessSearch {
    /// How far the search went.
    pub open spec fn reach(self) -> u64 {
        if self.max_depth < MAX_PATH_DEPTH {
            self.max_depth
        } else {
            MAX_PATH_DEPTH
        }
    }

    /// What a request is told whose search found nothing.
    pub open spec fn message(
        self,
        from_name: Seq<char>,
        to_name: Seq<char>,
        from_count: nat,
        to_count: nat,
    ) -> Seq<char> {
        tried_message(self.reach(), from_count * to_count) + pairs_note(
            from_name,
            to_name,
            from_count,
            to_count,
        ) + no_path_tip(self.full_index, self.max_depth) + kinds_note(
            from_name,
            to_name,
            self.from_kind,
            self.to_kind,
        ) + frontier_note(self.direction, self.frontier) + selector_note(
            from_count > 1 || to_count > 1,
        )
    }
}

/// A frontier node as it is listed.
pub open spec fn frontier_node_view(node: FrontierNode) -> JsonView {
    JsonView::Object(
        no_fields().insert("qname"@, JsonView::Str(node.qname@)).insert(
            "depth"@,
            JsonView::Unsigned(node.depth),
        ).insert("outgoing_call_count"@, JsonView::Unsigned(node.outgoing_call_count)),
    )
}

/// The frontier that is listed: the first nodes of a forward search.
pub open spec fn frontier_view(
    direction: TraversalDirection,
    nodes: Seq<FrontierNode>,
) -> JsonView {
    let listed = if !(direction is Outgoing) {
        0
    } else if nodes.len() < MAX_FRONTIER_NODES {
        nodes.len()
    } else {
        MAX_FRONTIER_NODES as nat
    };
    JsonView::Array(Seq::new(listed, |i: int| frontier_node_view(nodes[i])))
}

fn frontier_to_json(direction: TraversalDirection, nodes: &Vec<FrontierNode>) -> (json: Json)
    ensures
        json@ == frontier_view(direction, nodes@),
{
    let mut items: Vec<Json> = Vec::new();
    match direction {
        TraversalDirection::Outgoing => {
            let mut i: usize = 0;
            while i < nodes.len() && i < MAX_FRONTIER_NODES
                invariant
                    i <= nodes@.len(),
                    i <= MAX_FRONTIER_NODES,
                    items@.len() == i,
                    forall|j: int|
                        0 <= j < i ==> (#[trigger] items@[j])@ == frontier_node_view(nodes@[j]),
                decreases nodes@.len() - i,
            {
                let mut object = JsonObject::new();
                object.put("qname", Json::text(nodes[i].qname.as_str()));
                object.put("depth", Json::Unsigned(nodes[i].depth));
                object.put(
                    "outgoing_call_count",
                    Json::Unsigned(nodes[i].outgoing_call_count),
                );
                items.push(Json::Object(object));
                i = i + 1;
            }
        },
        _ => {},
    }
    proof {
        assert(frontier_view(direction, nodes@) matches JsonView::Array(listed) && items_view(
            items@,
        ) =~= listed);
    }
    Json::Array(items)
}

fn push_pairs_note(
    message: &mut String,
    from_name: &str,
    to_name: &str,
    from_count: usize,
    to_count: usize,
)
    requires
        from_count * to_count <= usize::MAX,
    ensures
        final(message)@ == old(message)@ + pairs_note(
            from_name@,
            to_name@,
            from_count as nat,
            to_count as nat,
        ),
{
    let pairs: usize = from_count * to_count;
    let ghost start = message@;
    if pairs > 1 {
        if from_count > 10 || to_count > 10 {
            message.append(". Note: '");
            message.append(from_name);
            message.append("' matched ");
            push_decimal(message, from_count as u64);
            message.append(" SymbolId(s), '");
            message.append(to_name);
            message.append("' matched ");
            push_decimal(message, to_count as u64);
            message.append(
                " SymbolId(s) — this is likely symbol-name ambiguity across files. Use a fully-qualified name to narrow the search.",
            );
        } else {
            message.append(
                ". Note: the same qualified name maps to multiple SymbolIds (e.g., declaration vs definition). All pairs were tried.",
            );
        }
    }
    proof {
        assert(message@ =~= start + pairs_note(
            from_name@,
            to_name@,
            from_count as nat,
            to_count as nat,
        ));
    }
}

fn push_tip(message: &mut String, full_index: bool, max_depth: u64)
    ensures
        final(message)@ == old(message)@ + no_path_tip(full_index, max_depth),
{
    if full_index {
        message.append(
            ". The symbols may not be connected by call edges, or the path exceeds the depth limit. Try a higher max_depth.",
        );
    } else if max_depth < MAX_PATH_DEPTH {
        message.append(
            ". In focus mode this is only a current-closure result, not a repo-wide proof. Tip: try a higher max_depth (up to 10), resume the query after refinement, or run a full structural index (CLI: 'atlas index --analysis full') for deeper call-graph edges.",
        );
    } else {
        message.append(
            ". In focus mode this is only a current-closure result, not a repo-wide proof. Tip: the path may involve function pointers or dynamic dispatch not yet resolved; resume the query after refinement or run a full structural index (CLI: 'atlas index --analysis full').",
        );
    }
}

fn push_kinds_note(
    message: &mut String,
    from_name: &str,
    to_name: &str,
    from_kind: &Option<EndpointKind>,
    to_kind: &Option<EndpointKind>,
)
    ensures
        final(message)@ == old(message)@ + kinds_note(from_name@, to_name@, *from_kind, *to_kind),
{
    let ghost start = message@;
    match (from_kind, to_kind) {
        (Some(f), Some(t)) => {
            message.append(" (from '");
            message.append(from_name);
            message.append("' resolved as ");
            message.append(f.name.as_str());
            message.append(", to '");
            message.append(to_name);
            message.append("' resolved as ");
            message.append(t.name.as_str());
            message.append(")");
            if !is_callable_kind(t.kind) {
                message.append(
                    ". Note: target is not a callable — specify a method or function instead (e.g. use the fully-qualified method name).",
                );
            }
            if !is_callable_kind(f.kind) {
                message.append(
                    ". Note: source is not a callable — outgoing call edges originate from functions/methods, not from type definitions.",
                );
            }
        },
        _ => {},
    }
    proof {
        assert(message@ =~= start + kinds_note(from_name@, to_name@, *from_kind, *to_kind));
    }
}

fn push_frontier_note(message: &mut String, direction: TraversalDirection, frontier: &Frontier)
    ensures
        final(message)@ == old(message)@ + frontier_note(direction, *frontier),
{
    let ghost start = message@;
    let total: usize = frontier.nodes.len();
    let forward = match direction {
        TraversalDirection::Outgoing => true,
        _ => false,
    };
    if forward && total > 0 {
        message.append("\nForward frontier reached depth ");
        push_decimal(message, frontier.depth_reached);
        message.append(" — ");
        push_decimal(message, total as u64);
        message.append(" node(s) with no further static callees (showing first ");
        if total < MAX_FRONTIER_NODES {
            push_decimal(message, total as u64);
        } else {
            push_decimal(message, MAX_FRONTIER_NODES as u64);
        }
        message.append(").");
        if total > MAX_FRONTIER_NODES {
            message.append(
                " These are likely dynamic-dispatch (function pointer / virtual call) boundaries.",
            );
        }
    }
    proof {
        assert(message@ =~= start + frontier_note(direction, *frontier));
    }
}

/// The response to a path request for which there is no path.
pub open spec fn no_path_fields(
    from_name: Seq<char>,
    to_name: Seq<char>,
    from: Seq<Matched>,
    to: Seq<Matched>,
    search: FruitlessSearch,
) -> Map<Seq<char>, JsonView> {
    let base = no_fields().insert("from"@, JsonView::Str(from_name)).insert(
        "to"@,
        JsonView::Str(to_name),
    ).insert("path_length"@, JsonView::Unsigned(0)).insert(
        "path"@,
        JsonView::Array(Seq::empty()),
    ).insert("breakpoints"@, JsonView::Array(Seq::empty())).insert(
        "frontier"@,
        frontier_view(search.direction, search.frontier.nodes@),
    );
    let with_from = if from.len() > 1 {
        base.insert("from_candidates"@, candidates_view(from, None))
    } else {
        base
    };
    let with_to = if to.len() > 1 {
        with_from.insert("to_candidates"@, candidates_view(to, None))
    } else {
        with_from
    };
    with_to.insert(
        "message"@,
        JsonView::Str(search.message(from_name, to_name, from.len(), to.len())),
    )
}

/// The response to a path request for which there is no path.
pub fn no_path_body(
    from_name: &str,
    to_name: &str,
    from: &Vec<Matched>,
    to: &Vec<Matched>,
    search: &FruitlessSearch,
) -> (body: Json)
    requires
        from@.len() * to@.len() <= usize::MAX,
    ensures
        body@ == JsonView::Object(no_path_fields(from_name@, to_name@, from@, to@, *search)),
{
    let from_count: usize = from.len();
    let to_count: usize = to.len();
    let pairs: usize = from_count * to_count;
    let reach: u64 = if search.max_depth < MAX_PATH_DEPTH {
        search.max_depth
    } else {
        MAX_PATH_DEPTH
    };
    let mut message = "No path found within max_depth=".to_owned();
    push_decimal(&mut message, reach);
    message.append(" (tried ");
    push_decimal(&mut message, pairs as u64);
    message.append(" SymbolId pair");
    if pairs != 1 {
        message.append("s");
    }
    message.append(")");
    proof {
        assert(message@ =~= tried_message(reach, from@.len() * to@.len()));
    }
    push_pairs_note(&mut message, from_name, to_name, from_count, to_count);
    push_tip(&mut message, search.full_index, search.max_depth);
    push_kinds_note(&mut message, from_name, to_name, &search.from_kind, &search.to_kind);
    push_frontier_note(&mut message, search.direction, &search.frontier);
    let ghost unselected = message@;
    if from_count > 1 || to_count > 1 {
        message.append(
            "\nUse a SymbolSelector object (for example, {\"qualified_name\": \"...\", \"file_path\": \"...\"}) to disambiguate; symbol_ref from search or symbol results can be reused directly.",
        );
    }
    proof {
        assert(message@ =~= unselected + selector_note(from_count > 1 || to_count > 1));
    }
    let mut object = JsonObject::new();
    object.put("from", Json::text(from_name));
    object.put("to", Json::text(to_name));
    object.put("path_length", Json::Unsigned(0));
    object.put("path", Json::empty_array());
    object.put("breakpoints", Json::empty_array());
    object.put("frontier", frontier_to_json(search.direction, &search.frontier.nodes));
    if from_count > 1 {
        object.put("from_candidates", candidates_to_json(from, None));
    }
    if to_count > 1 {
        object.put("to_candidates", candidates_to_json(to, None));
    }
    object.put("message", Json::Str(message));
    Json::Object(object)
}

/// The warnings of a path request for which there is no path: a search in part of
/// the project proves nothing of the rest.
pub open spec fn no_path_warnings_of(warnings: Seq<Seq<char>>, full_index: bool) -> Seq<Seq<char>> {
    if full_index {
        warnings
    } else {
        warnings.push(
            "No path was found in the current focus closure; this does not prove that no repo-wide path exists until full indexing or further refinement completes."@,
        )
    }
}

/// The warnings of a path request for which there is no path.
pub fn no_path_warnings(warnings: Vec<String>, full_index: bool) -> (all: Vec<String>)
    ensures
        strings_view(all@) == no_path_warnings_of(strings_view(warnings@), full_index),
{
    let mut all = warnings;
    if !full_index {
        let ghost before = all@;
        all.push(
            "No path was found in the current focus closure; this does not prove that no repo-wide path exists until full indexing or further refinement completes.".to_owned(),
        );
        proof {
            assert(strings_view(all@) =~= strings_view(before).push(all@.last()@));
        }
    }
    all
}

/// The hops of a path are its nodes, with an edge behind each that has one.
pub proof fn law_hops_alternate(path: RankedPath, include_code: bool)
    ensures
        path_hops(path, include_code).items() matches Some(hops) && (path.steps@.len()
            <= path.nodes@.len() ==> hops.len() == path.nodes@.len() + path.steps@.len()),
{
    lemma_hop_count(path.nodes@, path.steps@, include_code, path.nodes@.len());
}

proof fn lemma_hop_count(
    nodes: Seq<PathNode>,
    steps: Seq<PathStep>,
    include_code: bool,
    n: nat,
)
    ensures
        hops_upto(nodes, steps, include_code, n).len() == n + (if n < steps.len() {
            n
        } else {
            steps.len()
        }),
    decreases n,
{
    if n > 0 {
        lemma_hop_count(nodes, steps, include_code, (n - 1) as nat);
    }
}

/// However many symbols an endpoint stands for, few candidates are listed.
pub proof fn law_few_candidates_are_listed(matched: Seq<Matched>, chosen: Option<Seq<u8>>)
    ensures
        candidates_view(matched, chosen).items() matches Some(listed) && listed.len()
            <= MAX_AMBIGUOUS_CANDIDATES && listed.len() <= matched.len(),
{
}

/// A search in part of the project is never reported as a proof for all of it.
pub proof fn law_partial_search_is_qualified(warnings: Seq<Seq<char>>)
    ensures
        no_path_warnings_of(warnings, false).len() == warnings.len() + 1,
        no_path_warnings_of(warnings, true) == warnings,
{
}

/// Whether a listed value tells a node of a path: all that is known of it, and its source
/// where that is asked for and can be read.
pub open spec fn tells_node(listed: JsonView, node: PathNode, include_code: bool) -> bool {
    &&& forall|name: Seq<char>|
        name != "source"@ ==> #[trigger] listed.field(name) == JsonView::Object(
            node.summary@,
        ).field(name)
    &&& listed.field("source"@) == match node.source {
        Some(source) if include_code => Some(JsonView::Str(source@)),
        _ => JsonView::Object(node.summary@).field("source"@),
    }
}

/// Whether a listed value tells an edge of a path.
pub open spec fn tells_step(listed: JsonView, step: PathStep) -> bool {
    &&& listed.text_field("edge_kind"@) == Some(edge_name(step.kind))
    &&& listed.text_field("direction"@) == Some(step.direction@)
    &&& listed.field("confidence"@) == Some(step.confidence@)
}

proof fn lemma_step_is_told(step: PathStep)
    ensures
        tells_step(step_hop(step), step),
{
    reveal_strlit("edge_kind");
    reveal_strlit("direction");
    reveal_strlit("confidence");
    assert("edge_kind"@[0] != "direction"@[0]);
}

proof fn lemma_hops_in_pairs(
    nodes: Seq<PathNode>,
    steps: Seq<PathStep>,
    include_code: bool,
    n: nat,
)
    requires
        n <= nodes.len(),
        steps.len() + 1 == nodes.len(),
    ensures
        ({
            let hops = hops_upto(nodes, steps, include_code, n);
            &&& hops.len() == if n < nodes.len() {
                2 * n
            } else {
                (2 * n - 1) as nat
            }
            &&& forall|i: int|
                0 <= i < n ==> tells_node(hops[2 * i], #[trigger] nodes[i], include_code)
            &&& forall|i: int|
                0 <= i < n && i < steps.len() ==> tells_step(hops[2 * i + 1], #[trigger] steps[i])
        }),
    decreases n,
{
    if n > 0 {
        lemma_hops_in_pairs(nodes, steps, include_code, (n - 1) as nat);
        let before = hops_upto(nodes, steps, include_code, (n - 1) as nat);
        let hops = hops_upto(nodes, steps, include_code, n);
        let k = n - 1;
        assert(hops[2 * k] == node_hop(nodes[k], include_code));
        if k < steps.len() {
            assert(hops[2 * k + 1] == step_hop(steps[k]));
            lemma_step_is_told(steps[k]);
        }
        assert forall|i: int| 0 <= i < n implies tells_node(
            hops[2 * i],
            #[trigger] nodes[i],
            include_code,
        ) by {
            if i < k {
                assert(hops[2 * i] == before[2 * i]);
            }
        }
        assert forall|i: int| 0 <= i < n && i < steps.len() implies tells_step(
            hops[2 * i + 1],
            #[trigger] steps[i],
        ) by {
            if i < k {
                assert(hops[2 * i + 1] == before[2 * i + 1]);
            }
        }
    }
}

/// A path is told node by node, and between each two the edge that joins them: at the even
/// places the nodes in order, and at the odd ones the edges in order, each with its own
/// kind, direction and confidence.
pub proof fn law_path_tells_each_node_and_edge(path: RankedPath, include_code: bool)
    requires
        path.steps@.len() + 1 == path.nodes@.len(),
    ensures
        path_hops(path, include_code) matches JsonView::Array(hops) && {
            &&& hops.len() == path.nodes@.len() + path.steps@.len()
            &&& forall|i: int|
                0 <= i < path.nodes@.len() ==> tells_node(
                    hops[2 * i],
                    #[trigger] path.nodes@[i],
                    include_code,
                )
            &&& forall|i: int|
                0 <= i < path.steps@.len() ==> tells_step(
                    hops[2 * i + 1],
                    #[trigger] path.steps@[i],
                )
        },
{
    lemma_hops_in_pairs(path.nodes@, path.steps@, include_code, path.nodes@.len());
}

/// The candidates of an endpoint are the symbols that it stands for, in order and five at
/// most; the chosen one is marked, and no other symbol.
pub proof fn law_candidates_mark_the_chosen_one(matched: Seq<Matched>, chosen: Option<Seq<u8>>)
    ensures
        candidates_view(matched, chosen) matches JsonView::Array(listed) && {
            &&& listed.len() == if matched.len() < 5 {
                matched.len()
            } else {
                5
            }
            &&& forall|i: int|
                0 <= i < listed.len() ==> (#[trigger] listed[i]).bool_field("selected"@) == Some(
                    chosen == Some(matched[i].id@),
                ) && (matched[i].symbol matches Some(symbol) ==> listed[i].text_field(
                    "qualified_name"@,
                ) == Some(symbol.qualified_name@) && listed[i].text_field("file"@) == Some(
                    symbol.file_path@,
                ))
        },
{
    reveal_strlit("qualified_name");
    reveal_strlit("file");
    reveal_strlit("line");
    reveal_strlit("kind");
    reveal_strlit("selected");
    reveal_strlit("symbol_ref");
    assert("qualified_name"@.len() != "file"@.len());
    assert("qualified_name"@.len() != "line"@.len());
    assert("qualified_name"@.len() != "kind"@.len());
    assert("qualified_name"@.len() != "selected"@.len());
    assert("qualified_name"@.len() != "symbol_ref"@.len());
    assert("file"@[0] != "line"@[0]);
    assert("file"@[0] != "kind"@[0]);
    assert("file"@.len() != "selected"@.len());
    assert("file"@.len() != "symbol_ref"@.len());
    assert("line"@[0] != "kind"@[0]);
    assert("line"@.len() != "selected"@.len());
    assert("line"@.len() != "symbol_ref"@.len());
    assert("kind"@.len() != "selected"@.len());
    assert("kind"@.len() != "symbol_ref"@.len());
    assert("selected"@.len() != "symbol_ref"@.len());
    if let JsonView::Array(listed) = candidates_view(matched, chosen) {
        assert forall|i: int| 0 <= i < listed.len() implies (#[trigger] listed[i]).bool_field(
            "selected"@,
        ) == Some(chosen == Some(matched[i].id@)) && (matched[i].symbol matches Some(symbol)
            ==> listed[i].text_field("qualified_name"@) == Some(symbol.qualified_name@)
            && listed[i].text_field("file"@) == Some(symbol.file_path@)) by {
            assert(listed[i] == candidate_view(
                matched[i].symbol,
                chosen == Some(matched[i].id@),
            ));
        }
    }
}

/// Whether a listed value tells how a path was rated.
pub open spec fn tells_scores(listed: JsonView, scores: PathScores) -> bool {
    &&& listed.field("overall"@) == Some(scores.overall@)
    &&& listed.field("semantic"@) == Some(scores.semantic@)
    &&& listed.field("topology"@) == Some(scores.topology@)
    &&& listed.field("centrality"@) == Some(scores.centrality@)
}

/// The paths after the best one are listed in order, each with its own hops, weight and
/// rating.
pub proof fn law_alternatives_are_the_other_paths(ranked: Seq<RankedPath>)
    requires
        ranked.len() > 0,
    ensures
        alternatives_view(ranked) matches JsonView::Array(listed) && {
            &&& listed.len() == ranked.len() - 1
            &&& forall|i: int|
                1 <= i < ranked.len() ==> listed[i - 1].field("path"@) == Some(
                    path_hops(#[trigger] ranked[i], false),
                ) && listed[i - 1].field("total_weight"@) == Some(ranked[i].total_weight@) && (
                listed[i - 1].field("score"@) matches Some(score) && tells_scores(
                    score,
                    ranked[i].scores,
                ))
        },
{
    reveal_strlit("path");
    reveal_strlit("total_weight");
    reveal_strlit("score");
    reveal_strlit("overall");
    reveal_strlit("semantic");
    reveal_strlit("topology");
    reveal_strlit("centrality");
    assert("path"@.len() != "total_weight"@.len());
    assert("path"@.len() != "score"@.len());
    assert("total_weight"@.len() != "score"@.len());
    assert("overall"@.len() != "semantic"@.len());
    assert("overall"@.len() != "topology"@.len());
    assert("overall"@.len() != "centrality"@.len());
    assert("semantic"@[0] != "topology"@[0]);
    assert("semantic"@.len() != "centrality"@.len());
    assert("topology"@.len() != "centrality"@.len());
    if let JsonView::Array(listed) = alternatives_view(ranked) {
        assert forall|i: int| 1 <= i < ranked.len() implies listed[i - 1].field("path"@) == Some(
            path_hops(#[trigger] ranked[i], false),
        ) && listed[i - 1].field("total_weight"@) == Some(ranked[i].total_weight@) && (
        listed[i - 1].field("score"@) matches Some(score) && tells_scores(
            score,
            ranked[i].scores,
        )) by {
            assert(listed[i - 1] == alternative_view(ranked[i]));
        }
    }
}

/// Each breakpoint of a path is listed, in order, with its kind, place and message.
pub proof fn law_breakpoints_are_listed(breakpoints: Seq<Breakpoint>)
    ensures
        breakpoints_view(breakpoints) matches JsonView::Array(listed) && {
            &&& listed.len() == breakpoints.len()
            &&& forall|i: int|
                0 <= i < listed.len() ==> (#[trigger] listed[i]).text_field("kind"@) == Some(
                    breakpoints[i].kind@,
                ) && listed[i].unsigned_field("edge_index"@) == Some(
                    breakpoints[i].edge_index as u64,
                ) && listed[i].text_field("message"@) == Some(breakpoints[i].message@)
        },
{
    reveal_strlit("kind");
    reveal_strlit("edge_index");
    reveal_strlit("message");
    assert("kind"@.len() != "edge_index"@.len());
    assert("kind"@.len() != "message"@.len());
    assert("edge_index"@.len() != "message"@.len());
    if let JsonView::Array(listed) = breakpoints_view(breakpoints) {
        assert forall|i: int| 0 <= i < listed.len() implies (#[trigger] listed[i]).text_field(
            "kind"@,
        ) == Some(breakpoints[i].kind@) && listed[i].unsigned_field("edge_index"@) == Some(
            breakpoints[i].edge_index as u64,
        ) && listed[i].text_field("message"@) == Some(breakpoints[i].message@) by {
            assert(listed[i] == breakpoint_view(breakpoints[i]));
        }
    }
}

proof fn lemma_path_names_differ()
    ensures
        "from"@ != "to"@,
        "from"@ != "path_length"@,
        "from"@ != "confidence"@,
        "from"@ != "total_weight"@,
        "from"@ != "test_hops"@,
        "from"@ != "indirect_hops"@,
        "from"@ != "path"@,
        "from"@ != "breakpoints"@,
        "from"@ != "score"@,
        "from"@ != "alternatives"@,
        "from"@ != "ambiguity"@,
        "from"@ != "path_quality"@,
        "to"@ != "path_length"@,
        "to"@ != "confidence"@,
        "to"@ != "total_weight"@,
        "to"@ != "test_hops"@,
        "to"@ != "indirect_hops"@,
        "to"@ != "path"@,
        "to"@ != "breakpoints"@,
        "to"@ != "score"@,
        "to"@ != "alternatives"@,
        "to"@ != "ambiguity"@,
        "to"@ != "path_quality"@,
        "path_length"@ != "confidence"@,
        "path_length"@ != "total_weight"@,
        "path_length"@ != "test_hops"@,
        "path_length"@ != "indirect_hops"@,
        "path_length"@ != "path"@,
        "path_length"@ != "breakpoints"@,
        "path_length"@ != "score"@,
        "path_length"@ != "alternatives"@,
        "path_length"@ != "ambiguity"@,
        "path_length"@ != "path_quality"@,
        "confidence"@ != "total_weight"@,
        "confidence"@ != "test_hops"@,
        "confidence"@ != "indirect_hops"@,
        "confidence"@ != "path"@,
        "confidence"@ != "breakpoints"@,
        "confidence"@ != "score"@,
        "confidence"@ != "alternatives"@,
        "confidence"@ != "ambiguity"@,
        "confidence"@ != "path_quality"@,
        "total_weight"@ != "test_hops"@,
        "total_weight"@ != "indirect_hops"@,
        "total_weight"@ != "path"@,
        "total_weight"@ != "breakpoints"@,
        "total_weight"@ != "score"@,
        "total_weight"@ != "alternatives"@,
        "total_weight"@ != "ambiguity"@,
        "total_weight"@ != "path_quality"@,
        "test_hops"@ != "indirect_hops"@,
        "test_hops"@ != "path"@,
        "test_hops"@ != "breakpoints"@,
        "test_hops"@ != "score"@,
        "test_hops"@ != "alternatives"@,
        "test_hops"@ != "ambiguity"@,
        "test_hops"@ != "path_quality"@,
        "indirect_hops"@ != "path"@,
        "indirect_hops"@ != "breakpoints"@,
        "indirect_hops"@ != "score"@,
        "indirect_hops"@ != "alternatives"@,
        "indirect_hops"@ != "ambiguity"@,
        "indirect_hops"@ != "path_quality"@,
        "path"@ != "breakpoints"@,
        "path"@ != "score"@,
        "path"@ != "alternatives"@,
        "path"@ != "ambiguity"@,
        "path"@ != "path_quality"@,
        "breakpoints"@ != "score"@,
        "breakpoints"@ != "alternatives"@,
        "breakpoints"@ != "ambiguity"@,
        "breakpoints"@ != "path_quality"@,
        "score"@ != "alternatives"@,
        "score"@ != "ambiguity"@,
        "score"@ != "path_quality"@,
        "alternatives"@ != "ambiguity"@,
        "alternatives"@ != "path_quality"@,
        "ambiguity"@ != "path_quality"@,
        "ambiguity"@ != "from"@,
        "ambiguity"@ != "to"@,
        "ambiguity"@ != "path_length"@,
        "ambiguity"@ != "confidence"@,
        "ambiguity"@ != "total_weight"@,
        "ambiguity"@ != "test_hops"@,
        "ambiguity"@ != "indirect_hops"@,
        "ambiguity"@ != "path"@,
        "ambiguity"@ != "breakpoints"@,
        "ambiguity"@ != "score"@,
        "ambiguity"@ != "alternatives"@,
        "alternatives"@ != "from"@,
        "alternatives"@ != "to"@,
        "alternatives"@ != "path_length"@,
        "alternatives"@ != "confidence"@,
        "alternatives"@ != "total_weight"@,
        "alternatives"@ != "test_hops"@,
        "alternatives"@ != "indirect_hops"@,
        "alternatives"@ != "path"@,
        "alternatives"@ != "breakpoints"@,
        "alternatives"@ != "score"@,
        "overall"@ != "semantic"@,
        "overall"@ != "topology"@,
        "overall"@ != "centrality"@,
        "semantic"@ != "topology"@,
        "semantic"@ != "centrality"@,
        "topology"@ != "centrality"@,
{
    reveal_strlit("from");
    reveal_strlit("to");
    reveal_strlit("path_length");
    reveal_strlit("confidence");
    reveal_strlit("total_weight");
    reveal_strlit("test_hops");
    reveal_strlit("indirect_hops");
    reveal_strlit("path");
    reveal_strlit("breakpoints");
    reveal_strlit("score");
    reveal_strlit("alternatives");
    reveal_strlit("ambiguity");
    reveal_strlit("path_quality");
    reveal_strlit("overall");
    reveal_strlit("semantic");
    reveal_strlit("topology");
    reveal_strlit("centrality");
    assert("from"@.len() != "to"@.len());
    assert("from"@.len() != "path_length"@.len());
    assert("from"@.len() != "confidence"@.len());
    assert("from"@.len() != "total_weight"@.len());
    assert("from"@.len() != "test_hops"@.len());
    assert("from"@.len() != "indirect_hops"@.len());
    assert("from"@[0] != "path"@[0]);
    assert("from"@.len() != "breakpoints"@.len());
    assert("from"@.len() != "score"@.len());
    assert("from"@.len() != "alternatives"@.len());
    assert("from"@.len() != "ambiguity"@.len());
    assert("from"@.len() != "path_quality"@.len());
    assert("to"@.len() != "path_length"@.len());
    assert("to"@.len() != "confidence"@.len());
    assert("to"@.len() != "total_weight"@.len());
    assert("to"@.len() != "test_hops"@.len());
    assert("to"@.len() != "indirect_hops"@.len());
    assert("to"@.len() != "path"@.len());
    assert("to"@.len() != "breakpoints"@.len());
    assert("to"@.len() != "score"@.len());
    assert("to"@.len() != "alternatives"@.len());
    assert("to"@.len() != "ambiguity"@.len());
    assert("to"@.len() != "path_quality"@.len());
    assert("path_length"@.len() != "confidence"@.len());
    assert("path_length"@.len() != "total_weight"@.len());
    assert("path_length"@.len() != "test_hops"@.len());
    assert("path_length"@.len() != "indirect_hops"@.len());
    assert("path_length"@.len() != "path"@.len());
    assert("path_length"@[0] != "breakpoints"@[0]);
    assert("path_length"@.len() != "score"@.len());
    assert("path_length"@.len() != "alternatives"@.len());
    assert("path_length"@.len() != "ambiguity"@.len());
    assert("path_length"@.len() != "path_quality"@.len());
    assert("confidence"@.len() != "total_weight"@.len());
    assert("confidence"@.len() != "test_hops"@.len());
    assert("confidence"@.len() != "indirect_hops"@.len());
    assert("confidence"@.len() != "path"@.len());
    assert("confidence"@.len() != "breakpoints"@.len());
    assert("confidence"@.len() != "score"@.len());
    assert("confidence"@.len() != "alternatives"@.len());
    assert("confidence"@.len() != "ambiguity"@.len());
    assert("confidence"@.len() != "path_quality"@.len());
    assert("total_weight"@.len() != "test_hops"@.len());
    assert("total_weight"@.len() != "indirect_hops"@.len());
    assert("total_weight"@.len() != "path"@.len());
    assert("total_weight"@.len() != "breakpoints"@.len());
    assert("total_weight"@.len() != "score"@.len());
    assert("total_weight"@[0] != "alternatives"@[0]);
    assert("total_weight"@.len() != "ambiguity"@.len());
    assert("total_weight"@[0] != "path_quality"@[0]);
    assert("test_hops"@.len() != "indirect_hops"@.len());
    assert("test_hops"@.len() != "path"@.len());
    assert("test_hops"@.len() != "breakpoints"@.len());
    assert("test_hops"@.len() != "score"@.len());
    assert("test_hops"@.len() != "alternatives"@.len());
    assert("test_hops"@[0] != "ambiguity"@[0]);
    assert("test_hops"@.len() != "path_quality"@.len());
    assert("indirect_hops"@.len() != "path"@.len());
    assert("indirect_hops"@.len() != "breakpoints"@.len());
    assert("indirect_hops"@.len() != "score"@.len());
    assert("indirect_hops"@.len() != "alternatives"@.len());
    assert("indirect_hops"@.len() != "ambiguity"@.len());
    assert("indirect_hops"@.len() != "path_quality"@.len());
    assert("path"@.len() != "breakpoints"@.len());
    assert("path"@.len() != "score"@.len());
    assert("path"@.len() != "alternatives"@.len());
    assert("path"@.len() != "ambiguity"@.len());
    assert("path"@.len() != "path_quality"@.len());
    assert("breakpoints"@.len() != "score"@.len());
    assert("breakpoints"@.len() != "alternatives"@.len());
    assert("breakpoints"@.len() != "ambiguity"@.len());
    assert("breakpoints"@.len() != "path_quality"@.len());
    assert("score"@.len() != "alternatives"@.len());
    assert("score"@.len() != "ambiguity"@.len());
    assert("score"@.len() != "path_quality"@.len());
    assert("alternatives"@.len() != "ambiguity"@.len());
    assert("alternatives"@[0] != "path_quality"@[0]);
    assert("ambiguity"@.len() != "path_quality"@.len());
    assert("overall"@.len() != "semantic"@.len());
    assert("overall"@.len() != "topology"@.len());
    assert("overall"@.len() != "centrality"@.len());
    assert("semantic"@[0] != "topology"@[0]);
    assert("semantic"@.len() != "centrality"@.len());
    assert("topology"@.len() != "centrality"@.len());
}

/// The response to a path request tells the best path, its length, weight and rating; the
/// other paths where there are any; and which pair was chosen where an endpoint stands for
/// several symbols.
pub proof fn law_best_path_is_told(
    from_name: Seq<char>,
    to_name: Seq<char>,
    ranked: Seq<RankedPath>,
    include_code: bool,
    from: Seq<Matched>,
    to: Seq<Matched>,
    winner: (int, int),
    from_resolution: SymbolResolution,
    to_resolution: SymbolResolution,
    quality: PathQuality,
    frontier: Seq<FrontierNode>,
)
    requires
        ranked.len() > 0,
    ensures
        ({
            let body = JsonView::Object(
                path_fields(
                    from_name,
                    to_name,
                    ranked,
                    include_code,
                    from,
                    to,
                    winner,
                    from_resolution,
                    to_resolution,
                    quality,
                    frontier,
                ),
            );
            let best = ranked[0];
            &&& body.text_field("from"@) == Some(from_name)
            &&& body.text_field("to"@) == Some(to_name)
            &&& body.unsigned_field("path_length"@) == Some(best.nodes@.len() as u64)
            &&& body.field("confidence"@) == Some(best.confidence@)
            &&& body.field("total_weight"@) == Some(best.total_weight@)
            &&& body.unsigned_field("test_hops"@) == Some(best.test_hops as u64)
            &&& body.unsigned_field("indirect_hops"@) == Some(best.indirect_hops as u64)
            &&& body.field("path"@) == Some(path_hops(best, include_code))
            &&& body.field("breakpoints"@) == Some(breakpoints_view(best.breakpoints@))
            &&& body.field("score"@) matches Some(score) && tells_scores(score, best.scores)
            &&& body.field("alternatives"@) == if ranked.len() > 1 {
                Some(alternatives_view(ranked))
            } else {
                None
            }
            &&& body.field("ambiguity"@) is Some == (from.len() > 1 || to.len() > 1)
            &&& body.field("ambiguity"@) matches Some(told) ==> told == JsonView::Object(
                ambiguity_fields(from, to, winner, from_resolution, to_resolution),
            )
            &&& body.field("path_quality"@) == Some(
                JsonView::Object(insight_fields(quality, best.nodes@, frontier)),
            )
        }),
{
    lemma_path_names_differ();
}

proof fn lemma_ambiguity_names_differ()
    ensures
        "matched_from"@ != "from_count"@,
        "matched_from"@ != "from_candidates"@,
        "matched_from"@ != "matched_to"@,
        "matched_from"@ != "to_count"@,
        "matched_from"@ != "to_candidates"@,
        "matched_from"@ != "from_resolution"@,
        "matched_from"@ != "to_resolution"@,
        "matched_from"@ != "selection_note"@,
        "from_count"@ != "from_candidates"@,
        "from_count"@ != "matched_to"@,
        "from_count"@ != "to_count"@,
        "from_count"@ != "to_candidates"@,
        "from_count"@ != "from_resolution"@,
        "from_count"@ != "to_resolution"@,
        "from_count"@ != "selection_note"@,
        "from_candidates"@ != "matched_to"@,
        "from_candidates"@ != "to_count"@,
        "from_candidates"@ != "to_candidates"@,
        "from_candidates"@ != "from_resolution"@,
        "from_candidates"@ != "to_resolution"@,
        "from_candidates"@ != "selection_note"@,
        "matched_to"@ != "to_count"@,
        "matched_to"@ != "to_candidates"@,
        "matched_to"@ != "from_resolution"@,
        "matched_to"@ != "to_resolution"@,
        "matched_to"@ != "selection_note"@,
        "to_count"@ != "to_candidates"@,
        "to_count"@ != "from_resolution"@,
        "to_count"@ != "to_resolution"@,
        "to_count"@ != "selection_note"@,
        "to_candidates"@ != "from_resolution"@,
        "to_candidates"@ != "to_resolution"@,
        "to_candidates"@ != "selection_note"@,
        "from_resolution"@ != "to_resolution"@,
        "from_resolution"@ != "selection_note"@,
        "to_resolution"@ != "selection_note"@,
{
    reveal_strlit("matched_from");
    reveal_strlit("from_count");
    reveal_strlit("from_candidates");
    reveal_strlit("matched_to");
    reveal_strlit("to_count");
    reveal_strlit("to_candidates");
    reveal_strlit("from_resolution");
    reveal_strlit("to_resolution");
    reveal_strlit("selection_note");
    assert("matched_from"@.len() != "from_count"@.len());
    assert("matched_from"@.len() != "from_candidates"@.len());
    assert("matched_from"@.len() != "matched_to"@.len());
    assert("matched_from"@.len() != "to_count"@.len());
    assert("matched_from"@.len() != "to_candidates"@.len());
    assert("matched_from"@.len() != "from_resolution"@.len());
    assert("matched_from"@.len() != "to_resolution"@.len());
    assert("matched_from"@.len() != "selection_note"@.len());
    assert("from_count"@.len() != "from_candidates"@.len());
    assert("from_count"@[0] != "matched_to"@[0]);
    assert("from_count"@.len() != "to_count"@.len());
    assert("from_count"@.len() != "to_candidates"@.len());
    assert("from_count"@.len() != "from_resolution"@.len());
    assert("from_count"@.len() != "to_resolution"@.len());
    assert("from_count"@.len() != "selection_note"@.len());
    assert("from_candidates"@.len() != "matched_to"@.len());
    assert("from_candidates"@.len() != "to_count"@.len());
    assert("from_candidates"@.len() != "to_candidates"@.len());
    assert("from_candidates"@[5] != "from_resolution"@[5]);
    assert("from_candidates"@.len() != "to_resolution"@.len());
    assert("from_candidates"@.len() != "selection_note"@.len());
    assert("matched_to"@.len() != "to_count"@.len());
    assert("matched_to"@.len() != "to_candidates"@.len());
    assert("matched_to"@.len() != "from_resolution"@.len());
    assert("matched_to"@.len() != "to_resolution"@.len());
    assert("matched_to"@.len() != "selection_note"@.len());
    assert("to_count"@.len() != "to_candidates"@.len());
    assert("to_count"@.len() != "from_resolution"@.len());
    assert("to_count"@.len() != "to_resolution"@.len());
    assert("to_count"@.len() != "selection_note"@.len());
    assert("to_candidates"@.len() != "from_resolution"@.len());
    assert("to_candidates"@[3] != "to_resolution"@[3]);
    assert("to_candidates"@.len() != "selection_note"@.len());
    assert("from_resolution"@.len() != "to_resolution"@.len());
    assert("from_resolution"@.len() != "selection_note"@.len());
    assert("to_resolution"@.len() != "selection_note"@.len());
}

/// What is said of an ambiguous endpoint is about that endpoint: where the chosen symbol of
/// that side is, how many symbols it stands for, and which. An endpoint that stands for one
/// symbol is not mentioned.
pub proof fn law_ambiguity_is_told_by_side(
    from: Seq<Matched>,
    to: Seq<Matched>,
    winner: (int, int),
    from_resolution: SymbolResolution,
    to_resolution: SymbolResolution,
)
    ensures
        ({
            let told = JsonView::Object(
                ambiguity_fields(from, to, winner, from_resolution, to_resolution),
            );
            &&& told.text_field("matched_from"@) == if from.len() > 1 {
                Some(label_of(from[winner.0]))
            } else {
                None
            }
            &&& told.unsigned_field("from_count"@) == if from.len() > 1 {
                Some(from.len() as u64)
            } else {
                None
            }
            &&& told.field("from_candidates"@) == if from.len() > 1 {
                Some(candidates_view(from, Some(from[winner.0].id@)))
            } else {
                None
            }
            &&& told.text_field("matched_to"@) == if to.len() > 1 {
                Some(label_of(to[winner.1]))
            } else {
                None
            }
            &&& told.unsigned_field("to_count"@) == if to.len() > 1 {
                Some(to.len() as u64)
            } else {
                None
            }
            &&& told.field("to_candidates"@) == if to.len() > 1 {
                Some(candidates_view(to, Some(to[winner.1].id@)))
            } else {
                None
            }
            &&& told.field("from_resolution"@) == Some(endpoint_meta(from_resolution))
            &&& told.field("to_resolution"@) == if to.len() > 1 {
                Some(endpoint_meta(to_resolution))
            } else {
                None
            }
        }),
{
    lemma_ambiguity_names_differ();
}

/// The places where callbacks are registered are told with the node at which the edge
/// starts and the node of the path that is registered there: every such edge of the first
/// nodes, until five are known.
#[verifier::spinoff_prover]
#[verifier::rlimit(40)]
pub proof fn law_callback_sites_are_registrations(nodes: Seq<PathNode>)
    ensures
        forall|s: int|
            0 <= s < callback_sites(nodes).len() ==> is_registration(
                #[trigger] callback_sites(nodes)[s],
                nodes,
            ),
        callback_sites(nodes).len() < 5 ==> forall|n: int, k: int|
            #![trigger nodes[n].incoming@[k]]
            0 <= n < nodes.len() && 0 <= k < nodes[n].incoming@.len() && nodes[n].incoming@[k].0
                is RegistersCallback ==> callback_sites(nodes).contains(
                site_view(nodes[n].incoming@[k].1@, nodes[n].qualified_name@),
            ),
    decreases nodes.len(),
{
    let sites = callback_sites(nodes);
    if nodes.len() > 0 {
        let fewer = nodes.drop_last();
        let last = nodes.last();
        let before = callback_sites(fewer);
        law_callback_sites_are_registrations(fewer);
        lemma_node_sites(last.incoming@, last.qualified_name@);
        let own = node_sites(last.incoming@, last.qualified_name@);
        assert forall|s: int| 0 <= s < sites.len() implies is_registration(
            #[trigger] sites[s],
            nodes,
        ) by {
            if s < before.len() {
                assert(sites[s] == before[s]);
                assert(is_registration(before[s], fewer));
                let (n, k) = choose|n: int, k: int|
                    #![trigger fewer[n].incoming@[k]]
                    0 <= n < fewer.len() && 0 <= k < fewer[n].incoming@.len() && registers_at(
                        before[s],
                        fewer[n],
                        k,
                    );
                assert(nodes[n].incoming@[k] == fewer[n].incoming@[k]);
                assert(registers_at(sites[s], nodes[n], k));
            } else {
                assert(sites[s] == own[s - before.len()]);
                assert(is_site_of(own[s - before.len()], last.incoming@, last.qualified_name@));
                let k = choose|k: int|
                    #![trigger last.incoming@[k]]
                    0 <= k < last.incoming@.len() && last.incoming@[k].0 is RegistersCallback
                        && own[s - before.len()] == site_view(
                        last.incoming@[k].1@,
                        last.qualified_name@,
                    );
                assert(nodes[nodes.len() - 1].incoming@[k] == last.incoming@[k]);
                lemma_site_is_told(last.incoming@[k].1@, last.qualified_name@);
                assert(registers_at(sites[s], nodes[nodes.len() - 1], k));
            }
        }
        if sites.len() < 5 {
            assert forall|n: int, k: int|
                #![trigger nodes[n].incoming@[k]]
                0 <= n < nodes.len() && 0 <= k < nodes[n].incoming@.len()
                    && nodes[n].incoming@[k].0 is RegistersCallback implies sites.contains(
                site_view(nodes[n].incoming@[k].1@, nodes[n].qualified_name@),
            ) by {
                let site = site_view(nodes[n].incoming@[k].1@, nodes[n].qualified_name@);
                if n < fewer.len() {
                    assert(fewer[n].incoming@[k] == nodes[n].incoming@[k]);
                    assert(before.contains(site));
                    let s = choose|s: int| 0 <= s < before.len() && before[s] == site;
                    assert(sites[s] == site);
                } else {
                    assert(last.incoming@[k] == nodes[n].incoming@[k]);
                    assert(own.contains(site));
                    let s = choose|s: int| 0 <= s < own.len() && own[s] == site;
                    assert(sites[before.len() + s] == site);
                }
            }
        }
    }
}

/// Whether a listed value tells the edge at a place of a node: a callback registration.
pub open spec fn registers_at(listed: JsonView, node: PathNode, k: int) -> bool {
    &&& node.incoming@[k].0 is RegistersCallback
    &&& listed.text_field("at"@) == Some(node.incoming@[k].1@)
    &&& listed.text_field("registers"@) == Some(node.qualified_name@)
}

/// Whether a listed value tells a callback registration of one of the nodes.
pub open spec fn is_registration(listed: JsonView, nodes: Seq<PathNode>) -> bool {
    exists|n: int, k: int|
        #![trigger nodes[n].incoming@[k]]
        0 <= n < nodes.len() && 0 <= k < nodes[n].incoming@.len() && registers_at(
            listed,
            nodes[n],
            k,
        )
}

proof fn lemma_site_is_told(at: Seq<char>, registers: Seq<char>)
    ensures
        site_view(at, registers).text_field("at"@) == Some(at),
        site_view(at, registers).text_field("registers"@) == Some(registers),
{
    reveal_strlit("at");
    reveal_strlit("registers");
    reveal_strlit("guidance");
    assert("at"@.len() != "registers"@.len());
    assert("at"@.len() != "guidance"@.len());
    assert("registers"@.len() != "guidance"@.len());
}

spec fn is_site_of(site: JsonView, incoming: Seq<(EdgeKind, String)>, registers: Seq<char>) -> bool {
    exists|k: int|
        #![trigger incoming[k]]
        0 <= k < incoming.len() && incoming[k].0 is RegistersCallback && site == site_view(
            incoming[k].1@,
            registers,
        )
}

proof fn lemma_node_sites(incoming: Seq<(EdgeKind, String)>, registers: Seq<char>)
    ensures
        forall|s: int|
            0 <= s < node_sites(incoming, registers).len() ==> is_site_of(
                #[trigger] node_sites(incoming, registers)[s],
                incoming,
                registers,
            ),
        forall|k: int|
            #![trigger incoming[k]]
            0 <= k < incoming.len() && incoming[k].0 is RegistersCallback ==> node_sites(
                incoming,
                registers,
            ).contains(site_view(incoming[k].1@, registers)),
    decreases incoming.len(),
{
    if incoming.len() > 0 {
        let fewer = incoming.drop_last();
        lemma_node_sites(fewer, registers);
        let (before, all) = (node_sites(fewer, registers), node_sites(incoming, registers));
        let n = incoming.len() - 1;
        assert forall|s: int| 0 <= s < all.len() implies is_site_of(
            #[trigger] all[s],
            incoming,
            registers,
        ) by {
            if s < before.len() {
                assert(all[s] == before[s]);
                assert(is_site_of(before[s], fewer, registers));
                let k = choose|k: int|
                    #![trigger fewer[k]]
                    0 <= k < fewer.len() && fewer[k].0 is RegistersCallback && before[s]
                        == site_view(fewer[k].1@, registers);
                assert(incoming[k] == fewer[k]);
            } else {
                assert(incoming[n].0 is RegistersCallback);
            }
        }
        assert forall|k: int|
            #![trigger incoming[k]]
            0 <= k < incoming.len() && incoming[k].0 is RegistersCallback implies all.contains(
            site_view(incoming[k].1@, registers),
        ) by {
            let site = site_view(incoming[k].1@, registers);
            if k < n {
                assert(fewer[k] == incoming[k]);
                let s = choose|s: int| 0 <= s < before.len() && before[s] == site;
                assert(all[s] == site);
            } else {
                assert(all[before.len() as int] == site);
            }
        }
    }
}

/// What is said where there is no path: no hops, the endpoints, and of a forward search the
/// first twenty nodes of the frontier, each with its own name, depth and number of calls.
pub proof fn law_no_path_is_told(
    from_name: Seq<char>,
    to_name: Seq<char>,
    from: Seq<Matched>,
    to: Seq<Matched>,
    search: FruitlessSearch,
)
    ensures
        ({
            let body = JsonView::Object(no_path_fields(from_name, to_name, from, to, search));
            let nodes = search.frontier.nodes@;
            &&& body.text_field("from"@) == Some(from_name)
            &&& body.text_field("to"@) == Some(to_name)
            &&& body.unsigned_field("path_length"@) == Some(0u64)
            &&& body.field("path"@) == Some(JsonView::Array(Seq::empty()))
            &&& body.field("from_candidates"@) == if from.len() > 1 {
                Some(candidates_view(from, None))
            } else {
                None
            }
            &&& body.field("to_candidates"@) == if to.len() > 1 {
                Some(candidates_view(to, None))
            } else {
                None
            }
            &&& body.field("frontier"@) matches Some(JsonView::Array(listed)) && {
                &&& listed.len() == if !(search.direction is Outgoing) {
                    0
                } else if nodes.len() < 20 {
                    nodes.len()
                } else {
                    20
                }
                &&& forall|i: int|
                    0 <= i < listed.len() ==> (#[trigger] listed[i]).text_field("qname"@) == Some(
                        nodes[i].qname@,
                    ) && listed[i].unsigned_field("depth"@) == Some(nodes[i].depth)
                        && listed[i].unsigned_field("outgoing_call_count"@) == Some(
                        nodes[i].outgoing_call_count,
                    )
            }
        }),
{
    lemma_no_path_names_differ();
    let body = JsonView::Object(no_path_fields(from_name, to_name, from, to, search));
    let nodes = search.frontier.nodes@;
    if let JsonView::Array(listed) = frontier_view(search.direction, nodes) {
        assert(body.field("frontier"@) == Some(JsonView::Array(listed)));
        assert forall|i: int| 0 <= i < listed.len() implies (#[trigger] listed[i]).text_field(
            "qname"@,
        ) == Some(nodes[i].qname@) && listed[i].unsigned_field("depth"@) == Some(nodes[i].depth)
            && listed[i].unsigned_field("outgoing_call_count"@) == Some(
            nodes[i].outgoing_call_count,
        ) by {
            assert(listed[i] == frontier_node_view(nodes[i]));
        }
    }
}

proof fn lemma_no_path_names_differ()
    ensures
        "from"@ != "to"@,
        "from"@ != "path_length"@,
        "from"@ != "path"@,
        "from"@ != "breakpoints"@,
        "from"@ != "frontier"@,
        "from"@ != "from_candidates"@,
        "from"@ != "to_candidates"@,
        "from"@ != "message"@,
        "to"@ != "path_length"@,
        "to"@ != "path"@,
        "to"@ != "breakpoints"@,
        "to"@ != "frontier"@,
        "to"@ != "from_candidates"@,
        "to"@ != "to_candidates"@,
        "to"@ != "message"@,
        "path_length"@ != "path"@,
        "path_length"@ != "breakpoints"@,
        "path_length"@ != "frontier"@,
        "path_length"@ != "from_candidates"@,
        "path_length"@ != "to_candidates"@,
        "path_length"@ != "message"@,
        "path"@ != "breakpoints"@,
        "path"@ != "frontier"@,
        "path"@ != "from_candidates"@,
        "path"@ != "to_candidates"@,
        "path"@ != "message"@,
        "breakpoints"@ != "frontier"@,
        "breakpoints"@ != "from_candidates"@,
        "breakpoints"@ != "to_candidates"@,
        "breakpoints"@ != "message"@,
        "frontier"@ != "from_candidates"@,
        "frontier"@ != "to_candidates"@,
        "frontier"@ != "message"@,
        "from_candidates"@ != "to_candidates"@,
        "from_candidates"@ != "message"@,
        "to_candidates"@ != "message"@,
        "from_candidates"@ != "from"@,
        "from_candidates"@ != "to"@,
        "from_candidates"@ != "path_length"@,
        "from_candidates"@ != "path"@,
        "from_candidates"@ != "breakpoints"@,
        "from_candidates"@ != "frontier"@,
        "to_candidates"@ != "from"@,
        "to_candidates"@ != "to"@,
        "to_candidates"@ != "path_length"@,
        "to_candidates"@ != "path"@,
        "to_candidates"@ != "breakpoints"@,
        "to_candidates"@ != "frontier"@,
        "qname"@ != "depth"@,
        "qname"@ != "outgoing_call_count"@,
        "depth"@ != "outgoing_call_count"@,
{
    reveal_strlit("from");
    reveal_strlit("to");
    reveal_strlit("path_length");
    reveal_strlit("path");
    reveal_strlit("breakpoints");
    reveal_strlit("frontier");
    reveal_strlit("from_candidates");
    reveal_strlit("to_candidates");
    reveal_strlit("message");
    reveal_strlit("qname");
    reveal_strlit("depth");
    reveal_strlit("outgoing_call_count");
    assert("from"@.len() != "to"@.len());
    assert("from"@.len() != "path_length"@.len());
    assert("from"@[0] != "path"@[0]);
    assert("from"@.len() != "breakpoints"@.len());
    assert("from"@.len() != "frontier"@.len());
    assert("from"@.len() != "from_candidates"@.len());
    assert("from"@.len() != "to_candidates"@.len());
    assert("from"@.len() != "message"@.len());
    assert("to"@.len() != "path_length"@.len());
    assert("to"@.len() != "path"@.len());
    assert("to"@.len() != "breakpoints"@.len());
    assert("to"@.len() != "frontier"@.len());
    assert("to"@.len() != "from_candidates"@.len());
    assert("to"@.len() != "to_candidates"@.len());
    assert("to"@.len() != "message"@.len());
    assert("path_length"@.len() != "path"@.len());
    assert("path_length"@[0] != "breakpoints"@[0]);
    assert("path_length"@.len() != "frontier"@.len());
    assert("path_length"@.len() != "from_candidates"@.len());
    assert("path_length"@.len() != "to_candidates"@.len());
    assert("path_length"@.len() != "message"@.len());
    assert("path"@.len() != "breakpoints"@.len());
    assert("path"@.len() != "frontier"@.len());
    assert("path"@.len() != "from_candidates"@.len());
    assert("path"@.len() != "to_candidates"@.len());
    assert("path"@.len() != "message"@.len());
    assert("breakpoints"@.len() != "frontier"@.len());
    assert("breakpoints"@.len() != "from_candidates"@.len());
    assert("breakpoints"@.len() != "to_candidates"@.len());
    assert("breakpoints"@.len() != "message"@.len());
    assert("frontier"@.len() != "from_candidates"@.len());
    assert("frontier"@.len() != "to_candidates"@.len());
    assert("frontier"@.len() != "message"@.len());
    assert("from_candidates"@.len() != "to_candidates"@.len());
    assert("from_candidates"@.len() != "message"@.len());
    assert("to_candidates"@.len() != "message"@.len());
    assert("qname"@[0] != "depth"@[0]);
    assert("qname"@.len() != "outgoing_call_count"@.len());
    assert("depth"@.len() != "outgoing_call_count"@.len());
}

/// The nodes at which a search is blocked are those of the first five frontier nodes that
/// call nothing, in order.
pub proof fn law_blocked_nodes_call_nothing(frontier: Seq<FrontierNode>)
    ensures
        ({
            let near = if frontier.len() < 5 {
                frontier
            } else {
                frontier.take(5)
            };
            let stuck = near.filter(|node: FrontierNode| node.outgoing_call_count == 0);
            let listed = blocked_nodes(nearest(frontier));
            &&& listed.len() == stuck.len()
            &&& forall|i: int|
                0 <= i < listed.len() ==> (#[trigger] listed[i]).text_field("qname"@) == Some(
                    stuck[i].qname@,
                ) && listed[i].unsigned_field("depth"@) == Some(stuck[i].depth)
        }),
{
    lemma_blocked_nodes(nearest(frontier));
}

proof fn lemma_blocked_nodes(nodes: Seq<FrontierNode>)
    ensures
        ({
            let stuck = nodes.filter(|node: FrontierNode| node.outgoing_call_count == 0);
            let listed = blocked_nodes(nodes);
            &&& listed.len() == stuck.len()
            &&& forall|i: int|
                0 <= i < listed.len() ==> (#[trigger] listed[i]).text_field("qname"@) == Some(
                    stuck[i].qname@,
                ) && listed[i].unsigned_field("depth"@) == Some(stuck[i].depth)
        }),
    decreases nodes.len(),
{
    reveal(Seq::filter);
    reveal_strlit("qname");
    reveal_strlit("depth");
    assert("qname"@[0] != "depth"@[0]);
    if nodes.len() > 0 {
        lemma_blocked_nodes(nodes.drop_last());
        let before = blocked_nodes(nodes.drop_last());
        let listed = blocked_nodes(nodes);
        let stuck = nodes.filter(|node: FrontierNode| node.outgoing_call_count == 0);
        assert forall|i: int| 0 <= i < listed.len() implies (#[trigger] listed[i]).text_field(
            "qname"@,
        ) == Some(stuck[i].qname@) && listed[i].unsigned_field("depth"@) == Some(
            stuck[i].depth,
        ) by {
            if i < before.len() {
                assert(listed[i] == before[i]);
            }
        }
    }
}

/// A search goes as far as it is asked to, and no farther than searches may go.
pub proof fn law_search_is_bounded(plan: PathPlan, search: FruitlessSearch)
    ensures
        plan.reach() <= plan.max_depth && plan.reach() <= MAX_PATH_DEPTH,
        plan.reach() == plan.max_depth || plan.reach() == MAX_PATH_DEPTH,
        plan.max_depth == search.max_depth ==> plan.reach() == search.reach(),
{
}

/// A pair is tried where both symbols are in the graph; only where both endpoints have the
/// same name is a symbol not looked for from itself.
pub proof fn law_pairs_in_the_graph_are_tried(
    from: Seq<Matched>,
    to: Seq<Matched>,
    same_name: bool,
    i: int,
    j: int,
)
    ensures
        pair_is_tried(from, to, same_name, i, j) ==> from[i].in_graph && to[j].in_graph,
        from[i].in_graph && to[j].in_graph && from[i].id@ != to[j].id@ ==> pair_is_tried(
            from,
            to,
            same_name,
            i,
            j,
        ),
        from[i].in_graph && to[j].in_graph && !same_name ==> pair_is_tried(
            from,
            to,
            same_name,
            i,
            j,
        ),
        same_name && from[i].id@ == to[j].id@ ==> !pair_is_tried(from, to, same_name, i, j),
{
}

/// A path request reads the directions that have a name as other requests do, and goes
/// forward where it is told nothing that has one.
pub proof fn law_directions_are_named_alike(args: JsonView)
    ensures
        args.text_field("direction"@) matches Some(name) ==> (
        crate::tools::impact::named_direction(name) matches Some(direction) ==> path_direction(args)
            == direction),
        (args.text_field("direction"@) matches Some(name) ==> crate::tools::impact::named_direction(
            name,
        ) is None) ==> path_direction(args) is Outgoing,
{
    reveal_strlit("incoming");
    reveal_strlit("both");
    reveal_strlit("outgoing");
    assert("incoming"@.len() != "both"@.len());
    assert("incoming"@[0] != "outgoing"@[0]);
    assert("both"@.len() != "outgoing"@.len());
}

/// What is said of the quality of a path: its name alone where it is direct; else where
/// callbacks are registered and where the search is blocked, as far as anything is known.
pub proof fn law_quality_is_told(
    quality: PathQuality,
    nodes: Seq<PathNode>,
    frontier: Seq<FrontierNode>,
)
    ensures
        ({
            let told = JsonView::Object(insight_fields(quality, nodes, frontier));
            let sites = callback_sites(nodes);
            let blocked = blocked_nodes(nearest(frontier));
            &&& told.text_field("quality"@) == Some(quality_name(quality))
            &&& told.field("fp_boundaries"@) == if !(quality is Direct) && sites.len() > 0 {
                Some(JsonView::Array(sites))
            } else {
                None
            }
            &&& told.field("blocked_at"@) is Some == (!(quality is Direct) && blocked.len() > 0)
            &&& told.field("blocked_at"@) matches Some(at) ==> at.field("nodes"@) == Some(
                JsonView::Array(blocked),
            )
            &&& told.field("action"@) is Some == !(quality is Direct)
        }),
{
    reveal_strlit("quality");
    reveal_strlit("fp_boundaries");
    reveal_strlit("blocked_at");
    reveal_strlit("action");
    reveal_strlit("message");
    reveal_strlit("nodes");
    assert("quality"@.len() != "fp_boundaries"@.len());
    assert("quality"@.len() != "blocked_at"@.len());
    assert("quality"@.len() != "action"@.len());
    assert("fp_boundaries"@.len() != "blocked_at"@.len());
    assert("fp_boundaries"@.len() != "action"@.len());
    assert("blocked_at"@.len() != "action"@.len());
    assert("message"@.len() != "nodes"@.len());
}

/// Qualities have names of their own.
pub proof fn law_quality_names_are_distinct(a: PathQuality, b: PathQuality)
    requires
        quality_name(a) == quality_name(b),
    ensures
        a == b,
{
    reveal_strlit("direct");
    reveal_strlit("indirect");
    reveal_strlit("fallback");
    assert("direct"@.len() != "indirect"@.len());
    assert("direct"@.len() != "fallback"@.len());
    assert("indirect"@[0] != "fallback"@[0]);
}

/// What is said where there is no path starts with how far the search went and how many
/// pairs were tried, and ends with how to tell symbols apart where an endpoint stands for
/// several.
pub proof fn law_fruitless_search_is_told(
    search: FruitlessSearch,
    from_name: Seq<char>,
    to_name: Seq<char>,
    from_count: nat,
    to_count: nat,
)
    ensures
        ({
            let message = search.message(from_name, to_name, from_count, to_count);
            &&& ("No path found within max_depth="@ + decimal(search.reach() as nat) + " (tried "@
                + decimal(from_count * to_count)).is_prefix_of(message)
            &&& selector_note(from_count > 1 || to_count > 1).is_suffix_of(message)
            &&& crate::text::holds_text(message, no_path_tip(search.full_index, search.max_depth))
            &&& crate::text::holds_text(
                message,
                kinds_note(from_name, to_name, search.from_kind, search.to_kind),
            )
            &&& crate::text::holds_text(
                message,
                frontier_note(search.direction, search.frontier),
            )
        }),
{
    let message = search.message(from_name, to_name, from_count, to_count);
    let tried = tried_message(search.reach(), from_count * to_count);
    let pairs = pairs_note(from_name, to_name, from_count, to_count);
    let tip = no_path_tip(search.full_index, search.max_depth);
    let kinds = kinds_note(from_name, to_name, search.from_kind, search.to_kind);
    let frontier = frontier_note(search.direction, search.frontier);
    let selector = selector_note(from_count > 1 || to_count > 1);
    let start = "No path found within max_depth="@ + decimal(search.reach() as nat) + " (tried "@
        + decimal(from_count * to_count);
    assert(tried.subrange(0, start.len() as int) =~= start);
    assert(message.subrange(0, start.len() as int) =~= start) by {
        assert forall|i: int| 0 <= i < start.len() implies #[trigger] message[i] == tried[i] by {}
        assert(tried.subrange(0, start.len() as int) =~= start);
        assert forall|i: int| 0 <= i < start.len() implies tried[i] == #[trigger] start[i] by {
            assert(tried.subrange(0, start.len() as int)[i] == tried[i]);
        }
    }
    assert(message.subrange(message.len() - selector.len(), message.len() as int) =~= selector);
    crate::text::law_text_holds_its_parts(tried + pairs, tip, kinds + frontier + selector);
    assert(message =~= tried + pairs + tip + (kinds + frontier + selector));
    crate::text::law_text_holds_its_parts(tried + pairs + tip, kinds, frontier + selector);
    assert(message =~= tried + pairs + tip + kinds + (frontier + selector));
    crate::text::law_text_holds_its_parts(tried + pairs + tip + kinds, frontier, selector);
}

/// The kinds of both endpoints are told, each with its own name, where both are known; an
/// endpoint that cannot be called is remarked on.
pub proof fn law_kinds_of_endpoints_are_told(
    from_name: Seq<char>,
    to_name: Seq<char>,
    from_kind: EndpointKind,
    to_kind: EndpointKind,
)
    ensures
        ({
            let note = kinds_note(from_name, to_name, Some(from_kind), Some(to_kind));
            crate::text::holds_text(
                note,
                "from '"@ + from_name + "' resolved as "@ + from_kind.name@ + ", to '"@ + to_name
                    + "' resolved as "@ + to_kind.name@,
            )
        }),
        kinds_note(from_name, to_name, None, Some(to_kind)).len() == 0,
        kinds_note(from_name, to_name, Some(from_kind), None).len() == 0,
{
    reveal_strlit(" (from '");
    reveal_strlit(" (");
    reveal_strlit("from '");
    assert(" (from '"@ =~= " ("@ + "from '"@);
    let note = kinds_note(from_name, to_name, Some(from_kind), Some(to_kind));
    let part = "from '"@ + from_name + "' resolved as "@ + from_kind.name@ + ", to '"@ + to_name
        + "' resolved as "@ + to_kind.name@;
    let rest = note.skip(2 + part.len() as int);
    assert(note =~= " ("@ + part + rest) by {
        assert(note.take(2 + part.len() as int) =~= " ("@ + part);
    }
    crate::text::law_text_holds_its_parts(" ("@, part, rest);
}

/// Pairs come row by row: where the places of the targets are counted through for each
/// source, the pair with the smaller count comes first.
pub proof fn law_pairs_come_row_by_row(a: (int, int), b: (int, int), targets: int)
    requires
        0 <= a.1 < targets,
        0 <= b.1 < targets,
    ensures
        pair_before(a, b) <==> a.0 * targets + a.1 < b.0 * targets + b.1,
{
    if a.0 < b.0 {
        assert((a.0 + 1) * targets <= b.0 * targets) by (nonlinear_arith)
            requires
                a.0 + 1 <= b.0,
                targets > 0,
        ;
        assert((a.0 + 1) * targets == a.0 * targets + targets) by (nonlinear_arith);
    } else if a.0 > b.0 {
        assert((b.0 + 1) * targets <= a.0 * targets) by (nonlinear_arith)
            requires
                b.0 + 1 <= a.0,
                targets > 0,
        ;
        assert((b.0 + 1) * targets == b.0 * targets + targets) by (nonlinear_arith);
    }
}

/// A path request is accepted exactly where both of its endpoints are symbols with names
/// that are not too long, and its edge kinds can be read; what is wrong with the source is
/// told first, then what is wrong with the target.
pub proof fn law_readable_path_requests_are_accepted(
    args: JsonView,
    from: Result<SymbolInput, String>,
    to: Result<SymbolInput, String>,
    max_name_length: nat,
)
    ensures
        path_refusal(args, from, to, max_name_length) is None <==> (from matches Ok(source)
            && byte_len(input_name(source)) <= max_name_length) && (to matches Ok(target)
            && byte_len(input_name(target)) <= max_name_length) && path_filter(args) is Ok,
        from matches Err(e) ==> path_refusal(args, from, to, max_name_length) == Some(e@),
        from is Ok ==> (to matches Err(e) ==> path_refusal(args, from, to, max_name_length) == Some(
            e@,
        )),
{
}

/// What is known of a target as a call of the source is told of it.
pub proof fn law_hints_are_passed_on(message: Seq<char>, hint: Seq<char>)
    ensures
        target_detail(Some(hint)) == hint,
        message.is_prefix_of(target_failure(message, Some(hint))),
        hint.is_suffix_of(target_failure(message, Some(hint))),
        target_failure(message, None) == message,
{
    let told = target_failure(message, Some(hint));
    assert(told.subrange(0, message.len() as int) =~= message);
    assert(told.subrange(told.len() - hint.len(), told.len() as int) =~= hint);
}

/// A symbol that is stored is told by its location and its line, counted from one; one that
/// is not is told by its identifier.
pub proof fn law_labels_tell_where_symbols_are(matched: Matched, symbol: SymbolFacts)
    ensures
        matched.symbol is None ==> label_of(matched) == hex_text(matched.id@),
        matched.symbol == Some(symbol) ==> matched.location@.is_prefix_of(label_of(matched))
            && decimal((symbol.start_line + 1) as nat).is_suffix_of(label_of(matched)),
{
    if matched.symbol == Some(symbol) {
        let label = label_of(matched);
        let line = decimal((symbol.start_line + 1) as nat);
        assert(label.subrange(0, matched.location@.len() as int) =~= matched.location@);
        assert(label.subrange(label.len() - line.len(), label.len() as int) =~= line);
    }
}

/// The message of a response on a fruitless search is that of the search, for as many
/// symbols as the endpoints stand for.
pub proof fn law_fruitless_search_is_answered(
    from_name: Seq<char>,
    to_name: Seq<char>,
    from: Seq<Matched>,
    to: Seq<Matched>,
    search: FruitlessSearch,
)
    ensures
        JsonView::Object(no_path_fields(from_name, to_name, from, to, search)).text_field(
            "message"@,
        ) == Some(search.message(from_name, to_name, from.len(), to.len())),
{
}

/// Nothing is remarked on where both endpoints can be called, and an endpoint that cannot be
/// is remarked on.
pub proof fn law_only_what_cannot_be_called_is_remarked_on(
    from_name: Seq<char>,
    to_name: Seq<char>,
    from_kind: EndpointKind,
    to_kind: EndpointKind,
)
    ensures
        ({
            let note = kinds_note(from_name, to_name, Some(from_kind), Some(to_kind));
            let plain = " (from '"@ + from_name + "' resolved as "@ + from_kind.name@ + ", to '"@
                + to_name + "' resolved as "@ + to_kind.name@ + ")"@;
            let source = from_kind.kind is Function || from_kind.kind is Method || from_kind.kind
                is Constructor;
            let target = to_kind.kind is Function || to_kind.kind is Method || to_kind.kind
                is Constructor;
            &&& plain.is_prefix_of(note)
            &&& note.len() == plain.len() <==> source && target
        }),
{
    reveal_strlit(
        ". Note: target is not a callable — specify a method or function instead (e.g. use the fully-qualified method name).",
    );
    reveal_strlit(
        ". Note: source is not a callable — outgoing call edges originate from functions/methods, not from type definitions.",
    );
    let note = kinds_note(from_name, to_name, Some(from_kind), Some(to_kind));
    let plain = " (from '"@ + from_name + "' resolved as "@ + from_kind.name@ + ", to '"@ + to_name
        + "' resolved as "@ + to_kind.name@ + ")"@;
    assert(note.subrange(0, plain.len() as int) =~= plain);
}

/// A single pair is spoken of as one, and any other number as several.
pub proof fn law_pairs_are_counted(reach: u64, pairs: nat)
    ensures
        pairs == 1 ==> " SymbolId pair)"@.is_suffix_of(tried_message(reach, pairs)),
        pairs != 1 ==> " SymbolId pairs)"@.is_suffix_of(tried_message(reach, pairs)),
{
    reveal_strlit(" SymbolId pair");
    reveal_strlit(" SymbolId pair)");
    reveal_strlit(" SymbolId pairs)");
    reveal_strlit("s");
    reveal_strlit(")");
    let message = tried_message(reach, pairs);
    let start = "No path found within max_depth="@ + decimal(reach as nat) + " (tried "@ + decimal(
        pairs,
    );
    let end = if pairs == 1 {
        " SymbolId pair)"@
    } else {
        " SymbolId pairs)"@
    };
    if pairs == 1 {
        assert(end =~= " SymbolId pair"@ + Seq::<char>::empty() + ")"@);
    } else {
        assert(end =~= " SymbolId pair"@ + "s"@ + ")"@);
    }
    assert(message =~= start + end);
    assert(message.subrange(message.len() - end.len(), message.len() as int) =~= end);
}

/// Several symbols are remarked on exactly where there is more than one pair; where an
/// endpoint stands for more than ten, both names and both numbers are told.
pub proof fn law_ambiguous_endpoints_are_remarked_on(
    from_name: Seq<char>,
    to_name: Seq<char>,
    from_count: nat,
    to_count: nat,
)
    requires
        from_count > 0,
        to_count > 0,
    ensures
        ({
            let note = pairs_note(from_name, to_name, from_count, to_count);
            &&& note.len() == 0 <==> from_count == 1 && to_count == 1
            &&& from_count > 10 || to_count > 10 ==> crate::text::holds_text(
                note,
                from_name + "' matched "@ + decimal(from_count),
            ) && crate::text::holds_text(note, to_name + "' matched "@ + decimal(to_count))
            &&& from_count <= 10 && to_count <= 10 ==> note == pairs_note(
                to_name,
                from_name,
                from_count,
                to_count,
            )
        }),
{
    assert(from_count * to_count >= 1 && (from_count * to_count == 1 <==> from_count == 1
        && to_count == 1)) by (nonlinear_arith)
        requires
            from_count > 0,
            to_count > 0,
    ;
    reveal_strlit(". Note: '");
    reveal_strlit(
        ". Note: the same qualified name maps to multiple SymbolIds (e.g., declaration vs definition). All pairs were tried.",
    );
    if from_count > 10 || to_count > 10 {
        assert(from_count * to_count > 1) by (nonlinear_arith)
            requires
                from_count > 0,
                to_count > 0,
                from_count > 10 || to_count > 10,
        ;
        let note = pairs_note(from_name, to_name, from_count, to_count);
        let first = from_name + "' matched "@ + decimal(from_count);
        let second = to_name + "' matched "@ + decimal(to_count);
        let middle = " SymbolId(s), '"@;
        let end =
            " SymbolId(s) — this is likely symbol-name ambiguity across files. Use a fully-qualified name to narrow the search."@;
        assert(note =~= ". Note: '"@ + first + (middle + second + end));
        crate::text::law_text_holds_its_parts(". Note: '"@, first, middle + second + end);
        assert(note =~= (". Note: '"@ + first + middle) + second + end);
        crate::text::law_text_holds_its_parts(". Note: '"@ + first + middle, second, end);
    }
}

/// The frontier is spoken of exactly where a forward search has one, with how many nodes it
/// has and how far it reached; and how to tell symbols apart exactly where there are several.
pub proof fn law_frontier_is_spoken_of(direction: TraversalDirection, frontier: Frontier)
    ensures
        frontier_note(direction, frontier).len() == 0 <==> !(direction is Outgoing)
            || frontier.nodes@.len() == 0,
        direction is Outgoing && frontier.nodes@.len() > 0 ==> crate::text::holds_text(
            frontier_note(direction, frontier),
            decimal(frontier.depth_reached as nat) + " — "@ + decimal(frontier.nodes@.len())
                + " node(s)"@,
        ),
        selector_note(false).len() == 0,
        selector_note(true).len() > 0,
{
    reveal_strlit("\nForward frontier reached depth ");
    reveal_strlit(
        "\nUse a SymbolSelector object (for example, {\"qualified_name\": \"...\", \"file_path\": \"...\"}) to disambiguate; symbol_ref from search or symbol results can be reused directly.",
    );
    if direction is Outgoing && frontier.nodes@.len() > 0 {
        reveal_strlit(" node(s) with no further static callees (showing first ");
        reveal_strlit(" node(s)");
        reveal_strlit(" with no further static callees (showing first ");
        assert(" node(s) with no further static callees (showing first "@ =~= " node(s)"@
            + " with no further static callees (showing first "@);
        let note = frontier_note(direction, frontier);
        let start = "\nForward frontier reached depth "@;
        let part = decimal(frontier.depth_reached as nat) + " — "@ + decimal(frontier.nodes@.len())
            + " node(s)"@;
        let rest = note.skip((start.len() + part.len()) as int);
        assert(note =~= start + part + rest) by {
            assert(note.take((start.len() + part.len()) as int) =~= start + part);
        }
        crate::text::law_text_holds_its_parts(start, part, rest);
    }
}

/// What a request may do depends on whether everything is indexed, and else only on whether
/// it could have asked for a deeper search.
pub proof fn law_tips_fit_the_search(depth: u64, other: u64)
    ensures
        no_path_tip(true, depth) == no_path_tip(true, other),
        (depth < MAX_PATH_DEPTH <==> other < MAX_PATH_DEPTH) <==> no_path_tip(false, depth)
            == no_path_tip(false, other),
{
    reveal_strlit(
        ". In focus mode this is only a current-closure result, not a repo-wide proof. Tip: try a higher max_depth (up to 10), resume the query after refinement, or run a full structural index (CLI: 'atlas index --analysis full') for deeper call-graph edges.",
    );
    reveal_strlit(
        ". In focus mode this is only a current-closure result, not a repo-wide proof. Tip: the path may involve function pointers or dynamic dispatch not yet resolved; resume the query after refinement or run a full structural index (CLI: 'atlas index --analysis full').",
    );
    assert(". In focus mode this is only a current-closure result, not a repo-wide proof. Tip: try a higher max_depth (up to 10), resume the query after refinement, or run a full structural index (CLI: 'atlas index --analysis full') for deeper call-graph edges."@.len()
        != ". In focus mode this is only a current-closure result, not a repo-wide proof. Tip: the path may involve function pointers or dynamic dispatch not yet resolved; resume the query after refinement or run a full structural index (CLI: 'atlas index --analysis full')."@.len());
}

} // verus!
