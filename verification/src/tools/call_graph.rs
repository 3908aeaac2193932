//! The call graph around a symbol: hop by hop, over incoming and outgoing edges,
//! within a budget of nodes.

use std::collections::HashMap;

use vstd::prelude::*;
use vstd::string::*;

use crate::json::{items_view, no_fields, Json, JsonObject, JsonView};
use crate::text::same_text;
use crate::tools::edges::{edge_name, edge_passes, is_allowed_edge, EdgeKind};
use crate::tools::symbols::{ids_view, same_symbol, SymbolId};

verus! {

/// The deepest hop of a call graph.
pub const MAX_CALL_GRAPH_DEPTH: u64 = 5;

/// A symbol of the code graph.
pub struct GraphNode {
    pub symbol_id: SymbolId,
    pub name: String,
    pub qualified_name: String,
    pub kind_name: String,
    pub file: String,
    pub line: u32,
    /// The symbol as it is listed by itself.
    pub summary: Json,
}

/// The other end of an edge.
#[derive(Clone, Copy, Debug, PartialEq, Eq, Structural)]
pub struct Neighbor {
    pub node: usize,
    pub kind: EdgeKind,
}

/// The code graph: symbols, and for each the edges that lead to it and from it.
pub struct CodeGraph {
    nodes: Vec<GraphNode>,
    incoming: Vec<Vec<Neighbor>>,
    outgoing: Vec<Vec<Neighbor>>,
}

/// Whether all edges lead to nodes.
pub open spec fn leads_within(edges: Seq<Vec<Neighbor>>, size: nat) -> bool {
    forall|i: int, j: int|
        #![trigger edges[i]@[j]]
        0 <= i < edges.len() && 0 <= j < edges[i]@.len() ==> edges[i]@[j].node < size
}

fn check_edges(edges: &Vec<Vec<Neighbor>>, size: usize) -> (ok: bool)
    ensures
        ok == leads_within(edges@, size as nat),
{
    let mut i: usize = 0;
    while i < edges.len()
        invariant
            i <= edges@.len(),
            forall|a: int, b: int|
                #![trigger edges@[a]@[b]]
                0 <= a < i && 0 <= b < edges@[a]@.len() ==> edges@[a]@[b].node < size,
        decreases edges@.len() - i,
    {
        let list = &edges[i];
        let mut j: usize = 0;
        while j < list.len()
            invariant
                i < edges@.len(),
                j <= list@.len(),
                list == edges@[i as int],
                forall|b: int| 0 <= b < j ==> (#[trigger] list@[b]).node < size,
            decreases list@.len() - j,
        {
            if list[j].node >= size {
                proof {
                    assert(edges@[i as int]@[j as int].node >= size);
                }
                return false;
            }
            j = j + 1;
        }
        i = i + 1;
    }
    true
}

/// Whether no two nodes stand for one symbol.
pub open spec fn distinct_symbols(nodes: Seq<GraphNode>) -> bool {
    forall|i: int, j: int|
        0 <= i < j < nodes.len() ==> (#[trigger] nodes[i]).symbol_id@ != (
        #[trigger] nodes[j]).symbol_id@
}

/// The number by which a symbol is looked for among others.
spec fn bucket_of(id: Seq<u8>) -> u64 {
    (id[0] + 256 * id[1] + 65536 * id[2] + 16777216 * id[3]) as u64
}

fn find_bucket(id: SymbolId) -> (bucket: u64)
    ensures
        bucket == bucket_of(id@),
{
    id.bytes[0] as u64 + 256 * (id.bytes[1] as u64) + 65536 * (id.bytes[2] as u64) + 16777216 * (
    id.bytes[3] as u64)
}

/// Whether every node before `n` is in its bucket, and nothing else is in any.
spec fn sorted_into(
    nodes: Seq<GraphNode>,
    buckets: Map<u64, Vec<usize>>,
    n: nat,
) -> bool {
    &&& forall|i: int|
        0 <= i < n ==> buckets.contains_key(bucket_of((#[trigger] nodes[i]).symbol_id@))
            && buckets[bucket_of(nodes[i].symbol_id@)]@.contains(i as usize)
    &&& forall|bucket: u64, k: int|
        #![trigger buckets[bucket]@[k]]
        buckets.contains_key(bucket) && 0 <= k < buckets[bucket]@.len() ==> buckets[bucket]@[k] < n
}

fn is_in_bucket(nodes: &Vec<GraphNode>, bucket: &Vec<usize>, id: SymbolId) -> (found: bool)
    requires
        forall|k: int| 0 <= k < bucket@.len() ==> #[trigger] bucket@[k] < nodes@.len(),
    ensures
        found == exists|k: int|
            0 <= k < bucket@.len() && nodes@[#[trigger] bucket@[k] as int].symbol_id@ == id@,
{
    let mut k: usize = 0;
    while k < bucket.len()
        invariant
            k <= bucket@.len(),
            forall|m: int| 0 <= m < bucket@.len() ==> #[trigger] bucket@[m] < nodes@.len(),
            forall|m: int|
                0 <= m < k ==> nodes@[#[trigger] bucket@[m] as int].symbol_id@ != id@,
        decreases bucket@.len() - k,
    {
        if same_symbol(nodes[bucket[k]].symbol_id, id) {
            return true;
        }
        k = k + 1;
    }
    false
}

fn check_symbols(nodes: &Vec<GraphNode>) -> (ok: bool)
    ensures
        ok == distinct_symbols(nodes@),
{
    broadcast use vstd::std_specs::hash::group_hash_axioms;

    let mut buckets: HashMap<u64, Vec<usize>> = HashMap::new();
    let mut i: usize = 0;
    while i < nodes.len()
        invariant
            i <= nodes@.len(),
            sorted_into(nodes@, buckets@, i as nat),
            forall|a: int, b: int|
                0 <= a < b < i ==> (#[trigger] nodes@[a]).symbol_id@ != (
                #[trigger] nodes@[b]).symbol_id@,
        decreases nodes@.len() - i,
    {
        let id = nodes[i].symbol_id;
        let key: u64 = find_bucket(id);
        let ghost before = buckets@;
        let mut bucket: Vec<usize> = match buckets.remove(&key) {
            Some(bucket) => bucket,
            None => Vec::new(),
        };
        let ghost held = bucket@;
        proof {
            assert forall|k: int| 0 <= k < held.len() implies #[trigger] held[k] < i by {
                assert(before[key]@[k] < i);
            }
        }
        if is_in_bucket(nodes, &bucket, id) {
            proof {
                let k = choose|k: int|
                    0 <= k < held.len() && nodes@[#[trigger] held[k] as int].symbol_id@ == id@;
                assert(nodes@[held[k] as int].symbol_id@ == nodes@[i as int].symbol_id@);
            }
            return false;
        }
        proof {
            assert forall|a: int| 0 <= a < i implies (#[trigger] nodes@[a]).symbol_id@ != id@ by {
                if nodes@[a].symbol_id@ == id@ {
                    assert(before[key]@.contains(a as usize));
                    let k = choose|k: int| 0 <= k < held.len() && held[k] == a as usize;
                    assert(nodes@[held[k] as int].symbol_id@ == id@);
                }
            }
        }
        bucket.push(i);
        let ghost full = bucket@;
        buckets.insert(key, bucket);
        proof {
            assert(buckets@ =~= before.insert(key, bucket));
            assert forall|a: int| 0 <= a < i + 1 implies buckets@.contains_key(
                bucket_of((#[trigger] nodes@[a]).symbol_id@),
            ) && buckets@[bucket_of(nodes@[a].symbol_id@)]@.contains(a as usize) by {
                if a == i {
                    assert(full[held.len() as int] == i);
                } else if bucket_of(nodes@[a].symbol_id@) == key {
                    assert(before[key]@.contains(a as usize));
                    let k = choose|k: int| 0 <= k < held.len() && held[k] == a as usize;
                    assert(full[k] == a as usize);
                }
            }
            assert forall|other: u64, k: int|
                #![trigger buckets@[other]@[k]]
                buckets@.contains_key(other) && 0 <= k < buckets@[other]@.len() implies buckets@[
                other]@[k] < i + 1 by {
                if other != key {
                    assert(before[other]@[k] < i);
                }
            }
        }
        i = i + 1;
    }
    true
}

impl CodeGraph {
    /// The number of nodes.
    pub closed spec fn size(self) -> nat {
        self.nodes@.len()
    }

    /// The node at a place.
    pub closed spec fn node(self, i: int) -> GraphNode {
        self.nodes@[i]
    }

    /// The edges that lead to a node.
    pub closed spec fn incoming(self, i: int) -> Seq<Neighbor> {
        self.incoming@[i]@
    }

    /// The edges that lead from a node.
    pub closed spec fn outgoing(self, i: int) -> Seq<Neighbor> {
        self.outgoing@[i]@
    }

    /// Whether no symbol has two nodes, and all edges lead to nodes.
    pub open spec fn is_sound(self) -> bool {
        &&& forall|i: int, j: int|
            0 <= i < j < self.size() ==> (#[trigger] self.node(i)).symbol_id@ != (
            #[trigger] self.node(j)).symbol_id@
        &&& forall|i: int| 0 <= i < self.size() ==> within(#[trigger] self.incoming(i), self.size())
        &&& forall|i: int| 0 <= i < self.size() ==> within(#[trigger] self.outgoing(i), self.size())
    }

    #[verifier::type_invariant]
    spec fn is_well_formed(self) -> bool {
        &&& self.incoming@.len() == self.nodes@.len()
        &&& self.outgoing@.len() == self.nodes@.len()
        &&& leads_within(self.incoming@, self.nodes@.len())
        &&& leads_within(self.outgoing@, self.nodes@.len())
        &&& distinct_symbols(self.nodes@)
    }

    /// The graph with the given nodes and edges, where each node has its edges, all
    /// edges lead to nodes, and no symbol has two nodes.
    pub fn new(
        nodes: Vec<GraphNode>,
        incoming: Vec<Vec<Neighbor>>,
        outgoing: Vec<Vec<Neighbor>>,
    ) -> (graph: Option<CodeGraph>)
        ensures
            graph is Some == (incoming@.len() == nodes@.len() && outgoing@.len() == nodes@.len()
                && leads_within(incoming@, nodes@.len()) && leads_within(outgoing@, nodes@.len())
                && distinct_symbols(nodes@)),
            graph matches Some(g) ==> g.is_sound() && g.size() == nodes@.len() && (forall|i: int|
                #![trigger g.node(i)]
                #![trigger g.incoming(i)]
                #![trigger g.outgoing(i)]
                0 <= i < nodes@.len() ==> g.node(i) == nodes@[i] && g.incoming(i) == incoming@[i]@
                    && g.outgoing(i) == outgoing@[i]@),
    {
        let size: usize = nodes.len();
        if incoming.len() == size && outgoing.len() == size && check_edges(&incoming, size)
            && check_edges(&outgoing, size) && check_symbols(&nodes) {
            let graph = CodeGraph { nodes, incoming, outgoing };
            proof {
                lemma_is_sound(graph);
            }
            Some(graph)
        } else {
            None
        }
    }

    /// The place of a symbol.
    pub fn position(&self, id: SymbolId) -> (place: Option<usize>)
        ensures
            match place {
                Some(i) => i < self.size() && self.node(i as int).symbol_id@ == id@ && forall|j: int|
                    0 <= j < i ==> (#[trigger] self.node(j)).symbol_id@ != id@,
                None => forall|j: int|
                    0 <= j < self.size() ==> (#[trigger] self.node(j)).symbol_id@ != id@,
            },
    {
        let mut i: usize = 0;
        while i < self.nodes.len()
            invariant
                i <= self.nodes@.len(),
                forall|j: int| 0 <= j < i ==> (#[trigger] self.node(j)).symbol_id@ != id@,
            decreases self.nodes@.len() - i,
        {
            if same_symbol(self.nodes[i].symbol_id, id) {
                return Some(i);
            }
            i = i + 1;
        }
        None
    }
}

/// The first place of a symbol in the graph.
pub open spec fn place_of(graph: CodeGraph, id: Seq<u8>, from: int) -> Option<int>
    decreases graph.size() - from,
{
    if from < 0 || from >= graph.size() {
        None
    } else if graph.node(from).symbol_id@ == id {
        Some(from)
    } else {
        place_of(graph, id, from + 1)
    }
}

proof fn lemma_place_of(graph: CodeGraph, id: Seq<u8>, from: int, place: Option<usize>)
    requires
        0 <= from <= graph.size(),
        match place {
            Some(i) => from <= i < graph.size() && graph.node(i as int).symbol_id@ == id && forall|
                j: int,
            |
                from <= j < i ==> (#[trigger] graph.node(j)).symbol_id@ != id,
            None => forall|j: int|
                from <= j < graph.size() ==> (#[trigger] graph.node(j)).symbol_id@ != id,
        },
    ensures
        place_of(graph, id, from) == match place {
            Some(i) => Some(i as int),
            None => None,
        },
    decreases graph.size() - from,
{
    if from < graph.size() && graph.node(from).symbol_id@ != id {
        lemma_place_of(graph, id, from + 1, place);
    }
}

proof fn lemma_found_place_is_a_place(graph: CodeGraph, id: Seq<u8>, from: int)
    ensures
        place_of(graph, id, from) matches Some(place) ==> 0 <= place < graph.size(),
    decreases graph.size() - from,
{
    if 0 <= from < graph.size() && graph.node(from).symbol_id@ != id {
        lemma_found_place_is_a_place(graph, id, from + 1);
    }
}

proof fn lemma_roots_are_places(graph: CodeGraph, ids: Seq<Seq<u8>>)
    ensures
        are_places(places_of(graph, ids), graph.size()),
    decreases ids.len(),
{
    if ids.len() > 0 {
        lemma_roots_are_places(graph, ids.drop_last());
        lemma_found_place_is_a_place(graph, ids.last(), 0);
    }
}

proof fn lemma_is_sound(graph: CodeGraph)
    requires
        graph.is_well_formed(),
    ensures
        graph.is_sound(),
{
    let size = graph.size();
    assert forall|i: int, j: int| 0 <= i < j < size implies (#[trigger] graph.node(i)).symbol_id@
        != (#[trigger] graph.node(j)).symbol_id@ by {
        assert(graph.nodes@[i].symbol_id@ != graph.nodes@[j].symbol_id@);
    }
    assert forall|i: int| 0 <= i < size implies within(#[trigger] graph.incoming(i), size) by {
        assert forall|k: int| 0 <= k < graph.incoming(i).len() implies (
        #[trigger] graph.incoming(i)[k]).node < size by {
            assert(graph.incoming@[i]@[k].node < size);
        }
    }
    assert forall|i: int| 0 <= i < size implies within(#[trigger] graph.outgoing(i), size) by {
        assert forall|k: int| 0 <= k < graph.outgoing(i).len() implies (
        #[trigger] graph.outgoing(i)[k]).node < size by {
            assert(graph.outgoing@[i]@[k].node < size);
        }
    }
}

/// The places of those of the symbols that are in the graph.
pub open spec fn places_of(graph: CodeGraph, ids: Seq<Seq<u8>>) -> Seq<int>
    decreases ids.len(),
{
    if ids.len() == 0 {
        Seq::empty()
    } else {
        match place_of(graph, ids.last(), 0) {
            Some(place) => places_of(graph, ids.drop_last()).push(place),
            None => places_of(graph, ids.drop_last()),
        }
    }
}

/// The directions in which the graph is followed.
#[derive(Clone, Copy, Debug, PartialEq, Eq, Structural)]
pub struct Ways {
    pub incoming: bool,
    pub outgoing: bool,
}

/// The directions that a request asks for: both, unless it names one.
pub open spec fn ways_of(direction: Seq<char>) -> Ways {
    let both = direction.len() == 0 || direction == "both"@;
    Ways {
        incoming: both || direction == "incoming"@,
        outgoing: both || direction == "outgoing"@,
    }
}

/// The directions that a request asks for.
pub fn read_ways(direction: &str) -> (ways: Ways)
    ensures
        ways == ways_of(direction@),
{
    let both = direction.is_empty() || same_text(direction, "both");
    Ways {
        incoming: both || same_text(direction, "incoming"),
        outgoing: both || same_text(direction, "outgoing"),
    }
}

/// What came of looking at some edges.
#[verifier::ext_equal]
pub struct Sweep {
    pub visited: Set<int>,
    pub found: Seq<Neighbor>,
}

/// Follows the allowed edges to nodes that have not been visited, in order.
pub open spec fn sweep(
    neighbors: Seq<Neighbor>,
    allowed: Seq<EdgeKind>,
    visited: Set<int>,
) -> Sweep
    decreases neighbors.len(),
{
    if neighbors.len() == 0 {
        Sweep { visited, found: Seq::empty() }
    } else {
        let before = sweep(neighbors.drop_last(), allowed, visited);
        let neighbor = neighbors.last();
        if before.visited.contains(neighbor.node as int) || !edge_passes(neighbor.kind, allowed) {
            before
        } else {
            Sweep {
                visited: before.visited.insert(neighbor.node as int),
                found: before.found.push(neighbor),
            }
        }
    }
}

/// What came of one hop.
#[verifier::ext_equal]
pub struct Level {
    pub visited: Set<int>,
    pub callers: Seq<Neighbor>,
    pub callees: Seq<Neighbor>,
    pub next: Seq<int>,
}

/// The nodes at the other ends.
pub open spec fn ends(found: Seq<Neighbor>) -> Seq<int> {
    Seq::new(found.len(), |i: int| found[i].node as int)
}

/// Follows the edges of a node in one direction, if that is asked for.
pub open spec fn follow(
    asked: bool,
    neighbors: Seq<Neighbor>,
    allowed: Seq<EdgeKind>,
    visited: Set<int>,
) -> Sweep {
    if asked {
        sweep(neighbors, allowed, visited)
    } else {
        Sweep { visited, found: Seq::empty() }
    }
}

/// One hop from the nodes of a frontier.
pub open spec fn expand(
    graph: CodeGraph,
    frontier: Seq<int>,
    allowed: Seq<EdgeKind>,
    ways: Ways,
    visited: Set<int>,
) -> Level
    decreases frontier.len(),
{
    if frontier.len() == 0 {
        Level { visited, callers: Seq::empty(), callees: Seq::empty(), next: Seq::empty() }
    } else {
        let before = expand(graph, frontier.drop_last(), allowed, ways, visited);
        let at = frontier.last();
        let inward = follow(ways.incoming, graph.incoming(at), allowed, before.visited);
        let outward = follow(ways.outgoing, graph.outgoing(at), allowed, inward.visited);
        Level {
            visited: outward.visited,
            callers: before.callers + inward.found,
            callees: before.callees + outward.found,
            next: before.next + ends(inward.found) + ends(outward.found),
        }
    }
}

/// The first `n` elements, or all.
pub open spec fn at_most<A>(list: Seq<A>, n: nat) -> Seq<A> {
    if list.len() <= n {
        list
    } else {
        list.take(n as int)
    }
}

/// A hop as it is listed.
#[verifier::ext_equal]
pub struct HopView {
    pub depth: nat,
    pub callers: Seq<Neighbor>,
    pub callees: Seq<Neighbor>,
}

/// The hops of a call graph, and how many nodes are listed in all.
#[verifier::ext_equal]
pub struct Walk {
    pub hops: Seq<HopView>,
    pub total: nat,
}

/// The hops from `depth` to `last`, as long as fewer than `limit` nodes are
/// listed. Of what is left of the budget, half goes to callers and half to
/// callees; what is not listed is still followed.
pub open spec fn walk(
    graph: CodeGraph,
    frontier: Seq<int>,
    visited: Set<int>,
    allowed: Seq<EdgeKind>,
    ways: Ways,
    depth: nat,
    last: nat,
    total: nat,
    limit: nat,
) -> Walk
    decreases last + 1 - depth,
{
    if depth > last || total >= limit {
        Walk { hops: Seq::empty(), total }
    } else {
        let level = expand(graph, frontier, allowed, ways, visited);
        let remaining = (limit - total) as nat;
        let callers = at_most(level.callers, remaining / 2);
        let callees = at_most(level.callees, (remaining - remaining / 2) as nat);
        let rest = walk(
            graph,
            level.next,
            level.visited,
            allowed,
            ways,
            depth + 1,
            last,
            total + callers.len() + callees.len(),
            limit,
        );
        Walk { hops: seq![HopView { depth, callers, callees }] + rest.hops, total: rest.total }
    }
}

/// The nodes that are marked.
pub open spec fn marked(marks: Seq<bool>) -> Set<int> {
    Set::new(|i: int| 0 <= i < marks.len() && marks[i])
}

/// The places of a list.
pub open spec fn places_view(places: Seq<usize>) -> Seq<int> {
    Seq::new(places.len(), |i: int| places[i] as int)
}

/// A hop as it is listed.
pub struct Hop {
    pub depth: u64,
    pub callers: Vec<Neighbor>,
    pub callees: Vec<Neighbor>,
}

impl Hop {
    /// The hop.
    pub open spec fn view(self) -> HopView {
        HopView { depth: self.depth as nat, callers: self.callers@, callees: self.callees@ }
    }
}

/// The hops of a list.
pub open spec fn hops_view(hops: Seq<Hop>) -> Seq<HopView> {
    Seq::new(hops.len(), |i: int| hops[i]@)
}

/// Whether all neighbours are nodes of a graph of the given size.
pub open spec fn within(found: Seq<Neighbor>, size: nat) -> bool {
    forall|i: int| 0 <= i < found.len() ==> (#[trigger] found[i]).node < size
}

fn sweep_edges(
    neighbors: &Vec<Neighbor>,
    allowed: &Vec<EdgeKind>,
    marks: &mut Vec<bool>,
    found: &mut Vec<Neighbor>,
    next: &mut Vec<usize>,
)
    requires
        forall|i: int|
            0 <= i < neighbors@.len() ==> (#[trigger] neighbors@[i]).node < old(marks)@.len(),
        forall|i: int| 0 <= i < old(next)@.len() ==> (#[trigger] old(next)@[i]) < old(marks)@.len(),
        within(old(found)@, old(marks)@.len()),
    ensures
        within(final(found)@, old(marks)@.len()),
        final(marks)@.len() == old(marks)@.len(),
        forall|i: int|
            0 <= i < final(next)@.len() ==> (#[trigger] final(next)@[i]) < old(marks)@.len(),
        marked(final(marks)@) == sweep(neighbors@, allowed@, marked(old(marks)@)).visited,
        final(found)@ == old(found)@ + sweep(neighbors@, allowed@, marked(old(marks)@)).found,
        places_view(final(next)@) == places_view(old(next)@) + ends(
            sweep(neighbors@, allowed@, marked(old(marks)@)).found,
        ),
{
    let ghost start = marked(marks@);
    let ghost found_before = found@;
    let ghost next_before = places_view(next@);
    let mut i: usize = 0;
    proof {
        assert(neighbors@.take(0) =~= Seq::empty());
        assert(found_before + Seq::<Neighbor>::empty() =~= found_before);
        assert(ends(Seq::<Neighbor>::empty()) =~= Seq::empty());
        assert(next_before + Seq::<int>::empty() =~= next_before);
    }
    while i < neighbors.len()
        invariant
            i <= neighbors@.len(),
            marks@.len() == old(marks)@.len(),
            forall|j: int|
                0 <= j < neighbors@.len() ==> (#[trigger] neighbors@[j]).node < marks@.len(),
            forall|j: int| 0 <= j < next@.len() ==> (#[trigger] next@[j]) < marks@.len(),
            within(found@, marks@.len()),
            marked(marks@) == sweep(neighbors@.take(i as int), allowed@, start).visited,
            found@ == found_before + sweep(neighbors@.take(i as int), allowed@, start).found,
            places_view(next@) == next_before + ends(
                sweep(neighbors@.take(i as int), allowed@, start).found,
            ),
        decreases neighbors@.len() - i,
    {
        let neighbor = neighbors[i];
        let ghost so_far = sweep(neighbors@.take(i as int), allowed@, start);
        proof {
            assert(neighbors@.take(i + 1).drop_last() =~= neighbors@.take(i as int));
            assert(neighbors@.take(i + 1).last() == neighbor);
        }
        if !marks[neighbor.node] && is_allowed_edge(neighbor.kind, allowed) {
            let ghost marks_before = marks@;
            let ghost places_before = next@;
            marks.set(neighbor.node, true);
            found.push(neighbor);
            next.push(neighbor.node);
            proof {
                assert(marked(marks@) =~= marked(marks_before).insert(neighbor.node as int));
                assert(found@ =~= found_before + so_far.found.push(neighbor));
                assert(places_view(next@) =~= places_view(places_before).push(
                    neighbor.node as int,
                ));
                assert(ends(so_far.found.push(neighbor)) =~= ends(so_far.found).push(
                    neighbor.node as int,
                ));
                assert(places_view(next@) =~= next_before + ends(so_far.found.push(neighbor)));
            }
        }
        i = i + 1;
    }
    proof {
        assert(neighbors@.take(i as int) =~= neighbors@);
    }
}

struct Expanded {
    callers: Vec<Neighbor>,
    callees: Vec<Neighbor>,
    next: Vec<usize>,
}

fn expand_frontier(
    graph: &CodeGraph,
    frontier: &Vec<usize>,
    allowed: &Vec<EdgeKind>,
    ways: Ways,
    marks: &mut Vec<bool>,
) -> (level: Expanded)
    requires
        old(marks)@.len() == graph.size(),
        forall|i: int| 0 <= i < frontier@.len() ==> (#[trigger] frontier@[i]) < graph.size(),
    ensures
        final(marks)@.len() == graph.size(),
        ({
            let spec_level = expand(
                *graph,
                places_view(frontier@),
                allowed@,
                ways,
                marked(old(marks)@),
            );
            &&& marked(final(marks)@) == spec_level.visited
            &&& level.callers@ == spec_level.callers
            &&& level.callees@ == spec_level.callees
            &&& places_view(level.next@) == spec_level.next
        }),
        forall|i: int| 0 <= i < level.next@.len() ==> (#[trigger] level.next@[i]) < graph.size(),
        within(level.callers@, graph.size()),
        within(level.callees@, graph.size()),
{
    proof {
        use_type_invariant(graph);
    }
    let ghost start = marked(marks@);
    let mut callers: Vec<Neighbor> = Vec::new();
    let mut callees: Vec<Neighbor> = Vec::new();
    let mut next: Vec<usize> = Vec::new();
    let mut i: usize = 0;
    proof {
        assert(places_view(frontier@.take(0)) =~= Seq::empty());
        assert(places_view(next@) =~= Seq::empty());
    }
    while i < frontier.len()
        invariant
            i <= frontier@.len(),
            marks@.len() == graph.size(),
            graph.is_well_formed(),
            forall|j: int| 0 <= j < frontier@.len() ==> (#[trigger] frontier@[j]) < graph.size(),
            ({
                let so_far = expand(
                    *graph,
                    places_view(frontier@.take(i as int)),
                    allowed@,
                    ways,
                    start,
                );
                &&& marked(marks@) == so_far.visited
                &&& callers@ == so_far.callers
                &&& callees@ == so_far.callees
                &&& places_view(next@) == so_far.next
            }),
            forall|j: int| 0 <= j < next@.len() ==> (#[trigger] next@[j]) < graph.size(),
            within(callers@, graph.size()),
            within(callees@, graph.size()),
        decreases frontier@.len() - i,
    {
        let at: usize = frontier[i];
        let ghost before = expand(
            *graph,
            places_view(frontier@.take(i as int)),
            allowed@,
            ways,
            start,
        );
        let ghost inward = follow(ways.incoming, graph.incoming(at as int), allowed@, before.visited);
        let ghost outward = follow(
            ways.outgoing,
            graph.outgoing(at as int),
            allowed@,
            inward.visited,
        );
        proof {
            assert(places_view(frontier@.take(i + 1)).drop_last() =~= places_view(
                frontier@.take(i as int),
            ));
            assert(places_view(frontier@.take(i + 1)).last() == at as int);
        }
        if ways.incoming {
            let list = &graph.incoming[at];
            proof {
                assert forall|j: int| 0 <= j < list@.len() implies (#[trigger] list@[j]).node
                    < marks@.len() by {
                    assert(graph.incoming@[at as int]@[j].node < graph.nodes@.len());
                }
            }
            sweep_edges(list, allowed, marks, &mut callers, &mut next);
        } else {
            proof {
                assert(before.callers + inward.found =~= before.callers);
                assert(before.next + ends(inward.found) =~= before.next);
            }
        }
        let ghost midway = places_view(next@);
        if ways.outgoing {
            let list = &graph.outgoing[at];
            proof {
                assert forall|j: int| 0 <= j < list@.len() implies (#[trigger] list@[j]).node
                    < marks@.len() by {
                    assert(graph.outgoing@[at as int]@[j].node < graph.nodes@.len());
                }
            }
            sweep_edges(list, allowed, marks, &mut callees, &mut next);
        } else {
            proof {
                assert(before.callees + outward.found =~= before.callees);
                assert(midway + ends(outward.found) =~= midway);
            }
        }
        i = i + 1;
    }
    proof {
        assert(frontier@.take(i as int) =~= frontier@);
    }
    Expanded { callers, callees, next }
}

fn walk_graph(
    graph: &CodeGraph,
    roots: &Vec<usize>,
    allowed: &Vec<EdgeKind>,
    ways: Ways,
    last: u64,
    limit: usize,
    marks: Vec<bool>,
) -> (walked: (Vec<Hop>, usize))
    requires
        marks@.len() == graph.size(),
        last < u64::MAX,
        forall|i: int| 0 <= i < roots@.len() ==> (#[trigger] roots@[i]) < graph.size(),
    ensures
        ({
            let spec_walk = walk(
                *graph,
                places_view(roots@),
                marked(marks@),
                allowed@,
                ways,
                1,
                last as nat,
                roots@.len(),
                limit as nat,
            );
            &&& hops_view(walked.0@) == spec_walk.hops
            &&& walked.1 == spec_walk.total
        }),
        forall|i: int|
            0 <= i < walked.0@.len() ==> within((#[trigger] walked.0@[i]).callers@, graph.size())
                && within(walked.0@[i].callees@, graph.size()),
{
    let ghost whole = walk(
        *graph,
        places_view(roots@),
        marked(marks@),
        allowed@,
        ways,
        1,
        last as nat,
        roots@.len(),
        limit as nat,
    );
    let mut marks = marks;
    let mut hops: Vec<Hop> = Vec::new();
    let mut total: usize = roots.len();
    let mut frontier: Vec<usize> = roots.clone();
    let mut depth: u64 = 1;
    proof {
        assert(frontier@ =~= roots@);
        assert(hops_view(hops@) + whole.hops =~= whole.hops);
    }
    while depth <= last && total < limit
        invariant
            1 <= depth <= last + 1,
            last < u64::MAX,
            marks@.len() == graph.size(),
            forall|i: int| 0 <= i < frontier@.len() ==> (#[trigger] frontier@[i]) < graph.size(),
            forall|i: int|
                0 <= i < hops@.len() ==> within((#[trigger] hops@[i]).callers@, graph.size())
                    && within(hops@[i].callees@, graph.size()),
            ({
                let rest = walk(
                    *graph,
                    places_view(frontier@),
                    marked(marks@),
                    allowed@,
                    ways,
                    depth as nat,
                    last as nat,
                    total as nat,
                    limit as nat,
                );
                &&& whole.hops == hops_view(hops@) + rest.hops
                &&& whole.total == rest.total
            }),
        decreases last + 1 - depth,
    {
        let ghost rest = walk(
            *graph,
            places_view(frontier@),
            marked(marks@),
            allowed@,
            ways,
            depth as nat,
            last as nat,
            total as nat,
            limit as nat,
        );
        let level = expand_frontier(graph, &frontier, allowed, ways, &mut marks);
        let remaining: usize = limit - total;
        let half: usize = remaining / 2;
        let mut callers = level.callers;
        let mut callees = level.callees;
        let ghost all_callers = callers@;
        let ghost all_callees = callees@;
        if callers.len() > half {
            callers.truncate(half);
        }
        if callees.len() > remaining - half {
            callees.truncate(remaining - half);
        }
        proof {
            assert(callers@ =~= at_most(all_callers, half as nat));
            assert(callees@ =~= at_most(all_callees, (remaining - half) as nat));
        }
        total = total + callers.len() + callees.len();
        let hop = Hop { depth, callers, callees };
        let ghost before = hops_view(hops@);
        hops.push(hop);
        proof {
            assert(hops_view(hops@) =~= before.push(hop@));
            assert(rest.hops =~= seq![hop@] + rest.hops.skip(1));
            assert(before + rest.hops =~= hops_view(hops@) + rest.hops.skip(1));
            let next = walk(
                *graph,
                places_view(level.next@),
                marked(marks@),
                allowed@,
                ways,
                (depth + 1) as nat,
                last as nat,
                total as nat,
                limit as nat,
            );
            assert(rest.hops.skip(1) =~= next.hops);
        }
        frontier = level.next;
        depth = depth + 1;
    }
    proof {
        assert(whole.hops =~= hops_view(hops@));
    }
    (hops, total)
}

/// A neighbour as it is listed.
pub open spec fn neighbor_view(graph: CodeGraph, neighbor: Neighbor) -> JsonView {
    let node = graph.node(neighbor.node as int);
    JsonView::Object(
        no_fields().insert("name"@, JsonView::Str(node.name@)).insert(
            "qualified_name"@,
            JsonView::Str(node.qualified_name@),
        ).insert("kind"@, JsonView::Str(node.kind_name@)).insert(
            "edge"@,
            JsonView::Str(edge_name(neighbor.kind)),
        ).insert("file"@, JsonView::Str(node.file@)).insert(
            "line"@,
            JsonView::Unsigned(node.line as u64),
        ),
    )
}

/// Neighbours as they are listed.
pub open spec fn neighbors_view(graph: CodeGraph, found: Seq<Neighbor>) -> JsonView {
    JsonView::Array(Seq::new(found.len(), |i: int| neighbor_view(graph, found[i])))
}

/// A hop as it is listed.
pub open spec fn hop_view(graph: CodeGraph, hop: HopView) -> JsonView {
    JsonView::Object(
        no_fields().insert("depth"@, JsonView::Unsigned(hop.depth as u64)).insert(
            "callers"@,
            neighbors_view(graph, hop.callers),
        ).insert("callees"@, neighbors_view(graph, hop.callees)),
    )
}

/// The start of a call graph as it is listed: one symbol, or all that share the name.
pub open spec fn roots_view(graph: CodeGraph, roots: Seq<int>) -> JsonView {
    let start = no_fields().insert("depth"@, JsonView::Unsigned(0));
    let named = if roots.len() == 1 {
        start.insert("symbol"@, graph.node(roots[0]).summary@)
    } else {
        start.insert(
            "roots"@,
            JsonView::Array(Seq::new(roots.len(), |i: int| graph.node(roots[i]).summary@)),
        )
    };
    JsonView::Object(
        named.insert("callers"@, JsonView::Array(Seq::empty())).insert(
            "callees"@,
            JsonView::Array(Seq::empty()),
        ),
    )
}

/// The hops of the call graph of some symbols.
pub open spec fn symbol_walk(
    graph: CodeGraph,
    roots: Seq<int>,
    allowed: Seq<EdgeKind>,
    direction: Seq<char>,
    depth: u64,
    limit: nat,
) -> Walk {
    walk(
        graph,
        roots,
        roots.to_set(),
        allowed,
        ways_of(direction),
        1,
        if depth < MAX_CALL_GRAPH_DEPTH {
            depth as nat
        } else {
            MAX_CALL_GRAPH_DEPTH as nat
        },
        roots.len(),
        limit,
    )
}

/// The response of a call graph request whose symbols stand at the given places.
pub open spec fn call_graph_fields(
    graph: CodeGraph,
    roots: Seq<int>,
    qname: Seq<char>,
    allowed: Seq<EdgeKind>,
    direction: Seq<char>,
    depth: u64,
    limit: nat,
    meta: Option<JsonView>,
    full_index: bool,
) -> Map<Seq<char>, JsonView> {
    let walked = symbol_walk(graph, roots, allowed, direction, depth, limit);
    let base = no_fields().insert("symbol"@, JsonView::Str(qname)).insert(
        "max_depth"@,
        JsonView::Unsigned(depth),
    ).insert("total_nodes_visited"@, JsonView::Unsigned(walked.total as u64)).insert(
        "hops"@,
        JsonView::Array(
            seq![roots_view(graph, roots)] + Seq::new(
                walked.hops.len(),
                |i: int| hop_view(graph, walked.hops[i]),
            ),
        ),
    );
    let resolved = match meta {
        Some(m) => base.insert("resolution"@, m),
        None => base,
    };
    if full_index {
        resolved
    } else {
        resolved.insert(
            "note"@,
            JsonView::Str(
                "Graph expansion is complete only within the current focus closure. Background refinement may discover additional edges outside this closure; use CLI `atlas index --analysis full` only when you want an explicit project-wide cache."@,
            ),
        )
    }
}

fn neighbors_to_json(graph: &CodeGraph, found: &Vec<Neighbor>) -> (json: Json)
    requires
        within(found@, graph.size()),
    ensures
        json@ == neighbors_view(*graph, found@),
{
    let mut items: Vec<Json> = Vec::new();
    let mut i: usize = 0;
    while i < found.len()
        invariant
            i <= found@.len(),
            items@.len() == i,
            within(found@, graph.size()),
            forall|j: int|
                0 <= j < i ==> (#[trigger] items@[j])@ == neighbor_view(*graph, found@[j]),
        decreases found@.len() - i,
    {
        let neighbor = found[i];
        let node = &graph.nodes[neighbor.node];
        let mut object = JsonObject::new();
        object.put("name", Json::text(node.name.as_str()));
        object.put("qualified_name", Json::text(node.qualified_name.as_str()));
        object.put("kind", Json::text(node.kind_name.as_str()));
        object.put("edge", Json::text(neighbor.kind.as_str()));
        object.put("file", Json::text(node.file.as_str()));
        object.put("line", Json::Unsigned(node.line as u64));
        items.push(Json::Object(object));
        i = i + 1;
    }
    proof {
        assert(items_view(items@) =~= Seq::new(
            found@.len(),
            |i: int| neighbor_view(*graph, found@[i]),
        ));
    }
    Json::Array(items)
}

fn roots_to_json(graph: &CodeGraph, roots: &Vec<usize>) -> (json: Json)
    requires
        roots@.len() > 0,
        forall|i: int| 0 <= i < roots@.len() ==> (#[trigger] roots@[i]) < graph.size(),
    ensures
        json@ == roots_view(*graph, places_view(roots@)),
{
    let mut object = JsonObject::new();
    object.put("depth", Json::Unsigned(0));
    if roots.len() == 1 {
        object.put("symbol", graph.nodes[roots[0]].summary.clone());
    } else {
        let mut items: Vec<Json> = Vec::new();
        let mut i: usize = 0;
        while i < roots.len()
            invariant
                i <= roots@.len(),
                items@.len() == i,
                forall|j: int| 0 <= j < roots@.len() ==> (#[trigger] roots@[j]) < graph.size(),
                forall|j: int|
                    0 <= j < i ==> (#[trigger] items@[j])@ == graph.node(
                        roots@[j] as int,
                    ).summary@,
            decreases roots@.len() - i,
        {
            items.push(graph.nodes[roots[i]].summary.clone());
            i = i + 1;
        }
        proof {
            let places = places_view(roots@);
            assert(items_view(items@) =~= Seq::new(
                places.len(),
                |i: int| graph.node(places[i]).summary@,
            ));
        }
        object.put("roots", Json::Array(items));
    }
    object.put("callers", Json::empty_array());
    object.put("callees", Json::empty_array());
    Json::Object(object)
}

fn find_roots(graph: &CodeGraph, ids: &Vec<SymbolId>) -> (roots: Vec<usize>)
    ensures
        places_view(roots@) == places_of(*graph, ids_view(ids@)),
        forall|i: int| 0 <= i < roots@.len() ==> (#[trigger] roots@[i]) < graph.size(),
{
    let mut roots: Vec<usize> = Vec::new();
    let mut i: usize = 0;
    proof {
        assert(ids_view(ids@.take(0)) =~= Seq::empty());
        assert(places_view(roots@) =~= Seq::empty());
    }
    while i < ids.len()
        invariant
            i <= ids@.len(),
            places_view(roots@) == places_of(*graph, ids_view(ids@.take(i as int))),
            forall|j: int| 0 <= j < roots@.len() ==> (#[trigger] roots@[j]) < graph.size(),
        decreases ids@.len() - i,
    {
        let place = graph.position(ids[i]);
        proof {
            lemma_place_of(*graph, ids@[i as int]@, 0, place);
            let next = ids_view(ids@.take(i + 1));
            assert(next.drop_last() =~= ids_view(ids@.take(i as int)));
            assert(next.last() == ids@[i as int]@);
        }
        match place {
            Some(at) => {
                let ghost before = roots@;
                roots.push(at);
                proof {
                    assert(places_view(roots@) =~= places_view(before).push(at as int));
                }
            },
            None => {},
        }
        i = i + 1;
    }
    proof {
        assert(ids@.take(i as int) =~= ids@);
    }
    roots
}

fn mark_roots(graph: &CodeGraph, roots: &Vec<usize>) -> (marks: Vec<bool>)
    requires
        forall|i: int| 0 <= i < roots@.len() ==> (#[trigger] roots@[i]) < graph.size(),
    ensures
        marks@.len() == graph.size(),
        marked(marks@) == places_view(roots@).to_set(),
{
    let mut marks: Vec<bool> = Vec::new();
    let mut i: usize = 0;
    while i < graph.nodes.len()
        invariant
            i <= graph.nodes@.len(),
            marks@.len() == i,
            forall|j: int| 0 <= j < i ==> !(#[trigger] marks@[j]),
        decreases graph.nodes@.len() - i,
    {
        marks.push(false);
        i = i + 1;
    }
    let mut k: usize = 0;
    proof {
        assert(marked(marks@) =~= places_view(roots@.take(0)).to_set());
    }
    while k < roots.len()
        invariant
            k <= roots@.len(),
            marks@.len() == graph.size(),
            forall|j: int| 0 <= j < roots@.len() ==> (#[trigger] roots@[j]) < graph.size(),
            marked(marks@) == places_view(roots@.take(k as int)).to_set(),
        decreases roots@.len() - k,
    {
        let ghost before = marks@;
        marks.set(roots[k], true);
        proof {
            let now = places_view(roots@.take(k as int));
            let next = places_view(roots@.take(k + 1));
            let at = roots@[k as int] as int;
            assert(next =~= now.push(at));
            assert(marked(marks@) =~= marked(before).insert(at));
            assert(next.to_set() =~= now.to_set().insert(at)) by {
                assert forall|x: int| next.to_set().contains(x) <==> now.to_set().insert(
                    at,
                ).contains(x) by {
                    if now.contains(x) {
                        let j = choose|j: int| 0 <= j < now.len() && now[j] == x;
                        assert(next[j] == x);
                    }
                    if x == at {
                        assert(next[k as int] == x);
                    }
                    if next.contains(x) {
                        let j = choose|j: int| 0 <= j < next.len() && next[j] == x;
                        if j < k {
                            assert(now[j] == x);
                        }
                    }
                }
            }
        }
        k = k + 1;
    }
    proof {
        assert(roots@.take(k as int) =~= roots@);
    }
    marks
}

/// What a request is told whose symbols are not in the graph.
pub open spec fn not_in_graph(qname: Seq<char>) -> Seq<char> {
    "symbol '"@ + qname + "' not found in graph snapshot"@
}

/// The response of a call graph request for the symbols `ids`. Resolution metadata
/// is given where the name stands for several symbols; the response is qualified
/// where the index is not complete. The graph is sound, as every graph is.
pub fn call_graph_body(
    graph: &CodeGraph,
    ids: &Vec<SymbolId>,
    qname: &str,
    allowed: &Vec<EdgeKind>,
    direction: &str,
    depth: u64,
    limit: usize,
    meta: &Json,
    full_index: bool,
) -> (body: Result<Json, String>)
    ensures
        ({
            let roots = places_of(*graph, ids_view(ids@));
            if roots.len() == 0 {
                body matches Err(e) && e@ == not_in_graph(qname@)
            } else {
                body matches Ok(b) && b@ == JsonView::Object(
                    call_graph_fields(
                        *graph,
                        roots,
                        qname@,
                        allowed@,
                        direction@,
                        depth,
                        limit as nat,
                        if ids@.len() > 1 {
                            Some(meta@)
                        } else {
                            None
                        },
                        full_index,
                    ),
                )
            }
        }),
        graph.is_sound(),
        are_places(places_of(*graph, ids_view(ids@)), graph.size()),
{
    proof {
        use_type_invariant(graph);
        lemma_is_sound(*graph);
        lemma_roots_are_places(*graph, ids_view(ids@));
    }
    let roots = find_roots(graph, ids);
    if roots.len() == 0 {
        let mut message = "symbol '".to_owned();
        message.append(qname);
        message.append("' not found in graph snapshot");
        return Err(message);
    }
    let marks = mark_roots(graph, &roots);
    let ways = read_ways(direction);
    let last: u64 = if depth < MAX_CALL_GRAPH_DEPTH {
        depth
    } else {
        MAX_CALL_GRAPH_DEPTH
    };
    let (hops, total) = walk_graph(graph, &roots, allowed, ways, last, limit, marks);
    let ghost walked = symbol_walk(
        *graph,
        places_view(roots@),
        allowed@,
        direction@,
        depth,
        limit as nat,
    );
    let mut items: Vec<Json> = Vec::new();
    items.push(roots_to_json(graph, &roots));
    let mut i: usize = 0;
    while i < hops.len()
        invariant
            i <= hops@.len(),
            items@.len() == i + 1,
            items@[0]@ == roots_view(*graph, places_view(roots@)),
            forall|j: int|
                0 <= j < hops@.len() ==> within((#[trigger] hops@[j]).callers@, graph.size())
                    && within(hops@[j].callees@, graph.size()),
            forall|j: int|
                1 <= j <= i ==> (#[trigger] items@[j])@ == hop_view(*graph, hops@[j - 1]@),
        decreases hops@.len() - i,
    {
        let hop = &hops[i];
        let mut object = JsonObject::new();
        object.put("depth", Json::Unsigned(hop.depth));
        object.put("callers", neighbors_to_json(graph, &hop.callers));
        object.put("callees", neighbors_to_json(graph, &hop.callees));
        items.push(Json::Object(object));
        i = i + 1;
    }
    proof {
        assert(hops_view(hops@) == walked.hops);
        assert(items_view(items@) =~= seq![roots_view(*graph, places_view(roots@))] + Seq::new(
            walked.hops.len(),
            |i: int| hop_view(*graph, walked.hops[i]),
        )) by {
            assert forall|j: int| 1 <= j < items@.len() implies items@[j]@ == hop_view(
                *graph,
                walked.hops[j - 1],
            ) by {
                assert(hops_view(hops@)[j - 1] == hops@[j - 1]@);
            }
        }
    }
    let mut body = JsonObject::new();
    body.put("symbol", Json::text(qname));
    body.put("max_depth", Json::Unsigned(depth));
    body.put("total_nodes_visited", Json::count(total));
    body.put("hops", Json::Array(items));
    if ids.len() > 1 {
        body.put("resolution", meta.clone());
    }
    if !full_index {
        body.put(
            "note",
            Json::text(
                "Graph expansion is complete only within the current focus closure. Background refinement may discover additional edges outside this closure; use CLI `atlas index --analysis full` only when you want an explicit project-wide cache.",
            ),
        );
    }
    Ok(Json::Object(body))
}

/// Whether newly found nodes are new, each found once, and remembered.
pub open spec fn fresh(found: Seq<int>, before: Set<int>, after: Set<int>) -> bool {
    &&& found.no_duplicates()
    &&& before.subset_of(after)
    &&& forall|i: int|
        0 <= i < found.len() ==> !before.contains(#[trigger] found[i]) && after.contains(found[i])
}

proof fn lemma_fresh_join(
    first: Seq<int>,
    second: Seq<int>,
    a: Set<int>,
    b: Set<int>,
    c: Set<int>,
)
    requires
        fresh(first, a, b),
        fresh(second, b, c),
    ensures
        fresh(first + second, a, c),
{
    let all = first + second;
    assert forall|i: int, j: int| 0 <= i < all.len() && 0 <= j < all.len() && i != j implies all[i]
        != all[j] by {
        if i < first.len() && j >= first.len() {
            assert(b.contains(first[i]));
            assert(!b.contains(second[j - first.len()]));
        } else if i >= first.len() && j < first.len() {
            assert(b.contains(first[j]));
            assert(!b.contains(second[i - first.len()]));
        } else if i < first.len() {
            assert(first[i] != first[j]);
        } else {
            assert(second[i - first.len()] != second[j - first.len()]);
        }
    }
    assert forall|i: int| 0 <= i < all.len() implies !a.contains(#[trigger] all[i]) && c.contains(
        all[i],
    ) by {
        if i < first.len() {
            assert(all[i] == first[i]);
        } else {
            assert(all[i] == second[i - first.len()]);
            assert(!b.contains(second[i - first.len()]));
        }
    }
}

proof fn lemma_sweep_is_fresh(neighbors: Seq<Neighbor>, allowed: Seq<EdgeKind>, visited: Set<int>)
    ensures
        fresh(
            ends(sweep(neighbors, allowed, visited).found),
            visited,
            sweep(neighbors, allowed, visited).visited,
        ),
        forall|i: int|
            0 <= i < sweep(neighbors, allowed, visited).found.len() ==> edge_passes(
                (#[trigger] sweep(neighbors, allowed, visited).found[i]).kind,
                allowed,
            ),
    decreases neighbors.len(),
{
    if neighbors.len() > 0 {
        lemma_sweep_is_fresh(neighbors.drop_last(), allowed, visited);
        let before = sweep(neighbors.drop_last(), allowed, visited);
        let after = sweep(neighbors, allowed, visited);
        let neighbor = neighbors.last();
        if !(before.visited.contains(neighbor.node as int) || !edge_passes(neighbor.kind, allowed)) {
            let one = seq![neighbor.node as int];
            assert(fresh(one, before.visited, after.visited));
            lemma_fresh_join(ends(before.found), one, visited, before.visited, after.visited);
            assert(ends(after.found) =~= ends(before.found) + one);
        }
    }
}

proof fn lemma_follow_is_fresh(
    asked: bool,
    neighbors: Seq<Neighbor>,
    allowed: Seq<EdgeKind>,
    visited: Set<int>,
)
    ensures
        fresh(
            ends(follow(asked, neighbors, allowed, visited).found),
            visited,
            follow(asked, neighbors, allowed, visited).visited,
        ),
        forall|i: int|
            0 <= i < follow(asked, neighbors, allowed, visited).found.len() ==> edge_passes(
                (#[trigger] follow(asked, neighbors, allowed, visited).found[i]).kind,
                allowed,
            ),
{
    lemma_sweep_is_fresh(neighbors, allowed, visited);
}

#[verifier::spinoff_prover]
#[verifier::rlimit(40)]
proof fn lemma_expand_is_fresh(
    graph: CodeGraph,
    frontier: Seq<int>,
    allowed: Seq<EdgeKind>,
    ways: Ways,
    visited: Set<int>,
)
    ensures
        ({
            let level = expand(graph, frontier, allowed, ways, visited);
            &&& fresh(ends(level.callers) + ends(level.callees), visited, level.visited)
            &&& forall|i: int|
                0 <= i < level.callers.len() ==> edge_passes(
                    (#[trigger] level.callers[i]).kind,
                    allowed,
                )
            &&& forall|i: int|
                0 <= i < level.callees.len() ==> edge_passes(
                    (#[trigger] level.callees[i]).kind,
                    allowed,
                )
        }),
    decreases frontier.len(),
{
    let level = expand(graph, frontier, allowed, ways, visited);
    if frontier.len() == 0 {
        assert(ends(level.callers) + ends(level.callees) =~= Seq::empty());
    } else {
        let before = expand(graph, frontier.drop_last(), allowed, ways, visited);
        let at = frontier.last();
        let inward = follow(ways.incoming, graph.incoming(at), allowed, before.visited);
        let outward = follow(ways.outgoing, graph.outgoing(at), allowed, inward.visited);
        lemma_expand_is_fresh(graph, frontier.drop_last(), allowed, ways, visited);
        lemma_follow_is_fresh(ways.incoming, graph.incoming(at), allowed, before.visited);
        lemma_follow_is_fresh(ways.outgoing, graph.outgoing(at), allowed, inward.visited);
        let old_nodes = ends(before.callers) + ends(before.callees);
        let new_in = ends(inward.found);
        let new_out = ends(outward.found);
        lemma_fresh_join(new_in, new_out, before.visited, inward.visited, outward.visited);
        lemma_fresh_join(
            old_nodes,
            new_in + new_out,
            visited,
            before.visited,
            outward.visited,
        );
        let joined_nodes = old_nodes + (new_in + new_out);
        let listed = ends(level.callers) + ends(level.callees);
        let a = before.callers.len();
        let b = before.callees.len();
        let c = inward.found.len();
        assert(ends(level.callers) =~= ends(before.callers) + new_in);
        assert(ends(level.callees) =~= ends(before.callees) + new_out);
        assert forall|i: int, j: int|
            0 <= i < listed.len() && 0 <= j < listed.len() && i != j implies listed[i]
            != listed[j] by {
            assert(listed[i] == joined_nodes[moved(i, a as int, b as int, c as int)]);
            assert(listed[j] == joined_nodes[moved(j, a as int, b as int, c as int)]);
        }
        assert forall|i: int| 0 <= i < listed.len() implies !visited.contains(#[trigger] listed[i])
            && level.visited.contains(listed[i]) by {
            assert(listed[i] == joined_nodes[moved(i, a as int, b as int, c as int)]);
        }
        assert forall|i: int| 0 <= i < level.callers.len() implies edge_passes(
            (#[trigger] level.callers[i]).kind,
            allowed,
        ) by {
            if i >= a {
                assert(level.callers[i] == inward.found[i - a]);
            } else {
                assert(level.callers[i] == before.callers[i]);
            }
        }
        assert forall|i: int| 0 <= i < level.callees.len() implies edge_passes(
            (#[trigger] level.callees[i]).kind,
            allowed,
        ) by {
            if i >= b {
                assert(level.callees[i] == outward.found[i - b]);
            } else {
                assert(level.callees[i] == before.callees[i]);
            }
        }
    }
}

/// Where the `i`-th of old callers, new callers, old callees, new callees stands
/// among old callers, old callees, new callers, new callees.
spec fn moved(i: int, old_callers: int, old_callees: int, new_callers: int) -> int {
    if i < old_callers {
        i
    } else if i < old_callers + new_callers {
        i + old_callees
    } else if i < old_callers + new_callers + old_callees {
        i - new_callers
    } else {
        i
    }
}

/// The nodes that are listed in a hop.
pub open spec fn hop_nodes(hop: HopView) -> Seq<int> {
    ends(hop.callers) + ends(hop.callees)
}

/// The nodes that are listed in some hops.
pub open spec fn listed_nodes(hops: Seq<HopView>) -> Seq<int>
    decreases hops.len(),
{
    if hops.len() == 0 {
        Seq::empty()
    } else {
        hop_nodes(hops[0]) + listed_nodes(hops.drop_first())
    }
}

proof fn lemma_shortened_is_fresh(level: Level, visited: Set<int>, few: nat, more: nat)
    requires
        fresh(ends(level.callers) + ends(level.callees), visited, level.visited),
    ensures
        fresh(
            ends(at_most(level.callers, few)) + ends(at_most(level.callees, more)),
            visited,
            level.visited,
        ),
{
    let all = ends(level.callers) + ends(level.callees);
    let callers = at_most(level.callers, few);
    let callees = at_most(level.callees, more);
    let short = ends(callers) + ends(callees);
    let cut = level.callers.len() - callers.len();
    assert forall|i: int, j: int|
        0 <= i < short.len() && 0 <= j < short.len() && i != j implies short[i] != short[j] by {
        let x = if i < callers.len() { i } else { i + cut };
        let y = if j < callers.len() { j } else { j + cut };
        assert(short[i] == all[x] && short[j] == all[y]);
    }
    assert forall|i: int| 0 <= i < short.len() implies !visited.contains(#[trigger] short[i])
        && level.visited.contains(short[i]) by {
        let x = if i < callers.len() { i } else { i + cut };
        assert(short[i] == all[x]);
    }
}

/// A call graph lists no node twice, and none of those that it started from.
pub proof fn law_call_graph_lists_no_node_twice(
    graph: CodeGraph,
    frontier: Seq<int>,
    visited: Set<int>,
    allowed: Seq<EdgeKind>,
    ways: Ways,
    depth: nat,
    last: nat,
    total: nat,
    limit: nat,
)
    ensures
        ({
            let nodes = listed_nodes(
                walk(graph, frontier, visited, allowed, ways, depth, last, total, limit).hops,
            );
            &&& nodes.no_duplicates()
            &&& forall|i: int| 0 <= i < nodes.len() ==> !visited.contains(#[trigger] nodes[i])
        }),
    decreases last + 1 - depth,
{
    let walked = walk(graph, frontier, visited, allowed, ways, depth, last, total, limit);
    if !(depth > last || total >= limit) {
        let level = expand(graph, frontier, allowed, ways, visited);
        let remaining = (limit - total) as nat;
        let few = remaining / 2;
        let more = (remaining - remaining / 2) as nat;
        let callers = at_most(level.callers, few);
        let callees = at_most(level.callees, more);
        let counted = total + callers.len() + callees.len();
        let rest = walk(
            graph,
            level.next,
            level.visited,
            allowed,
            ways,
            depth + 1,
            last,
            counted,
            limit,
        );
        lemma_expand_is_fresh(graph, frontier, allowed, ways, visited);
        lemma_shortened_is_fresh(level, visited, few, more);
        law_call_graph_lists_no_node_twice(
            graph,
            level.next,
            level.visited,
            allowed,
            ways,
            depth + 1,
            last,
            counted,
            limit,
        );
        let first = HopView { depth, callers, callees };
        assert(walked.hops[0] == first);
        assert(walked.hops.drop_first() =~= rest.hops);
        let later = listed_nodes(rest.hops);
        let everything = Set::new(|x: int| level.visited.contains(x) || later.contains(x));
        assert(fresh(later, level.visited, everything)) by {
            assert forall|i: int| 0 <= i < later.len() implies !level.visited.contains(
                #[trigger] later[i],
            ) && everything.contains(later[i]) by {
                assert(later.contains(later[i]));
            }
        }
        lemma_fresh_join(hop_nodes(first), later, visited, level.visited, everything);
    }
}

proof fn lemma_sweep_stays_within(
    neighbors: Seq<Neighbor>,
    allowed: Seq<EdgeKind>,
    visited: Set<int>,
    size: nat,
)
    requires
        within(neighbors, size),
    ensures
        within(sweep(neighbors, allowed, visited).found, size),
    decreases neighbors.len(),
{
    if neighbors.len() > 0 {
        lemma_sweep_stays_within(neighbors.drop_last(), allowed, visited, size);
        assert(neighbors[neighbors.len() - 1].node < size);
    }
}

/// Whether places are places of nodes.
pub open spec fn are_places(places: Seq<int>, size: nat) -> bool {
    forall|i: int| 0 <= i < places.len() ==> 0 <= #[trigger] places[i] < size
}

proof fn lemma_expand_stays_within(
    graph: CodeGraph,
    frontier: Seq<int>,
    allowed: Seq<EdgeKind>,
    ways: Ways,
    visited: Set<int>,
)
    requires
        graph.is_sound(),
        are_places(frontier, graph.size()),
    ensures
        within(expand(graph, frontier, allowed, ways, visited).callers, graph.size()),
        within(expand(graph, frontier, allowed, ways, visited).callees, graph.size()),
        are_places(expand(graph, frontier, allowed, ways, visited).next, graph.size()),
    decreases frontier.len(),
{
    if frontier.len() > 0 {
        lemma_expand_stays_within(graph, frontier.drop_last(), allowed, ways, visited);
        let before = expand(graph, frontier.drop_last(), allowed, ways, visited);
        let at = frontier.last();
        assert(at == frontier[frontier.len() - 1]);
        let inward = follow(ways.incoming, graph.incoming(at), allowed, before.visited);
        lemma_sweep_stays_within(graph.incoming(at), allowed, before.visited, graph.size());
        lemma_sweep_stays_within(graph.outgoing(at), allowed, inward.visited, graph.size());
    }
}

proof fn lemma_listed_nodes_are_places(
    graph: CodeGraph,
    frontier: Seq<int>,
    visited: Set<int>,
    allowed: Seq<EdgeKind>,
    ways: Ways,
    depth: nat,
    last: nat,
    total: nat,
    limit: nat,
)
    requires
        graph.is_sound(),
        are_places(frontier, graph.size()),
    ensures
        are_places(
            listed_nodes(
                walk(graph, frontier, visited, allowed, ways, depth, last, total, limit).hops,
            ),
            graph.size(),
        ),
    decreases last + 1 - depth,
{
    let walked = walk(graph, frontier, visited, allowed, ways, depth, last, total, limit);
    if !(depth > last || total >= limit) {
        let level = expand(graph, frontier, allowed, ways, visited);
        let remaining = (limit - total) as nat;
        let callers = at_most(level.callers, remaining / 2);
        let callees = at_most(level.callees, (remaining - remaining / 2) as nat);
        let counted = total + callers.len() + callees.len();
        lemma_expand_stays_within(graph, frontier, allowed, ways, visited);
        lemma_listed_nodes_are_places(
            graph,
            level.next,
            level.visited,
            allowed,
            ways,
            depth + 1,
            last,
            counted,
            limit,
        );
        let rest = walk(
            graph,
            level.next,
            level.visited,
            allowed,
            ways,
            depth + 1,
            last,
            counted,
            limit,
        );
        let first = HopView { depth, callers, callees };
        assert(walked.hops[0] == first);
        assert(walked.hops.drop_first() =~= rest.hops);
        assert(are_places(hop_nodes(first), graph.size())) by {
            let nodes = hop_nodes(first);
            assert forall|i: int| 0 <= i < nodes.len() implies 0 <= #[trigger] nodes[i]
                < graph.size() by {
                if i < callers.len() {
                    assert(level.callers[i].node < graph.size());
                } else {
                    assert(level.callees[i - callers.len()].node < graph.size());
                }
            }
        }
    }
}

/// A call graph lists no symbol twice, and none of those that it started from.
pub proof fn law_call_graph_lists_no_symbol_twice(
    graph: CodeGraph,
    frontier: Seq<int>,
    visited: Set<int>,
    allowed: Seq<EdgeKind>,
    ways: Ways,
    depth: nat,
    last: nat,
    total: nat,
    limit: nat,
)
    requires
        graph.is_sound(),
        are_places(frontier, graph.size()),
        forall|place: int| #[trigger] visited.contains(place) ==> 0 <= place < graph.size(),
    ensures
        ({
            let nodes = listed_nodes(
                walk(graph, frontier, visited, allowed, ways, depth, last, total, limit).hops,
            );
            &&& forall|i: int, j: int|
                0 <= i < j < nodes.len() ==> graph.node(#[trigger] nodes[i]).symbol_id@
                    != graph.node(#[trigger] nodes[j]).symbol_id@
            &&& forall|i: int, place: int|
                0 <= i < nodes.len() && #[trigger] visited.contains(place) ==> graph.node(
                    #[trigger] nodes[i],
                ).symbol_id@ != graph.node(place).symbol_id@
        }),
{
    let nodes = listed_nodes(
        walk(graph, frontier, visited, allowed, ways, depth, last, total, limit).hops,
    );
    law_call_graph_lists_no_node_twice(
        graph,
        frontier,
        visited,
        allowed,
        ways,
        depth,
        last,
        total,
        limit,
    );
    lemma_listed_nodes_are_places(
        graph,
        frontier,
        visited,
        allowed,
        ways,
        depth,
        last,
        total,
        limit,
    );
    assert forall|a: int, b: int|
        0 <= a < graph.size() && 0 <= b < graph.size() && a != b implies (#[trigger] graph.node(
        a,
    )).symbol_id@ != (#[trigger] graph.node(b)).symbol_id@ by {
        if a < b {
            assert(graph.node(a).symbol_id@ != graph.node(b).symbol_id@);
        } else {
            assert(graph.node(b).symbol_id@ != graph.node(a).symbol_id@);
        }
    }
    assert forall|i: int, j: int| 0 <= i < j < nodes.len() implies graph.node(
        #[trigger] nodes[i],
    ).symbol_id@ != graph.node(#[trigger] nodes[j]).symbol_id@ by {
        assert(nodes[i] != nodes[j]);
    }
}

/// A call graph follows allowed edges only.
pub proof fn law_call_graph_follows_allowed_edges(
    graph: CodeGraph,
    frontier: Seq<int>,
    visited: Set<int>,
    allowed: Seq<EdgeKind>,
    ways: Ways,
    depth: nat,
    last: nat,
    total: nat,
    limit: nat,
    h: int,
    i: int,
)
    ensures
        ({
            let hops = walk(
                graph,
                frontier,
                visited,
                allowed,
                ways,
                depth,
                last,
                total,
                limit,
            ).hops;
            &&& 0 <= h < hops.len() && 0 <= i < hops[h].callers.len() ==> edge_passes(
                hops[h].callers[i].kind,
                allowed,
            )
            &&& 0 <= h < hops.len() && 0 <= i < hops[h].callees.len() ==> edge_passes(
                hops[h].callees[i].kind,
                allowed,
            )
        }),
    decreases last + 1 - depth,
{
    let walked = walk(graph, frontier, visited, allowed, ways, depth, last, total, limit);
    if !(depth > last || total >= limit) {
        let level = expand(graph, frontier, allowed, ways, visited);
        let remaining = (limit - total) as nat;
        let callers = at_most(level.callers, remaining / 2);
        let callees = at_most(level.callees, (remaining - remaining / 2) as nat);
        lemma_expand_is_fresh(graph, frontier, allowed, ways, visited);
        law_call_graph_follows_allowed_edges(
            graph,
            level.next,
            level.visited,
            allowed,
            ways,
            depth + 1,
            last,
            total + callers.len() + callees.len(),
            limit,
            h - 1,
            i,
        );
        if h == 0 {
            if 0 <= i < callers.len() {
                assert(callers[i] == level.callers[i]);
            }
            if 0 <= i < callees.len() {
                assert(callees[i] == level.callees[i]);
            }
        }
    }
}

/// A call graph has at most as many hops as it may, and lists at most as many
/// nodes as it may, unless it starts from more.
pub proof fn law_call_graph_is_bounded(
    graph: CodeGraph,
    frontier: Seq<int>,
    visited: Set<int>,
    allowed: Seq<EdgeKind>,
    ways: Ways,
    depth: nat,
    last: nat,
    total: nat,
    limit: nat,
)
    ensures
        ({
            let walked = walk(
                graph,
                frontier,
                visited,
                allowed,
                ways,
                depth,
                last,
                total,
                limit,
            );
            &&& walked.total <= limit || walked.total == total
            &&& depth <= last ==> walked.hops.len() <= last + 1 - depth
            &&& depth > last ==> walked.hops.len() == 0
            &&& walked.total == total + listed_nodes(walked.hops).len()
        }),
    decreases last + 1 - depth,
{
    let walked = walk(graph, frontier, visited, allowed, ways, depth, last, total, limit);
    if !(depth > last || total >= limit) {
        let level = expand(graph, frontier, allowed, ways, visited);
        let remaining = (limit - total) as nat;
        let callers = at_most(level.callers, remaining / 2);
        let callees = at_most(level.callees, (remaining - remaining / 2) as nat);
        let counted = total + callers.len() + callees.len();
        law_call_graph_is_bounded(
            graph,
            level.next,
            level.visited,
            allowed,
            ways,
            depth + 1,
            last,
            counted,
            limit,
        );
        let rest = walk(
            graph,
            level.next,
            level.visited,
            allowed,
            ways,
            depth + 1,
            last,
            counted,
            limit,
        );
        assert(walked.hops.drop_first() =~= rest.hops);
        assert(walked.hops[0] == (HopView { depth, callers, callees }));
    }
}

/// The depth of a hop is its level: the hops are numbered from the first on.
pub proof fn law_call_graph_hops_are_numbered(
    graph: CodeGraph,
    frontier: Seq<int>,
    visited: Set<int>,
    allowed: Seq<EdgeKind>,
    ways: Ways,
    depth: nat,
    last: nat,
    total: nat,
    limit: nat,
    h: int,
)
    ensures
        ({
            let hops = walk(
                graph,
                frontier,
                visited,
                allowed,
                ways,
                depth,
                last,
                total,
                limit,
            ).hops;
            0 <= h < hops.len() ==> hops[h].depth == depth + h
        }),
    decreases last + 1 - depth,
{
    if !(depth > last || total >= limit) {
        let level = expand(graph, frontier, allowed, ways, visited);
        let remaining = (limit - total) as nat;
        let callers = at_most(level.callers, remaining / 2);
        let callees = at_most(level.callees, (remaining - remaining / 2) as nat);
        law_call_graph_hops_are_numbered(
            graph,
            level.next,
            level.visited,
            allowed,
            ways,
            depth + 1,
            last,
            total + callers.len() + callees.len(),
            limit,
            h - 1,
        );
    }
}

proof fn lemma_expand_keeps_to_the_ways(
    graph: CodeGraph,
    frontier: Seq<int>,
    allowed: Seq<EdgeKind>,
    ways: Ways,
    visited: Set<int>,
)
    ensures
        !ways.incoming ==> expand(graph, frontier, allowed, ways, visited).callers.len() == 0,
        !ways.outgoing ==> expand(graph, frontier, allowed, ways, visited).callees.len() == 0,
    decreases frontier.len(),
{
    if frontier.len() > 0 {
        lemma_expand_keeps_to_the_ways(graph, frontier.drop_last(), allowed, ways, visited);
    }
}

/// A call graph that is asked for in one direction has nothing on the other side.
pub proof fn law_call_graph_keeps_to_the_ways(
    graph: CodeGraph,
    frontier: Seq<int>,
    visited: Set<int>,
    allowed: Seq<EdgeKind>,
    ways: Ways,
    depth: nat,
    last: nat,
    total: nat,
    limit: nat,
    h: int,
)
    ensures
        ({
            let hops = walk(
                graph,
                frontier,
                visited,
                allowed,
                ways,
                depth,
                last,
                total,
                limit,
            ).hops;
            0 <= h < hops.len() ==> (!ways.incoming ==> hops[h].callers.len() == 0) && (
            !ways.outgoing ==> hops[h].callees.len() == 0)
        }),
    decreases last + 1 - depth,
{
    if !(depth > last || total >= limit) {
        let level = expand(graph, frontier, allowed, ways, visited);
        let remaining = (limit - total) as nat;
        let callers = at_most(level.callers, remaining / 2);
        let callees = at_most(level.callees, (remaining - remaining / 2) as nat);
        lemma_expand_keeps_to_the_ways(graph, frontier, allowed, ways, visited);
        law_call_graph_keeps_to_the_ways(
            graph,
            level.next,
            level.visited,
            allowed,
            ways,
            depth + 1,
            last,
            total + callers.len() + callees.len(),
            limit,
            h - 1,
        );
    }
}

/// In the response each hop carries its level, from the roots at level zero on, and a
/// response in one direction lists nothing on the other side.
pub proof fn law_listed_hops_are_numbered_and_keep_to_the_ways(
    graph: CodeGraph,
    roots: Seq<int>,
    qname: Seq<char>,
    allowed: Seq<EdgeKind>,
    direction: Seq<char>,
    depth: u64,
    limit: nat,
    meta: Option<JsonView>,
    full_index: bool,
)
    ensures
        JsonView::Object(
            call_graph_fields(
                graph,
                roots,
                qname,
                allowed,
                direction,
                depth,
                limit,
                meta,
                full_index,
            ),
        ).field("hops"@) matches Some(JsonView::Array(hops)) && hops.len() > 0 && forall|h: int|
            #![trigger hops[h]]
            0 <= h < hops.len() ==> hops[h].unsigned_field("depth"@) == Some(h as u64) && (
            !ways_of(direction).incoming ==> hops[h].field("callers"@) == Some(
                JsonView::Array(Seq::empty()),
            )) && (!ways_of(direction).outgoing ==> hops[h].field("callees"@) == Some(
                JsonView::Array(Seq::empty()),
            )),
{
    reveal_strlit("hops");
    reveal_strlit("note");
    reveal_strlit("resolution");
    reveal_strlit("depth");
    reveal_strlit("symbol");
    reveal_strlit("roots");
    reveal_strlit("callers");
    reveal_strlit("callees");
    assert("hops"@[0] != "note"@[0]);
    assert("hops"@.len() != "resolution"@.len());
    assert("depth"@.len() != "symbol"@.len());
    assert("depth"@[0] != "roots"@[0]);
    assert("depth"@.len() != "callers"@.len());
    assert("depth"@.len() != "callees"@.len());
    assert("callers"@[5] != "callees"@[5]);
    let walked = symbol_walk(graph, roots, allowed, direction, depth, limit);
    let ways = ways_of(direction);
    let last = if depth < MAX_CALL_GRAPH_DEPTH {
        depth as nat
    } else {
        MAX_CALL_GRAPH_DEPTH as nat
    };
    let seen = roots.to_set();
    let count = roots.len();
    law_call_graph_is_bounded(graph, roots, seen, allowed, ways, 1, last, count, limit);
    let hops = seq![roots_view(graph, roots)] + Seq::new(
        walked.hops.len(),
        |i: int| hop_view(graph, walked.hops[i]),
    );
    assert forall|h: int|
        #![trigger hops[h]]
        0 <= h < hops.len() implies hops[h].unsigned_field("depth"@) == Some(h as u64) && (
    !ways.incoming ==> hops[h].field("callers"@) == Some(JsonView::Array(Seq::empty()))) && (
    !ways.outgoing ==> hops[h].field("callees"@) == Some(JsonView::Array(Seq::empty()))) by {
        if h > 0 {
            let i = h - 1;
            law_call_graph_hops_are_numbered(
                graph,
                roots,
                seen,
                allowed,
                ways,
                1,
                last,
                count,
                limit,
                i,
            );
            law_call_graph_keeps_to_the_ways(
                graph,
                roots,
                seen,
                allowed,
                ways,
                1,
                last,
                count,
                limit,
                i,
            );
            let hop = walked.hops[i];
            assert(hops[h] == hop_view(graph, hop));
            let none = Seq::<JsonView>::empty();
            if !ways.incoming {
                assert(neighbors_view(graph, hop.callers) matches JsonView::Array(listed)
                    && listed =~= none);
            }
            if !ways.outgoing {
                assert(neighbors_view(graph, hop.callees) matches JsonView::Array(listed)
                    && listed =~= none);
            }
        }
    }
}

/// Whether an allowed edge that is asked for leads from one node to another.
pub open spec fn linked(
    graph: CodeGraph,
    allowed: Seq<EdgeKind>,
    ways: Ways,
    from: int,
    to: int,
) -> bool {
    ||| ways.incoming && exists|k: int|
        0 <= k < graph.incoming(from).len() && (#[trigger] graph.incoming(from)[k]).node == to
            && (allowed.len() == 0 || allowed.contains(graph.incoming(from)[k].kind))
    ||| ways.outgoing && exists|k: int|
        0 <= k < graph.outgoing(from).len() && (#[trigger] graph.outgoing(from)[k]).node == to
            && (allowed.len() == 0 || allowed.contains(graph.outgoing(from)[k].kind))
}

/// The nodes that can be reached in at most so many hops.
pub open spec fn reachable(
    graph: CodeGraph,
    allowed: Seq<EdgeKind>,
    ways: Ways,
    start: Set<int>,
    hops: nat,
) -> Set<int>
    decreases hops,
{
    if hops == 0 {
        start
    } else {
        let fewer = reachable(graph, allowed, ways, start, (hops - 1) as nat);
        Set::new(
            |to: int|
                fewer.contains(to) || exists|from: int| #[trigger]
                    fewer.contains(from) && linked(graph, allowed, ways, from, to),
        )
    }
}

proof fn lemma_reachable_in_steps(
    graph: CodeGraph,
    allowed: Seq<EdgeKind>,
    ways: Ways,
    start: Set<int>,
    hops: nat,
)
    ensures
        reachable(graph, allowed, ways, start, hops + 1) == reachable(
            graph,
            allowed,
            ways,
            reachable(graph, allowed, ways, start, 1),
            hops,
        ),
    decreases hops,
{
    if hops > 0 {
        lemma_reachable_in_steps(graph, allowed, ways, start, (hops - 1) as nat);
    }
    let next = reachable(graph, allowed, ways, start, 1);
    assert(reachable(graph, allowed, ways, start, hops + 1) =~= reachable(
        graph,
        allowed,
        ways,
        next,
        hops,
    ));
}

/// Whether a node is among the far ends of some edges.
pub open spec fn lists_node(found: Seq<Neighbor>, place: int) -> bool {
    exists|i: int| 0 <= i < found.len() && (#[trigger] found[i]).node == place
}

/// Whether an edge is followed: no kinds at all stand for every kind.
pub open spec fn is_followed(edge: Neighbor, allowed: Seq<EdgeKind>) -> bool {
    allowed.len() == 0 || allowed.contains(edge.kind)
}

proof fn lemma_lists_join(first: Seq<Neighbor>, second: Seq<Neighbor>)
    ensures
        forall|place: int| #[trigger]
            lists_node(first + second, place) <==> lists_node(first, place) || lists_node(
                second,
                place,
            ),
{
    let all = first + second;
    assert forall|place: int| #[trigger] lists_node(all, place) <==> lists_node(first, place)
        || lists_node(second, place) by {
        if lists_node(all, place) {
            let i = choose|i: int| 0 <= i < all.len() && (#[trigger] all[i]).node == place;
            if i < first.len() {
                assert(first[i].node == place);
            } else {
                assert(second[i - first.len()].node == place);
            }
        }
        if lists_node(first, place) {
            let i = choose|i: int| 0 <= i < first.len() && (#[trigger] first[i]).node == place;
            assert(all[i].node == place);
        }
        if lists_node(second, place) {
            let i = choose|i: int| 0 <= i < second.len() && (#[trigger] second[i]).node == place;
            assert(all[i + first.len()].node == place);
        }
    }
}

/// What a sweep over some edges comes to.
spec fn swept(
    neighbors: Seq<Neighbor>,
    allowed: Seq<EdgeKind>,
    visited: Set<int>,
    after: Sweep,
) -> bool {
    &&& forall|i: int|
        0 <= i < after.found.len() ==> neighbors.contains(#[trigger] after.found[i]) && is_followed(
            after.found[i],
            allowed,
        ) && !visited.contains(after.found[i].node as int)
    &&& forall|k: int|
        0 <= k < neighbors.len() && is_followed(#[trigger] neighbors[k], allowed)
            ==> after.visited.contains(neighbors[k].node as int)
    &&& forall|place: int| #[trigger]
        after.visited.contains(place) <==> visited.contains(place) || lists_node(
            after.found,
            place,
        )
}

proof fn lemma_sweep_finds_edges(
    neighbors: Seq<Neighbor>,
    allowed: Seq<EdgeKind>,
    visited: Set<int>,
)
    ensures
        swept(neighbors, allowed, visited, sweep(neighbors, allowed, visited)),
    decreases neighbors.len(),
{
    let after = sweep(neighbors, allowed, visited);
    if neighbors.len() > 0 {
        let fewer = neighbors.drop_last();
        lemma_sweep_finds_edges(fewer, allowed, visited);
        let before = sweep(fewer, allowed, visited);
        let last = neighbors.last();
        assert(neighbors[neighbors.len() - 1] == last);
        assert forall|i: int| 0 <= i < after.found.len() implies neighbors.contains(
            #[trigger] after.found[i],
        ) && is_followed(after.found[i], allowed) && !visited.contains(
            after.found[i].node as int,
        ) by {
            if i < before.found.len() {
                assert(after.found[i] == before.found[i]);
                let k = choose|k: int| 0 <= k < fewer.len() && fewer[k] == before.found[i];
                assert(neighbors[k] == after.found[i]);
            }
        }
        assert forall|k: int|
            0 <= k < neighbors.len() && is_followed(
                #[trigger] neighbors[k],
                allowed,
            ) implies after.visited.contains(neighbors[k].node as int) by {
            if k < fewer.len() {
                assert(fewer[k] == neighbors[k]);
            }
        }
        if before.found.len() < after.found.len() {
            let one = seq![last];
            assert(after.found =~= before.found + one);
            lemma_lists_join(before.found, one);
            assert(one[0].node == last.node);
        }
    }
}

/// Whether each of some edges is one of those at a node of the frontier: of the edges that
/// lead to it, or of those that lead from it.
pub open spec fn stand_at(
    graph: CodeGraph,
    found: Seq<Neighbor>,
    frontier: Seq<int>,
    incoming: bool,
) -> bool {
    forall|i: int|
        0 <= i < found.len() ==> stands_at(graph, #[trigger] found[i], frontier, incoming)
}

/// Whether an edge is one of those at a node of the frontier.
pub open spec fn stands_at(
    graph: CodeGraph,
    edge: Neighbor,
    frontier: Seq<int>,
    incoming: bool,
) -> bool {
    exists|k: int|
        0 <= k < frontier.len() && edges_at(graph, #[trigger] frontier[k], incoming).contains(edge)
}

/// The edges that lead to a node, or those that lead from it.
pub open spec fn edges_at(graph: CodeGraph, place: int, incoming: bool) -> Seq<Neighbor> {
    if incoming {
        graph.incoming(place)
    } else {
        graph.outgoing(place)
    }
}

proof fn lemma_stand_at(
    graph: CodeGraph,
    old_found: Seq<Neighbor>,
    new_found: Seq<Neighbor>,
    frontier: Seq<int>,
    incoming: bool,
)
    requires
        frontier.len() > 0,
        stand_at(graph, old_found, frontier.drop_last(), incoming),
        forall|i: int|
            0 <= i < new_found.len() ==> edges_at(graph, frontier.last(), incoming).contains(
                #[trigger] new_found[i],
            ),
    ensures
        stand_at(graph, old_found + new_found, frontier, incoming),
{
    let fewer = frontier.drop_last();
    let all = old_found + new_found;
    assert forall|i: int| 0 <= i < all.len() implies stands_at(
        graph,
        #[trigger] all[i],
        frontier,
        incoming,
    ) by {
        if i < old_found.len() {
            assert(all[i] == old_found[i]);
            assert(stands_at(graph, old_found[i], fewer, incoming));
            let k = choose|k: int|
                0 <= k < fewer.len() && edges_at(graph, #[trigger] fewer[k], incoming).contains(
                    old_found[i],
                );
            assert(edges_at(graph, frontier[k], incoming).contains(all[i]));
        } else {
            assert(all[i] == new_found[i - old_found.len()]);
            assert(edges_at(graph, frontier[frontier.len() - 1], incoming).contains(all[i]));
        }
    }
}

/// One hop lists as callers edges that lead to a node of the frontier, and as callees edges
/// that lead from one, with their kinds; only edges that are followed, to nodes that were
/// not visited before, and nothing on a side that is not asked for.
pub proof fn law_hop_lists_callers_and_callees(
    graph: CodeGraph,
    frontier: Seq<int>,
    allowed: Seq<EdgeKind>,
    ways: Ways,
    visited: Set<int>,
)
    ensures
        ({
            let level = expand(graph, frontier, allowed, ways, visited);
            &&& stand_at(graph, level.callers, frontier, true)
            &&& stand_at(graph, level.callees, frontier, false)
            &&& forall|i: int|
                0 <= i < level.callers.len() ==> is_followed(#[trigger] level.callers[i], allowed)
                    && !visited.contains(level.callers[i].node as int)
            &&& forall|i: int|
                0 <= i < level.callees.len() ==> is_followed(#[trigger] level.callees[i], allowed)
                    && !visited.contains(level.callees[i].node as int)
            &&& !ways.incoming ==> level.callers.len() == 0
            &&& !ways.outgoing ==> level.callees.len() == 0
        }),
    decreases frontier.len(),
{
    let level = expand(graph, frontier, allowed, ways, visited);
    if frontier.len() > 0 {
        let fewer = frontier.drop_last();
        let at = frontier.last();
        law_hop_lists_callers_and_callees(graph, fewer, allowed, ways, visited);
        law_hop_finds_all_neighbors(graph, fewer, allowed, ways, visited);
        let before = expand(graph, fewer, allowed, ways, visited);
        let inward = follow(ways.incoming, graph.incoming(at), allowed, before.visited);
        let outward = follow(ways.outgoing, graph.outgoing(at), allowed, inward.visited);
        lemma_sweep_finds_edges(graph.incoming(at), allowed, before.visited);
        lemma_sweep_finds_edges(graph.outgoing(at), allowed, inward.visited);
        lemma_stand_at(graph, before.callers, inward.found, frontier, true);
        lemma_stand_at(graph, before.callees, outward.found, frontier, false);
        assert forall|i: int| 0 <= i < level.callers.len() implies is_followed(
            #[trigger] level.callers[i],
            allowed,
        ) && !visited.contains(level.callers[i].node as int) by {
            if i < before.callers.len() {
                assert(level.callers[i] == before.callers[i]);
            } else {
                assert(level.callers[i] == inward.found[i - before.callers.len()]);
            }
        }
        assert forall|i: int| 0 <= i < level.callees.len() implies is_followed(
            #[trigger] level.callees[i],
            allowed,
        ) && !visited.contains(level.callees[i].node as int) by {
            if i < before.callees.len() {
                assert(level.callees[i] == before.callees[i]);
            } else {
                assert(level.callees[i] == outward.found[i - before.callees.len()]);
            }
        }
    }
}

/// One hop finds every node that was not visited before and that an edge leads to which is
/// followed and asked for: as a caller or as a callee, and from a single node as a caller
/// where it calls. All of them, and no others, are visited then and followed further.
pub proof fn law_hop_finds_all_neighbors(
    graph: CodeGraph,
    frontier: Seq<int>,
    allowed: Seq<EdgeKind>,
    ways: Ways,
    visited: Set<int>,
)
    ensures
        ({
            let level = expand(graph, frontier, allowed, ways, visited);
            &&& forall|k: int, to: int|
                #![trigger linked(graph, allowed, ways, frontier[k], to)]
                0 <= k < frontier.len() && linked(graph, allowed, ways, frontier[k], to)
                    && !visited.contains(to) ==> lists_node(level.callers, to) || lists_node(
                    level.callees,
                    to,
                )
            &&& frontier.len() == 1 && ways.incoming ==> forall|k: int|
                0 <= k < graph.incoming(frontier[0]).len() && is_followed(
                    #[trigger] graph.incoming(frontier[0])[k],
                    allowed,
                ) && !visited.contains(graph.incoming(frontier[0])[k].node as int) ==> lists_node(
                    level.callers,
                    graph.incoming(frontier[0])[k].node as int,
                )
            &&& forall|place: int| #[trigger]
                level.visited.contains(place) <==> visited.contains(place) || lists_node(
                    level.callers,
                    place,
                ) || lists_node(level.callees, place)
            &&& forall|place: int| #[trigger]
                level.next.contains(place) <==> lists_node(level.callers, place) || lists_node(
                    level.callees,
                    place,
                )
        }),
    decreases frontier.len(),
{
    let level = expand(graph, frontier, allowed, ways, visited);
    if frontier.len() > 0 {
        let fewer = frontier.drop_last();
        let at = frontier.last();
        let n = frontier.len() - 1;
        law_hop_finds_all_neighbors(graph, fewer, allowed, ways, visited);
        let before = expand(graph, fewer, allowed, ways, visited);
        let inward = follow(ways.incoming, graph.incoming(at), allowed, before.visited);
        let outward = follow(ways.outgoing, graph.outgoing(at), allowed, inward.visited);
        lemma_sweep_finds_edges(graph.incoming(at), allowed, before.visited);
        lemma_sweep_finds_edges(graph.outgoing(at), allowed, inward.visited);
        lemma_lists_join(before.callers, inward.found);
        lemma_lists_join(before.callees, outward.found);
        assert forall|place: int| #[trigger] level.next.contains(place) <==> lists_node(
            level.callers,
            place,
        ) || lists_node(level.callees, place) by {
            lemma_next_is_joined(before.next, inward.found, outward.found, place);
        }
        assert forall|k: int, to: int|
            #![trigger linked(graph, allowed, ways, frontier[k], to)]
            0 <= k < frontier.len() && linked(graph, allowed, ways, frontier[k], to)
                && !visited.contains(to) implies lists_node(level.callers, to) || lists_node(
            level.callees,
            to,
        ) by {
            if k < n {
                assert(linked(graph, allowed, ways, fewer[k], to));
            } else {
                assert(outward.visited.contains(to));
            }
        }
        if frontier.len() == 1 && ways.incoming {
            assert(before.visited =~= visited);
            assert(before.callers.len() == 0);
        }
    } else {
        assert(forall|place: int| !lists_node(level.callers, place));
        assert(forall|place: int| !lists_node(level.callees, place));
    }
}

proof fn lemma_next_is_joined(
    before: Seq<int>,
    inward: Seq<Neighbor>,
    outward: Seq<Neighbor>,
    place: int,
)
    ensures
        (before + ends(inward) + ends(outward)).contains(place) <==> before.contains(place)
            || lists_node(inward, place) || lists_node(outward, place),
{
    let all = before + ends(inward) + ends(outward);
    let (b, i) = (before.len() as int, inward.len() as int);
    if all.contains(place) {
        let k = choose|k: int| 0 <= k < all.len() && all[k] == place;
        if k < b {
            assert(before[k] == place);
        } else if k < b + i {
            assert(inward[k - b].node == place);
        } else {
            assert(outward[k - b - i].node == place);
        }
    }
    if before.contains(place) {
        let k = choose|k: int| 0 <= k < before.len() && before[k] == place;
        assert(all[k] == place);
    }
    if lists_node(inward, place) {
        let k = choose|k: int| 0 <= k < inward.len() && (#[trigger] inward[k]).node == place;
        assert(all[b + k] == place);
    }
    if lists_node(outward, place) {
        let k = choose|k: int| 0 <= k < outward.len() && (#[trigger] outward[k]).node == place;
        assert(all[b + i + k] == place);
    }
}

/// Whether every edge from a visited node that is not on the frontier leads to a visited
/// node.
spec fn is_settled(
    graph: CodeGraph,
    frontier: Seq<int>,
    visited: Set<int>,
    allowed: Seq<EdgeKind>,
    ways: Ways,
) -> bool {
    &&& forall|k: int| 0 <= k < frontier.len() ==> visited.contains(#[trigger] frontier[k])
    &&& forall|from: int, to: int|
        visited.contains(from) && !frontier.contains(from) && #[trigger] linked(
            graph,
            allowed,
            ways,
            from,
            to,
        ) ==> visited.contains(to)
}

proof fn lemma_hop_settles(
    graph: CodeGraph,
    frontier: Seq<int>,
    visited: Set<int>,
    allowed: Seq<EdgeKind>,
    ways: Ways,
)
    requires
        is_settled(graph, frontier, visited, allowed, ways),
    ensures
        ({
            let level = expand(graph, frontier, allowed, ways, visited);
            &&& level.visited == reachable(graph, allowed, ways, visited, 1)
            &&& is_settled(graph, level.next, level.visited, allowed, ways)
            &&& forall|place: int| #[trigger]
                level.next.contains(place) <==> level.visited.contains(place)
                    && !visited.contains(place)
        }),
{
    let level = expand(graph, frontier, allowed, ways, visited);
    let near = reachable(graph, allowed, ways, visited, 1);
    reveal_with_fuel(reachable, 2);
    law_hop_lists_callers_and_callees(graph, frontier, allowed, ways, visited);
    law_hop_finds_all_neighbors(graph, frontier, allowed, ways, visited);
    assert forall|to: int| near.contains(to) implies #[trigger] level.visited.contains(to) by {
        if !visited.contains(to) {
            let from = choose|from: int| #[trigger]
                visited.contains(from) && linked(graph, allowed, ways, from, to);
            assert(frontier.contains(from));
            let k = choose|k: int| 0 <= k < frontier.len() && frontier[k] == from;
            assert(linked(graph, allowed, ways, frontier[k], to));
        }
    }
    assert forall|to: int| #[trigger] level.visited.contains(to) implies near.contains(to) by {
        if lists_node(level.callers, to) {
            let i = choose|i: int|
                0 <= i < level.callers.len() && (#[trigger] level.callers[i]).node == to;
            let k = choose|k: int|
                0 <= k < frontier.len() && edges_at(
                    graph,
                    #[trigger] frontier[k],
                    true,
                ).contains(level.callers[i]);
            let edges = graph.incoming(frontier[k]);
            let e = choose|e: int| 0 <= e < edges.len() && edges[e] == level.callers[i];
            assert(edges[e].node == to);
            assert(visited.contains(frontier[k]) && linked(graph, allowed, ways, frontier[k], to));
        } else if lists_node(level.callees, to) {
            let i = choose|i: int|
                0 <= i < level.callees.len() && (#[trigger] level.callees[i]).node == to;
            let k = choose|k: int|
                0 <= k < frontier.len() && edges_at(
                    graph,
                    #[trigger] frontier[k],
                    false,
                ).contains(level.callees[i]);
            let edges = graph.outgoing(frontier[k]);
            let e = choose|e: int| 0 <= e < edges.len() && edges[e] == level.callees[i];
            assert(edges[e].node == to);
            assert(visited.contains(frontier[k]) && linked(graph, allowed, ways, frontier[k], to));
        }
    }
    assert(level.visited =~= near);
    assert forall|place: int| #[trigger] level.next.contains(place) <==> level.visited.contains(
        place,
    ) && !visited.contains(place) by {
        if lists_node(level.callers, place) {
            let i = choose|i: int|
                0 <= i < level.callers.len() && (#[trigger] level.callers[i]).node == place;
            assert(!visited.contains(level.callers[i].node as int));
        }
        if lists_node(level.callees, place) {
            let i = choose|i: int|
                0 <= i < level.callees.len() && (#[trigger] level.callees[i]).node == place;
            assert(!visited.contains(level.callees[i].node as int));
        }
    }
    assert forall|k: int| 0 <= k < level.next.len() implies level.visited.contains(
        #[trigger] level.next[k],
    ) by {
        assert(level.next.contains(level.next[k]));
    }
    assert forall|from: int, to: int|
        level.visited.contains(from) && !level.next.contains(from) && #[trigger] linked(
            graph,
            allowed,
            ways,
            from,
            to,
        ) implies level.visited.contains(to) by {
        assert(visited.contains(from));
        assert(near.contains(to));
    }
}

/// Whether the edges on one side of a hop are what is at that distance: each is one of the
/// edges, on that side, at a node one hop nearer, and its far end is no nearer than that.
pub open spec fn is_at_distance(
    graph: CodeGraph,
    found: Seq<Neighbor>,
    allowed: Seq<EdgeKind>,
    ways: Ways,
    start: Set<int>,
    hops: nat,
    incoming: bool,
) -> bool {
    forall|i: int|
        0 <= i < found.len() ==> is_followed(#[trigger] found[i], allowed) && !reachable(
            graph,
            allowed,
            ways,
            start,
            hops,
        ).contains(found[i].node as int) && exists|from: int| #[trigger]
            reachable(graph, allowed, ways, start, hops).contains(from) && edges_at(
                graph,
                from,
                incoming,
            ).contains(found[i])
}

/// How many nodes are listed before a hop.
pub open spec fn listed_before(hops: Seq<HopView>, h: int, total: nat) -> nat {
    total + listed_nodes(hops.take(h)).len()
}

proof fn lemma_listed_before(first: HopView, rest: Seq<HopView>, h: int, total: nat)
    requires
        1 <= h <= rest.len() + 1,
    ensures
        listed_before(seq![first] + rest, h, total) == listed_before(
            rest,
            h - 1,
            total + first.callers.len() + first.callees.len(),
        ),
{
    let hops = seq![first] + rest;
    assert(hops.take(h).drop_first() =~= rest.take(h - 1));
    assert(hops.take(h)[0] == first);
}

proof fn lemma_shortened_list(
    graph: CodeGraph,
    found: Seq<Neighbor>,
    n: nat,
    frontier: Seq<int>,
    incoming: bool,
)
    requires
        stand_at(graph, found, frontier, incoming),
    ensures
        stand_at(graph, at_most(found, n), frontier, incoming),
        at_most(found, n).len() < n ==> at_most(found, n) == found,
{
    let short = at_most(found, n);
    assert forall|i: int| 0 <= i < short.len() implies stands_at(
        graph,
        #[trigger] short[i],
        frontier,
        incoming,
    ) by {
        assert(short[i] == found[i]);
    }
}

proof fn lemma_walk_goes_by_distance(
    graph: CodeGraph,
    frontier: Seq<int>,
    visited: Set<int>,
    allowed: Seq<EdgeKind>,
    ways: Ways,
    depth: nat,
    last: nat,
    total: nat,
    limit: nat,
    h: int,
)
    requires
        is_settled(graph, frontier, visited, allowed, ways),
    ensures
        ({
            let hops = walk(
                graph,
                frontier,
                visited,
                allowed,
                ways,
                depth,
                last,
                total,
                limit,
            ).hops;
            let left = (limit - listed_before(hops, h, total)) as nat;
            &&& 0 <= h < hops.len() ==> {
                &&& is_at_distance(
                    graph,
                    hops[h].callers,
                    allowed,
                    ways,
                    visited,
                    h as nat,
                    true,
                )
                &&& is_at_distance(
                    graph,
                    hops[h].callees,
                    allowed,
                    ways,
                    visited,
                    h as nat,
                    false,
                )
                &&& listed_before(hops, h, total) < limit
                &&& hops[h].callers.len() <= left / 2
                &&& hops[h].callees.len() <= left - left / 2
                &&& hops[h].callers.len() < left / 2 && hops[h].callees.len() < left - left / 2
                    ==> forall|place: int|
                    #![trigger lists_node(hops[h].callers, place)]
                    reachable(graph, allowed, ways, visited, (h + 1) as nat).contains(place)
                        && !reachable(graph, allowed, ways, visited, h as nat).contains(place)
                        ==> lists_node(hops[h].callers, place) || lists_node(
                        hops[h].callees,
                        place,
                    )
            }
            &&& h == hops.len() && depth + h <= last ==> listed_before(hops, h, total) >= limit
        }),
    decreases last + 1 - depth,
{
    let walked = walk(graph, frontier, visited, allowed, ways, depth, last, total, limit);
    if !(depth > last || total >= limit) {
        let level = expand(graph, frontier, allowed, ways, visited);
        let remaining = (limit - total) as nat;
        let callers = at_most(level.callers, remaining / 2);
        let callees = at_most(level.callees, (remaining - remaining / 2) as nat);
        let counted = total + callers.len() + callees.len();
        let rest = walk(
            graph,
            level.next,
            level.visited,
            allowed,
            ways,
            depth + 1,
            last,
            counted,
            limit,
        );
        let first = HopView { depth, callers, callees };
        law_hop_lists_callers_and_callees(graph, frontier, allowed, ways, visited);
        law_hop_finds_all_neighbors(graph, frontier, allowed, ways, visited);
        lemma_hop_settles(graph, frontier, visited, allowed, ways);
        lemma_shortened_list(graph, level.callers, remaining / 2, frontier, true);
        lemma_shortened_list(
            graph,
            level.callees,
            (remaining - remaining / 2) as nat,
            frontier,
            false,
        );
        assert(walked.hops =~= seq![first] + rest.hops);
        if h == 0 {
            assert(walked.hops.take(0) =~= Seq::empty());
            lemma_first_hop_is_at_distance(graph, level.callers, callers, frontier, visited, allowed, ways, true);
            lemma_first_hop_is_at_distance(graph, level.callees, callees, frontier, visited, allowed, ways, false);
            assert(reachable(graph, allowed, ways, visited, 0) == visited);
        } else if 1 <= h <= walked.hops.len() {
            lemma_walk_goes_by_distance(
                graph,
                level.next,
                level.visited,
                allowed,
                ways,
                depth + 1,
                last,
                counted,
                limit,
                h - 1,
            );
            lemma_listed_before(first, rest.hops, h, total);
            lemma_reachable_in_steps(graph, allowed, ways, visited, (h - 1) as nat);
            lemma_reachable_in_steps(graph, allowed, ways, visited, h as nat);
            if h < walked.hops.len() {
                assert(walked.hops[h] == rest.hops[h - 1]);
            }
        }
    } else {
        assert(walked.hops.take(0) =~= Seq::empty());
    }
}

proof fn lemma_first_hop_is_at_distance(
    graph: CodeGraph,
    found: Seq<Neighbor>,
    short: Seq<Neighbor>,
    frontier: Seq<int>,
    visited: Set<int>,
    allowed: Seq<EdgeKind>,
    ways: Ways,
    incoming: bool,
)
    requires
        is_settled(graph, frontier, visited, allowed, ways),
        stand_at(graph, short, frontier, incoming),
        short.len() <= found.len(),
        forall|i: int| 0 <= i < short.len() ==> #[trigger] short[i] == found[i],
        forall|i: int|
            0 <= i < found.len() ==> is_followed(#[trigger] found[i], allowed) && !visited.contains(
                found[i].node as int,
            ),
    ensures
        is_at_distance(graph, short, allowed, ways, visited, 0, incoming),
{
    assert forall|i: int| 0 <= i < short.len() implies is_followed(#[trigger] short[i], allowed)
        && !reachable(graph, allowed, ways, visited, 0).contains(short[i].node as int) && exists|
        from: int,
    | #[trigger]
        reachable(graph, allowed, ways, visited, 0).contains(from) && edges_at(
            graph,
            from,
            incoming,
        ).contains(short[i]) by {
        assert(short[i] == found[i]);
        let k = choose|k: int|
            0 <= k < frontier.len() && edges_at(graph, #[trigger] frontier[k], incoming).contains(
                short[i],
            );
        assert(reachable(graph, allowed, ways, visited, 0).contains(frontier[k]));
    }
}

/// A call graph goes by distance from the symbols it starts from. What the hop at a
/// distance lists as callers are edges that lead to a node one hop nearer, and as callees
/// edges that lead from one; their far ends are at that distance and no nearer. Half of
/// what is left of the limit goes to callers and the rest to callees; a hop that does not
/// use up its share lists every node at its distance, and the walk goes on until its depth
/// or the limit is reached.
pub proof fn law_call_graph_goes_by_distance(
    graph: CodeGraph,
    roots: Seq<int>,
    allowed: Seq<EdgeKind>,
    direction: Seq<char>,
    depth: u64,
    limit: nat,
    h: int,
)
    ensures
        ({
            let hops = symbol_walk(graph, roots, allowed, direction, depth, limit).hops;
            let both = direction.len() == 0 || direction == "both"@;
            let ways = Ways {
                incoming: both || direction == "incoming"@,
                outgoing: both || direction == "outgoing"@,
            };
            let start = roots.to_set();
            let left = (limit - listed_before(hops, h, roots.len())) as nat;
            &&& 0 <= h < hops.len() ==> {
                &&& hops[h].depth == h + 1
                &&& is_at_distance(graph, hops[h].callers, allowed, ways, start, h as nat, true)
                &&& is_at_distance(graph, hops[h].callees, allowed, ways, start, h as nat, false)
                &&& hops[h].callers.len() <= left / 2
                &&& hops[h].callees.len() <= left - left / 2
                &&& !ways.incoming ==> hops[h].callers.len() == 0
                &&& !ways.outgoing ==> hops[h].callees.len() == 0
                &&& hops[h].callers.len() < left / 2 && hops[h].callees.len() < left - left / 2
                    ==> forall|place: int|
                    #![trigger lists_node(hops[h].callers, place)]
                    reachable(graph, allowed, ways, start, (h + 1) as nat).contains(place)
                        && !reachable(graph, allowed, ways, start, h as nat).contains(place)
                        ==> lists_node(hops[h].callers, place) || lists_node(
                        hops[h].callees,
                        place,
                    )
            }
            &&& h == hops.len() && h < depth && h < 5 ==> listed_before(hops, h, roots.len())
                >= limit
            &&& hops.len() <= depth && hops.len() <= 5
        }),
{
    let ways = ways_of(direction);
    let start = roots.to_set();
    let last = if depth < MAX_CALL_GRAPH_DEPTH {
        depth as nat
    } else {
        MAX_CALL_GRAPH_DEPTH as nat
    };
    assert forall|from: int| start.contains(from) implies roots.contains(from) by {}
    assert(is_settled(graph, roots, start, allowed, ways)) by {
        assert forall|k: int| 0 <= k < roots.len() implies start.contains(#[trigger] roots[k]) by {
            assert(roots.contains(roots[k]));
        }
    }
    let count = roots.len();
    lemma_walk_goes_by_distance(graph, roots, start, allowed, ways, 1, last, count, limit, h);
    law_call_graph_hops_are_numbered(graph, roots, start, allowed, ways, 1, last, count, limit, h);
    law_call_graph_keeps_to_the_ways(graph, roots, start, allowed, ways, 1, last, count, limit, h);
    law_call_graph_is_bounded(graph, roots, start, allowed, ways, 1, last, count, limit);
}

/// The first hop from one symbol lists its callers as callers: every node with an edge to
/// it that is followed, unless the symbol calls itself.
pub proof fn law_callers_of_one_symbol_are_its_callers(
    graph: CodeGraph,
    root: int,
    allowed: Seq<EdgeKind>,
    direction: Seq<char>,
    depth: u64,
    limit: nat,
    k: int,
)
    requires
        direction == "incoming"@ || direction == "both"@ || direction.len() == 0,
        depth >= 1,
        limit > 1,
        0 <= k < graph.incoming(root).len(),
        is_followed(graph.incoming(root)[k], allowed),
        graph.incoming(root)[k].node != root,
    ensures
        ({
            let hops = symbol_walk(graph, seq![root], allowed, direction, depth, limit).hops;
            hops.len() > 0 && (hops[0].callers.len() < (limit - 1) / 2 ==> lists_node(
                hops[0].callers,
                graph.incoming(root)[k].node as int,
            ))
        }),
{
    let roots = seq![root];
    let visited = roots.to_set();
    let ways = ways_of(direction);
    let level = expand(graph, roots, allowed, ways, visited);
    law_hop_finds_all_neighbors(graph, roots, allowed, ways, visited);
    law_hop_lists_callers_and_callees(graph, roots, allowed, ways, visited);
    lemma_shortened_list(graph, level.callers, ((limit - 1) / 2) as nat, roots, true);
    assert(roots[0] == root);
    assert(!visited.contains(graph.incoming(root)[k].node as int));
    let hops = symbol_walk(graph, roots, allowed, direction, depth, limit).hops;
    assert(hops[0].callers == at_most(level.callers, ((limit - 1) / 2) as nat));
}

/// What is listed of a caller or callee: the node at the far end, and the kind of edge.
pub proof fn law_listed_neighbors_are_told_by_their_nodes(
    graph: CodeGraph,
    hop: HopView,
    i: int,
)
    ensures
        hop_view(graph, hop).field("callers"@) matches Some(JsonView::Array(listed))
            && listed.len() == hop.callers.len() && (0 <= i < listed.len() ==> tells_neighbor(
            listed[i],
            graph,
            hop.callers[i],
        )),
        hop_view(graph, hop).field("callees"@) matches Some(JsonView::Array(listed))
            && listed.len() == hop.callees.len() && (0 <= i < listed.len() ==> tells_neighbor(
            listed[i],
            graph,
            hop.callees[i],
        )),
{
    reveal_strlit("depth");
    reveal_strlit("callers");
    reveal_strlit("callees");
    reveal_strlit("name");
    reveal_strlit("qualified_name");
    reveal_strlit("kind");
    reveal_strlit("edge");
    reveal_strlit("file");
    reveal_strlit("line");
    assert("callers"@[5] != "callees"@[5]);
    let view = hop_view(graph, hop);
    assert(view.field("callers"@) == Some(neighbors_view(graph, hop.callers)));
    assert(view.field("callees"@) == Some(neighbors_view(graph, hop.callees)));
    assert forall|edge: Neighbor| tells_neighbor(#[trigger] neighbor_view(graph, edge), graph, edge) by {
        assert("name"@[0] != "kind"@[0] && "name"@[0] != "edge"@[0]);
        assert("name"@[0] != "file"@[0] && "name"@[0] != "line"@[0]);
        assert("kind"@[0] != "edge"@[0] && "kind"@[0] != "file"@[0] && "kind"@[0] != "line"@[0]);
        assert("edge"@[0] != "file"@[0] && "edge"@[0] != "line"@[0] && "file"@[0] != "line"@[0]);
    }
}

/// Whether a listed value tells a node and the kind of the edge to it.
pub open spec fn tells_neighbor(listed: JsonView, graph: CodeGraph, edge: Neighbor) -> bool {
    let node = graph.node(edge.node as int);
    &&& listed.text_field("name"@) == Some(node.name@)
    &&& listed.text_field("qualified_name"@) == Some(node.qualified_name@)
    &&& listed.text_field("kind"@) == Some(node.kind_name@)
    &&& listed.text_field("edge"@) == Some(edge_name(edge.kind))
    &&& listed.text_field("file"@) == Some(node.file@)
    &&& listed.unsigned_field("line"@) == Some(node.line as u64)
}

/// The response lists the roots first, and then hop by hop what the walk found, with each
/// caller and callee told by its own node, and counts all nodes that are listed.
pub proof fn law_response_lists_the_walk(
    graph: CodeGraph,
    roots: Seq<int>,
    qname: Seq<char>,
    allowed: Seq<EdgeKind>,
    direction: Seq<char>,
    depth: u64,
    limit: nat,
    meta: Option<JsonView>,
    full_index: bool,
    h: int,
    i: int,
)
    requires
        roots.len() > 0,
        roots.len() + listed_nodes(
            symbol_walk(graph, roots, allowed, direction, depth, limit).hops,
        ).len() <= u64::MAX,
    ensures
        ({
            let body = JsonView::Object(
                call_graph_fields(
                    graph,
                    roots,
                    qname,
                    allowed,
                    direction,
                    depth,
                    limit,
                    meta,
                    full_index,
                ),
            );
            let walked = symbol_walk(graph, roots, allowed, direction, depth, limit).hops;
            &&& body.text_field("symbol"@) == Some(qname)
            &&& body.unsigned_field("max_depth"@) == Some(depth)
            &&& body.unsigned_field("total_nodes_visited"@) == Some(
                (roots.len() + listed_nodes(walked).len()) as u64,
            )
            &&& body.field("resolution"@) == meta
            &&& body.field("note"@) is None == full_index
            &&& body.field("hops"@) matches Some(JsonView::Array(hops)) && {
                &&& hops.len() == walked.len() + 1
                &&& roots.len() == 1 ==> hops[0].field("symbol"@) == Some(
                    graph.node(roots[0]).summary@,
                )
                &&& roots.len() > 1 ==> (hops[0].field("roots"@) matches Some(
                    JsonView::Array(told),
                ) && told.len() == roots.len() && (0 <= i < told.len() ==> told[i] == graph.node(
                    roots[i],
                ).summary@))
                &&& 0 <= h < walked.len() ==> tells_hop(hops[h + 1], graph, walked[h], i)
            }
        }),
{
    reveal_strlit("symbol");
    reveal_strlit("max_depth");
    reveal_strlit("total_nodes_visited");
    reveal_strlit("hops");
    reveal_strlit("resolution");
    reveal_strlit("note");
    reveal_strlit("depth");
    reveal_strlit("roots");
    reveal_strlit("callers");
    reveal_strlit("callees");
    assert("symbol"@.len() != "max_depth"@.len());
    assert("symbol"@.len() != "total_nodes_visited"@.len());
    assert("symbol"@.len() != "hops"@.len());
    assert("symbol"@.len() != "resolution"@.len());
    assert("symbol"@.len() != "note"@.len());
    assert("max_depth"@.len() != "total_nodes_visited"@.len());
    assert("max_depth"@.len() != "hops"@.len());
    assert("max_depth"@.len() != "resolution"@.len());
    assert("max_depth"@.len() != "note"@.len());
    assert("total_nodes_visited"@.len() != "hops"@.len());
    assert("total_nodes_visited"@.len() != "resolution"@.len());
    assert("total_nodes_visited"@.len() != "note"@.len());
    assert("hops"@.len() != "resolution"@.len());
    assert("hops"@[0] != "note"@[0]);
    assert("resolution"@.len() != "note"@.len());
    assert("depth"@.len() != "symbol"@.len());
    assert("depth"@[0] != "roots"@[0]);
    assert("symbol"@.len() != "callers"@.len());
    assert("symbol"@.len() != "callees"@.len());
    assert("roots"@.len() != "callers"@.len());
    assert("roots"@.len() != "callees"@.len());
    let walked = symbol_walk(graph, roots, allowed, direction, depth, limit);
    let last = if depth < MAX_CALL_GRAPH_DEPTH {
        depth as nat
    } else {
        MAX_CALL_GRAPH_DEPTH as nat
    };
    law_call_graph_is_bounded(
        graph,
        roots,
        roots.to_set(),
        allowed,
        ways_of(direction),
        1,
        last,
        roots.len(),
        limit,
    );
    let body = JsonView::Object(
        call_graph_fields(graph, roots, qname, allowed, direction, depth, limit, meta, full_index),
    );
    let hops = seq![roots_view(graph, roots)] + Seq::new(
        walked.hops.len(),
        |k: int| hop_view(graph, walked.hops[k]),
    );
    assert(body.field("hops"@) == Some(JsonView::Array(hops)));
    assert(hops[0] == roots_view(graph, roots));
    if 0 <= h < walked.hops.len() {
        assert(hops[h + 1] == hop_view(graph, walked.hops[h]));
        law_listed_neighbors_are_told_by_their_nodes(graph, walked.hops[h], i);
    }
}

/// Whether a listed value tells the callers and callees of a hop at a place.
pub open spec fn tells_hop(listed: JsonView, graph: CodeGraph, hop: HopView, i: int) -> bool {
    &&& listed.field("callers"@) matches Some(JsonView::Array(told)) && told.len()
        == hop.callers.len() && (0 <= i < told.len() ==> tells_neighbor(
        told[i],
        graph,
        hop.callers[i],
    ))
    &&& listed.field("callees"@) matches Some(JsonView::Array(told)) && told.len()
        == hop.callees.len() && (0 <= i < told.len() ==> tells_neighbor(
        told[i],
        graph,
        hop.callees[i],
    ))
}

proof fn lemma_place_is_that_of_the_symbol(graph: CodeGraph, id: Seq<u8>, from: int)
    requires
        0 <= from,
    ensures
        match place_of(graph, id, from) {
            Some(place) => from <= place < graph.size() && graph.node(place).symbol_id@ == id
                && forall|j: int| from <= j < place ==> (#[trigger] graph.node(j)).symbol_id@ != id,
            None => forall|j: int|
                from <= j < graph.size() ==> (#[trigger] graph.node(j)).symbol_id@ != id,
        },
    decreases graph.size() - from,
{
    if from < graph.size() && graph.node(from).symbol_id@ != id {
        lemma_place_is_that_of_the_symbol(graph, id, from + 1);
    }
}

/// Whether a symbol is in the graph.
pub open spec fn is_in_graph(graph: CodeGraph, id: Seq<u8>) -> bool {
    exists|j: int| 0 <= j < graph.size() && (#[trigger] graph.node(j)).symbol_id@ == id
}

/// A walk starts from the nodes of those of the symbols that are in the graph: all of them,
/// in the order in which they are asked for.
pub proof fn law_walk_starts_from_the_symbols(graph: CodeGraph, ids: Seq<Seq<u8>>)
    ensures
        ({
            let places = places_of(graph, ids);
            let known = ids.filter(|id: Seq<u8>| is_in_graph(graph, id));
            &&& places.len() == known.len()
            &&& forall|i: int|
                0 <= i < places.len() ==> 0 <= #[trigger] places[i] < graph.size() && graph.node(
                    places[i],
                ).symbol_id@ == known[i]
        }),
    decreases ids.len(),
{
    reveal(Seq::filter);
    if ids.len() > 0 {
        law_walk_starts_from_the_symbols(graph, ids.drop_last());
        lemma_place_is_that_of_the_symbol(graph, ids.last(), 0);
        let before = places_of(graph, ids.drop_last());
        let places = places_of(graph, ids);
        let known = ids.filter(|id: Seq<u8>| is_in_graph(graph, id));
        assert(place_of(graph, ids.last(), 0) is Some == is_in_graph(graph, ids.last()));
        assert forall|i: int| 0 <= i < places.len() implies 0 <= #[trigger] places[i]
            < graph.size() && graph.node(places[i]).symbol_id@ == known[i] by {
            if i < before.len() {
                assert(places[i] == before[i]);
            }
        }
    }
}

/// Hops and places are seen one by one, in order.
pub proof fn law_hops_are_seen_in_order(hops: Seq<Hop>, places: Seq<usize>)
    ensures
        hops_view(hops).len() == hops.len(),
        forall|i: int|
            0 <= i < hops.len() ==> #[trigger] hops_view(hops)[i].depth == hops[i].depth
                && hops_view(hops)[i].callers == hops[i].callers@ && hops_view(hops)[i].callees
                == hops[i].callees@,
        places_view(places).len() == places.len(),
        forall|i: int| 0 <= i < places.len() ==> #[trigger] places_view(places)[i] == places[i],
{
}

} // verus!
