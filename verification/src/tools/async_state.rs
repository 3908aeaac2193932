//! The queries that can be resumed.

use vstd::prelude::*;

use crate::text_map::{kept, TextMap};
use crate::tools::analysis_envelope::QuerySnapshot;

verus! {

/// The queries that can be resumed, by their identifiers. `F` is the state of the
/// focus analysis.
pub struct AsyncState<F> {
    pub query_snapshots: TextMap<QuerySnapshot<F>>,
}

/// Whether something made at a time has not expired.
pub open spec fn is_fresh(created_at: u64, now: u64, ttl: u64) -> bool {
    created_at + ttl > now
}

/// The queries that have not expired.
pub open spec fn fresh_snapshots<F>(
    snapshots: Map<Seq<char>, QuerySnapshot<F>>,
    now: u64,
    ttl: u64,
) -> Map<Seq<char>, QuerySnapshot<F>> {
    kept(snapshots, |s: QuerySnapshot<F>| is_fresh(s.created_at, now, ttl))
}

impl<F> AsyncState<F> {
    /// The queries, by their identifiers.
    pub open spec fn view(self) -> Map<Seq<char>, QuerySnapshot<F>> {
        self.query_snapshots@
    }

    /// No queries.
    pub fn new() -> (state: Self)
        ensures
            state@ == Map::<Seq<char>, QuerySnapshot<F>>::empty(),
    {
        AsyncState { query_snapshots: TextMap::new() }
    }

    /// Stores a query under its identifier.
    pub fn store_query_snapshot(&mut self, snapshot: QuerySnapshot<F>)
        ensures
            final(self)@ == old(self)@.insert(snapshot.query_id@, snapshot),
    {
        let id = snapshot.query_id.clone();
        self.query_snapshots.insert(id, snapshot);
    }

    /// The query with an identifier.
    pub fn query_snapshot(&self, query_id: &str) -> (snapshot: Option<&QuerySnapshot<F>>)
        ensures
            match snapshot {
                Some(s) => self@.contains_key(query_id@) && *s == self@[query_id@],
                None => !self@.contains_key(query_id@),
            },
    {
        self.query_snapshots.get(query_id)
    }

    /// Forgets the queries that are older than `ttl`.
    pub fn prune_expired_snapshots(&mut self, now: u64, ttl: u64)
        ensures
            final(self)@ == fresh_snapshots(old(self)@, now, ttl),
    {
        let keep = |snapshot: &QuerySnapshot<F>| -> (fresh: bool)
            ensures
                fresh == is_fresh(snapshot.created_at, now, ttl),
            { now < ttl || snapshot.created_at > now - ttl };
        self.query_snapshots.retain(
            keep,
            Ghost(|s: QuerySnapshot<F>| is_fresh(s.created_at, now, ttl)),
        );
    }
}

/// A stored query can be had until it expires, and not after.
pub proof fn law_queries_live_for_their_time<F>(
    snapshots: Map<Seq<char>, QuerySnapshot<F>>,
    snapshot: QuerySnapshot<F>,
    now: u64,
    ttl: u64,
)
    ensures
        fresh_snapshots(
            snapshots.insert(snapshot.query_id@, snapshot),
            now,
            ttl,
        ).contains_key(snapshot.query_id@) <==> is_fresh(snapshot.created_at, now, ttl),
{
}

/// A stored query is had back as it is, until the time that queries live for has passed
/// since it was made; the others are not touched by storing it.
pub proof fn law_queries_are_had_back<F>(
    snapshots: Map<Seq<char>, QuerySnapshot<F>>,
    snapshot: QuerySnapshot<F>,
    other: Seq<char>,
    now: u64,
    ttl: u64,
)
    requires
        snapshot.created_at <= now,
        other != snapshot.query_id@,
    ensures
        ({
            let stored = snapshots.insert(snapshot.query_id@, snapshot);
            let left = fresh_snapshots(stored, now, ttl);
            &&& left.contains_key(snapshot.query_id@) <==> now - snapshot.created_at < ttl
            &&& left.contains_key(snapshot.query_id@) ==> left[snapshot.query_id@] == snapshot
            &&& left.contains_key(other) <==> fresh_snapshots(snapshots, now, ttl).contains_key(
                other,
            )
            &&& left.contains_key(other) ==> left[other] == snapshots[other]
        }),
{
}

} // verus!
