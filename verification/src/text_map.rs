//! A map with text keys.

use vstd::prelude::*;

use crate::text::same_text;

verus! {

/// A map with text keys: entries with pairwise distinct keys.
pub struct TextMap<V> {
    entries: Vec<(String, V)>,
}

spec fn entries_map<V>(entries: Seq<(String, V)>) -> Map<Seq<char>, V>
    decreases entries.len(),
{
    if entries.len() == 0 {
        Map::empty()
    } else {
        entries_map(entries.drop_last()).insert(entries.last().0@, entries.last().1)
    }
}

spec fn distinct_keys<V>(entries: Seq<(String, V)>) -> bool {
    forall|i: int, j: int|
        #![trigger entries[i], entries[j]]
        0 <= i < j < entries.len() ==> entries[i].0@ != entries[j].0@
}

proof fn lemma_entries_map<V>(entries: Seq<(String, V)>)
    requires
        distinct_keys(entries),
    ensures
        forall|i: int|
            #![trigger entries[i]]
            0 <= i < entries.len() ==> entries_map(entries).contains_key(entries[i].0@)
                && entries_map(entries)[entries[i].0@] == entries[i].1,
        forall|key: Seq<char>| #[trigger]
            entries_map(entries).contains_key(key) ==> exists|i: int|
                0 <= i < entries.len() && #[trigger] entries[i].0@ == key,
        entries_map(entries).dom().finite(),
        entries_map(entries).dom().len() == entries.len(),
    decreases entries.len(),
{
    if entries.len() > 0 {
        let rest = entries.drop_last();
        assert forall|i: int, j: int|
            #![trigger rest[i], rest[j]]
            0 <= i < j < rest.len() implies rest[i].0@ != rest[j].0@ by {
            assert(rest[i] == entries[i] && rest[j] == entries[j]);
        }
        lemma_entries_map(rest);
        let last = entries.last();
        let n = entries.len() - 1;
        assert(!entries_map(rest).contains_key(last.0@)) by {
            if entries_map(rest).contains_key(last.0@) {
                let i = choose|i: int| 0 <= i < rest.len() && #[trigger] rest[i].0@ == last.0@;
                assert(entries[i] == rest[i] && entries[n] == last);
            }
        }
        assert forall|i: int|
            #![trigger entries[i]]
            0 <= i < entries.len() implies entries_map(entries).contains_key(entries[i].0@)
            && entries_map(entries)[entries[i].0@] == entries[i].1 by {
            if i < n {
                assert(rest[i] == entries[i]);
                assert(entries[i].0@ != entries[n].0@);
            }
        }
        assert forall|key: Seq<char>| #[trigger]
            entries_map(entries).contains_key(key) implies exists|i: int|
            0 <= i < entries.len() && #[trigger] entries[i].0@ == key by {
            if key == last.0@ {
                assert(entries[n].0@ == key);
            } else {
                assert(entries_map(rest).contains_key(key));
                let i = choose|i: int| 0 <= i < rest.len() && #[trigger] rest[i].0@ == key;
                assert(entries[i].0@ == key);
            }
        }
        assert(entries_map(entries).dom() =~= entries_map(rest).dom().insert(last.0@));
    }
}

proof fn lemma_without<V>(entries: Seq<(String, V)>, at: int)
    requires
        distinct_keys(entries),
        0 <= at < entries.len(),
    ensures
        distinct_keys(entries.remove(at)),
        entries_map(entries.remove(at)) == entries_map(entries).remove(entries[at].0@),
{
    let rest = entries.remove(at);
    assert forall|a: int, b: int|
        #![trigger rest[a], rest[b]]
        0 <= a < b < rest.len() implies rest[a].0@ != rest[b].0@ by {
        let x = if a < at { a } else { a + 1 };
        let y = if b < at { b } else { b + 1 };
        assert(entries[x].0@ != entries[y].0@);
    }
    lemma_entries_map(rest);
    lemma_entries_map(entries);
    let key = entries[at].0@;
    assert forall|k: Seq<char>|
        entries_map(rest).contains_key(k) <==> entries_map(entries).remove(key).contains_key(k) by {
        if entries_map(rest).contains_key(k) {
            let j = choose|j: int| 0 <= j < rest.len() && #[trigger] rest[j].0@ == k;
            let x = if j < at { j } else { j + 1 };
            assert(entries[x].0@ == k);
            assert(entries[x].0@ != entries[at].0@);
        }
        if entries_map(entries).contains_key(k) && k != key {
            let j = choose|j: int| 0 <= j < entries.len() && #[trigger] entries[j].0@ == k;
            let x = if j < at { j } else { j - 1 };
            assert(rest[x].0@ == k);
        }
    }
    assert forall|k: Seq<char>| entries_map(rest).contains_key(k) implies entries_map(rest)[k]
        == entries_map(entries).remove(key)[k] by {
        let j = choose|j: int| 0 <= j < rest.len() && #[trigger] rest[j].0@ == k;
        let x = if j < at { j } else { j + 1 };
        assert(entries[x] == rest[j]);
    }
    assert(entries_map(rest) =~= entries_map(entries).remove(key));
}

/// The entries of a map whose values satisfy a predicate.
pub open spec fn kept<V>(map: Map<Seq<char>, V>, keep: spec_fn(V) -> bool) -> Map<Seq<char>, V> {
    map.restrict(Set::new(|key: Seq<char>| map.contains_key(key) && keep(map[key])))
}

impl<V> TextMap<V> {
    /// The entries, by key.
    pub closed spec fn view(self) -> Map<Seq<char>, V> {
        entries_map(self.entries@)
    }

    #[verifier::type_invariant]
    spec fn keys_are_distinct(self) -> bool {
        distinct_keys(self.entries@)
    }

    /// A map without entries.
    pub fn new() -> (map: Self)
        ensures
            map@ == Map::<Seq<char>, V>::empty(),
    {
        TextMap { entries: Vec::new() }
    }

    /// The number of entries.
    pub fn len(&self) -> (n: usize)
        ensures
            n == self@.dom().len(),
            self@.dom().finite(),
    {
        proof {
            use_type_invariant(self);
            lemma_entries_map(self.entries@);
        }
        self.entries.len()
    }

    fn position(&self, key: &str) -> (found: Option<usize>)
        ensures
            match found {
                Some(i) => i < self.entries@.len() && self.entries@[i as int].0@ == key@
                    && self@.contains_key(key@) && self@[key@] == self.entries@[i as int].1,
                None => !self@.contains_key(key@),
            },
    {
        proof {
            use_type_invariant(self);
            lemma_entries_map(self.entries@);
        }
        let mut i: usize = 0;
        while i < self.entries.len()
            invariant
                i <= self.entries@.len(),
                forall|j: int| 0 <= j < i ==> (#[trigger] self.entries@[j]).0@ != key@,
                distinct_keys(self.entries@),
            decreases self.entries@.len() - i,
        {
            if same_text(self.entries[i].0.as_str(), key) {
                proof {
                    lemma_entries_map(self.entries@);
                }
                return Some(i);
            }
            i = i + 1;
        }
        proof {
            lemma_entries_map(self.entries@);
        }
        None
    }

    /// Whether there is an entry under the key.
    pub fn contains_key(&self, key: &str) -> (yes: bool)
        ensures
            yes == self@.contains_key(key@),
    {
        self.position(key).is_some()
    }

    /// The value under the key.
    pub fn get(&self, key: &str) -> (value: Option<&V>)
        ensures
            match value {
                Some(v) => self@.contains_key(key@) && *v == self@[key@],
                None => !self@.contains_key(key@),
            },
    {
        match self.position(key) {
            Some(i) => Some(&self.entries[i].1),
            None => None,
        }
    }

    /// Takes out the value under the key.
    pub fn remove(&mut self, key: &str) -> (value: Option<V>)
        ensures
            final(self)@ == old(self)@.remove(key@),
            match value {
                Some(v) => old(self)@.contains_key(key@) && v == old(self)@[key@],
                None => !old(self)@.contains_key(key@),
            },
    {
        proof {
            use_type_invariant(&*self);
        }
        let found = self.position(key);
        let mut entries: Vec<(String, V)> = Vec::new();
        std::mem::swap(&mut entries, &mut self.entries);
        let taken = match found {
            Some(i) => {
                proof {
                    lemma_without(entries@, i as int);
                }
                let (_, value) = entries.remove(i);
                Some(value)
            },
            None => {
                proof {
                    assert(entries_map(entries@).remove(key@) =~= entries_map(entries@));
                }
                None
            },
        };
        self.entries = entries;
        taken
    }

    /// Puts a value under the key, in place of one that may be there.
    pub fn insert(&mut self, key: String, value: V)
        ensures
            final(self)@ == old(self)@.insert(key@, value),
    {
        let _ = self.remove(key.as_str());
        proof {
            use_type_invariant(&*self);
            lemma_entries_map(self.entries@);
        }
        let mut entries: Vec<(String, V)> = Vec::new();
        std::mem::swap(&mut entries, &mut self.entries);
        let ghost before = entries@;
        entries.push((key, value));
        proof {
            assert(entries@.drop_last() =~= before);
            assert forall|a: int, b: int|
                #![trigger entries@[a], entries@[b]]
                0 <= a < b < entries@.len() implies entries@[a].0@ != entries@[b].0@ by {
                assert(before[a] == entries@[a]);
                assert(entries_map(before).contains_key(before[a].0@));
                if b < before.len() {
                    assert(before[b] == entries@[b]);
                }
            }
            assert(old(self)@.remove(key@).insert(key@, value) =~= old(self)@.insert(key@, value));
        }
        self.entries = entries;
    }

    /// Keeps the entries whose values satisfy the predicate.
    pub(crate) fn retain<F: Fn(&V) -> bool>(
        &mut self,
        keep: F,
        Ghost(wanted): Ghost<spec_fn(V) -> bool>,
    )
        requires
            forall|v: V| call_requires(keep, (&v,)),
            forall|v: V, yes: bool| call_ensures(keep, (&v,), yes) ==> yes == wanted(v),
        ensures
            final(self)@ == kept(old(self)@, wanted),
    {
        proof {
            use_type_invariant(&*self);
            lemma_entries_map(self.entries@);
        }
        let mut entries: Vec<(String, V)> = Vec::new();
        std::mem::swap(&mut entries, &mut self.entries);
        let ghost all = entries@;
        let mut i: usize = entries.len();
        while i > 0
            invariant
                i <= entries@.len(),
                distinct_keys(entries@),
                forall|v: V| call_requires(keep, (&v,)),
                forall|v: V, yes: bool| call_ensures(keep, (&v,), yes) ==> yes == wanted(v),
                forall|j: int|
                    #![trigger entries@[j]]
                    i <= j < entries@.len() ==> wanted(entries@[j].1),
                forall|key: Seq<char>| #[trigger]
                    entries_map(entries@).contains_key(key) ==> entries_map(all).contains_key(key)
                        && entries_map(entries@)[key] == entries_map(all)[key],
                forall|key: Seq<char>| #[trigger]
                    entries_map(all).contains_key(key) && wanted(entries_map(all)[key])
                        ==> entries_map(entries@).contains_key(key),
            decreases i,
        {
            i = i - 1;
            let stays = keep(&entries[i].1);
            if !stays {
                proof {
                    lemma_entries_map(entries@);
                    lemma_without(entries@, i as int);
                    let rest = entries@.remove(i as int);
                    assert forall|j: int|
                        #![trigger rest[j]]
                        i <= j < rest.len() implies wanted(rest[j].1) by {
                        assert(rest[j] == entries@[j + 1]);
                    }
                }
                let _ = entries.remove(i);
            }
        }
        proof {
            lemma_entries_map(entries@);
            assert(entries_map(entries@) =~= kept(entries_map(all), wanted)) by {
                assert forall|key: Seq<char>| entries_map(entries@).contains_key(key) implies wanted(
                    entries_map(all)[key],
                ) by {
                    let j = choose|j: int|
                        0 <= j < entries@.len() && #[trigger] entries@[j].0@ == key;
                    assert(wanted(entries@[j].1));
                }
            }
        }
        self.entries = entries;
    }
}

} // verus!
