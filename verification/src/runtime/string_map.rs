//! A small map from text to values, kept in insertion order.
//!
//! No key occurs twice. Lookups walk the entries, which suits the few
//! fields of an object and the names of loaded classes.

use crate::text::str_eq;
use vstd::prelude::*;

verus! {

/// A map keyed by text.
#[derive(Debug)]
pub struct StringMap<V> {
    entries: Vec<(String, V)>,
}

impl<V> View for StringMap<V> {
    type V = Map<Seq<char>, V>;

    closed spec fn view(&self) -> Map<Seq<char>, V> {
        Map::new(|key: Seq<char>| self.has(key), |key: Seq<char>| self.entries[self.index_of(key)].1)
    }
}

impl<V> StringMap<V> {
    spec fn has(&self, key: Seq<char>) -> bool {
        exists|i: int| 0 <= i < self.entries.len() && (#[trigger] self.entries[i]).0@ == key
    }

    spec fn index_of(&self, key: Seq<char>) -> int {
        choose|i: int| 0 <= i < self.entries.len() && (#[trigger] self.entries[i]).0@ == key
    }

    /// No key occurs twice.
    pub closed spec fn wf(&self) -> bool {
        forall|i: int, j: int|
            0 <= i < j < self.entries.len() ==> (#[trigger] self.entries[i]).0@ != (
            #[trigger] self.entries[j]).0@
    }

    /// The values of the map, in the order in which their keys came in.
    pub closed spec fn values(&self) -> Seq<V> {
        Seq::new(self.entries.len() as nat, |i: int| self.entries[i].1)
    }

    /// The keys of the map, in the order in which they came in.
    pub closed spec fn keys(&self) -> Seq<Seq<char>> {
        Seq::new(self.entries.len() as nat, |i: int| self.entries[i].0@)
    }

    /// Whether `keys` and `values` list, pair by pair and without repeating
    /// a key, what `map` holds.
    pub open spec fn lists(map: Map<Seq<char>, V>, keys: Seq<Seq<char>>, values: Seq<V>) -> bool {
        &&& keys.len() == values.len()
        &&& keys.no_duplicates()
        &&& forall|i: int| 0 <= i < keys.len() ==> map.contains_key(#[trigger] keys[i]) && map[keys[i]] == values[i]
        &&& forall|key: Seq<char>| #[trigger] map.contains_key(key) ==> keys.contains(key)
    }

    /// An empty map.
    pub fn new() -> (map: StringMap<V>)
        ensures
            map.wf(),
            map@ == Map::<Seq<char>, V>::empty(),
    {
        let map = StringMap { entries: Vec::new() };
        assert(map@ =~= Map::<Seq<char>, V>::empty());
        map
    }

    /// The number of keys.
    pub fn len(&self) -> (n: usize)
        requires
            self.wf(),
        ensures
            n == self.values().len(),
            n == self@.dom().len(),
            self@.dom().finite(),
            Self::lists(self@, self.keys(), self.values()),
    {
        proof {
            self.lemma_listed();
            self.keys().unique_seq_to_set();
            assert(self.keys().to_set() =~= self@.dom()) by {
                assert forall|key: Seq<char>| self@.dom().contains(key) implies self.keys().to_set().contains(key) by {
                    assert(self@.contains_key(key));
                }
            }
        }
        self.entries.len()
    }

    proof fn lemma_listed(&self)
        requires
            self.wf(),
        ensures
            Self::lists(self@, self.keys(), self.values()),
    {
        assert forall|i: int| 0 <= i < self.keys().len() implies self@.contains_key(
            #[trigger] self.keys()[i],
        ) && self@[self.keys()[i]] == self.values()[i] by {
            let key = self.entries[i].0@;
            assert(self.has(key));
            assert(self.index_of(key) == i);
        }
        assert forall|key: Seq<char>| #[trigger] self@.contains_key(key) implies self.keys().contains(
            key,
        ) by {
            let i = self.index_of(key);
            assert(self.keys()[i] == key);
        }
    }

    /// The key at position `i` of `keys`.
    pub fn key_at(&self, i: usize) -> (key: &str)
        requires
            self.wf(),
            i < self.keys().len(),
        ensures
            key@ == self.keys()[i as int],
    {
        self.entries[i].0.as_str()
    }

    /// The value at position `i` of `values`.
    pub fn value_at(&self, i: usize) -> (value: &V)
        requires
            self.wf(),
            i < self.values().len(),
        ensures
            *value == self.values()[i as int],
    {
        &self.entries[i].1
    }

    fn position(&self, key: &str) -> (r: Option<usize>)
        ensures
            match r {
                Some(i) => i < self.entries.len() && self.entries[i as int].0@ == key@,
                None => !self.has(key@),
            },
    {
        let mut i: usize = 0;
        while i < self.entries.len()
            invariant
                i <= self.entries.len(),
                forall|j: int| 0 <= j < i ==> (#[trigger] self.entries[j]).0@ != key@,
            decreases self.entries.len() - i,
        {
            if str_eq(self.entries[i].0.as_str(), key) {
                return Some(i);
            }
            i += 1;
        }
        None
    }

    /// The value under `key`, if the map has that key.
    pub fn get(&self, key: &str) -> (r: Option<&V>)
        requires
            self.wf(),
        ensures
            match r {
                Some(value) => self@.contains_key(key@) && *value == self@[key@],
                None => !self@.contains_key(key@),
            },
    {
        match self.position(key) {
            Some(i) => {
                assert(self.has(key@));
                assert(self.index_of(key@) == i);
                Some(&self.entries[i].1)
            },
            None => None,
        }
    }

    /// Whether the map has `key`.
    pub fn contains_key(&self, key: &str) -> (b: bool)
        requires
            self.wf(),
        ensures
            b == self@.contains_key(key@),
    {
        self.get(key).is_some()
    }

    /// Puts `value` under `key`, in place of what was there. A key that is
    /// new goes behind the others; a key that was there keeps its place.
    pub fn insert(&mut self, key: String, value: V)
        requires
            old(self).wf(),
        ensures
            final(self).wf(),
            final(self)@ == old(self)@.insert(key@, value),
            !old(self)@.contains_key(key@) ==> final(self).keys() == old(self).keys().push(key@)
                && final(self).values() == old(self).values().push(value),
            old(self)@.contains_key(key@) ==> final(self).keys() == old(self).keys()
                && final(self).values() == old(self).values().update(
                old(self).keys().index_of(key@),
                value,
            ),
    {
        let ghost before = *self;
        match self.position(key.as_str()) {
            Some(i) => {
                assert(before.has(key@));
                self.entries.set(i, (key, value));
                proof {
                    assert(self.keys() =~= before.keys());
                    assert(before.keys()[i as int] == key@);
                    let at = before.keys().index_of(key@);
                    assert(before.keys().contains(key@));
                    assert(before.keys()[at] == key@);
                    assert(before.entries[at].0@ == key@);
                    assert(at == i);
                    assert(self.values() =~= before.values().update(at, value));
                    assert forall|k: Seq<char>| self.has(k) == before.has(k) by {
                        if before.has(k) {
                            let j = before.index_of(k);
                            assert(self.entries[j].0@ == k);
                        }
                        if self.has(k) {
                            let j = self.index_of(k);
                            assert(before.entries[j].0@ == k);
                        }
                    }
                    assert forall|k: Seq<char>| self.has(k) implies self.entries[self.index_of(k)].1
                        == before@.insert(key@, value)[k] by {
                        let j = self.index_of(k);
                        assert(before.entries[j].0@ == k);
                        assert(before.index_of(k) == j);
                    }
                    assert(self@ =~= before@.insert(key@, value));
                }
            },
            None => {
                self.entries.push((key, value));
                proof {
                    assert(self.keys() =~= before.keys().push(key@));
                    assert(self.values() =~= before.values().push(value));
                    let n = before.entries.len() as int;
                    assert(self.entries[n].0@ == key@);
                    assert forall|k: Seq<char>| self.has(k) == (before.has(k) || k == key@) by {
                        if before.has(k) {
                            let j = before.index_of(k);
                            assert(self.entries[j].0@ == k);
                        }
                        if self.has(k) {
                            let j = self.index_of(k);
                            if j < n {
                                assert(before.entries[j].0@ == k);
                            }
                        }
                    }
                    assert forall|k: Seq<char>| self.has(k) implies self.entries[self.index_of(k)].1
                        == before@.insert(key@, value)[k] by {
                        let j = self.index_of(k);
                        if j < n {
                            assert(before.entries[j].0@ == k);
                            assert(before.index_of(k) == j);
                        }
                    }
                    assert(self@ =~= before@.insert(key@, value));
                }
            },
        }
    }
}

} // verus!
