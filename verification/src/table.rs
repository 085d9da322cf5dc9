//! A map from URL to a value, kept in the order in which the keys arrived.
//! It stands for one hash of the telemetry store and for one snapshot of it.
//!
//! The keys are strings, and that is why this is no `std::collections::HashMap`:
//! vstd gives a hash map's operations a meaning only for a key type that it
//! knows to hash by its value alone (the integers, `bool`, a `Box` of those),
//! and `String` is none of them, so a lookup under a string key would come
//! with nothing to prove from. A hash map is also walked in an order that
//! differs from process to process, while a snapshot is read in one order
//! here, so that what a run does depends on its inputs alone.

use crate::sequence::{lemma_take_all, lemma_take_next};
use crate::text::str_eq;
use vstd::prelude::*;

verus! {

/// A finite map keyed by string. No key occurs twice.
#[derive(Debug)]
pub struct Table<V> {
    entries: Vec<(String, V)>,
}

impl<V> View for Table<V> {
    type V = Map<Seq<char>, V>;

    /// The map that the table holds.
    closed spec fn view(&self) -> Map<Seq<char>, V> {
        Map::new(
            |k: Seq<char>| exists|i: int| 0 <= i < self.entries@.len() && self.entries@[i].0@ == k,
            |k: Seq<char>|
                self.entries@[choose|i: int|
                    0 <= i < self.entries@.len() && self.entries@[i].0@ == k].1,
        )
    }
}

impl<V> Table<V> {
    #[verifier::type_invariant]
    spec fn distinct(&self) -> bool {
        forall|i: int, j: int|
            0 <= i < j < self.entries@.len() ==> self.entries@[i].0@ != self.entries@[j].0@
    }

    /// The keys in the order in which they arrived.
    pub closed spec fn keys(&self) -> Seq<Seq<char>> {
        Seq::new(self.entries@.len(), |i: int| self.entries@[i].0@)
    }

    /// The keys are listed once each, and they are the keys of the map.
    pub open spec fn listed(&self) -> bool {
        &&& self.keys().no_duplicates()
        &&& forall|i: int| 0 <= i < self.keys().len() ==> self@.contains_key(#[trigger] self.keys()[i])
        &&& forall|k: Seq<char>|
            #![trigger self@.contains_key(k)]
            #![trigger self.keys().contains(k)]
            self@.contains_key(k) <==> self.keys().contains(k)
    }

    proof fn lemma_listed(&self)
        requires
            self.distinct(),
        ensures
            self.listed(),
            forall|i: int|
                0 <= i < self.entries@.len() ==> self@[#[trigger] self.entries@[i].0@]
                    == self.entries@[i].1,
    {
        assert forall|k: Seq<char>| self@.contains_key(k) <==> self.keys().contains(k) by {
            if self@.contains_key(k) {
                let i = choose|i: int| 0 <= i < self.entries@.len() && self.entries@[i].0@ == k;
                assert(self.keys()[i] == k);
            }
            if self.keys().contains(k) {
                let i = choose|i: int| 0 <= i < self.keys().len() && self.keys()[i] == k;
                assert(self.entries@[i].0@ == k);
            }
        }
    }

    /// An empty table.
    pub fn new() -> (t: Self)
        ensures
            t@ == Map::<Seq<char>, V>::empty(),
            t.keys() == Seq::<Seq<char>>::empty(),
    {
        let t = Table { entries: Vec::new() };
        assert(t@ =~= Map::<Seq<char>, V>::empty());
        assert(t.keys() =~= Seq::<Seq<char>>::empty());
        t
    }

    /// How many keys the table holds.
    pub fn len(&self) -> (n: usize)
        ensures
            n == self.keys().len(),
            self.listed(),
    {
        proof {
            use_type_invariant(self);
            self.lemma_listed();
        }
        self.entries.len()
    }

    /// The key at place `i`.
    pub fn key_at(&self, i: usize) -> (k: &String)
        requires
            i < self.keys().len(),
        ensures
            k@ == self.keys()[i as int],
            self@.contains_key(k@),
            self.listed(),
    {
        proof {
            use_type_invariant(self);
            self.lemma_listed();
        }
        &self.entries[i].0
    }

    /// The value under the key at place `i`.
    pub fn value_at(&self, i: usize) -> (v: &V)
        requires
            i < self.keys().len(),
        ensures
            *v == self@[self.keys()[i as int]],
            self.listed(),
    {
        proof {
            use_type_invariant(self);
            self.lemma_listed();
        }
        &self.entries[i].1
    }

    /// The place of `key`, if the table holds it.
    pub fn position(&self, key: &str) -> (r: Option<usize>)
        ensures
            self.listed(),
            match r {
                Some(i) => i < self.keys().len() && self.keys()[i as int] == key@,
                None => !self@.contains_key(key@),
            },
    {
        proof {
            use_type_invariant(self);
            self.lemma_listed();
        }
        let mut i: usize = 0;
        while i < self.entries.len()
            invariant
                i <= self.entries@.len(),
                self.listed(),
                forall|j: int| 0 <= j < i ==> self.entries@[j].0@ != key@,
            decreases self.entries@.len() - i,
        {
            if str_eq(self.entries[i].0.as_str(), key) {
                return Some(i);
            }
            i += 1;
        }
        None
    }

    /// Whether the table holds `key`.
    pub fn contains_key(&self, key: &str) -> (r: bool)
        ensures
            r == self@.contains_key(key@),
    {
        let at = self.position(key);
        proof {
            if let Some(i) = at {
                assert(self@.contains_key(self.keys()[i as int]));
            }
        }
        at.is_some()
    }

    /// The value under `key`, if the table holds it.
    pub fn get(&self, key: &str) -> (r: Option<&V>)
        ensures
            match r {
                Some(v) => self@.contains_key(key@) && *v == self@[key@],
                None => !self@.contains_key(key@),
            },
    {
        match self.position(key) {
            Some(i) => {
                proof {
                    assert(self@.contains_key(self.keys()[i as int]));
                }
                Some(self.value_at(i))
            },
            None => None,
        }
    }

    /// Puts `value` under `key`. A key that the table held keeps its place; a
    /// new key goes to the end.
    pub fn insert(&mut self, key: String, value: V)
        ensures
            final(self)@ == old(self)@.insert(key@, value),
            final(self).keys() == if old(self)@.contains_key(key@) {
                old(self).keys()
            } else {
                old(self).keys().push(key@)
            },
    {
        proof {
            use_type_invariant(&*self);
            self.lemma_listed();
        }
        let at = self.position(key.as_str());
        let ghost before = *self;
        match at {
            Some(i) => {
                let mut entries: Vec<(String, V)> = Vec::new();
                core::mem::swap(&mut self.entries, &mut entries);
                entries.set(i, (key, value));
                self.entries = entries;
                proof {
                    self.lemma_listed();
                    assert(self.keys() =~= before.keys());
                    assert(self@ =~= before@.insert(key@, value)) by {
                        assert forall|k: Seq<char>| #[trigger]
                            before@.insert(key@, value).contains_key(k) implies self@.contains_key(
                            k,
                        ) by {
                            if k != key@ {
                                let j = choose|j: int|
                                    0 <= j < before.entries@.len() && before.entries@[j].0@ == k;
                                assert(self.entries@[j].0@ == k);
                            } else {
                                assert(self.entries@[i as int].0@ == k);
                            }
                        }
                        assert forall|k: Seq<char>| #[trigger]
                            self@.contains_key(k) implies before@.insert(key@, value)[k]
                            == self@[k] by {
                            let j = choose|j: int|
                                0 <= j < self.entries@.len() && self.entries@[j].0@ == k;
                            if j != i {
                                assert(before.entries@[j].0@ == k);
                                assert(before@[before.entries@[j].0@] == before.entries@[j].1);
                            }
                            assert(self@[self.entries@[j].0@] == self.entries@[j].1);
                        }
                    }
                }
            },
            None => {
                let mut entries: Vec<(String, V)> = Vec::new();
                core::mem::swap(&mut self.entries, &mut entries);
                entries.push((key, value));
                proof {
                    let n = before.entries@.len() as int;
                    assert forall|a: int, b: int|
                        0 <= a < b < entries@.len() implies entries@[a].0@ != entries@[b].0@ by {
                        if b == n {
                            assert(before.keys()[a] == before.entries@[a].0@);
                            assert(before@.contains_key(before.keys()[a]));
                        }
                    }
                }
                self.entries = entries;
                proof {
                    let n = before.entries@.len() as int;
                    self.lemma_listed();
                    assert(self.keys() =~= before.keys().push(key@));
                    assert(self@ =~= before@.insert(key@, value)) by {
                        assert forall|k: Seq<char>| #[trigger]
                            before@.insert(key@, value).contains_key(k) implies self@.contains_key(
                            k,
                        ) by {
                            if k != key@ {
                                let j = choose|j: int|
                                    0 <= j < before.entries@.len() && before.entries@[j].0@ == k;
                                assert(self.entries@[j].0@ == k);
                            } else {
                                assert(self.entries@[n].0@ == k);
                            }
                        }
                        assert forall|k: Seq<char>| #[trigger]
                            self@.contains_key(k) implies before@.insert(key@, value)[k]
                            == self@[k] by {
                            let j = choose|j: int|
                                0 <= j < self.entries@.len() && self.entries@[j].0@ == k;
                            if j != n {
                                assert(before.entries@[j].0@ == k);
                                assert(before@[before.entries@[j].0@] == before.entries@[j].1);
                            }
                            assert(self@[self.entries@[j].0@] == self.entries@[j].1);
                        }
                    }
                }
            },
        }
    }

    /// Takes `key` and its value out of the table.
    pub fn remove(&mut self, key: &str) -> (r: Option<V>)
        ensures
            final(self)@ == old(self)@.remove(key@),
            match r {
                Some(v) => old(self)@.contains_key(key@) && v == old(self)@[key@],
                None => !old(self)@.contains_key(key@),
            },
    {
        proof {
            use_type_invariant(&*self);
            self.lemma_listed();
        }
        let at = self.position(key);
        let ghost before = *self;
        match at {
            Some(i) => {
                let mut entries: Vec<(String, V)> = Vec::new();
                core::mem::swap(&mut self.entries, &mut entries);
                let gone = entries.remove(i);
                proof {
                    assert forall|a: int, b: int|
                        0 <= a < b < entries@.len() implies entries@[a].0@ != entries@[b].0@ by {
                        let a0 = if a < i { a } else { a + 1 };
                        let b0 = if b < i { b } else { b + 1 };
                        assert(entries@[a] == before.entries@[a0]);
                        assert(entries@[b] == before.entries@[b0]);
                    }
                }
                self.entries = entries;
                proof {
                    assert(before.keys()[i as int] == before.entries@[i as int].0@);
                    self.lemma_listed();
                    assert(self@ =~= before@.remove(key@)) by {
                        assert forall|k: Seq<char>| #[trigger]
                            before@.remove(key@).contains_key(k) implies self@.contains_key(
                            k,
                        ) by {
                            let j = choose|j: int|
                                0 <= j < before.entries@.len() && before.entries@[j].0@ == k;
                            let j1 = if j < i { j } else { j - 1 };
                            assert(self.entries@[j1] == before.entries@[j]);
                        }
                        assert forall|k: Seq<char>| #[trigger]
                            self@.contains_key(k) implies before@.remove(key@).contains_key(k)
                            && before@.remove(key@)[k] == self@[k] by {
                            let j = choose|j: int|
                                0 <= j < self.entries@.len() && self.entries@[j].0@ == k;
                            let j0 = if j < i { j } else { j + 1 };
                            assert(self.entries@[j] == before.entries@[j0]);
                            assert(before@[before.entries@[j0].0@] == before.entries@[j0].1);
                            assert(self@[self.entries@[j].0@] == self.entries@[j].1);
                        }
                    }
                    assert(before@[before.entries@[i as int].0@] == before.entries@[i as int].1);
                }
                Some(gone.1)
            },
            None => {
                assert(self@ =~= before@.remove(key@));
                None
            },
        }
    }
}

impl<V: Copy> Table<V> {
    /// A copy of the table.
    pub fn snapshot(&self) -> (copy: Self)
        ensures
            copy@ == self@,
            copy.keys() == self.keys(),
    {
        let n = self.len();
        let mut copy: Table<V> = Table::new();
        let mut i: usize = 0;
        while i < n
            invariant
                i <= n,
                n == self.keys().len(),
                self.listed(),
                copy.keys() == self.keys().take(i as int),
                forall|k: Seq<char>|
                    copy@.contains_key(k) <==> self.keys().take(i as int).contains(k),
                forall|k: Seq<char>| #[trigger] copy@.contains_key(k) ==> copy@[k] == self@[k],
            decreases n - i,
        {
            let ghost before = copy@;
            let key = self.key_at(i).clone();
            let value = *self.value_at(i);
            proof {
                if before.contains_key(key@) {
                    let earlier = self.keys().take(i as int);
                    let j = choose|j: int| 0 <= j < earlier.len() && earlier[j] == key@;
                    assert(self.keys()[j] == self.keys()[i as int]);
                }
            }
            copy.insert(key, value);
            proof {
                lemma_take_next(self.keys(), i as int);
            }
            i += 1;
        }
        proof {
            lemma_take_all(self.keys());
            assert(copy@ =~= self@);
        }
        copy
    }
}

} // verus!
