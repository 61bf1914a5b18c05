//! A map keyed by name, kept as two parallel vectors.
//!
//! The library keys its stores by `String`. `NameMap` keeps the keys in the
//! order in which they were first inserted and never holds a name twice; its
//! view is the mathematical map from a name's characters to the value.

use vstd::prelude::*;
use crate::text::{name_list, str_eq};

verus! {

pub struct NameMap<V> {
    names: Vec<String>,
    values: Vec<V>,
}

impl<V> View for NameMap<V> {
    type V = Map<Seq<char>, V>;

    /// The map from each key to the value stored under it.
    closed spec fn view(&self) -> Map<Seq<char>, V> {
        Map::new(
            |k: Seq<char>| self.keys().contains(k),
            |k: Seq<char>| self.values@[self.keys().index_of(k)],
        )
    }
}

impl<V> NameMap<V> {
    /// The keys, in the order of their first insertion.
    pub closed spec fn keys(&self) -> Seq<Seq<char>> {
        Seq::new(self.names@.len(), |i: int| self.names@[i]@)
    }

    /// No key occurs twice, and every key has its value.
    pub closed spec fn wf(&self) -> bool {
        &&& self.names@.len() == self.values@.len()
        &&& self.keys().no_duplicates()
    }

    /// The keys are exactly the domain of the view, which is therefore finite.
    pub proof fn lemma_keys_are_domain(&self)
        requires
            self.wf(),
        ensures
            self.keys().no_duplicates(),
            self@.dom() == self.keys().to_set(),
            self@.dom().finite(),
            self@.dom().len() == self.keys().len(),
            forall|k: Seq<char>| self.keys().contains(k) <==> #[trigger] self@.contains_key(k),
    {
        assert(self@.dom() =~= self.keys().to_set());
        self.keys().unique_seq_to_set();
        vstd::seq_lib::seq_to_set_is_finite(self.keys());
    }

    pub fn new() -> (m: Self)
        ensures
            m.wf(),
            m@ == Map::<Seq<char>, V>::empty(),
            m.keys() == Seq::<Seq<char>>::empty(),
    {
        let m = NameMap { names: Vec::new(), values: Vec::new() };
        assert(m.keys() =~= Seq::<Seq<char>>::empty());
        assert(m@ =~= Map::<Seq<char>, V>::empty());
        m
    }

    pub fn len(&self) -> (n: usize)
        requires
            self.wf(),
        ensures
            n == self.keys().len(),
            n == self@.dom().len(),
    {
        proof {
            self.lemma_keys_are_domain();
        }
        self.names.len()
    }

    pub fn is_empty(&self) -> (empty: bool)
        requires
            self.wf(),
        ensures
            empty == (self.keys().len() == 0),
            empty == (self@ == Map::<Seq<char>, V>::empty()),
    {
        proof {
            self.lemma_keys_are_domain();
            if self.keys().len() == 0 {
                assert(self@ =~= Map::<Seq<char>, V>::empty());
            } else {
                assert(self.keys().contains(self.keys()[0]));
                assert(self@.contains_key(self.keys()[0]));
            }
        }
        self.names.len() == 0
    }

    /// The key at position `i` of the insertion order.
    pub fn name_at(&self, i: usize) -> (name: &String)
        requires
            self.wf(),
            i < self.keys().len(),
        ensures
            name@ == self.keys()[i as int],
            self@.contains_key(name@),
    {
        assert(self.keys().contains(self.keys()[i as int]));
        &self.names[i]
    }

    /// The value stored under the key at position `i`.
    pub fn value_at(&self, i: usize) -> (value: &V)
        requires
            self.wf(),
            i < self.keys().len(),
        ensures
            self@.contains_key(self.keys()[i as int]),
            *value == self@[self.keys()[i as int]],
    {
        proof {
            self.lemma_index_of(i as int);
        }
        &self.values[i]
    }

    proof fn lemma_index_of(&self, i: int)
        requires
            self.wf(),
            0 <= i < self.keys().len(),
        ensures
            self.keys().contains(self.keys()[i]),
            self.keys().index_of(self.keys()[i]) == i,
            self@.contains_key(self.keys()[i]),
            self@[self.keys()[i]] == self.values@[i],
    {
        let k = self.keys()[i];
        assert(self.keys().contains(k));
        let j = self.keys().index_of(k);
        assert(0 <= j < self.keys().len() && self.keys()[j] == k);
    }

    /// The keys, in the order of their first insertion.
    pub fn names(&self) -> (names: Vec<String>)
        requires
            self.wf(),
        ensures
            name_list(names@) == self.keys(),
            name_list(names@).no_duplicates(),
    {
        let names = self.names.clone();
        assert(name_list(names@) =~= self.keys()) by {
            assert(names@.len() == self.names@.len());
            assert forall|i: int| 0 <= i < names@.len() implies #[trigger] names@[i]@
                == self.names@[i]@ by {
                assert(cloned(self.names@[i], names@[i]));
            }
        }
        names
    }

    /// Where `name` stands in the insertion order, if it is a key.
    pub fn position(&self, name: &str) -> (at: Option<usize>)
        requires
            self.wf(),
        ensures
            match at {
                Some(i) => i < self.keys().len() && self.keys()[i as int] == name@,
                None => !self.keys().contains(name@),
            },
            at is Some <==> self@.contains_key(name@),
    {
        let mut i: usize = 0;
        while i < self.names.len()
            invariant
                i <= self.names@.len(),
                self.names@.len() == self.keys().len(),
                forall|j: int| 0 <= j < i ==> self.keys()[j] != name@,
            decreases self.names@.len() - i,
        {
            if str_eq(self.names[i].as_str(), name) {
                assert(self.keys()[i as int] == name@);
                assert(self.keys().contains(name@));
                return Some(i);
            }
            i += 1;
        }
        None
    }

    pub fn contains_key(&self, name: &str) -> (found: bool)
        requires
            self.wf(),
        ensures
            found == self@.contains_key(name@),
    {
        self.position(name).is_some()
    }

    pub fn get(&self, name: &str) -> (value: Option<&V>)
        requires
            self.wf(),
        ensures
            match value {
                Some(v) => self@.contains_key(name@) && *v == self@[name@],
                None => !self@.contains_key(name@),
            },
    {
        match self.position(name) {
            Some(i) => {
                proof {
                    self.lemma_index_of(i as int);
                }
                Some(&self.values[i])
            },
            None => None,
        }
    }

    /// Stores `value` under `name`, replacing what was stored there. A new
    /// key goes to the end of the insertion order.
    pub fn insert(&mut self, name: String, value: V)
        requires
            old(self).wf(),
        ensures
            final(self).wf(),
            final(self)@ == old(self)@.insert(name@, value),
            final(self).keys() == if old(self)@.contains_key(name@) {
                old(self).keys()
            } else {
                old(self).keys().push(name@)
            },
    {
        let ghost before = *self;
        match self.position(name.as_str()) {
            Some(i) => {
                self.values.set(i, value);
                proof {
                    assert(self.keys() =~= before.keys());
                    assert forall|k: Seq<char>| #[trigger] self@.contains_key(k) implies self@[k]
                        == before@.insert(name@, value)[k] by {
                        let j = self.keys().index_of(k);
                        before.lemma_index_of(j);
                    }
                    assert(self@ =~= before@.insert(name@, value));
                }
            },
            None => {
                self.names.push(name);
                self.values.push(value);
                proof {
                    assert(self.keys() =~= before.keys().push(name@));
                    assert forall|k: Seq<char>| #[trigger]
                        before@.insert(name@, value).contains_key(k) implies self@.contains_key(k)
                        && self@[k] == before@.insert(name@, value)[k] by {
                        if k == name@ {
                            assert(self.keys()[before.keys().len() as int] == k);
                            self.lemma_index_of(before.keys().len() as int);
                        } else {
                            let j = before.keys().index_of(k);
                            assert(self.keys()[j] == k);
                            self.lemma_index_of(j);
                        }
                    }
                    assert forall|k: Seq<char>| #[trigger] self@.contains_key(k) implies before@.insert(
                        name@,
                        value,
                    ).contains_key(k) by {
                        let j = self.keys().index_of(k);
                        if j < before.keys().len() {
                            assert(before.keys()[j] == k);
                        }
                    }
                    assert(self@ =~= before@.insert(name@, value));
                }
            },
        }
    }

    /// Takes `name` and its value out of the map. The other keys keep their
    /// order.
    pub fn remove(&mut self, name: &str) -> (taken: Option<V>)
        requires
            old(self).wf(),
        ensures
            final(self).wf(),
            final(self)@ == old(self)@.remove(name@),
            match taken {
                Some(v) => old(self)@.contains_key(name@) && v == old(self)@[name@],
                None => !old(self)@.contains_key(name@),
            },
            final(self).keys() == if old(self)@.contains_key(name@) {
                old(self).keys().remove(old(self).keys().index_of(name@))
            } else {
                old(self).keys()
            },
    {
        let ghost before = *self;
        match self.position(name) {
            Some(i) => {
                proof {
                    before.lemma_index_of(i as int);
                }
                self.names.remove(i);
                let v = self.values.remove(i);
                proof {
                    assert(self.keys() =~= before.keys().remove(i as int));
                    assert forall|a: int, b: int|
                        0 <= a < self.keys().len() && 0 <= b < self.keys().len() && a != b implies self.keys()[a]
                        != self.keys()[b] by {
                        let a0 = if a < i { a } else { a + 1 };
                        let b0 = if b < i { b } else { b + 1 };
                        assert(self.keys()[a] == before.keys()[a0]);
                        assert(self.keys()[b] == before.keys()[b0]);
                    }
                    assert forall|k: Seq<char>| #[trigger]
                        before@.remove(name@).contains_key(k) implies self@.contains_key(k)
                        && self@[k] == before@[k] by {
                        let j = before.keys().index_of(k);
                        before.lemma_index_of(j);
                        let j1 = if j < i { j } else { j - 1 };
                        assert(self.keys()[j1] == k);
                        self.lemma_index_of(j1);
                    }
                    assert forall|k: Seq<char>| #[trigger] self@.contains_key(k) implies before@.remove(
                        name@,
                    ).contains_key(k) by {
                        let j = self.keys().index_of(k);
                        let j0 = if j < i { j } else { j + 1 };
                        assert(before.keys()[j0] == k);
                    }
                    assert(self@ =~= before@.remove(name@));
                }
                Some(v)
            },
            None => {
                proof {
                    assert(self@ =~= before@.remove(name@));
                }
                None
            },
        }
    }
}

} // verus!
