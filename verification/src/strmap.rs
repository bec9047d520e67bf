//! A map keyed by strings that keeps its entries in insertion order.
use vstd::prelude::*;

use crate::graph::distinct;
use crate::text::str_eq;

verus! {

/// Entries keyed by distinct strings, in the order in which their keys were
/// first inserted.
#[derive(Debug)]
pub struct StrMap<V> {
    keys: Vec<String>,
    vals: Vec<V>,
}

impl<V> StrMap<V> {
    pub closed spec fn spec_keys(&self) -> Seq<Seq<char>> {
        self.keys@.map_values(|s: String| s@)
    }

    pub closed spec fn spec_vals(&self) -> Seq<V> {
        self.vals@
    }

    pub closed spec fn wf(&self) -> bool {
        &&& self.keys.len() == self.vals.len()
        &&& distinct(self.spec_keys())
    }

    /// The entries as a map from key to value.
    pub open spec fn spec_map(&self) -> Map<Seq<char>, V> {
        Map::new(
            |k: Seq<char>| self.spec_keys().contains(k),
            |k: Seq<char>| self.spec_vals()[self.spec_keys().index_of(k)],
        )
    }

    pub proof fn lemma_wf_len(&self)
        requires
            self.wf(),
        ensures
            self.spec_keys().len() == self.spec_vals().len(),
            distinct(self.spec_keys()),
            forall|i: int| 0 <= i < self.spec_keys().len() ==> self.spec_keys().index_of(#[trigger] self.spec_keys()[i]) == i,
    {
        assert forall|i: int| 0 <= i < self.spec_keys().len() implies self.spec_keys().index_of(#[trigger] self.spec_keys()[i]) == i by {
            let k = self.spec_keys()[i];
            assert(self.spec_keys().contains(k));
            let j = self.spec_keys().index_of(k);
            assert(self.spec_keys()[j] == k);
        }
    }

    pub fn new() -> (m: StrMap<V>)
        ensures
            m.wf(),
            m.spec_keys() == Seq::<Seq<char>>::empty(),
            m.spec_map() == Map::<Seq<char>, V>::empty(),
    {
        let m = StrMap { keys: Vec::new(), vals: Vec::new() };
        assert(m.spec_map() =~= Map::<Seq<char>, V>::empty());
        m
    }

    pub fn len(&self) -> (r: usize)
        requires
            self.wf(),
        ensures
            r == self.spec_keys().len(),
            r == self.spec_map().len(),
    {
        proof {
            self.lemma_map_len();
        }
        self.keys.len()
    }

    pub proof fn lemma_map_len(&self)
        requires
            self.wf(),
        ensures
            self.spec_map().dom() == self.spec_keys().to_set(),
            self.spec_map().dom().finite(),
            self.spec_map().len() == self.spec_keys().len(),
    {
        assert(self.spec_map().dom() =~= self.spec_keys().to_set());
        self.spec_keys().unique_seq_to_set();
    }

    /// The position of `key` among the keys, if present.
    pub fn position(&self, key: &str) -> (r: Option<usize>)
        requires
            self.wf(),
        ensures
            r matches Some(i) ==> i < self.spec_keys().len() && self.spec_keys()[i as int] == key@,
            r is None ==> !self.spec_keys().contains(key@),
    {
        let mut i: usize = 0;
        while i < self.keys.len()
            invariant
                i <= self.keys.len(),
                forall|j: int| 0 <= j < i ==> self.keys@[j]@ != key@,
            decreases self.keys.len() - i,
        {
            if str_eq(self.keys[i].as_str(), key) {
                return Some(i);
            }
            i += 1;
        }
        proof {
            if self.spec_keys().contains(key@) {
                let j = choose|j: int| 0 <= j < self.spec_keys().len() && self.spec_keys()[j] == key@;
                assert(self.keys@[j]@ == key@);
            }
        }
        None
    }

    pub fn contains_key(&self, key: &str) -> (r: bool)
        requires
            self.wf(),
        ensures
            r == self.spec_map().dom().contains(key@),
    {
        self.position(key).is_some()
    }

    pub fn get(&self, key: &str) -> (r: Option<&V>)
        requires
            self.wf(),
        ensures
            r matches Some(v) ==> self.spec_map().dom().contains(key@) && *v == self.spec_map()[key@],
            r is None ==> !self.spec_map().dom().contains(key@),
    {
        match self.position(key) {
            Some(i) => {
                proof {
                    self.lemma_wf_len();
                }
                Some(&self.vals[i])
            },
            None => None,
        }
    }

    /// The key at position `i`.
    pub fn key_at(&self, i: usize) -> (r: &String)
        requires
            self.wf(),
            i < self.spec_keys().len(),
        ensures
            r@ == self.spec_keys()[i as int],
    {
        &self.keys[i]
    }

    /// The value at position `i`.
    pub fn value_at(&self, i: usize) -> (r: &V)
        requires
            self.wf(),
            i < self.spec_keys().len(),
        ensures
            *r == self.spec_vals()[i as int],
            *r == self.spec_map()[self.spec_keys()[i as int]],
    {
        proof {
            self.lemma_wf_len();
        }
        &self.vals[i]
    }

    /// Sets the value of `key`, replacing the one it had; a new key goes last.
    pub fn insert(&mut self, key: String, val: V)
        requires
            old(self).wf(),
        ensures
            final(self).wf(),
            final(self).spec_map() == old(self).spec_map().insert(key@, val),
            old(self).spec_keys().contains(key@) ==> final(self).spec_keys() == old(self).spec_keys(),
            !old(self).spec_keys().contains(key@) ==> final(self).spec_keys() == old(self).spec_keys().push(key@),
    {
        proof {
            old(self).lemma_wf_len();
        }
        match self.position(key.as_str()) {
            Some(i) => {
                self.vals.set(i, val);
                proof {
                    assert(self.spec_keys() =~= old(self).spec_keys());
                    self.lemma_wf_len();
                    assert(self.spec_map() =~= old(self).spec_map().insert(key@, val));
                }
            },
            None => {
                let ghost k = key@;
                self.keys.push(key);
                self.vals.push(val);
                proof {
                    let ks = self.spec_keys();
                    assert(ks =~= old(self).spec_keys().push(k));
                    assert forall|a: int, b: int| 0 <= a < ks.len() && 0 <= b < ks.len() && a != b implies ks[a] != ks[b] by {
                        if a == ks.len() - 1 {
                            assert(old(self).spec_keys().contains(ks[b]) || b == a);
                        } else if b == ks.len() - 1 {
                            assert(old(self).spec_keys().contains(ks[a]));
                        }
                    }
                    self.lemma_wf_len();
                    assert forall|x: Seq<char>| #[trigger] self.spec_map().dom().contains(x) implies self.spec_map()[x]
                        == old(self).spec_map().insert(k, val)[x] by {
                        if x != k {
                            let j = old(self).spec_keys().index_of(x);
                            assert(ks[j] == x);
                            assert(ks.index_of(x) == j);
                        } else {
                            assert(ks[ks.len() - 1] == k);
                        }
                    }
                    assert forall|x: Seq<char>| ks.contains(x) <==> (old(self).spec_keys().contains(x) || x == k) by {
                        if ks.contains(x) {
                            let j = choose|j: int| 0 <= j < ks.len() && ks[j] == x;
                            if j < ks.len() - 1 {
                                assert(old(self).spec_keys()[j] == x);
                            }
                        }
                        if old(self).spec_keys().contains(x) {
                            let j = choose|j: int| 0 <= j < old(self).spec_keys().len() && old(self).spec_keys()[j] == x;
                            assert(ks[j] == x);
                        }
                        if x == k {
                            assert(ks[ks.len() - 1] == k);
                        }
                    }
                    assert(self.spec_map().dom() =~= old(self).spec_map().insert(k, val).dom());
                    assert(self.spec_map() =~= old(self).spec_map().insert(k, val));
                }
            },
        }
    }
}

} // verus!
