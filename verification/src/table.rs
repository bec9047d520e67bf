//! Tables of named entries, looked up through a `hashbrown` hash map.
use vstd::prelude::*;

use crate::graph::distinct;

verus! {

/// A `hashbrown::HashMap` from names to slot numbers.
#[verifier::external_body]
#[derive(Debug)]
pub struct NameSlots {
    map: hashbrown::HashMap<String, usize>,
}

/// The entries of a [`NameSlots`] map, names taken by their characters.
pub uninterp spec fn name_slots(m: NameSlots) -> Map<Seq<char>, usize>;

/// `hashbrown::HashMap::new`: an empty map.
#[verifier::external_body]
fn slots_new() -> (r: NameSlots)
    ensures
        name_slots(r).dom() == Set::<Seq<char>>::empty(),
{
    NameSlots { map: hashbrown::HashMap::new() }
}

/// `hashbrown::HashMap::insert`: afterwards `key` maps to `slot`, and every
/// other key keeps its entry.
#[verifier::external_body]
fn slots_insert(m: &mut NameSlots, key: String, slot: usize)
    ensures
        name_slots(*final(m)) == name_slots(*old(m)).insert(key@, slot),
{
    m.map.insert(key, slot);
}

/// `hashbrown::HashMap::get` with a `&str` key: the slot of `key`, if the
/// map holds one. Strings are looked up by their characters (`String`'s `Eq`
/// and `Hash` agree with those of `str`).
#[verifier::external_body]
fn slots_get(m: &NameSlots, key: &str) -> (r: Option<usize>)
    ensures
        r == (if name_slots(*m).dom().contains(key@) { Some(name_slots(*m)[key@]) } else { None }),
{
    m.map.get(key).copied()
}

/// Entries keyed by distinct names, kept in the order their names were first
/// inserted; names are found through a hash map from name to position.
#[derive(Debug)]
pub struct NameTable<V> {
    keys: Vec<String>,
    vals: Vec<V>,
    slots: NameSlots,
}

impl<V> NameTable<V> {
    pub closed spec fn spec_keys(&self) -> Seq<Seq<char>> {
        self.keys@.map_values(|s: String| s@)
    }

    pub closed spec fn spec_vals(&self) -> Seq<V> {
        self.vals@
    }

    pub closed spec fn wf(&self) -> bool {
        &&& self.keys.len() == self.vals.len()
        &&& distinct(self.spec_keys())
        &&& forall|k: Seq<char>| name_slots(self.slots).dom().contains(k) <==> #[trigger] self.spec_keys().contains(k)
        &&& forall|i: int| 0 <= i < self.keys.len() ==> name_slots(self.slots)[#[trigger] self.spec_keys()[i]] == i
    }

    /// The entries as a map from name to value.
    pub open spec fn spec_map(&self) -> Map<Seq<char>, V> {
        Map::new(
            |k: Seq<char>| self.spec_keys().contains(k),
            |k: Seq<char>| self.spec_vals()[self.spec_keys().index_of(k)],
        )
    }

    pub proof fn lemma_wf(&self)
        requires
            self.wf(),
        ensures
            self.spec_keys().len() == self.spec_vals().len(),
            distinct(self.spec_keys()),
            forall|i: int| 0 <= i < self.spec_keys().len() ==> self.spec_keys().index_of(#[trigger] self.spec_keys()[i]) == i,
            forall|i: int| 0 <= i < self.spec_keys().len() ==> self.spec_map()[#[trigger] self.spec_keys()[i]] == self.spec_vals()[i],
            self.spec_map().dom() == self.spec_keys().to_set(),
            self.spec_map().dom().finite(),
            self.spec_map().len() == self.spec_keys().len(),
    {
        assert forall|i: int| 0 <= i < self.spec_keys().len() implies self.spec_keys().index_of(#[trigger] self.spec_keys()[i]) == i by {
            let k = self.spec_keys()[i];
            assert(self.spec_keys().contains(k));
            let j = self.spec_keys().index_of(k);
            assert(self.spec_keys()[j] == k);
        }
        assert(self.spec_map().dom() =~= self.spec_keys().to_set());
        self.spec_keys().unique_seq_to_set();
    }

    pub fn new() -> (t: NameTable<V>)
        ensures
            t.wf(),
            t.spec_keys() == Seq::<Seq<char>>::empty(),
            t.spec_map() == Map::<Seq<char>, V>::empty(),
    {
        let t = NameTable { keys: Vec::new(), vals: Vec::new(), slots: slots_new() };
        assert(t.spec_map() =~= Map::<Seq<char>, V>::empty());
        t
    }

    pub fn len(&self) -> (r: usize)
        requires
            self.wf(),
        ensures
            r == self.spec_keys().len(),
            r == self.spec_map().len(),
    {
        proof {
            self.lemma_wf();
        }
        self.keys.len()
    }

    /// The position of `key`, if the table holds it.
    pub fn position(&self, key: &str) -> (r: Option<usize>)
        requires
            self.wf(),
        ensures
            r matches Some(i) ==> i < self.spec_keys().len() && self.spec_keys()[i as int] == key@,
            r is None ==> !self.spec_keys().contains(key@),
    {
        let r = slots_get(&self.slots, key);
        proof {
            if let Some(i) = r {
                let j = self.spec_keys().index_of(key@);
                assert(self.spec_keys().contains(key@));
                assert(self.spec_keys()[j] == key@);
                assert(name_slots(self.slots)[self.spec_keys()[j]] == j);
            }
        }
        r
    }

    pub fn contains_key(&self, key: &str) -> (r: bool)
        requires
            self.wf(),
        ensures
            r == self.spec_map().dom().contains(key@),
    {
        self.position(key).is_some()
    }

    pub fn get(&self, key: &str) -> (r: Option<&V>)
        requires
            self.wf(),
        ensures
            r matches Some(v) ==> self.spec_map().dom().contains(key@) && *v == self.spec_map()[key@],
            r is None ==> !self.spec_map().dom().contains(key@),
    {
        match self.position(key) {
            Some(i) => {
                proof {
                    self.lemma_wf();
                }
                Some(&self.vals[i])
            },
            None => None,
        }
    }

    pub fn key_at(&self, i: usize) -> (r: &String)
        requires
            self.wf(),
            i < self.spec_keys().len(),
        ensures
            r@ == self.spec_keys()[i as int],
    {
        &self.keys[i]
    }

    pub fn value_at(&self, i: usize) -> (r: &V)
        requires
            self.wf(),
            i < self.spec_keys().len(),
        ensures
            *r == self.spec_vals()[i as int],
            *r == self.spec_map()[self.spec_keys()[i as int]],
    {
        proof {
            self.lemma_wf();
        }
        &self.vals[i]
    }

    /// Sets the value of `key`, replacing the one it had; a new key goes last.
    pub fn insert(&mut self, key: String, val: V)
        requires
            old(self).wf(),
        ensures
            final(self).wf(),
            final(self).spec_map() == old(self).spec_map().insert(key@, val),
            old(self).spec_keys().contains(key@) ==> final(self).spec_keys() == old(self).spec_keys(),
            !old(self).spec_keys().contains(key@) ==> final(self).spec_keys() == old(self).spec_keys().push(key@),
    {
        proof {
            old(self).lemma_wf();
        }
        match self.position(key.as_str()) {
            Some(i) => {
                self.vals.set(i, val);
                proof {
                    assert(self.spec_keys() =~= old(self).spec_keys());
                    self.lemma_wf();
                    assert(self.spec_map() =~= old(self).spec_map().insert(key@, val));
                }
            },
            None => {
                let ghost k = key@;
                let i = self.keys.len();
                let kc = key.clone();
                slots_insert(&mut self.slots, kc, i);
                self.keys.push(key);
                self.vals.push(val);
                proof {
                    let ks = self.spec_keys();
                    let oks = old(self).spec_keys();
                    assert(ks =~= oks.push(k));
                    assert forall|a: int, b: int| 0 <= a < ks.len() && 0 <= b < ks.len() && a != b implies ks[a] != ks[b] by {
                        if a == ks.len() - 1 {
                            assert(oks.contains(ks[b]) || b == a);
                        } else if b == ks.len() - 1 {
                            assert(oks.contains(ks[a]));
                        }
                    }
                    assert forall|x: Seq<char>| ks.contains(x) <==> (oks.contains(x) || x == k) by {
                        if ks.contains(x) {
                            let j = choose|j: int| 0 <= j < ks.len() && ks[j] == x;
                            if j < ks.len() - 1 {
                                assert(oks[j] == x);
                            }
                        }
                        if oks.contains(x) {
                            let j = choose|j: int| 0 <= j < oks.len() && oks[j] == x;
                            assert(ks[j] == x);
                        }
                        if x == k {
                            assert(ks[ks.len() - 1] == k);
                        }
                    }
                    assert forall|j: int| 0 <= j < self.keys.len() implies name_slots(self.slots)[#[trigger] ks[j]] == j by {
                        if j < i {
                            assert(ks[j] == oks[j]);
                            assert(ks[j] != k);
                        }
                    }
                    self.lemma_wf();
                    assert forall|x: Seq<char>| #[trigger] self.spec_map().dom().contains(x) implies self.spec_map()[x]
                        == old(self).spec_map().insert(k, val)[x] by {
                        if x != k {
                            let j = oks.index_of(x);
                            assert(ks[j] == x);
                            assert(ks.index_of(x) == j);
                        } else {
                            assert(ks[ks.len() - 1] == k);
                        }
                    }
                    assert(self.spec_map().dom() =~= old(self).spec_map().insert(k, val).dom());
                    assert(self.spec_map() =~= old(self).spec_map().insert(k, val));
                }
            },
        }
    }
}

} // verus!
