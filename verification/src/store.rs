//! The in-memory store of person records, keyed by id.
//!
//! The store pairs a hash map with the sequence of keys in insertion order,
//! so that listing is deterministic. Its invariant keeps the two in step,
//! keeps every record keyed by its own id, and admits only records that
//! passed the creation-time rules.

use vstd::prelude::*;
use std::collections::HashMap;
use crate::person::Person;

verus! {

broadcast use vstd::std_specs::hash::group_hash_axioms;

/// All person records, keyed by id.
pub struct Store {
    map: HashMap<u128, Person>,
    ids: Vec<u128>,
}

impl Store {
    /// The records as a mapping from id to record.
    pub closed spec fn view(&self) -> Map<u128, Person> {
        self.map@
    }

    /// The ids in insertion order.
    pub closed spec fn order(&self) -> Seq<u128> {
        self.ids@
    }

    /// The store's invariant: the order sequence lists exactly the keys,
    /// each once; every record sits under its own id; every record obeys
    /// the creation-time rules.
    pub closed spec fn wf(&self) -> bool {
        &&& self.ids@.no_duplicates()
        &&& forall|i: int|
            0 <= i < self.ids@.len() ==> self.map@.contains_key(#[trigger] self.ids@[i])
        &&& forall|k: u128| #[trigger] self.map@.contains_key(k) ==> self.ids@.contains(k)
        &&& forall|k: u128| #[trigger] self.map@.contains_key(k) ==> self.map@[k].id == k
        &&& forall|k: u128| #[trigger] self.map@.contains_key(k) ==> self.map@[k].wf()
    }

    /// Records are keyed by their own id: a publicly visible consequence of
    /// the invariant.
    pub proof fn lemma_wf_keyed_by_id(&self, k: u128)
        requires
            self.wf(),
            self@.contains_key(k),
        ensures
            self@[k].id == k,
            self@[k].wf(),
    {
    }

    /// The order sequence lists exactly the keys of the map, each once.
    pub proof fn lemma_wf_order(&self)
        requires
            self.wf(),
        ensures
            self.order().no_duplicates(),
            forall|i: int|
                0 <= i < self.order().len() ==> self@.contains_key(#[trigger] self.order()[i]),
            forall|k: u128| #[trigger] self@.contains_key(k) ==> self.order().contains(k),
    {
    }

    /// The store holds finitely many records.
    pub proof fn lemma_dom_finite(&self)
        ensures
            self@.dom().finite(),
    {
    }

    /// An empty store.
    pub fn new() -> (s: Store)
        ensures
            s.wf(),
            s@ == Map::<u128, Person>::empty(),
            s.order() == Seq::<u128>::empty(),
    {
        Store { map: HashMap::new(), ids: Vec::new() }
    }

    /// Number of records held.
    pub fn count(&self) -> (n: usize)
        ensures
            n == self@.len(),
    {
        self.map.len()
    }

    /// Whether a record with this id is held.
    pub fn contains(&self, id: u128) -> (r: bool)
        ensures
            r == self@.contains_key(id),
    {
        self.map.contains_key(&id)
    }

    /// Looks a record up by id: a copy of the record when the id is known,
    /// nothing when it is not.
    pub fn get(&self, id: u128) -> (r: Option<Person>)
        ensures
            r is Some <==> self@.contains_key(id),
            r matches Some(p) ==> p@ == self@[id]@,
    {
        match self.map.get(&id) {
            Some(p) => Some(p.clone()),
            None => None,
        }
    }

    /// The largest id currently held. When there is none, the store holds
    /// no record at all.
    pub fn max_id(&self) -> (r: Option<u128>)
        requires
            self.wf(),
        ensures
            r matches Some(m) ==> self@.contains_key(m) && forall|k: u128|
                #[trigger] self@.contains_key(k) ==> k <= m,
            r is None ==> forall|k: u128| !(#[trigger] self@.contains_key(k)),
    {
        if self.ids.len() == 0 {
            proof {
                assert forall|k: u128| !(#[trigger] self@.contains_key(k)) by {
                    if self@.contains_key(k) {
                        assert(self.ids@.contains(k));
                    }
                }
            }
            return None;
        }
        let mut m: u128 = self.ids[0];
        let mut i: usize = 1;
        while i < self.ids.len()
            invariant
                self.wf(),
                1 <= i <= self.ids@.len(),
                forall|j: int| 0 <= j < i ==> self.ids@[j] <= m,
                exists|j: int| 0 <= j < i && self.ids@[j] == m,
            decreases self.ids@.len() - i,
        {
            let c = self.ids[i];
            if c > m {
                m = c;
            }
            i += 1;
        }
        proof {
            let j = choose|j: int| 0 <= j < self.ids@.len() && self.ids@[j] == m;
            assert(self.map@.contains_key(self.ids@[j]));
            assert forall|k: u128| #[trigger] self@.contains_key(k) implies k <= m by {
                assert(self.ids@.contains(k));
                let idx = choose|idx: int|
                    0 <= idx < self.ids@.len() && self.ids@[idx] == k;
                assert(self.ids@[idx] <= m);
            }
        }
        Some(m)
    }

    /// Adds a record under its own id. Returns true and adds the record
    /// when the id is free; returns false and changes nothing when the id
    /// is already taken.
    pub fn insert_new(&mut self, person: Person) -> (r: bool)
        requires
            old(self).wf(),
            person.wf(),
        ensures
            final(self).wf(),
            r == !old(self)@.contains_key(person.id),
            r ==> final(self)@ == old(self)@.insert(person.id, person) && final(self).order()
                == old(self).order().push(person.id),
            !r ==> final(self)@ == old(self)@ && final(self).order() == old(self).order(),
    {
        if self.map.contains_key(&person.id) {
            return false;
        }
        let id = person.id;
        self.map.insert(id, person);
        self.ids.push(id);
        proof {
            let new_ids = self.ids@;
            let old_ids = old(self).ids@;
            assert(!old_ids.contains(id));
            assert forall|i: int, j: int|
                0 <= i < new_ids.len() && 0 <= j < new_ids.len() && i != j implies new_ids[i]
                != new_ids[j] by {
                if i < old_ids.len() && j < old_ids.len() {
                    assert(old_ids[i] == new_ids[i] && old_ids[j] == new_ids[j]);
                } else if i == old_ids.len() {
                    assert(old_ids[j] == new_ids[j]);
                    assert(old_ids.contains(old_ids[j]));
                } else {
                    assert(old_ids[i] == new_ids[i]);
                    assert(old_ids.contains(old_ids[i]));
                }
            }
            assert forall|k: u128| #[trigger] self.map@.contains_key(k) implies self.ids@.contains(
                k,
            ) by {
                if k == id {
                    assert(self.ids@[self.ids@.len() - 1] == id);
                } else {
                    assert(old(self).map@.contains_key(k));
                    let i = choose|i: int| 0 <= i < old_ids.len() && old_ids[i] == k;
                    assert(self.ids@[i] == k);
                }
            }
        }
        true
    }

    /// All records, copied out in insertion order.
    pub fn list(&self) -> (r: Vec<Person>)
        requires
            self.wf(),
        ensures
            r@.len() == self.order().len(),
            forall|i: int|
                0 <= i < r@.len() ==> #[trigger] r@[i]@ == self@[self.order()[i]]@ && r@[i].id
                    == self.order()[i],
    {
        let mut out: Vec<Person> = Vec::new();
        let mut i: usize = 0;
        while i < self.ids.len()
            invariant
                self.wf(),
                i <= self.ids@.len(),
                out@.len() == i,
                forall|j: int|
                    0 <= j < i ==> #[trigger] out@[j]@ == self@[self.order()[j]]@ && out@[j].id
                        == self.order()[j],
            decreases self.ids@.len() - i,
        {
            let id = self.ids[i];
            assert(self@.contains_key(id));
            let p = self.get(id);
            if let Some(person) = p {
                proof {
                    self.lemma_wf_keyed_by_id(id);
                }
                out.push(person);
            }
            i += 1;
        }
        out
    }
}

} // verus!
