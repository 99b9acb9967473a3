//! Properties of the store model that hold across whole runs.
//!
//! Each lemma speaks over the map from id to record that the store's
//! contracts use, so together with those contracts it covers every run of
//! lookups and creates, however the requests were interleaved before the
//! store's lock serialized them.

use vstd::prelude::*;
use crate::person::Person;

verus! {

/// Looking up an id that was never inserted finds nothing: a create under
/// any other id keeps an absent id absent, so no run of creates ever makes
/// a never-issued id turn up.
pub proof fn lemma_absent_id_stays_absent(m: Map<u128, Person>, id: u128, p: Person)
    requires
        !m.contains_key(id),
        p.id != id,
    ensures
        !m.insert(p.id, p).contains_key(id),
{
}

/// Looking up the id a successful create returned finds exactly the
/// created record, and the count grew by exactly one.
pub proof fn lemma_created_person_is_found(m: Map<u128, Person>, p: Person)
    requires
        m.dom().finite(),
        !m.contains_key(p.id),
    ensures
        m.insert(p.id, p).contains_key(p.id),
        m.insert(p.id, p)[p.id] == p,
        m.insert(p.id, p).dom().finite(),
        m.insert(p.id, p).len() == m.len() + 1,
{
    vstd::set::axiom_set_insert_finite(m.dom(), p.id);
    vstd::set::axiom_set_insert_len(m.dom(), p.id);
    assert(m.insert(p.id, p).dom() =~= m.dom().insert(p.id));
}

/// A stored record survives every later create: creating under a fresh id
/// leaves the entry under an already-issued id exactly as it was.
pub proof fn lemma_record_persists(m: Map<u128, Person>, id: u128, p: Person)
    requires
        m.contains_key(id),
        p.id != id,
    ensures
        m.insert(p.id, p).contains_key(id),
        m.insert(p.id, p)[id] == m[id],
{
}

/// The state after the records of `people` have been created in order,
/// each under its own id, starting from `m`.
pub open spec fn insert_all(m: Map<u128, Person>, people: Seq<Person>) -> Map<u128, Person>
    decreases people.len(),
{
    if people.len() == 0 {
        m
    } else {
        insert_all(m, people.drop_last()).insert(people.last().id, people.last())
    }
}

/// The ids of a sequence of records, in order.
pub open spec fn ids_of(people: Seq<Person>) -> Seq<u128> {
    people.map_values(|p: Person| p.id)
}

/// Whether each record's id was free at the moment it was created — what
/// `create_person` guarantees of every record it hands back.
pub open spec fn each_id_fresh(m: Map<u128, Person>, people: Seq<Person>) -> bool {
    forall|i: int|
        0 <= i < people.len() ==> !(#[trigger] insert_all(m, people.take(i))).contains_key(
            people[i].id,
        )
}

proof fn lemma_insert_all_contains(m: Map<u128, Person>, people: Seq<Person>, i: int)
    requires
        0 <= i < people.len(),
    ensures
        insert_all(m, people).contains_key(people[i].id),
    decreases people.len(),
{
    if i < people.len() - 1 {
        lemma_insert_all_contains(m, people.drop_last(), i);
        assert(people.drop_last()[i] == people[i]);
    }
}

/// Creates serialize without loss: when each record's id was free at its
/// turn, `k` creates add exactly `k` records, the `k` issued ids are
/// pairwise distinct, and each created record is still found, unchanged,
/// under its id at the end of the run.
pub proof fn lemma_sequential_creates(m: Map<u128, Person>, people: Seq<Person>)
    requires
        m.dom().finite(),
        each_id_fresh(m, people),
    ensures
        insert_all(m, people).dom().finite(),
        insert_all(m, people).len() == m.len() + people.len(),
        ids_of(people).no_duplicates(),
        forall|i: int|
            0 <= i < people.len() ==> insert_all(m, people).contains_key(
                (#[trigger] people[i]).id,
            ) && insert_all(m, people)[people[i].id] == people[i],
    decreases people.len(),
{
    if people.len() == 0 {
        assert(ids_of(people).len() == 0);
    } else {
        let dl = people.drop_last();
        let last = people.last();
        assert forall|i: int|
            0 <= i < dl.len() implies !(#[trigger] insert_all(m, dl.take(i))).contains_key(
            dl[i].id,
        ) by {
            assert(people.take(i) =~= dl.take(i));
            assert(!insert_all(m, people.take(i)).contains_key(people[i].id));
        }
        lemma_sequential_creates(m, dl);
        assert(people.take(people.len() - 1) =~= dl);
        assert(!insert_all(m, dl).contains_key(last.id));
        lemma_created_person_is_found(insert_all(m, dl), last);
        let ids = ids_of(people);
        let dl_ids = ids_of(dl);
        assert(ids =~= dl_ids.push(last.id));
        assert forall|i: int| 0 <= i < dl.len() implies #[trigger] dl_ids[i] != last.id by {
            lemma_insert_all_contains(m, dl, i);
        }
        assert forall|i: int, j: int|
            0 <= i < ids.len() && 0 <= j < ids.len() && i != j implies ids[i] != ids[j] by {
            if i < dl.len() && j < dl.len() {
                assert(dl_ids[i] == ids[i] && dl_ids[j] == ids[j]);
            } else if i == dl.len() as int {
                assert(dl_ids[j] == ids[j] && ids[i] == last.id);
            } else {
                assert(dl_ids[i] == ids[i] && ids[j] == last.id);
            }
        }
        let f = insert_all(m, people);
        let g = insert_all(m, dl);
        assert forall|i: int|
            0 <= i < people.len() implies f.contains_key((#[trigger] people[i]).id)
            && f[people[i].id] == people[i] by {
            if i < people.len() - 1 {
                assert(people[i] == dl[i]);
                assert(g.contains_key(dl[i].id) && g[dl[i].id] == dl[i]);
                assert(dl_ids[i] == dl[i].id);
                assert(dl[i].id != last.id);
            }
        }
    }
}

} // verus!
