//! The create path: id generation, record construction and insertion.
//!
//! Identifiers come from an outside generator behind a trusted wrapper;
//! nothing is assumed of the values it draws. Freshness is enforced here,
//! by checking the store and drawing again on a clash, so every record that
//! a create hands back carries an id the store had never held.

use vstd::prelude::*;
use crate::person::{
    NewPerson, Person, Date, techs_view, strings_view, opt_strings_view, stack_within_limit,
};
use crate::store::Store;
use crate::validation::{Tech, NAME_MAX, NICKNAME_MAX};

verus! {

/// Relies on `uuid::Uuid::now_v7` and `uuid::Uuid::as_u128`: a version-7
/// UUID drawn from the current time and randomness, as its 128-bit value.
/// The value depends on the clock and on random state, so nothing is
/// assumed of it. The call takes no input; it aborts the process only on
/// environmental failure (a failing entropy source, or a system clock
/// before the Unix epoch).
#[verifier::external_body]
fn generate_id() -> u128 {
    uuid::Uuid::now_v7().as_u128()
}

/// The largest value an id can take.
pub const ID_MAX: u128 = 0xffff_ffff_ffff_ffff_ffff_ffff_ffff_ffff;

/// How many ids are drawn for one create before giving up. A clash of two
/// 128-bit ids is never seen in practice; the bound only makes termination
/// plain.
pub const MAX_ID_ATTEMPTS: u32 = 16;

/// Whether record `p` carries exactly the fields of payload `np`.
pub open spec fn matches_payload(p: Person, np: NewPerson) -> bool {
    &&& p@.name == np.name@
    &&& p@.nickname == np.nickname@
    &&& p@.birthdate == np.birthdate
    &&& p@.stack == np.stack_view()
}

/// Whether the store stepped from `(old_map, old_order)` to
/// `(new_map, new_order)` by creating exactly the record `p`: its id was
/// free and is now the last issued, the record sits under it, every other
/// entry is untouched, and the count grew by one.
pub open spec fn created_in(
    old_map: Map<u128, Person>,
    old_order: Seq<u128>,
    new_map: Map<u128, Person>,
    new_order: Seq<u128>,
    p: Person,
) -> bool {
    &&& !old_map.contains_key(p.id)
    &&& new_map.contains_key(p.id)
    &&& new_map[p.id]@ == p@
    &&& new_map.len() == old_map.len() + 1
    &&& new_order == old_order.push(p.id)
    &&& forall|k: u128| k != p.id ==> (new_map.contains_key(k) <==> old_map.contains_key(k))
    &&& forall|k: u128|
        k != p.id && old_map.contains_key(k) ==> #[trigger] new_map[k] == old_map[k]
}

fn techs_into_strings(v: Vec<Tech>) -> (r: Vec<String>)
    ensures
        strings_view(r@) == techs_view(v@),
{
    let mut r: Vec<String> = Vec::new();
    let mut i: usize = 0;
    while i < v.len()
        invariant
            i <= v@.len(),
            r@.len() == i,
            forall|j: int| 0 <= j < i ==> (#[trigger] r@[j])@ == v@[j]@,
        decreases v@.len() - i,
    {
        let t = v[i].clone();
        r.push(t.into_string());
        i += 1;
    }
    proof {
        assert(strings_view(r@) =~= techs_view(v@));
    }
    r
}

/// Builds a record from a validated payload under the given id and adds it
/// to the store. Succeeds exactly when the id is free; then the record
/// comes back with the payload's fields unchanged and the store gains that
/// one record. When the id is taken, the store is left untouched.
pub fn create_person_with_id(store: &mut Store, id: u128, new_person: NewPerson) -> (r: Option<
    Person,
>)
    requires
        old(store).wf(),
        new_person.wf(),
    ensures
        final(store).wf(),
        r is Some <==> !old(store)@.contains_key(id),
        r matches Some(p) ==> p.id == id && matches_payload(p, new_person) && p.wf() && created_in(
            old(store)@,
            old(store).order(),
            final(store)@,
            final(store).order(),
            p,
        ),
        r is None ==> final(store)@ == old(store)@ && final(store).order() == old(store).order(),
{
    if store.contains(id) {
        return None;
    }
    let name = new_person.name.into_string();
    let nickname = new_person.nickname.into_string();
    let birthdate = new_person.birthdate;
    let stack: Option<Vec<String>> = match new_person.stack {
        Option::None => Option::None,
        Option::Some(ts) => Option::Some(techs_into_strings(ts)),
    };
    let person = Person { id, name, nickname, birthdate, stack };
    let stored = person.clone();
    proof {
        store.lemma_dom_finite();
    }
    let added = store.insert_new(stored);
    assert(added);
    proof {
        vstd::set::axiom_set_insert_len(old(store)@.dom(), id);
        assert(store@.dom() =~= old(store)@.dom().insert(id));
    }
    Some(person)
}

/// Builds a record from a validated payload under a fresh id and adds it
/// to the store. The id is drawn from the outside generator; should every
/// draw clash with a held id, a free one is derived from the largest id
/// held. Success is therefore owed on every store that does not already
/// hold the largest possible id — in particular on every store this
/// library ever builds, since drawn version-7 ids stay far below it. The
/// returned record carries the payload's fields unchanged under an id the
/// store had never held, and the store gains exactly that one record; on
/// the one refused input, nothing changes.
pub fn create_person(store: &mut Store, new_person: NewPerson) -> (r: Option<Person>)
    requires
        old(store).wf(),
        new_person.wf(),
    ensures
        final(store).wf(),
        !old(store)@.contains_key(ID_MAX) ==> r is Some,
        old(store)@.len() == 0 ==> r is Some,
        r matches Some(p) ==> matches_payload(p, new_person) && p.wf() && created_in(
            old(store)@,
            old(store).order(),
            final(store)@,
            final(store).order(),
            p,
        ),
        r is None ==> final(store)@ == old(store)@ && final(store).order() == old(store).order(),
{
    let name = new_person.name.into_string();
    let nickname = new_person.nickname.into_string();
    let birthdate = new_person.birthdate;
    let stack: Option<Vec<String>> = match new_person.stack {
        Option::None => Option::None,
        Option::Some(ts) => Option::Some(techs_into_strings(ts)),
    };
    let mut person = Person { id: 0, name, nickname, birthdate, stack };
    let mut drawn: Option<u128> = None;
    let mut attempts: u32 = 0;
    while attempts < MAX_ID_ATTEMPTS && drawn.is_none()
        invariant
            attempts <= MAX_ID_ATTEMPTS,
            store.wf(),
            store@ == old(store)@,
            store.order() == old(store).order(),
            drawn matches Some(d) ==> !store@.contains_key(d),
        decreases MAX_ID_ATTEMPTS - attempts,
    {
        let candidate = generate_id();
        if !store.contains(candidate) {
            drawn = Some(candidate);
        }
        attempts += 1;
    }
    let id_opt: Option<u128> = match drawn {
        Option::Some(d) => Option::Some(d),
        Option::None => match store.max_id() {
            Option::None => Option::Some(0),
            Option::Some(m) => if m < ID_MAX {
                Option::Some(m + 1)
            } else {
                Option::None
            },
        },
    };
    match id_opt {
        Option::None => {
            proof {
                assert(old(store)@.contains_key(ID_MAX));
                store.lemma_dom_finite();
                if old(store)@.len() == 0 {
                    old(store)@.dom().lemma_len0_is_empty();
                }
            }
            None
        },
        Option::Some(id) => {
            assert(!store@.contains_key(id));
            person.id = id;
            let stored = person.clone();
            proof {
                store.lemma_dom_finite();
            }
            let added = store.insert_new(stored);
            assert(added);
            proof {
                vstd::set::axiom_set_insert_len(old(store)@.dom(), id);
                assert(store@.dom() =~= old(store)@.dom().insert(id));
            }
            Some(person)
        },
    }
}

/// The whole create operation on a raw payload: validation, then creation.
/// Fails with the first field's validation error and an untouched store
/// when a field is over its limit. On a valid payload it stores and returns
/// the new record exactly as `create_person` does; success is owed unless
/// the store already holds the largest possible id, the one case reported
/// as its own error with the store untouched.
pub fn try_create_person(
    store: &mut Store,
    name: String,
    nickname: String,
    birthdate: Date,
    stack: Option<Vec<String>>,
) -> (r: Result<Person, &'static str>)
    requires
        old(store).wf(),
        birthdate.wf(),
    ensures
        final(store).wf(),
        r is Ok ==> name@.len() <= NAME_MAX && nickname@.len() <= NICKNAME_MAX
            && stack_within_limit(opt_strings_view(stack)),
        r matches Err(_) ==> final(store)@ == old(store)@ && final(store).order() == old(
            store,
        ).order(),
        name@.len() > NAME_MAX ==> (r matches Err(e)
            && e@ == "Name should contain less than 100 characters!"@),
        name@.len() <= NAME_MAX && nickname@.len() > NICKNAME_MAX ==> (r matches Err(e)
            && e@ == "Nickname should contain less than 32 characters!"@),
        name@.len() <= NAME_MAX && nickname@.len() <= NICKNAME_MAX && !stack_within_limit(
            opt_strings_view(stack),
        ) ==> (r matches Err(e) && e@ == "Each stack should contain less than 32 characters!"@),
        name@.len() <= NAME_MAX && nickname@.len() <= NICKNAME_MAX && stack_within_limit(
            opt_strings_view(stack),
        ) ==> (r matches Ok(_) || (r matches Err(e) && old(store)@.contains_key(ID_MAX)
            && e@ == "Could not draw an unused identifier!"@)),
        name@.len() <= NAME_MAX && nickname@.len() <= NICKNAME_MAX && stack_within_limit(
            opt_strings_view(stack),
        ) && !old(store)@.contains_key(ID_MAX) ==> r is Ok,
        name@.len() <= NAME_MAX && nickname@.len() <= NICKNAME_MAX && stack_within_limit(
            opt_strings_view(stack),
        ) && old(store)@.len() == 0 ==> r is Ok,
        r matches Ok(p) ==> p@.name == name@ && p@.nickname == nickname@ && p@.birthdate
            == birthdate && p@.stack == opt_strings_view(stack) && p.wf() && created_in(
            old(store)@,
            old(store).order(),
            final(store)@,
            final(store).order(),
            p,
        ),
{
    match NewPerson::new(name, nickname, birthdate, stack) {
        Ok(np) => match create_person(store, np) {
            Some(p) => Ok(p),
            None => Err("Could not draw an unused identifier!"),
        },
        Err(e) => Err(e),
    }
}

} // verus!
