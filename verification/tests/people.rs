use people_store::api::{create_person, create_person_with_id, try_create_person};
use people_store::person::{Date, NewPerson};
use people_store::store::Store;
use people_store::validation::{Name, Nickname, Tech};

fn valid_date() -> Date {
    Date::new(1992, 4, 12).unwrap()
}

fn make_payload(name: &str, nickname: &str, stack: Option<Vec<&str>>) -> NewPerson {
    NewPerson::new(
        name.to_string(),
        nickname.to_string(),
        valid_date(),
        stack.map(|v| v.iter().map(|s| s.to_string()).collect()),
    )
    .unwrap()
}

#[test]
fn name_at_limit_accepted() {
    let text = "a".repeat(100);
    let name = Name::try_from(text.clone()).unwrap();
    assert_eq!(name.into_string(), text);
}

#[test]
fn name_over_limit_rejected() {
    let text = "a".repeat(101);
    let err = Name::try_from(text).unwrap_err();
    assert_eq!(err, "Name should contain less than 100 characters!");
}

#[test]
fn nickname_at_limit_accepted() {
    let text = "b".repeat(32);
    let nickname = Nickname::try_from(text.clone()).unwrap();
    assert_eq!(nickname.into_string(), text);
}

#[test]
fn nickname_over_limit_rejected() {
    let text = "b".repeat(33);
    let err = Nickname::try_from(text).unwrap_err();
    assert_eq!(err, "Nickname should contain less than 32 characters!");
}

#[test]
fn tech_over_limit_rejected() {
    let text = "c".repeat(33);
    let err = Tech::try_from(text).unwrap_err();
    assert_eq!(err, "Each stack should contain less than 32 characters!");
}

#[test]
fn limits_count_characters_not_bytes() {
    // 32 two-byte characters: 64 bytes, yet within the 32-character limit.
    let text = "\u{00e9}".repeat(32);
    assert!(Nickname::try_from(text).is_ok());
    let too_long = "\u{00e9}".repeat(33);
    assert!(Nickname::try_from(too_long).is_err());
}

#[test]
fn date_accepts_real_days() {
    assert!(Date::new(1992, 4, 12).is_some());
    assert!(Date::new(1815, 12, 10).is_some());
    assert!(Date::new(2024, 2, 29).is_some());
    assert!(Date::new(2000, 2, 29).is_some());
    assert!(Date::new(0, 1, 1).is_some());
    assert!(Date::new(9999, 12, 31).is_some());
}

#[test]
fn date_rejects_impossible_days() {
    assert!(Date::new(2023, 2, 29).is_none());
    assert!(Date::new(1900, 2, 29).is_none());
    assert!(Date::new(2020, 13, 1).is_none());
    assert!(Date::new(2020, 0, 1).is_none());
    assert!(Date::new(2020, 1, 0).is_none());
    assert!(Date::new(2020, 4, 31).is_none());
    assert!(Date::new(10000, 1, 1).is_none());
}

#[test]
fn new_store_is_empty() {
    let store = Store::new();
    assert_eq!(store.count(), 0);
    assert!(store.list().is_empty());
}

#[test]
fn created_fields_equal_input() {
    let mut store = Store::new();
    let payload = make_payload("Ada Lovelace", "ada", Some(vec!["math"]));
    let person = create_person(&mut store, payload).unwrap();
    assert_eq!(person.name, "Ada Lovelace");
    assert_eq!(person.nickname, "ada");
    assert_eq!(person.birthdate, Date { year: 1992, month: 4, day: 12 });
    assert_eq!(person.stack, Some(vec!["math".to_string()]));
    assert_eq!(store.count(), 1);
}

#[test]
fn created_ids_are_distinct() {
    let mut store = Store::new();
    let a = create_person(&mut store, make_payload("A", "a", None)).unwrap();
    let b = create_person(&mut store, make_payload("B", "b", None)).unwrap();
    assert_ne!(a.id, b.id);
}

#[test]
fn lookup_of_created_id_returns_equal_person() {
    let mut store = Store::new();
    let created = create_person(&mut store, make_payload("Ada Lovelace", "ada", Some(vec!["math"])))
        .unwrap();
    let found = store.get(created.id).unwrap();
    assert_eq!(found.id, created.id);
    assert_eq!(found.name, created.name);
    assert_eq!(found.nickname, created.nickname);
    assert_eq!(found.birthdate, created.birthdate);
    assert_eq!(found.stack, created.stack);
}

#[test]
fn lookup_of_never_inserted_id_is_not_found() {
    let mut store = Store::new();
    assert!(store.get(42).is_none());
    let _ = create_person(&mut store, make_payload("A", "a", None)).unwrap();
    let _ = create_person(&mut store, make_payload("B", "b", None)).unwrap();
    assert!(store.get(42).is_none());
}

#[test]
fn count_after_n_creates_is_n_plus_seed() {
    let mut store = Store::new();
    let _seed = create_person(&mut store, make_payload("Seed", "seed", None)).unwrap();
    let n: usize = 3;
    for i in 0..n {
        let nickname = format!("p{}", i);
        let _ = create_person(&mut store, make_payload("Person", &nickname, None)).unwrap();
    }
    assert_eq!(store.count(), n + 1);
}

#[test]
fn k_creates_yield_k_distinct_ids_and_count_k() {
    let mut store = Store::new();
    let k: usize = 5;
    let mut ids = Vec::new();
    for i in 0..k {
        let nickname = format!("p{}", i);
        let person = create_person(&mut store, make_payload("Person", &nickname, None)).unwrap();
        ids.push(person.id);
    }
    for i in 0..k {
        for j in 0..k {
            if i != j {
                assert_ne!(ids[i], ids[j]);
            }
        }
    }
    assert_eq!(store.count(), k);
}

#[test]
fn try_create_rejects_long_name_without_mutation() {
    let mut store = Store::new();
    let err = try_create_person(&mut store, "a".repeat(101), "nick".to_string(), valid_date(), None)
        .unwrap_err();
    assert_eq!(err, "Name should contain less than 100 characters!");
    assert_eq!(store.count(), 0);
}

#[test]
fn try_create_rejects_long_nickname_without_mutation() {
    let mut store = Store::new();
    let err = try_create_person(&mut store, "name".to_string(), "b".repeat(33), valid_date(), None)
        .unwrap_err();
    assert_eq!(err, "Nickname should contain less than 32 characters!");
    assert_eq!(store.count(), 0);
}

#[test]
fn try_create_rejects_long_stack_entry_without_mutation() {
    let mut store = Store::new();
    let stack = Some(vec!["fine".to_string(), "c".repeat(33)]);
    let err = try_create_person(&mut store, "name".to_string(), "nick".to_string(), valid_date(), stack)
        .unwrap_err();
    assert_eq!(err, "Each stack should contain less than 32 characters!");
    assert_eq!(store.count(), 0);
}

#[test]
fn try_create_reports_first_bad_field() {
    let mut store = Store::new();
    let err = try_create_person(&mut store, "a".repeat(101), "b".repeat(33), valid_date(), None)
        .unwrap_err();
    assert_eq!(err, "Name should contain less than 100 characters!");
}

#[test]
fn try_create_accepts_fields_at_their_limits() {
    let mut store = Store::new();
    let stack = Some(vec!["d".repeat(32)]);
    let person = try_create_person(&mut store, "a".repeat(100), "b".repeat(32), valid_date(), stack)
        .unwrap();
    assert_eq!(person.name.chars().count(), 100);
    assert_eq!(store.count(), 1);
}

#[test]
fn create_with_taken_id_fails_without_mutation() {
    let mut store = Store::new();
    let first = create_person_with_id(&mut store, 7, make_payload("A", "a", None)).unwrap();
    assert_eq!(first.id, 7);
    assert!(create_person_with_id(&mut store, 7, make_payload("B", "b", None)).is_none());
    assert_eq!(store.count(), 1);
    assert_eq!(store.get(7).unwrap().name, "A");
}

#[test]
fn list_returns_all_records_in_creation_order() {
    let mut store = Store::new();
    let a = create_person_with_id(&mut store, 1, make_payload("A", "a", None)).unwrap();
    let b = create_person_with_id(&mut store, 2, make_payload("B", "b", None)).unwrap();
    let listed = store.list();
    assert_eq!(listed.len(), 2);
    assert_eq!(listed[0].id, a.id);
    assert_eq!(listed[0].name, "A");
    assert_eq!(listed[1].id, b.id);
    assert_eq!(listed[1].name, "B");
}

#[test]
fn max_id_tracks_largest_held_id() {
    let mut store = Store::new();
    assert!(store.max_id().is_none());
    let _ = create_person_with_id(&mut store, 7, make_payload("A", "a", None)).unwrap();
    assert_eq!(store.max_id(), Some(7));
    let _ = create_person_with_id(&mut store, 3, make_payload("B", "b", None)).unwrap();
    assert_eq!(store.max_id(), Some(7));
    let _ = create_person_with_id(&mut store, 9, make_payload("C", "c", None)).unwrap();
    assert_eq!(store.max_id(), Some(9));
}

#[test]
fn create_succeeds_even_beside_large_ids() {
    let mut store = Store::new();
    // The largest possible id is not held, so the create is owed success.
    let near_max = u128::MAX - 1;
    let _ = create_person_with_id(&mut store, near_max, make_payload("A", "a", None)).unwrap();
    let person = create_person(&mut store, make_payload("B", "b", None)).unwrap();
    assert_ne!(person.id, near_max);
    assert_eq!(store.count(), 2);
}

#[test]
fn stack_may_be_omitted() {
    let mut store = Store::new();
    let person = try_create_person(&mut store, "name".to_string(), "nick".to_string(), valid_date(), None)
        .unwrap();
    assert_eq!(person.stack, None);
}

#[test]
fn empty_stack_is_kept() {
    let mut store = Store::new();
    let person = try_create_person(
        &mut store,
        "name".to_string(),
        "nick".to_string(),
        valid_date(),
        Some(Vec::new()),
    )
    .unwrap();
    assert_eq!(person.stack, Some(Vec::new()));
}
