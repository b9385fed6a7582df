use alias::model::{AliasSearchFailure, MutationFailure};
use alias::service::AliasService;

fn s(x: &str) -> String {
    x.to_string()
}

#[test]
fn never_upserted_key_is_not_found() {
    let mut svc = AliasService::new(8);
    assert_eq!(svc.resolve(&s("nope")), Err(AliasSearchFailure::NoSuchAlias));
    svc.upsert(s("other"), s("https://o"), 1).unwrap();
    svc.delete(&s("other"), 1).unwrap();
    assert_eq!(svc.resolve(&s("nope")), Err(AliasSearchFailure::NoSuchAlias));
}

#[test]
fn later_upsert_wins_over_cached_value() {
    let mut svc = AliasService::new(8);
    svc.upsert(s("k"), s("v1"), 1).unwrap();
    assert_eq!(svc.resolve(&s("k")), Ok(s("v1")));
    assert!(svc.is_cached(&s("k")));
    svc.upsert(s("k"), s("v2"), 1).unwrap();
    assert!(!svc.is_cached(&s("k")));
    assert_eq!(svc.resolve(&s("k")), Ok(s("v2")));
    assert_eq!(svc.resolve(&s("k")), Ok(s("v2")));
}

#[test]
fn deleted_key_is_not_found() {
    let mut svc = AliasService::new(8);
    svc.upsert(s("k"), s("v"), 3).unwrap();
    assert_eq!(svc.resolve(&s("k")), Ok(s("v")));
    assert_eq!(svc.delete(&s("k"), 3), Ok(()));
    assert!(!svc.is_cached(&s("k")));
    assert_eq!(svc.resolve(&s("k")), Err(AliasSearchFailure::NoSuchAlias));
}

#[test]
fn capacity_two_evicts_least_recent() {
    let mut svc = AliasService::new(2);
    for k in ["a", "b", "c"] {
        svc.upsert(s(k), format!("https://{}", k), 1).unwrap();
    }
    for k in ["a", "b", "c"] {
        assert_eq!(svc.resolve(&s(k)), Ok(format!("https://{}", k)));
    }
    assert!(!svc.is_cached(&s("a")));
    assert!(svc.is_cached(&s("b")));
    assert!(svc.is_cached(&s("c")));
    // a fresh fetch from the table, which then evicts b
    assert_eq!(svc.resolve(&s("a")), Ok(s("https://a")));
    assert!(svc.is_cached(&s("a")));
    assert!(!svc.is_cached(&s("b")));
}

#[test]
fn repeated_misses_query_the_table_again() {
    let mut svc = AliasService::new(4);
    assert_eq!(svc.resolve(&s("x")), Err(AliasSearchFailure::NoSuchAlias));
    assert!(!svc.is_cached(&s("x")));
    svc.upsert(s("x"), s("https://x"), 1).unwrap();
    assert_eq!(svc.resolve(&s("x")), Ok(s("https://x")));
}

#[test]
fn end_to_end_scenario() {
    let mut svc = AliasService::new(16);
    assert_eq!(svc.upsert(s("foo"), s("https://a.example"), 1), Ok(()));
    assert_eq!(svc.resolve(&s("foo")), Ok(s("https://a.example")));
    assert!(svc.is_cached(&s("foo")));
    assert_eq!(svc.resolve(&s("foo")), Ok(s("https://a.example")));
    assert_eq!(svc.upsert(s("foo"), s("https://b.example"), 1), Ok(()));
    let r = svc.resolve(&s("foo"));
    assert_ne!(r, Ok(s("https://a.example")));
    assert_eq!(r, Ok(s("https://b.example")));
    assert_eq!(svc.delete(&s("foo"), 1), Ok(()));
    assert_eq!(svc.resolve(&s("foo")), Err(AliasSearchFailure::NoSuchAlias));
}

#[test]
fn ownership_scenario() {
    let mut svc = AliasService::new(16);
    assert_eq!(svc.upsert(s("bar"), s("https://x"), 1), Ok(()));
    assert_eq!(svc.delete(&s("bar"), 2), Err(MutationFailure::NotFoundOrNotOwned));
    assert_eq!(svc.resolve(&s("bar")), Ok(s("https://x")));
}

#[test]
fn delete_of_missing_key_is_not_found_or_not_owned() {
    let mut svc = AliasService::new(4);
    assert_eq!(svc.delete(&s("ghost"), 1), Err(MutationFailure::NotFoundOrNotOwned));
}

#[test]
fn upsert_by_another_owner_takes_the_key() {
    let mut svc = AliasService::new(4);
    svc.upsert(s("k"), s("https://one"), 1).unwrap();
    svc.upsert(s("k"), s("https://two"), 2).unwrap();
    assert_eq!(svc.delete(&s("k"), 1), Err(MutationFailure::NotFoundOrNotOwned));
    assert_eq!(svc.delete(&s("k"), 2), Ok(()));
}
