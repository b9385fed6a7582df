use alias::actor::{ActorUnavailable, ConnectionActor, SubmitError};
use alias::cache::AliasCache;
use alias::facade::{
    delete_alias, evict_alias, finish_delete, finish_resolve, finish_upsert, get_alias,
    new_or_update_alias,
};
use alias::model::{AliasSearchFailure, Command, MutationFailure, Outcome, StorageError};
use alias::store::AliasStore;

fn s(x: &str) -> String {
    x.to_string()
}

#[test]
fn store_reads_writes_and_checks_owner() {
    let mut st = AliasStore::new();
    assert_eq!(st.read(&s("a")), None);
    assert_eq!(st.upsert(s("a"), s("https://a"), 7), 1);
    assert_eq!(st.upsert(s("b"), s("https://b"), 8), 1);
    assert_eq!(st.upsert(s("a"), s("https://a2"), 7), 1);
    assert_eq!(st.read(&s("a")), Some(s("https://a2")));
    assert_eq!(st.delete(&s("a"), 8), 0);
    assert_eq!(st.delete(&s("a"), 7), 1);
    assert_eq!(st.read(&s("a")), None);
    assert_eq!(st.read(&s("b")), Some(s("https://b")));
    assert_eq!(st.delete(&s("a"), 7), 0);
}

#[test]
fn store_executes_commands() {
    let mut st = AliasStore::new();
    let o = st.execute(Command::Upsert { key: s("k"), destination: s("d"), owner: 1 });
    assert_eq!(o, Outcome::Affected(1));
    assert_eq!(st.execute(Command::Resolve { key: s("k") }), Outcome::Row(Some(s("d"))));
    assert_eq!(st.execute(Command::Delete { key: s("k"), owner: 2 }), Outcome::Affected(0));
    assert_eq!(st.execute(Command::Delete { key: s("k"), owner: 1 }), Outcome::Affected(1));
    assert_eq!(st.execute(Command::Resolve { key: s("k") }), Outcome::Row(None));
}

#[test]
fn cache_get_bumps_recency() {
    let mut c = AliasCache::new(2);
    c.put(s("a"), s("1"));
    c.put(s("b"), s("2"));
    assert_eq!(c.get(&s("a")), Some(s("1")));
    c.put(s("c"), s("3"));
    assert!(c.contains(&s("a")));
    assert!(!c.contains(&s("b")));
    assert!(c.contains(&s("c")));
    assert_eq!(c.len(), 2);
}

#[test]
fn cache_put_overwrites_and_invalidate_removes() {
    let mut c = AliasCache::new(3);
    c.put(s("a"), s("1"));
    c.put(s("a"), s("2"));
    assert_eq!(c.len(), 1);
    assert_eq!(c.get(&s("a")), Some(s("2")));
    c.invalidate(&s("a"));
    c.invalidate(&s("zzz"));
    assert_eq!(c.get(&s("a")), None);
    assert_eq!(c.len(), 0);
}

#[test]
fn actor_runs_in_submission_order() {
    let mut a = ConnectionActor::new(AliasStore::new(), 16);
    a.submit(Command::Upsert { key: s("k"), destination: s("first"), owner: 1 }).unwrap();
    a.submit(Command::Upsert { key: s("k"), destination: s("second"), owner: 2 }).unwrap();
    a.submit(Command::Resolve { key: s("k") }).unwrap();
    assert_eq!(a.run_next(), Some(Outcome::Affected(1)));
    assert_eq!(a.run_next(), Some(Outcome::Affected(1)));
    assert_eq!(a.run_next(), Some(Outcome::Row(Some(s("second")))));
    assert_eq!(a.run_next(), None);
}

#[test]
fn call_runs_waiting_commands_first() {
    let mut a = ConnectionActor::new(AliasStore::new(), 16);
    a.submit(Command::Upsert { key: s("k"), destination: s("queued"), owner: 1 }).unwrap();
    let r = a.call(Command::Resolve { key: s("k") });
    assert_eq!(r, Ok(Outcome::Row(Some(s("queued")))));
}

#[test]
fn closed_actor_drains_but_refuses_new_work() {
    let mut a = ConnectionActor::new(AliasStore::new(), 16);
    a.submit(Command::Upsert { key: s("k"), destination: s("d"), owner: 1 }).unwrap();
    a.close();
    assert_eq!(a.submit(Command::Resolve { key: s("k") }), Err(SubmitError::Closed));
    assert_eq!(a.call(Command::Resolve { key: s("k") }), Err(ActorUnavailable));
    let st = a.shutdown();
    assert_eq!(st.read(&s("k")), Some(s("d")));
}

#[test]
fn closed_actor_gives_actor_unavailable() {
    let mut cache = AliasCache::new(4);
    let mut a = ConnectionActor::new(AliasStore::new(), 16);
    assert_eq!(new_or_update_alias(&mut cache, &mut a, s("k"), s("d"), 1), Ok(()));
    assert_eq!(get_alias(&mut cache, &mut a, &s("k")), Ok(s("d")));
    a.close();
    // a cache hit needs no actor
    assert_eq!(get_alias(&mut cache, &mut a, &s("k")), Ok(s("d")));
    assert_eq!(get_alias(&mut cache, &mut a, &s("other")), Err(AliasSearchFailure::ActorUnavailable));
    assert_eq!(
        new_or_update_alias(&mut cache, &mut a, s("k"), s("e"), 1),
        Err(MutationFailure::ActorUnavailable)
    );
    assert_eq!(delete_alias(&mut cache, &mut a, &s("k"), 1), Err(MutationFailure::ActorUnavailable));
    assert!(cache.contains(&s("k")));
}

#[test]
fn finish_resolve_caches_only_found_rows() {
    let mut cache = AliasCache::new(4);
    assert_eq!(finish_resolve(&mut cache, s("k"), Ok(None)), Err(AliasSearchFailure::NoSuchAlias));
    let failure = AliasSearchFailure::Sql(StorageError::Query(s("disk")));
    assert_eq!(finish_resolve(&mut cache, s("k"), Err(failure.clone())), Err(failure));
    assert_eq!(
        finish_resolve(&mut cache, s("k"), Err(AliasSearchFailure::ActorUnavailable)),
        Err(AliasSearchFailure::ActorUnavailable)
    );
    assert!(!cache.contains(&s("k")));
    assert_eq!(finish_resolve(&mut cache, s("k"), Ok(Some(s("d")))), Ok(s("d")));
    assert_eq!(cache.get(&s("k")), Some(s("d")));
}

#[test]
fn finish_upsert_evicts_only_on_one_row() {
    let mut cache = AliasCache::new(4);
    cache.put(s("k"), s("old"));
    assert_eq!(
        finish_upsert(&mut cache, &s("k"), Ok(0)),
        Err(MutationFailure::Sql(StorageError::RowCount(0)))
    );
    assert!(cache.contains(&s("k")));
    let failure = MutationFailure::Sql(StorageError::Query(s("locked")));
    assert_eq!(finish_upsert(&mut cache, &s("k"), Err(failure.clone())), Err(failure));
    assert!(cache.contains(&s("k")));
    assert_eq!(finish_upsert(&mut cache, &s("k"), Ok(1)), Ok(()));
    assert!(!cache.contains(&s("k")));
}

#[test]
fn finish_delete_maps_zero_rows() {
    let mut cache = AliasCache::new(4);
    cache.put(s("k"), s("old"));
    assert_eq!(finish_delete(&mut cache, &s("k"), Ok(0)), Err(MutationFailure::NotFoundOrNotOwned));
    assert!(cache.contains(&s("k")));
    assert_eq!(
        finish_delete(&mut cache, &s("k"), Err(MutationFailure::ActorUnavailable)),
        Err(MutationFailure::ActorUnavailable)
    );
    assert_eq!(finish_delete(&mut cache, &s("k"), Ok(1)), Ok(()));
    assert!(!cache.contains(&s("k")));
}

#[test]
fn evict_alias_is_a_no_op_for_absent_keys() {
    let mut cache = AliasCache::new(4);
    cache.put(s("a"), s("1"));
    evict_alias(&mut cache, &s("b"));
    assert_eq!(cache.len(), 1);
    evict_alias(&mut cache, &s("a"));
    assert_eq!(cache.len(), 0);
}

#[test]
fn concurrent_misses_all_see_the_stored_value() {
    // Several lookups miss before any of them completes; each fetch goes
    // through the actor and each completion populates the cache again.
    let mut cache = AliasCache::new(4);
    let mut a = ConnectionActor::new(AliasStore::new(), 16);
    assert_eq!(new_or_update_alias(&mut cache, &mut a, s("k"), s("https://k"), 1), Ok(()));
    let mut waiting = 0;
    for _ in 0..8 {
        assert_eq!(cache.get(&s("k")), None);
        a.submit(Command::Resolve { key: s("k") }).unwrap();
        waiting += 1;
    }
    let mut results = Vec::new();
    for _ in 0..waiting {
        let fetched = match a.run_next() {
            Some(Outcome::Row(row)) => Ok(row),
            other => panic!("unexpected outcome {:?}", other),
        };
        results.push(finish_resolve(&mut cache, s("k"), fetched));
    }
    assert_eq!(results.len(), 8);
    for r in results {
        assert_eq!(r, Ok(s("https://k")));
    }
    assert_eq!(cache.len(), 1);
    assert_eq!(cache.get(&s("k")), Some(s("https://k")));
}

#[test]
fn full_queue_rejects_submissions() {
    let mut a = ConnectionActor::new(AliasStore::new(), 2);
    assert_eq!(a.submit(Command::Resolve { key: s("a") }), Ok(()));
    assert_eq!(a.submit(Command::Resolve { key: s("b") }), Ok(()));
    assert_eq!(a.submit(Command::Resolve { key: s("c") }), Err(SubmitError::QueueFull));
    assert_eq!(a.pending_len(), 2);
    assert_eq!(a.run_next(), Some(Outcome::Row(None)));
    assert_eq!(a.submit(Command::Resolve { key: s("c") }), Ok(()));
    assert_eq!(a.pending_len(), 2);
}

#[test]
fn fetch_completing_after_invalidate_restores_old_value() {
    // A lookup misses and its fetch is answered with the old row; a write to
    // the same key then commits and evicts; only then does the lookup finish.
    let mut cache = AliasCache::new(4);
    let mut a = ConnectionActor::new(AliasStore::new(), 16);
    assert_eq!(new_or_update_alias(&mut cache, &mut a, s("k"), s("v1"), 1), Ok(()));
    assert_eq!(cache.get(&s("k")), None);
    a.submit(Command::Resolve { key: s("k") }).unwrap();
    let fetched = match a.run_next() {
        Some(Outcome::Row(row)) => Ok(row),
        other => panic!("unexpected outcome {:?}", other),
    };
    assert_eq!(new_or_update_alias(&mut cache, &mut a, s("k"), s("v2"), 1), Ok(()));
    assert!(!cache.contains(&s("k")));
    assert_eq!(finish_resolve(&mut cache, s("k"), fetched), Ok(s("v1")));
    // the cache now disagrees with the table until the next write
    assert_eq!(cache.get(&s("k")), Some(s("v1")));
    assert_eq!(a.call(Command::Resolve { key: s("k") }), Ok(Outcome::Row(Some(s("v2")))));
}
