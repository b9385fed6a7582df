use vstd::prelude::*;
use crate::actor::{ActorUnavailable, ConnectionActor};
use crate::cache::{has_key, inserted, key_pos, removed, touched, unique_keys, AliasCache};
use crate::model::{
    answers, owns, resolves_to, AliasSearchFailure, Command, MutationFailure, Outcome, StorageError,
    Table,
};

verus! {

/// Every cached entry agrees with the table.
pub open spec fn coherent(s: Seq<(Seq<char>, Seq<char>)>, t: Table) -> bool {
    forall|i: int| 0 <= i < s.len() ==> agrees(t, #[trigger] s[i])
}

/// The table holds the cached entry's destination for its key.
pub open spec fn agrees(t: Table, e: (Seq<char>, Seq<char>)) -> bool {
    t.contains_key(e.0) && t[e.0].0 == e.1
}

proof fn lemma_coherent_remove(s: Seq<(Seq<char>, Seq<char>)>, t: Table, i: int)
    requires
        coherent(s, t),
        0 <= i < s.len(),
    ensures
        coherent(s.remove(i), t),
{
    assert forall|j: int| 0 <= j < s.remove(i).len() implies agrees(t, #[trigger] s.remove(i)[j]) by {
        let o = if j < i { j } else { j + 1 };
        assert(s.remove(i)[j] == s[o]);
    }
}

proof fn lemma_coherent_push(s: Seq<(Seq<char>, Seq<char>)>, t: Table, e: (Seq<char>, Seq<char>))
    requires
        coherent(s, t),
        t.contains_key(e.0),
        t[e.0].0 == e.1,
    ensures
        coherent(s.push(e), t),
{
    let r = s.push(e);
    assert forall|j: int| 0 <= j < r.len() implies agrees(t, #[trigger] r[j]) by {
        if j < s.len() {
            assert(r[j] == s[j]);
        }
    }
}

proof fn lemma_coherent_touched(s: Seq<(Seq<char>, Seq<char>)>, t: Table, k: Seq<char>)
    requires
        coherent(s, t),
        has_key(s, k),
    ensures
        coherent(touched(s, k), t),
        t.contains_key(k),
        t[k].0 == s[key_pos(s, k)].1,
{
    let i = key_pos(s, k);
    assert(0 <= i < s.len() && s[i].0 == k);
    assert(agrees(t, s[i]));
    lemma_coherent_remove(s, t, i);
    lemma_coherent_push(s.remove(i), t, s[i]);
}

proof fn lemma_coherent_inserted(s: Seq<(Seq<char>, Seq<char>)>, cap: nat, t: Table, k: Seq<char>, v: Seq<char>)
    requires
        cap > 0,
        coherent(s, t),
        t.contains_key(k),
        t[k].0 == v,
    ensures
        coherent(inserted(s, cap, k, v), t),
{
    if has_key(s, k) {
        let i = key_pos(s, k);
        assert(0 <= i < s.len() && s[i].0 == k);
        lemma_coherent_remove(s, t, i);
        lemma_coherent_push(s.remove(i), t, (k, v));
    } else if s.len() >= cap {
        lemma_coherent_remove(s, t, 0);
        assert(s.drop_first() == s.remove(0));
        lemma_coherent_push(s.drop_first(), t, (k, v));
    } else {
        lemma_coherent_push(s, t, (k, v));
    }
}

/// Concurrent misses on one key agree: any two fetches of `key` answered by
/// the same table carry the same destination, and caching what either
/// brought back leaves a coherent cache coherent, however many times and in
/// whatever order the fetches complete.
pub proof fn lemma_redundant_fetches_agree(
    t: Table,
    key: String,
    o1: Outcome,
    o2: Outcome,
    s: Seq<(Seq<char>, Seq<char>)>,
    cap: nat,
)
    requires
        answers(t, Command::Resolve { key }, o1),
        answers(t, Command::Resolve { key }, o2),
        coherent(s, t),
        cap > 0,
    ensures
        o1 is Row && o2 is Row,
        o1->Row_0 is Some <==> o2->Row_0 is Some,
        o1->Row_0 is Some ==> o1->Row_0->Some_0@ == o2->Row_0->Some_0@
            && coherent(inserted(s, cap, key@, o1->Row_0->Some_0@), t),
{
    if o1->Row_0 is Some {
        lemma_coherent_inserted(s, cap, t, key@, o1->Row_0->Some_0@);
    }
}

/// After the entry of `k` is dropped, the cache agrees with any table that
/// differs from `t` at `k` alone.
proof fn lemma_coherent_removed(s: Seq<(Seq<char>, Seq<char>)>, t: Table, t2: Table, k: Seq<char>)
    requires
        coherent(s, t),
        forall|k2: Seq<char>| k2 != k ==> (#[trigger] t2.contains_key(k2) == t.contains_key(k2)
            && (t.contains_key(k2) ==> t2[k2] == t[k2])),
        unique_keys(s),
    ensures
        coherent(removed(s, k), t2),
{
    let r = removed(s, k);
    if has_key(s, k) {
        let i = key_pos(s, k);
        assert(0 <= i < s.len() && s[i].0 == k);
        lemma_coherent_remove(s, t, i);
    }
    assert forall|j: int| 0 <= j < r.len() implies agrees(t2, #[trigger] r[j]) by {
        assert(agrees(t, r[j]));
        if has_key(s, k) {
            let i = key_pos(s, k);
            let o = if j < i { j } else { j + 1 };
            assert(r[j] == s[o]);
            assert(o != i);
            assert(r[j].0 != k);
        } else {
            assert(r[j] == s[j]);
            if r[j].0 == k {
                assert(s[j].0 == k);
            }
        }
        assert(t2.contains_key(r[j].0) == t.contains_key(r[j].0));
    }
}

} // verus!

verus! {

/// The cache and the actor agree, and no command is in flight.
pub open spec fn settled(cache: AliasCache, actor: ConnectionActor) -> bool {
    &&& cache.wf()
    &&& actor.wf()
    &&& actor.pending().len() == 0
    &&& coherent(cache@, actor.table())
}

/// Completes a resolution that missed the cache, given what the actor
/// delivered for it: a found row is cached and returned, an absent row is
/// `NoSuchAlias`, and a failure is passed on; only a found row touches the
/// cache.
///
/// Callers that run lookups and writes concurrently should note that a
/// fetch that completes after a write to the same key has evicted it puts
/// the pre-write value back; nothing here orders the two, and whether to add
/// a generation check or a per-key lock is left open.
pub fn finish_resolve(
    cache: &mut AliasCache,
    key: String,
    fetched: Result<Option<String>, AliasSearchFailure>,
) -> (r: Result<String, AliasSearchFailure>)
    requires
        old(cache).wf(),
    ensures
        final(cache).wf(),
        final(cache).capacity() == old(cache).capacity(),
        match fetched {
            Ok(Some(d)) => r is Ok && r->Ok_0@ == d@
                && final(cache)@ == inserted(old(cache)@, old(cache).capacity(), key@, d@),
            Ok(None) => (r matches Err(AliasSearchFailure::NoSuchAlias)) && final(cache)@ == old(cache)@,
            Err(e) => r == Err::<String, AliasSearchFailure>(e) && final(cache)@ == old(cache)@,
        },
{
    match fetched {
        Ok(Some(d)) => {
            cache.put(key, d.clone());
            Ok(d)
        },
        Ok(None) => Err(AliasSearchFailure::NoSuchAlias),
        Err(e) => Err(e),
    }
}

/// Resolves `key`: from the cache on a hit, otherwise through the actor,
/// caching what it finds.
pub fn get_alias(cache: &mut AliasCache, actor: &mut ConnectionActor, key: &String) -> (r: Result<
    String,
    AliasSearchFailure,
>)
    requires
        settled(*old(cache), *old(actor)),
    ensures
        settled(*final(cache), *final(actor)),
        final(cache).capacity() == old(cache).capacity(),
        final(actor).table() == old(actor).table(),
        final(actor).is_open() == old(actor).is_open(),
        old(actor).is_open() || old(cache).lookup(key@) is Some ==> resolves_to(old(actor).table(), key@, r),
        !old(actor).is_open() && old(cache).lookup(key@) is None ==> r matches Err(AliasSearchFailure::ActorUnavailable),
        old(cache).lookup(key@) is Some ==> final(cache)@ == touched(old(cache)@, key@),
        old(cache).lookup(key@) is None ==> (if r is Ok {
            final(cache)@ == inserted(old(cache)@, old(cache).capacity(), key@, r->Ok_0@)
        } else {
            final(cache)@ == old(cache)@
        }),
{
    proof {
        if has_key(cache@, key@) {
            lemma_coherent_touched(cache@, actor.table(), key@);
        }
    }
    match cache.get(key) {
        Some(d) => Ok(d),
        None => {
            let fetched = match actor.call(Command::Resolve { key: key.clone() }) {
                Ok(Outcome::Row(row)) => Ok(row),
                Ok(Outcome::Affected(_)) => {
                    proof {
                        assert(false);
                    }
                    Err(AliasSearchFailure::NoSuchAlias)
                },
                Err(ActorUnavailable) => Err(AliasSearchFailure::ActorUnavailable),
            };
            assert(old(actor).pending() =~= Seq::<Command>::empty());
            let r = finish_resolve(cache, key.clone(), fetched);
            proof {
                if r is Ok {
                    lemma_coherent_inserted(old(cache)@, old(cache).capacity(), actor.table(), key@, r->Ok_0@);
                }
            }
            r
        },
    }
}

/// Drops `key` from the cache.
pub fn evict_alias(cache: &mut AliasCache, key: &String)
    requires
        old(cache).wf(),
    ensures
        final(cache).wf(),
        final(cache).capacity() == old(cache).capacity(),
        final(cache)@ == removed(old(cache)@, key@),
{
    cache.invalidate(key);
}

/// Completes an upsert given the rows the actor reports it touched: one row
/// is success and evicts the key, any other count is a storage error, and a
/// failure is passed on; only success touches the cache.
pub fn finish_upsert(cache: &mut AliasCache, key: &String, affected: Result<usize, MutationFailure>) -> (r: Result<
    (),
    MutationFailure,
>)
    requires
        old(cache).wf(),
    ensures
        final(cache).wf(),
        final(cache).capacity() == old(cache).capacity(),
        match affected {
            Ok(n) => if n == 1 {
                r is Ok && final(cache)@ == removed(old(cache)@, key@)
            } else {
                (r matches Err(MutationFailure::Sql(StorageError::RowCount(m))) && m == n)
                    && final(cache)@ == old(cache)@
            },
            Err(e) => r == Err::<(), MutationFailure>(e) && final(cache)@ == old(cache)@,
        },
{
    match affected {
        Ok(n) => if n == 1 {
            evict_alias(cache, key);
            Ok(())
        } else {
            Err(MutationFailure::Sql(StorageError::RowCount(n)))
        },
        Err(e) => Err(e),
    }
}

/// Completes a delete given the rows the actor reports it touched: one row
/// is success and evicts the key, any other count means the alias was absent
/// or not the caller's, and a failure is passed on; only success touches the
/// cache.
pub fn finish_delete(cache: &mut AliasCache, key: &String, affected: Result<usize, MutationFailure>) -> (r: Result<
    (),
    MutationFailure,
>)
    requires
        old(cache).wf(),
    ensures
        final(cache).wf(),
        final(cache).capacity() == old(cache).capacity(),
        match affected {
            Ok(n) => if n == 1 {
                r is Ok && final(cache)@ == removed(old(cache)@, key@)
            } else {
                (r matches Err(MutationFailure::NotFoundOrNotOwned)) && final(cache)@ == old(cache)@
            },
            Err(e) => r == Err::<(), MutationFailure>(e) && final(cache)@ == old(cache)@,
        },
{
    match affected {
        Ok(n) => if n == 1 {
            evict_alias(cache, key);
            Ok(())
        } else {
            Err(MutationFailure::NotFoundOrNotOwned)
        },
        Err(e) => Err(e),
    }
}

/// Points `key` at `destination` on behalf of `owner`, then evicts the key
/// from the cache before reporting success.
pub fn new_or_update_alias(
    cache: &mut AliasCache,
    actor: &mut ConnectionActor,
    key: String,
    destination: String,
    owner: i32,
) -> (r: Result<(), MutationFailure>)
    requires
        settled(*old(cache), *old(actor)),
    ensures
        settled(*final(cache), *final(actor)),
        final(cache).capacity() == old(cache).capacity(),
        final(actor).is_open() == old(actor).is_open(),
        r is Ok <==> old(actor).is_open(),
        r is Ok ==> final(actor).table() == old(actor).table().insert(key@, (destination@, owner))
            && final(cache)@ == removed(old(cache)@, key@),
        r is Err ==> (r matches Err(MutationFailure::ActorUnavailable))
            && final(actor).table() == old(actor).table() && final(cache)@ == old(cache)@,
{
    let ghost t = actor.table();
    let c = Command::Upsert { key: key.clone(), destination, owner };
    let affected = match actor.call(c) {
        Ok(Outcome::Affected(n)) => Ok(n),
        Ok(Outcome::Row(_)) => {
            proof {
                assert(false);
            }
            Ok(0)
        },
        Err(ActorUnavailable) => Err(MutationFailure::ActorUnavailable),
    };
    assert(old(actor).pending() =~= Seq::<Command>::empty());
    let r = finish_upsert(cache, &key, affected);
    proof {
        if r is Ok {
            lemma_coherent_removed(old(cache)@, t, actor.table(), key@);
        }
    }
    r
}

/// Deletes `key` if it belongs to `owner`, then evicts the key from the cache
/// before reporting success.
pub fn delete_alias(cache: &mut AliasCache, actor: &mut ConnectionActor, key: &String, owner: i32) -> (r:
    Result<(), MutationFailure>)
    requires
        settled(*old(cache), *old(actor)),
    ensures
        settled(*final(cache), *final(actor)),
        final(cache).capacity() == old(cache).capacity(),
        final(actor).is_open() == old(actor).is_open(),
        !old(actor).is_open() ==> r matches Err(MutationFailure::ActorUnavailable),
        old(actor).is_open() ==> (r is Ok <==> owns(old(actor).table(), key@, owner)),
        old(actor).is_open() && r is Err ==> r matches Err(MutationFailure::NotFoundOrNotOwned),
        r is Ok ==> final(actor).table() == old(actor).table().remove(key@)
            && final(cache)@ == removed(old(cache)@, key@),
        r is Err ==> final(actor).table() == old(actor).table() && final(cache)@ == old(cache)@,
{
    let ghost t = actor.table();
    let affected = match actor.call(Command::Delete { key: key.clone(), owner }) {
        Ok(Outcome::Affected(n)) => Ok(n),
        Ok(Outcome::Row(_)) => {
            proof {
                assert(false);
            }
            Ok(0)
        },
        Err(ActorUnavailable) => Err(MutationFailure::ActorUnavailable),
    };
    assert(old(actor).pending() =~= Seq::<Command>::empty());
    let r = finish_delete(cache, key, affected);
    proof {
        if r is Ok {
            lemma_coherent_removed(old(cache)@, t, actor.table(), key@);
        }
    }
    r
}

} // verus!
