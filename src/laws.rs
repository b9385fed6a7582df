use vstd::prelude::*;
use crate::cache::{has_key, inserted, unique_keys};
use crate::model::{applied, command_key, owns, replay, resolves_to, AliasSearchFailure, Command, Table};

verus! {

/// A command that writes `k` with an upsert.
pub open spec fn upserts(c: Command, k: Seq<char>) -> bool {
    c is Upsert && command_key(c) == k
}

/// A key that no command in a history ever upserted is absent afterwards, so
/// resolving it gives `NoSuchAlias`.
pub proof fn lemma_never_upserted_not_found(cs: Seq<Command>, k: Seq<char>, r: Result<String, AliasSearchFailure>)
    requires
        forall|i: int| 0 <= i < cs.len() ==> !upserts(#[trigger] cs[i], k),
        resolves_to(replay(Table::empty(), cs), k, r),
    ensures
        r matches Err(AliasSearchFailure::NoSuchAlias),
{
    lemma_absent_stays_absent(Table::empty(), cs, k);
}

proof fn lemma_absent_stays_absent(t: Table, cs: Seq<Command>, k: Seq<char>)
    requires
        !t.contains_key(k),
        forall|i: int| 0 <= i < cs.len() ==> !upserts(#[trigger] cs[i], k),
    ensures
        !replay(t, cs).contains_key(k),
    decreases cs.len(),
{
    if cs.len() > 0 {
        assert(!upserts(cs[0], k));
        assert forall|i: int| 0 <= i < cs.drop_first().len() implies !upserts(#[trigger] cs.drop_first()[i], k) by {
            assert(cs.drop_first()[i] == cs[i + 1]);
        }
        lemma_absent_stays_absent(applied(t, cs[0]), cs.drop_first(), k);
    }
}

/// Reads see the latest committed write: after an upsert of `v1` the key
/// resolves to `v1`, and after a later upsert of `v2` it resolves to `v2`,
/// whatever the table held before.
pub proof fn lemma_read_your_writes(
    t: Table,
    k: Seq<char>,
    v1: Seq<char>,
    v2: Seq<char>,
    o1: i32,
    o2: i32,
    r1: Result<String, AliasSearchFailure>,
    r2: Result<String, AliasSearchFailure>,
)
    requires
        resolves_to(t.insert(k, (v1, o1)), k, r1),
        resolves_to(t.insert(k, (v1, o1)).insert(k, (v2, o2)), k, r2),
    ensures
        r1 is Ok && r1->Ok_0@ == v1,
        r2 is Ok && r2->Ok_0@ == v2,
{
}

/// After a delete of `k` succeeds, which it does exactly when `owner` owns
/// `k`, the key resolves to `NoSuchAlias`.
pub proof fn lemma_delete_then_not_found(t: Table, k: Seq<char>, owner: i32, r: Result<String, AliasSearchFailure>)
    requires
        owns(t, k, owner),
        resolves_to(t.remove(k), k, r),
    ensures
        r matches Err(AliasSearchFailure::NoSuchAlias),
{
}

/// A new key put into a full cache evicts the least recently used entry
/// and nothing else: the size stays at the capacity.
pub proof fn lemma_full_cache_evicts_oldest(
    s: Seq<(Seq<char>, Seq<char>)>,
    cap: nat,
    k: Seq<char>,
    v: Seq<char>,
)
    requires
        unique_keys(s),
        cap > 0,
        s.len() == cap,
        !has_key(s, k),
    ensures
        !has_key(inserted(s, cap, k, v), s[0].0),
        inserted(s, cap, k, v) == s.drop_first().push((k, v)),
        inserted(s, cap, k, v).len() == cap,
{
    let r = inserted(s, cap, k, v);
    if has_key(r, s[0].0) {
        let j = choose|j: int| 0 <= j < r.len() && #[trigger] r[j].0 == s[0].0;
        if j < r.len() - 1 {
            assert(r[j] == s[j + 1]);
        } else {
            assert(s[0].0 == k);
        }
    }
}

} // verus!
