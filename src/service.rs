use vstd::prelude::*;
use crate::actor::{ConnectionActor, DEFAULT_QUEUE_BOUND};
use crate::cache::{has_key, inserted, touched, AliasCache, MAX_CAPACITY};
use crate::facade::{delete_alias, get_alias, new_or_update_alias, settled};
use crate::model::{owns, resolves_to, AliasSearchFailure, MutationFailure, Table};
use crate::store::AliasStore;

verus! {

/// An alias table behind its connection actor, with a coherent read cache in
/// front of it.
pub struct AliasService {
    cache: AliasCache,
    actor: ConnectionActor,
}

impl AliasService {
    /// The authoritative table.
    pub closed spec fn table(&self) -> Table {
        self.actor.table()
    }

    /// The cached entries, least recently used first.
    pub closed spec fn cached(&self) -> Seq<(Seq<char>, Seq<char>)> {
        self.cache@
    }

    pub closed spec fn capacity(&self) -> nat {
        self.cache.capacity()
    }

    pub closed spec fn wf(&self) -> bool {
        settled(self.cache, self.actor) && self.actor.is_open()
    }

    /// An empty table and a cache that holds at most `capacity` aliases.
    pub fn new(capacity: usize) -> (s: Self)
        requires
            0 < capacity <= MAX_CAPACITY,
        ensures
            s.wf(),
            s.table() == Table::empty(),
            s.cached() == Seq::<(Seq<char>, Seq<char>)>::empty(),
            s.capacity() == capacity,
    {
        AliasService { cache: AliasCache::new(capacity), actor: ConnectionActor::new(AliasStore::new(), DEFAULT_QUEUE_BOUND) }
    }

    /// The destination of `key`, or `NoSuchAlias`.
    pub fn resolve(&mut self, key: &String) -> (r: Result<String, AliasSearchFailure>)
        requires
            old(self).wf(),
        ensures
            final(self).wf(),
            final(self).table() == old(self).table(),
            final(self).capacity() == old(self).capacity(),
            resolves_to(old(self).table(), key@, r),
            has_key(old(self).cached(), key@) ==> final(self).cached() == touched(old(self).cached(), key@),
            !has_key(old(self).cached(), key@) ==> (if r is Ok {
                final(self).cached() == inserted(old(self).cached(), old(self).capacity(), key@, r->Ok_0@)
            } else {
                final(self).cached() == old(self).cached()
            }),
    {
        get_alias(&mut self.cache, &mut self.actor, key)
    }

    /// Points `key` at `destination` on behalf of `owner`.
    pub fn upsert(&mut self, key: String, destination: String, owner: i32) -> (r: Result<(), MutationFailure>)
        requires
            old(self).wf(),
        ensures
            final(self).wf(),
            final(self).capacity() == old(self).capacity(),
            r is Ok,
            final(self).table() == old(self).table().insert(key@, (destination@, owner)),
            !has_key(final(self).cached(), key@),
    {
        let r = new_or_update_alias(&mut self.cache, &mut self.actor, key, destination, owner);
        proof {
            crate::cache::lemma_removed_lacks(old(self).cache@, key@);
        }
        r
    }

    /// Deletes `key` if it belongs to `owner`; otherwise `NotFoundOrNotOwned`.
    pub fn delete(&mut self, key: &String, owner: i32) -> (r: Result<(), MutationFailure>)
        requires
            old(self).wf(),
        ensures
            final(self).wf(),
            final(self).capacity() == old(self).capacity(),
            r is Ok <==> owns(old(self).table(), key@, owner),
            r is Err ==> (r matches Err(MutationFailure::NotFoundOrNotOwned))
                && final(self).table() == old(self).table(),
            r is Ok ==> final(self).table() == old(self).table().remove(key@)
                && !has_key(final(self).cached(), key@),
    {
        let r = delete_alias(&mut self.cache, &mut self.actor, key, owner);
        proof {
            crate::cache::lemma_removed_lacks(old(self).cache@, key@);
        }
        r
    }

    /// Whether `key` is in the cache, without touching its recency.
    pub fn is_cached(&self, key: &String) -> (r: bool)
        ensures
            r == has_key(self.cached(), key@),
    {
        self.cache.contains(key)
    }
}

} // verus!
