use vstd::prelude::*;

verus! {

/// `lru`'s cache, opaque to proofs: what it holds is `lru_entries`.
#[verifier::external_type_specification]
#[verifier::external_body]
#[verifier::reject_recursive_types(K)]
#[verifier::reject_recursive_types(V)]
#[verifier::reject_recursive_types(S)]
pub struct ExLruCache<K, V, S>(lru::LruCache<K, V, S>);

/// The hasher `lru` builds its caches with, carried along opaquely.
#[verifier::external_type_specification]
#[verifier::external_body]
pub struct ExDefaultHasher(lru::DefaultHasher);

/// What an `lru::LruCache` holds, least recently used first.
pub uninterp spec fn lru_entries(c: lru::LruCache<String, String>) -> Seq<(Seq<char>, Seq<char>)>;

/// The capacity an `lru::LruCache` was created with.
pub uninterp spec fn lru_capacity(c: lru::LruCache<String, String>) -> nat;

/// The largest capacity a cache may be created with: `lru` reserves room
/// for every entry up front, so the bound keeps that allocation modest.
pub const MAX_CAPACITY: usize = 1048576;

/// The key occurs in the entries.
pub open spec fn has_key(s: Seq<(Seq<char>, Seq<char>)>, k: Seq<char>) -> bool {
    exists|i: int| 0 <= i < s.len() && #[trigger] s[i].0 == k
}

/// The position of a key that occurs in the entries.
pub open spec fn key_pos(s: Seq<(Seq<char>, Seq<char>)>, k: Seq<char>) -> int {
    choose|i: int| 0 <= i < s.len() && #[trigger] s[i].0 == k
}

/// No key occurs twice.
pub open spec fn unique_keys(s: Seq<(Seq<char>, Seq<char>)>) -> bool {
    forall|i: int, j: int| 0 <= i < s.len() && 0 <= j < s.len() && i != j ==> s[i].0 != s[j].0
}

/// The entries after a hit on `k`: it moves to the most recent end.
pub open spec fn touched(s: Seq<(Seq<char>, Seq<char>)>, k: Seq<char>) -> Seq<(Seq<char>, Seq<char>)> {
    let i = key_pos(s, k);
    s.remove(i).push(s[i])
}

/// The entries after putting `(k, v)` into a cache of capacity `cap`.
pub open spec fn inserted(s: Seq<(Seq<char>, Seq<char>)>, cap: nat, k: Seq<char>, v: Seq<char>) -> Seq<(Seq<char>, Seq<char>)> {
    if has_key(s, k) {
        s.remove(key_pos(s, k)).push((k, v))
    } else if s.len() >= cap {
        s.drop_first().push((k, v))
    } else {
        s.push((k, v))
    }
}

/// The entries without `k`.
pub open spec fn removed(s: Seq<(Seq<char>, Seq<char>)>, k: Seq<char>) -> Seq<(Seq<char>, Seq<char>)> {
    if has_key(s, k) {
        s.remove(key_pos(s, k))
    } else {
        s
    }
}

/// Relies on lru::LruCache::new: an empty cache that holds at most `cap` entries.
#[verifier::external_body]
fn lru_new(cap: usize) -> (c: lru::LruCache<String, String>)
    requires
        0 < cap <= MAX_CAPACITY,
    ensures
        lru_entries(c) == Seq::<(Seq<char>, Seq<char>)>::empty(),
        lru_capacity(c) == cap,
{
    lru::LruCache::new(cap)
}

/// Relies on lru::LruCache::get: returns the value of `k` and marks it most
/// recently used.
#[verifier::external_body]
fn lru_get(c: &mut lru::LruCache<String, String>, k: &String) -> (r: Option<String>)
    ensures
        lru_capacity(*final(c)) == lru_capacity(*old(c)),
        has_key(lru_entries(*old(c)), k@) ==> r.is_some()
            && r.unwrap()@ == lru_entries(*old(c))[key_pos(lru_entries(*old(c)), k@)].1
            && lru_entries(*final(c)) == touched(lru_entries(*old(c)), k@),
        !has_key(lru_entries(*old(c)), k@) ==> r.is_none()
            && lru_entries(*final(c)) == lru_entries(*old(c)),
{
    c.get(k).cloned()
}

/// Relies on lru::LruCache::put: updates and marks most recent an existing
/// key; otherwise evicts the least recently used entry when full, then adds.
#[verifier::external_body]
fn lru_put(c: &mut lru::LruCache<String, String>, k: String, v: String)
    requires
        lru_capacity(*old(c)) > 0,
    ensures
        lru_capacity(*final(c)) == lru_capacity(*old(c)),
        lru_entries(*final(c)) == inserted(lru_entries(*old(c)), lru_capacity(*old(c)), k@, v@),
{
    c.put(k, v);
}

/// Relies on lru::LruCache::pop: removes `k` if present.
#[verifier::external_body]
fn lru_pop(c: &mut lru::LruCache<String, String>, k: &String) -> (r: Option<String>)
    ensures
        lru_capacity(*final(c)) == lru_capacity(*old(c)),
        lru_entries(*final(c)) == removed(lru_entries(*old(c)), k@),
        r.is_some() == has_key(lru_entries(*old(c)), k@),
{
    c.pop(k)
}

/// Relies on lru::LruCache::contains: whether `k` is present, without
/// touching its recency.
#[verifier::external_body]
fn lru_contains(c: &lru::LruCache<String, String>, k: &String) -> (r: bool)
    ensures
        r == has_key(lru_entries(*c), k@),
{
    c.contains(k)
}

/// Relies on lru::LruCache::len: the number of entries.
#[verifier::external_body]
fn lru_len(c: &lru::LruCache<String, String>) -> (r: usize)
    ensures
        r == lru_entries(*c).len(),
{
    c.len()
}

} // verus!

verus! {

proof fn lemma_pos(s: Seq<(Seq<char>, Seq<char>)>, k: Seq<char>)
    requires
        has_key(s, k),
    ensures
        0 <= key_pos(s, k) < s.len(),
        s[key_pos(s, k)].0 == k,
{
}

proof fn lemma_remove_keeps_unique(s: Seq<(Seq<char>, Seq<char>)>, i: int)
    requires
        unique_keys(s),
        0 <= i < s.len(),
    ensures
        unique_keys(s.remove(i)),
        !has_key(s.remove(i), s[i].0),
        forall|k: Seq<char>| k != s[i].0 ==> (has_key(s.remove(i), k) == has_key(s, k)),
{
    let r = s.remove(i);
    assert forall|j: int| 0 <= j < r.len() implies #[trigger] r[j] == (if j < i { s[j] } else { s[j + 1] }) by {}
    assert forall|a: int, b: int| 0 <= a < r.len() && 0 <= b < r.len() && a != b implies r[a].0 != r[b].0 by {
        assert(r[a] == (if a < i { s[a] } else { s[a + 1] }));
        assert(r[b] == (if b < i { s[b] } else { s[b + 1] }));
    }
    if has_key(r, s[i].0) {
        let j = choose|j: int| 0 <= j < r.len() && #[trigger] r[j].0 == s[i].0;
        assert(r[j] == (if j < i { s[j] } else { s[j + 1] }));
    }
    assert forall|k: Seq<char>| k != s[i].0 implies (has_key(r, k) == has_key(s, k)) by {
        if has_key(s, k) {
            let j = choose|j: int| 0 <= j < s.len() && #[trigger] s[j].0 == k;
            if j < i {
                assert(r[j].0 == k);
            } else {
                assert(r[j - 1].0 == k);
            }
        }
        if has_key(r, k) {
            let j = choose|j: int| 0 <= j < r.len() && #[trigger] r[j].0 == k;
            assert(r[j] == (if j < i { s[j] } else { s[j + 1] }));
        }
    }
}

proof fn lemma_push_keeps_unique(s: Seq<(Seq<char>, Seq<char>)>, e: (Seq<char>, Seq<char>))
    requires
        unique_keys(s),
        !has_key(s, e.0),
    ensures
        unique_keys(s.push(e)),
        forall|k: Seq<char>| has_key(s.push(e), k) == (has_key(s, k) || k == e.0),
{
    let r = s.push(e);
    assert forall|a: int, b: int| 0 <= a < r.len() && 0 <= b < r.len() && a != b implies r[a].0 != r[b].0 by {
        if a < s.len() && b < s.len() {
            assert(r[a] == s[a] && r[b] == s[b]);
        } else if a < s.len() {
            assert(r[a] == s[a]);
            assert(s[a].0 != e.0);
        } else {
            assert(r[b] == s[b]);
            assert(s[b].0 != e.0);
        }
    }
    assert forall|k: Seq<char>| has_key(r, k) == (has_key(s, k) || k == e.0) by {
        if has_key(s, k) {
            let j = choose|j: int| 0 <= j < s.len() && #[trigger] s[j].0 == k;
            assert(r[j].0 == k);
        }
        if k == e.0 {
            assert(r[s.len() as int].0 == k);
        }
        if has_key(r, k) {
            let j = choose|j: int| 0 <= j < r.len() && #[trigger] r[j].0 == k;
            if j < s.len() {
                assert(r[j] == s[j]);
            }
        }
    }
}

/// Facts about the cache's transitions that its invariant needs.
proof fn lemma_inserted(s: Seq<(Seq<char>, Seq<char>)>, cap: nat, k: Seq<char>, v: Seq<char>)
    requires
        unique_keys(s),
        s.len() <= cap,
        cap > 0,
    ensures
        unique_keys(inserted(s, cap, k, v)),
        inserted(s, cap, k, v).len() <= cap,
        inserted(s, cap, k, v).last() == (k, v),
{
    if has_key(s, k) {
        lemma_pos(s, k);
        lemma_remove_keeps_unique(s, key_pos(s, k));
        lemma_push_keeps_unique(s.remove(key_pos(s, k)), (k, v));
    } else if s.len() >= cap {
        lemma_remove_keeps_unique(s, 0);
        assert(s.drop_first() == s.remove(0));
        lemma_push_keeps_unique(s.drop_first(), (k, v));
    } else {
        lemma_push_keeps_unique(s, (k, v));
    }
}

/// A bounded map from alias key to destination that evicts the least
/// recently used entry when it is full.
pub struct AliasCache {
    lru: lru::LruCache<String, String>,
}

impl AliasCache {
    /// The entries, least recently used first.
    pub closed spec fn view(&self) -> Seq<(Seq<char>, Seq<char>)> {
        lru_entries(self.lru)
    }

    pub closed spec fn capacity(&self) -> nat {
        lru_capacity(self.lru)
    }

    pub open spec fn wf(&self) -> bool {
        &&& unique_keys(self@)
        &&& self@.len() <= self.capacity()
        &&& 0 < self.capacity() <= MAX_CAPACITY
    }

    /// The cached value of `k`, if any.
    pub open spec fn lookup(&self, k: Seq<char>) -> Option<Seq<char>> {
        if has_key(self@, k) {
            Some(self@[key_pos(self@, k)].1)
        } else {
            None
        }
    }

    pub fn new(capacity: usize) -> (c: Self)
        requires
            0 < capacity <= MAX_CAPACITY,
        ensures
            c.wf(),
            c@ == Seq::<(Seq<char>, Seq<char>)>::empty(),
            c.capacity() == capacity,
    {
        AliasCache { lru: lru_new(capacity) }
    }

    /// Looks `key` up; a hit makes it the most recently used entry.
    pub fn get(&mut self, key: &String) -> (r: Option<String>)
        requires
            old(self).wf(),
        ensures
            final(self).wf(),
            final(self).capacity() == old(self).capacity(),
            r.is_some() == old(self).lookup(key@).is_some(),
            r.is_some() ==> r.unwrap()@ == old(self).lookup(key@).unwrap()
                && final(self)@ == touched(old(self)@, key@),
            r.is_none() ==> final(self)@ == old(self)@,
    {
        let r = lru_get(&mut self.lru, key);
        proof {
            let s = old(self)@;
            if has_key(s, key@) {
                lemma_pos(s, key@);
                let i = key_pos(s, key@);
                lemma_remove_keeps_unique(s, i);
                lemma_push_keeps_unique(s.remove(i), s[i]);
            }
        }
        r
    }

    /// Inserts or overwrites `key`, evicting the least recently used entry
    /// when a new key finds the cache full.
    pub fn put(&mut self, key: String, value: String)
        requires
            old(self).wf(),
        ensures
            final(self).wf(),
            final(self).capacity() == old(self).capacity(),
            final(self)@ == inserted(old(self)@, old(self).capacity(), key@, value@),
    {
        proof {
            lemma_inserted(self@, self.capacity(), key@, value@);
        }
        lru_put(&mut self.lru, key, value);
    }

    /// Removes `key` if present.
    pub fn invalidate(&mut self, key: &String)
        requires
            old(self).wf(),
        ensures
            final(self).wf(),
            final(self).capacity() == old(self).capacity(),
            final(self)@ == removed(old(self)@, key@),
    {
        proof {
            if has_key(self@, key@) {
                lemma_pos(self@, key@);
                lemma_remove_keeps_unique(self@, key_pos(self@, key@));
            }
        }
        let _ = lru_pop(&mut self.lru, key);
    }

    /// Whether `key` is cached, without touching its recency.
    pub fn contains(&self, key: &String) -> (r: bool)
        ensures
            r == has_key(self@, key@),
    {
        lru_contains(&self.lru, key)
    }

    pub fn len(&self) -> (r: usize)
        ensures
            r == self@.len(),
    {
        lru_len(&self.lru)
    }
}

} // verus!

verus! {

/// Once removed, a key is absent, provided keys were unique.
pub proof fn lemma_removed_lacks(s: Seq<(Seq<char>, Seq<char>)>, k: Seq<char>)
    requires
        unique_keys(s),
    ensures
        !has_key(removed(s, k), k),
{
    if has_key(s, k) {
        lemma_pos(s, k);
        lemma_remove_keeps_unique(s, key_pos(s, k));
    }
}

} // verus!
