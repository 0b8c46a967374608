//! The thumbnail cache: a bounded store of texture handles, keyed by path, that gives
//! up its least recently inserted entry when a new one would exceed its capacity.
//!
//! The store itself is `lru::LruCache`. What this crate claims of it is stated on the
//! declarations below and is taken on trust; `ThumbnailCache` is verified against
//! those claims.

use vstd::prelude::*;
use lru::LruCache;
use std::num::NonZeroUsize;

verus! {

/// `lru::LruCache`, as an opaque type.
#[verifier::external_type_specification]
#[verifier::external_body]
#[verifier::reject_recursive_types(K)]
#[verifier::reject_recursive_types(V)]
#[verifier::reject_recursive_types(S)]
pub struct ExLruCache<K, V, S>(LruCache<K, V, S>);

/// `lru::DefaultHasher`, the hasher that `LruCache::new` gives a cache, as an opaque
/// type.
#[verifier::external_type_specification]
#[verifier::external_body]
pub struct ExDefaultHasher(lru::DefaultHasher);

/// The entries of a cache as `(key, value)` pairs, from the least recently used to
/// the most recently used.
pub uninterp spec fn cache_entries(cache: LruCache<String, u64>) -> Seq<(Seq<char>, u64)>;

/// The number of entries that a cache was made to hold at most.
pub uninterp spec fn cache_capacity(cache: LruCache<String, u64>) -> nat;

/// The largest capacity that a cache is made with. A cache reserves its table for
/// that many entries when it is made, so the capacity is kept to what every machine
/// can reserve.
pub const MAX_CAPACITY: usize = 65536;

/// Whether some entry has the key.
pub open spec fn has_key(entries: Seq<(Seq<char>, u64)>, key: Seq<char>) -> bool {
    exists|i: int| 0 <= i < entries.len() && (#[trigger] entries[i]).0 == key
}

/// The position of an entry with the key.
pub open spec fn key_position(entries: Seq<(Seq<char>, u64)>, key: Seq<char>) -> int {
    choose|i: int| 0 <= i < entries.len() && (#[trigger] entries[i]).0 == key
}

/// The value stored under the key, if any.
pub open spec fn value_of(entries: Seq<(Seq<char>, u64)>, key: Seq<char>) -> Option<u64> {
    if has_key(entries, key) {
        Some(entries[key_position(entries, key)].1)
    } else {
        None
    }
}

/// The entries after `(key, value)` is put into a cache of the given capacity: an
/// entry with the key is replaced and becomes the most recent; a new key is added as
/// the most recent, after the least recent entry has left a cache that is full.
pub open spec fn after_put(
    entries: Seq<(Seq<char>, u64)>,
    capacity: nat,
    key: Seq<char>,
    value: u64,
) -> Seq<(Seq<char>, u64)> {
    if has_key(entries, key) {
        entries.remove(key_position(entries, key)).push((key, value))
    } else if entries.len() == capacity {
        entries.drop_first().push((key, value))
    } else {
        entries.push((key, value))
    }
}

/// Calls `LruCache::new`. Claimed: the new cache is empty and has the capacity asked
/// for.
#[verifier::external_body]
fn lru_new(capacity: usize) -> (cache: LruCache<String, u64>)
    requires
        0 < capacity <= MAX_CAPACITY,
    ensures
        cache_entries(cache) == Seq::<(Seq<char>, u64)>::empty(),
        cache_capacity(cache) == capacity,
{
    LruCache::new(NonZeroUsize::new(capacity).unwrap())
}

/// Calls `LruCache::put`. Claimed: the entries change as `after_put` says, the
/// capacity stays, the result is the value that the key had before, if any, and the
/// call does not panic.
#[verifier::external_body]
fn lru_put(cache: &mut LruCache<String, u64>, key: String, value: u64) -> (previous: Option<u64>)
    ensures
        cache_entries(*final(cache)) == after_put(
            cache_entries(*old(cache)),
            cache_capacity(*old(cache)),
            key@,
            value,
        ),
        cache_capacity(*final(cache)) == cache_capacity(*old(cache)),
        previous == value_of(cache_entries(*old(cache)), key@),
    no_unwind
{
    cache.put(key, value)
}

/// Calls `LruCache::clear`. Claimed: the cache is empty afterwards and keeps its
/// capacity, and the call does not panic.
#[verifier::external_body]
fn lru_clear(cache: &mut LruCache<String, u64>)
    ensures
        cache_entries(*final(cache)) == Seq::<(Seq<char>, u64)>::empty(),
        cache_capacity(*final(cache)) == cache_capacity(*old(cache)),
    no_unwind
{
    cache.clear()
}

/// Calls `LruCache::len`. Claimed: the result is the number of entries.
#[verifier::external_body]
fn lru_len(cache: &LruCache<String, u64>) -> (count: usize)
    ensures
        count == cache_entries(*cache).len(),
{
    cache.len()
}

/// Calls `LruCache::peek`. Claimed: the result is the value stored under the key, if
/// any; the order of the entries is not touched.
#[verifier::external_body]
fn lru_peek(cache: &LruCache<String, u64>, key: &str) -> (value: Option<u64>)
    ensures
        value == value_of(cache_entries(*cache), key@),
{
    cache.peek(key).copied()
}

/// The contents of a thumbnail cache.
#[verifier::ext_equal]
pub struct CacheView {
    /// The cached `(path, texture)` pairs, from the least to the most recently
    /// inserted.
    pub entries: Seq<(Seq<char>, u64)>,
    /// The number of entries that the cache holds at most.
    pub capacity: nat,
}

/// No two entries share a key.
pub open spec fn distinct_keys(entries: Seq<(Seq<char>, u64)>) -> bool {
    forall|i: int, j: int|
        0 <= i < entries.len() && 0 <= j < entries.len() && i != j ==> (#[trigger] entries[i]).0
            != (#[trigger] entries[j]).0
}

impl CacheView {
    /// What every cache satisfies: it holds no more entries than its capacity, and
    /// no path twice.
    pub open spec fn wf(self) -> bool {
        &&& 0 < self.capacity
        &&& self.entries.len() <= self.capacity
        &&& distinct_keys(self.entries)
    }

    /// The cache after `(path, texture)` is inserted.
    pub open spec fn insert(self, path: Seq<char>, texture: u64) -> CacheView {
        CacheView { entries: after_put(self.entries, self.capacity, path, texture), ..self }
    }

    /// The cache without its entries.
    pub open spec fn clear(self) -> CacheView {
        CacheView { entries: Seq::empty(), ..self }
    }
}

/// In a cache without a repeated key, the position of a key is the one position
/// that holds it.
pub proof fn lemma_key_position(entries: Seq<(Seq<char>, u64)>, i: int)
    requires
        distinct_keys(entries),
        0 <= i < entries.len(),
    ensures
        has_key(entries, entries[i].0),
        key_position(entries, entries[i].0) == i,
        value_of(entries, entries[i].0) == Some(entries[i].1),
{
}

/// An insertion never takes a cache beyond its capacity. Into a cache that is full, a
/// new path evicts exactly one entry, the least recently inserted, and every other
/// entry keeps its place in the order; a path that is cached already evicts nothing.
pub proof fn lemma_insert_is_bounded(cache: CacheView, path: Seq<char>, texture: u64)
    requires
        cache.wf(),
    ensures
        cache.insert(path, texture).wf(),
        cache.insert(path, texture).entries.last() == (path, texture),
        has_key(cache.entries, path) ==> cache.insert(path, texture).entries.len()
            == cache.entries.len(),
        !has_key(cache.entries, path) && cache.entries.len() < cache.capacity ==> cache.insert(
            path,
            texture,
        ).entries == cache.entries.push((path, texture)),
        !has_key(cache.entries, path) && cache.entries.len() == cache.capacity ==> cache.insert(
            path,
            texture,
        ).entries == cache.entries.drop_first().push((path, texture)),
{
    let after = cache.insert(path, texture).entries;
    if has_key(cache.entries, path) {
        let at = key_position(cache.entries, path);
        let rest = cache.entries.remove(at);
        assert forall|i: int| 0 <= i < rest.len() implies (#[trigger] rest[i]).0 != path by {
            if i < at {
                assert(rest[i] == cache.entries[i]);
            } else {
                assert(rest[i] == cache.entries[i + 1]);
            }
        }
        assert forall|i: int, j: int|
            0 <= i < after.len() && 0 <= j < after.len() && i != j implies (#[trigger] after[i]).0
            != (#[trigger] after[j]).0 by {
            let a = if i < at { i } else { i + 1 };
            let b = if j < at { j } else { j + 1 };
            if i < rest.len() {
                assert(after[i] == rest[i]);
                assert(rest[i] == cache.entries[a]);
            }
            if j < rest.len() {
                assert(after[j] == rest[j]);
                assert(rest[j] == cache.entries[b]);
            }
        }
    } else {
        let kept = if cache.entries.len() == cache.capacity {
            cache.entries.drop_first()
        } else {
            cache.entries
        };
        let shift: int = if cache.entries.len() == cache.capacity { 1 } else { 0 };
        assert forall|i: int| 0 <= i < kept.len() implies #[trigger] kept[i] == cache.entries[i
            + shift] by {}
        assert forall|i: int, j: int|
            0 <= i < after.len() && 0 <= j < after.len() && i != j implies (#[trigger] after[i]).0
            != (#[trigger] after[j]).0 by {
            if i < kept.len() {
                assert(after[i] == kept[i]);
                assert(kept[i] == cache.entries[i + shift]);
            }
            if j < kept.len() {
                assert(after[j] == kept[j]);
                assert(kept[j] == cache.entries[j + shift]);
            }
        }
    }
}

/// A bounded store of texture handles, keyed by the path of the picture that a
/// texture shows.
pub struct ThumbnailCache {
    store: LruCache<String, u64>,
}

impl View for ThumbnailCache {
    type V = CacheView;

    closed spec fn view(&self) -> CacheView {
        CacheView { entries: cache_entries(self.store), capacity: cache_capacity(self.store) }
    }
}

impl ThumbnailCache {
    #[verifier::type_invariant]
    spec fn bounded(self) -> bool {
        self@.wf()
    }

    /// An empty cache for at most `capacity` thumbnails.
    pub(crate) fn with_capacity(capacity: usize) -> (cache: ThumbnailCache)
        requires
            0 < capacity <= MAX_CAPACITY,
        ensures
            cache@ == (CacheView { entries: Seq::empty(), capacity: capacity as nat }),
            cache@.wf(),
    {
        ThumbnailCache { store: lru_new(capacity) }
    }

    /// An empty cache for at most `capacity` thumbnails, where `capacity` is at least
    /// 1 and at most `MAX_CAPACITY`.
    pub fn new(capacity: usize) -> (made: Option<ThumbnailCache>)
        ensures
            match made {
                Some(cache) => {
                    &&& 0 < capacity <= MAX_CAPACITY
                    &&& cache@ == (CacheView { entries: Seq::empty(), capacity: capacity as nat })
                    &&& cache@.wf()
                },
                None => capacity == 0 || capacity > MAX_CAPACITY,
            },
    {
        if 0 < capacity && capacity <= MAX_CAPACITY {
            Some(ThumbnailCache::with_capacity(capacity))
        } else {
            None
        }
    }

    /// Caches `texture` under `path` as the most recent entry and returns the texture
    /// that the path had before, if any.
    pub fn insert(&mut self, path: String, texture: u64) -> (previous: Option<u64>)
        ensures
            final(self)@ == old(self)@.insert(path@, texture),
            previous == value_of(old(self)@.entries, path@),
            old(self)@.wf(),
            final(self)@.wf(),
    {
        proof {
            use_type_invariant(&*self);
            lemma_insert_is_bounded(self@, path@, texture);
        }
        lru_put(&mut self.store, path, texture)
    }

    /// Does nothing; tells the caller's proof that the cache is within its bounds.
    pub(crate) fn recall_bounds(&self)
        ensures
            self@.wf(),
    {
        proof {
            use_type_invariant(self);
        }
    }

    /// Empties the cache.
    pub fn clear(&mut self)
        ensures
            final(self)@ == old(self)@.clear(),
            final(self)@.wf(),
    {
        proof {
            use_type_invariant(&*self);
        }
        lru_clear(&mut self.store)
    }

    /// The number of cached thumbnails; never more than the capacity.
    pub fn len(&self) -> (count: usize)
        ensures
            count == self@.entries.len(),
            count <= self@.capacity,
            self@.wf(),
    {
        proof {
            use_type_invariant(self);
        }
        lru_len(&self.store)
    }

    /// The texture cached under `path`, if any. Looking does not count as use.
    pub fn get(&self, path: &str) -> (texture: Option<u64>)
        ensures
            texture == value_of(self@.entries, path@),
            self@.wf(),
    {
        proof {
            use_type_invariant(self);
        }
        lru_peek(&self.store, path)
    }
}

} // verus!
