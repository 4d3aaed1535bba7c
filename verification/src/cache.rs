//! Response caching: an LRU cache of lookup results whose entries expire a
//! fixed time after they are written.
//!
//! Time is given to the cache by its caller as a reading of a monotonic
//! clock, in nanoseconds; the cache compares readings and never reads a
//! clock itself.

use std::num::NonZeroUsize;

use lru::LruCache;
use vstd::prelude::*;

use crate::keyed::{
    distinct_keys, has_key, key_index, lemma_key_index, lemma_push_keys, lemma_remove_keys, lookup,
    without_key,
};
use crate::model::IpInfo;

verus! {

/// Default maximum number of entries held by an [`InMemoryCache`].
pub const DEFAULT_CACHE_MAX_SIZE: usize = 4096;

/// Default time-to-live of [`InMemoryCache`] entries, in nanoseconds
/// (ten minutes).
pub const DEFAULT_CACHE_TTL: u128 = 600_000_000_000;

/// A cached lookup result with the clock reading after which it is stale.
#[derive(Debug, Clone, PartialEq, Eq)]
pub struct CacheEntry {
    /// The cached lookup result.
    pub value: IpInfo,
    /// The entry is fresh while the clock reads less than this.
    pub expires_at: u128,
}

/// `s` with the entry of key `k` made the most recently used one.
pub open spec fn promoted<V>(s: Seq<(Seq<char>, V)>, k: Seq<char>) -> Seq<(Seq<char>, V)> {
    if has_key(s, k) {
        s.remove(key_index(s, k)).push(s[key_index(s, k)])
    } else {
        s
    }
}

/// `s` after storing `v` under `k` in a cache of capacity `cap`: an entry of
/// the same key is replaced; otherwise, when the cache is full, the least
/// recently used entry is evicted. The new entry is the most recently used.
pub open spec fn put_entry<V>(s: Seq<(Seq<char>, V)>, cap: nat, k: Seq<char>, v: V) -> Seq<
    (Seq<char>, V),
> {
    if has_key(s, k) {
        s.remove(key_index(s, k)).push((k, v))
    } else if s.len() >= cap {
        s.drop_first().push((k, v))
    } else {
        s.push((k, v))
    }
}

/// What a read of key `k` at clock reading `now` finds in entries `s`: the
/// value stored under `k` while it is fresh, otherwise nothing.
pub open spec fn fresh_value(s: Seq<(Seq<char>, CacheEntry)>, k: Seq<char>, now: u128) -> Option<
    IpInfo,
> {
    match lookup(s, k) {
        Some(e) => if now < e.expires_at {
            Some(e.value)
        } else {
            None
        },
        None => None,
    }
}

/// Well-formed entries of a cache of capacity `cap`.
pub open spec fn entries_wf<V>(s: Seq<(Seq<char>, V)>, cap: nat) -> bool {
    &&& cap > 0
    &&& s.len() <= cap
    &&& distinct_keys(s)
}

// ---------------------------------------------------------------------------
// The LRU collection of the `lru` crate.
// ---------------------------------------------------------------------------

/// The `lru` crate's LRU cache.
#[verifier::external_type_specification]
#[verifier::external_body]
#[verifier::reject_recursive_types(K)]
#[verifier::reject_recursive_types(V)]
#[verifier::reject_recursive_types(S)]
pub struct ExLruCache<K, V, S>(LruCache<K, V, S>);

/// The hasher that an `lru::LruCache` uses by default.
#[verifier::external_type_specification]
#[verifier::external_body]
pub struct ExLruDefaultHasher(lru::DefaultHasher);

/// The entries of an `lru::LruCache`, least recently used first.
pub uninterp spec fn lru_entries(c: LruCache<String, CacheEntry>) -> Seq<(Seq<char>, CacheEntry)>;

/// The capacity an `lru::LruCache` was made with.
pub uninterp spec fn lru_capacity(c: LruCache<String, CacheEntry>) -> nat;

/// `LruCache::new`: an empty cache holding at most `capacity` entries.
#[verifier::external_body]
fn lru_new(capacity: usize) -> (c: LruCache<String, CacheEntry>)
    requires
        capacity > 0,
    ensures
        lru_entries(c) == Seq::<(Seq<char>, CacheEntry)>::empty(),
        lru_capacity(c) == capacity,
{
    LruCache::new(NonZeroUsize::new(capacity).unwrap())
}

/// `LruCache::len`: the number of entries.
#[verifier::external_body]
fn lru_len(c: &LruCache<String, CacheEntry>) -> (r: usize)
    ensures
        r == lru_entries(*c).len(),
{
    c.len()
}

/// `LruCache::peek`: the entry of key `k`, leaving the recency order as it is.
#[verifier::external_body]
fn lru_peek<'a>(c: &'a LruCache<String, CacheEntry>, k: &str) -> (r: Option<&'a CacheEntry>)
    requires
        distinct_keys(lru_entries(*c)),
    ensures
        r is Some == has_key(lru_entries(*c), k@),
        r matches Some(e) ==> *e == lookup(lru_entries(*c), k@)->0,
{
    c.peek(k)
}

/// `LruCache::promote`: makes the entry of key `k`, if any, the most recently
/// used one.
#[verifier::external_body]
fn lru_promote(c: &mut LruCache<String, CacheEntry>, k: &str) -> (r: bool)
    requires
        distinct_keys(lru_entries(*old(c))),
    ensures
        r == has_key(lru_entries(*old(c)), k@),
        lru_entries(*final(c)) == promoted(lru_entries(*old(c)), k@),
        lru_capacity(*final(c)) == lru_capacity(*old(c)),
{
    c.promote(k)
}

/// `LruCache::put`: stores `v` under `k`, replacing the entry of the same key
/// or, when the cache is full, evicting the least recently used entry.
/// Returns the replaced value.
#[verifier::external_body]
fn lru_put(c: &mut LruCache<String, CacheEntry>, k: String, v: CacheEntry) -> (r: Option<
    CacheEntry,
>)
    requires
        entries_wf(lru_entries(*old(c)), lru_capacity(*old(c))),
    ensures
        r == lookup(lru_entries(*old(c)), k@),
        lru_entries(*final(c)) == put_entry(lru_entries(*old(c)), lru_capacity(*old(c)), k@, v),
        lru_capacity(*final(c)) == lru_capacity(*old(c)),
{
    c.put(k, v)
}

/// `LruCache::pop`: removes the entry of key `k` and returns its value.
#[verifier::external_body]
fn lru_pop(c: &mut LruCache<String, CacheEntry>, k: &str) -> (r: Option<CacheEntry>)
    requires
        distinct_keys(lru_entries(*old(c))),
    ensures
        r == lookup(lru_entries(*old(c)), k@),
        lru_entries(*final(c)) == without_key(lru_entries(*old(c)), k@),
        lru_capacity(*final(c)) == lru_capacity(*old(c)),
{
    c.pop(k)
}

/// `LruCache::clear`: removes every entry.
#[verifier::external_body]
fn lru_clear(c: &mut LruCache<String, CacheEntry>)
    ensures
        lru_entries(*final(c)) == Seq::<(Seq<char>, CacheEntry)>::empty(),
        lru_capacity(*final(c)) == lru_capacity(*old(c)),
{
    c.clear()
}

// ---------------------------------------------------------------------------
// Facts about keyed entry sequences.
// ---------------------------------------------------------------------------

/// Storing an entry keeps the entries well formed: keys stay distinct and
/// their number stays within the capacity.
pub proof fn lemma_put_wf<V>(s: Seq<(Seq<char>, V)>, cap: nat, k: Seq<char>, v: V)
    requires
        entries_wf(s, cap),
    ensures
        entries_wf(put_entry(s, cap, k, v), cap),
{
    lemma_put_facts(s, cap, k, v);
}

proof fn lemma_put_facts<V>(s: Seq<(Seq<char>, V)>, cap: nat, k: Seq<char>, v: V)
    requires
        entries_wf(s, cap),
    ensures
        entries_wf(put_entry(s, cap, k, v), cap),
        lookup(put_entry(s, cap, k, v), k) == Some(v),
        put_entry(s, cap, k, v).last() == (k, v),
        has_key(s, k) ==> put_entry(s, cap, k, v).len() == s.len(),
        !has_key(s, k) && s.len() < cap ==> put_entry(s, cap, k, v).len() == s.len() + 1,
        !has_key(s, k) && s.len() == cap ==> put_entry(s, cap, k, v).len() == cap && !has_key(
            put_entry(s, cap, k, v),
            s[0].0,
        ),
        forall|k2: Seq<char>|
            k2 != k && !(!has_key(s, k) && s.len() == cap && k2 == s[0].0) ==> #[trigger] lookup(
                put_entry(s, cap, k, v),
                k2,
            ) == lookup(s, k2),
{
    if has_key(s, k) {
        let i = key_index(s, k);
        lemma_remove_keys(s, i);
        lemma_push_keys(s.remove(i), k, v);
    } else if s.len() >= cap {
        assert(s.drop_first() =~= s.remove(0));
        lemma_remove_keys(s, 0);
        lemma_push_keys(s.remove(0), k, v);
    } else {
        lemma_push_keys(s, k, v);
    }
}

/// A read gives back the last write: right after a value is stored under a
/// key, looking the key up finds that value.
pub proof fn lemma_lookup_after_put<V>(s: Seq<(Seq<char>, V)>, cap: nat, k: Seq<char>, v: V)
    requires
        entries_wf(s, cap),
    ensures
        lookup(put_entry(s, cap, k, v), k) == Some(v),
        put_entry(s, cap, k, v).last() == (k, v),
{
    lemma_put_facts(s, cap, k, v);
}

/// Storing a value under one key leaves every other key as it was, except
/// the least recently used key, which is evicted when a new key is stored in
/// a full cache.
pub proof fn lemma_put_keeps_other_keys<V>(
    s: Seq<(Seq<char>, V)>,
    cap: nat,
    k: Seq<char>,
    v: V,
    other: Seq<char>,
)
    requires
        entries_wf(s, cap),
        other != k,
        !(!has_key(s, k) && s.len() == cap && other == s[0].0),
    ensures
        lookup(put_entry(s, cap, k, v), other) == lookup(s, other),
{
    lemma_put_facts(s, cap, k, v);
}

/// Least-recently-used eviction: storing a new key in a full cache evicts
/// exactly the least recently used entry and keeps the size at capacity.
pub proof fn lemma_put_evicts_least_recently_used<V>(
    s: Seq<(Seq<char>, V)>,
    cap: nat,
    k: Seq<char>,
    v: V,
)
    requires
        entries_wf(s, cap),
        !has_key(s, k),
        s.len() == cap,
    ensures
        !has_key(put_entry(s, cap, k, v), s[0].0),
        put_entry(s, cap, k, v).len() == cap,
{
    lemma_put_facts(s, cap, k, v);
}

/// Overwriting an existing key keeps the number of entries.
pub proof fn lemma_overwrite_keeps_len<V>(s: Seq<(Seq<char>, V)>, cap: nat, k: Seq<char>, v: V)
    requires
        entries_wf(s, cap),
        has_key(s, k),
    ensures
        put_entry(s, cap, k, v).len() == s.len(),
{
    lemma_put_facts(s, cap, k, v);
}

/// Removing a key keeps the entries well formed, makes the key absent, and
/// leaves every other key as it was.
pub proof fn lemma_without_key<V>(s: Seq<(Seq<char>, V)>, cap: nat, k: Seq<char>)
    requires
        entries_wf(s, cap),
    ensures
        entries_wf(without_key(s, k), cap),
        lookup(without_key(s, k), k) is None,
        forall|k2: Seq<char>| k2 != k ==> #[trigger] lookup(without_key(s, k), k2) == lookup(s, k2),
{
    if has_key(s, k) {
        lemma_remove_keys(s, key_index(s, k));
    }
}

/// Promoting a key keeps the entries well formed and every lookup as it was,
/// and makes the key the most recently used one.
pub proof fn lemma_promoted<V>(s: Seq<(Seq<char>, V)>, cap: nat, k: Seq<char>)
    requires
        entries_wf(s, cap),
    ensures
        entries_wf(promoted(s, k), cap),
        forall|k2: Seq<char>| #[trigger] lookup(promoted(s, k), k2) == lookup(s, k2),
        has_key(s, k) ==> promoted(s, k).last().0 == k,
        promoted(s, k).len() == s.len(),
{
    if has_key(s, k) {
        let i = key_index(s, k);
        let e = s[i];
        lemma_remove_keys(s, i);
        lemma_push_keys(s.remove(i), k, e.1);
        assert(e == (k, e.1));
        lemma_key_index(s, i);
    }
}

/// A read gives back the last write while it is fresh: after `value` is
/// stored under `key` at clock reading `now` in a cache whose entries live
/// `ttl` nanoseconds, a read of `key` at clock reading `later` finds `value`
/// exactly when `later` comes before `now + ttl`, and finds nothing after.
pub proof fn lemma_read_after_write(
    s: Seq<(Seq<char>, CacheEntry)>,
    cap: nat,
    key: Seq<char>,
    value: IpInfo,
    now: u128,
    ttl: u128,
    later: u128,
)
    requires
        entries_wf(s, cap),
        now + ttl <= u128::MAX,
    ensures
        fresh_value(
            put_entry(s, cap, key, CacheEntry { value, expires_at: (now + ttl) as u128 }),
            key,
            later,
        ) == if later < now + ttl {
            Some(value)
        } else {
            None
        },
{
    lemma_put_facts(s, cap, key, CacheEntry { value, expires_at: (now + ttl) as u128 });
}

/// A read after a removal finds nothing, at any clock reading.
pub proof fn lemma_read_after_invalidate(
    s: Seq<(Seq<char>, CacheEntry)>,
    cap: nat,
    key: Seq<char>,
    later: u128,
)
    requires
        entries_wf(s, cap),
    ensures
        fresh_value(without_key(s, key), key, later) is None,
{
    lemma_without_key(s, cap, key);
}

// ---------------------------------------------------------------------------
// The cache.
// ---------------------------------------------------------------------------

/// An in-process cache of lookup results with time-based expiration and a
/// bounded size using least-recently-used eviction.
///
/// By default it holds up to [`DEFAULT_CACHE_MAX_SIZE`] entries for
/// [`DEFAULT_CACHE_TTL`] each; use [`InMemoryCache::builder`] to change that.
/// Every operation that depends on time takes the current reading of a
/// monotonic clock, in nanoseconds.
pub struct InMemoryCache {
    ttl: u128,
    entries: LruCache<String, CacheEntry>,
}

impl InMemoryCache {
    /// The entries, least recently used first.
    pub closed spec fn entries(&self) -> Seq<(Seq<char>, CacheEntry)> {
        lru_entries(self.entries)
    }

    /// The maximum number of entries.
    pub closed spec fn capacity(&self) -> nat {
        lru_capacity(self.entries)
    }

    /// How long an entry stays fresh after it is written, in nanoseconds.
    pub closed spec fn ttl_nanos(&self) -> u128 {
        self.ttl
    }

    /// The cache is well formed: keys are distinct and there are at most
    /// `capacity()` of them, which is positive.
    pub open spec fn wf(&self) -> bool {
        entries_wf(self.entries(), self.capacity())
    }

    /// Creates a cache with the default maximum size and TTL.
    pub fn new() -> (r: Self)
        ensures
            r.wf(),
            r.entries() == Seq::<(Seq<char>, CacheEntry)>::empty(),
            r.capacity() == DEFAULT_CACHE_MAX_SIZE,
            r.ttl_nanos() == DEFAULT_CACHE_TTL,
    {
        Self::builder().build()
    }

    /// Returns a builder to customize the maximum size and TTL.
    pub fn builder() -> (r: InMemoryCacheBuilder)
        ensures
            r.max_size_setting() == DEFAULT_CACHE_MAX_SIZE,
            r.ttl_setting() == DEFAULT_CACHE_TTL,
    {
        InMemoryCacheBuilder::default()
    }

    /// Returns the current number of entries, including expired entries not
    /// yet evicted.
    pub fn len(&self) -> (r: usize)
        ensures
            r == self.entries().len(),
    {
        lru_len(&self.entries)
    }

    /// Returns whether the cache holds no entries.
    pub fn is_empty(&self) -> (r: bool)
        ensures
            r == (self.entries().len() == 0),
    {
        self.len() == 0
    }

    /// How long an entry stays fresh after it is written, in nanoseconds.
    pub fn ttl(&self) -> (r: u128)
        ensures
            r == self.ttl_nanos(),
    {
        self.ttl
    }

    /// Returns the cached value for `key` when it is present and fresh at
    /// clock reading `now`, making it the most recently used entry. An
    /// expired entry is removed and `None` is returned.
    pub fn get<'a>(&'a mut self, key: &str, now: u128) -> (r: Option<&'a IpInfo>)
        requires
            old(self).wf(),
        ensures
            final(self).wf(),
            final(self).capacity() == old(self).capacity(),
            final(self).ttl_nanos() == old(self).ttl_nanos(),
            match r {
                Some(v) => fresh_value(old(self).entries(), key@, now) == Some(*v),
                None => fresh_value(old(self).entries(), key@, now) is None,
            },
            match lookup(old(self).entries(), key@) {
                None => r is None && final(self).entries() == old(self).entries(),
                Some(e) => if now < e.expires_at {
                    &&& r matches Some(v) && *v == e.value
                    &&& final(self).entries() == promoted(old(self).entries(), key@)
                } else {
                    &&& r is None
                    &&& final(self).entries() == without_key(old(self).entries(), key@)
                },
            },
    {
        proof {
            lemma_promoted(self.entries(), self.capacity(), key@);
            lemma_without_key(self.entries(), self.capacity(), key@);
        }
        let fresh = match lru_peek(&self.entries, key) {
            None => {
                return None;
            },
            Some(e) => now < e.expires_at,
        };
        if fresh {
            lru_promote(&mut self.entries, key);
            proof {
                lemma_promoted(old(self).entries(), old(self).capacity(), key@);
            }
            match lru_peek(&self.entries, key) {
                Some(e) => Some(&e.value),
                None => None,
            }
        } else {
            lru_pop(&mut self.entries, key);
            None
        }
    }

    /// Stores `value` under `key` at clock reading `now`; it stays fresh
    /// until `now` plus the TTL. The entry becomes the most recently used
    /// one; an entry of the same key is replaced, and when the cache is full
    /// the least recently used entry is evicted.
    pub fn set(&mut self, key: &str, value: IpInfo, now: u128)
        requires
            old(self).wf(),
            now + old(self).ttl_nanos() <= u128::MAX,
        ensures
            final(self).wf(),
            final(self).capacity() == old(self).capacity(),
            final(self).ttl_nanos() == old(self).ttl_nanos(),
            final(self).entries() == put_entry(
                old(self).entries(),
                old(self).capacity(),
                key@,
                CacheEntry { value, expires_at: (now + old(self).ttl_nanos()) as u128 },
            ),
    {
        let entry = CacheEntry { value, expires_at: now + self.ttl };
        proof {
            lemma_put_wf(self.entries(), self.capacity(), key@, entry);
        }
        lru_put(&mut self.entries, key.to_owned(), entry);
    }

    /// Removes the entry for `key`, if present.
    pub fn invalidate(&mut self, key: &str)
        requires
            old(self).wf(),
        ensures
            final(self).wf(),
            final(self).capacity() == old(self).capacity(),
            final(self).ttl_nanos() == old(self).ttl_nanos(),
            final(self).entries() == without_key(old(self).entries(), key@),
    {
        proof {
            lemma_without_key(self.entries(), self.capacity(), key@);
        }
        lru_pop(&mut self.entries, key);
    }

    /// Removes every entry.
    pub fn invalidate_all(&mut self)
        requires
            old(self).wf(),
        ensures
            final(self).wf(),
            final(self).capacity() == old(self).capacity(),
            final(self).ttl_nanos() == old(self).ttl_nanos(),
            final(self).entries() == Seq::<(Seq<char>, CacheEntry)>::empty(),
    {
        lru_clear(&mut self.entries);
    }
}

impl Default for InMemoryCache {
    fn default() -> (r: Self)
        ensures
            r.wf(),
            r.entries() == Seq::<(Seq<char>, CacheEntry)>::empty(),
            r.capacity() == DEFAULT_CACHE_MAX_SIZE,
            r.ttl_nanos() == DEFAULT_CACHE_TTL,
    {
        Self::new()
    }
}

/// Builds an [`InMemoryCache`]. Create one with [`InMemoryCache::builder`].
#[derive(Debug, Clone)]
pub struct InMemoryCacheBuilder {
    max_size: usize,
    ttl: u128,
}

impl Default for InMemoryCacheBuilder {
    fn default() -> (r: Self)
        ensures
            r.max_size_setting() == DEFAULT_CACHE_MAX_SIZE,
            r.ttl_setting() == DEFAULT_CACHE_TTL,
    {
        InMemoryCacheBuilder { max_size: DEFAULT_CACHE_MAX_SIZE, ttl: DEFAULT_CACHE_TTL }
    }
}

impl InMemoryCacheBuilder {
    /// The maximum number of entries the cache will hold.
    pub closed spec fn max_size_setting(&self) -> usize {
        self.max_size
    }

    /// The time-to-live of entries, in nanoseconds.
    pub closed spec fn ttl_setting(&self) -> u128 {
        self.ttl
    }

    /// Sets the maximum number of entries the cache holds before it starts
    /// evicting the least recently used entry. A value of `0` leaves the
    /// setting unchanged.
    pub fn max_size(self, n: usize) -> (r: Self)
        ensures
            r.max_size_setting() == if n > 0 {
                n
            } else {
                self.max_size_setting()
            },
            r.ttl_setting() == self.ttl_setting(),
    {
        let mut b = self;
        if n > 0 {
            b.max_size = n;
        }
        b
    }

    /// Sets how long an entry stays valid after being written, in
    /// nanoseconds. Zero leaves the setting unchanged.
    pub fn ttl(self, ttl: u128) -> (r: Self)
        ensures
            r.ttl_setting() == if ttl > 0 {
                ttl
            } else {
                self.ttl_setting()
            },
            r.max_size_setting() == self.max_size_setting(),
    {
        let mut b = self;
        if ttl > 0 {
            b.ttl = ttl;
        }
        b
    }

    /// Builds the cache, empty, with the configured maximum size (the
    /// default when none was set) and TTL.
    pub fn build(self) -> (r: InMemoryCache)
        ensures
            r.wf(),
            r.entries() == Seq::<(Seq<char>, CacheEntry)>::empty(),
            r.capacity() == if self.max_size_setting() > 0 {
                self.max_size_setting()
            } else {
                DEFAULT_CACHE_MAX_SIZE
            },
            r.ttl_nanos() == self.ttl_setting(),
    {
        let capacity = if self.max_size > 0 {
            self.max_size
        } else {
            DEFAULT_CACHE_MAX_SIZE
        };
        InMemoryCache { ttl: self.ttl, entries: lru_new(capacity) }
    }
}

} // verus!
