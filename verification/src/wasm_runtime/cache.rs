//! Compiled WASM module cache.
//!
//! Compiling a module is CPU-intensive. This cache keeps a bounded number of
//! compiled modules in memory, each for a limited time, so they can be reused
//! across requests without compiling from bytes each time.

use std::num::NonZeroUsize;
use std::sync::Arc;
use std::time::Instant;

use lru::LruCache;
use vstd::prelude::*;
use wasmtime::Module;

use super::engine::{is_binary_form, is_valid_wasm, module_engine, program_of, Program, WasmEngine};
use super::sandbox::{not_compiled, WasmError};
use crate::clock::{may_be_nanos_since, may_be_now, nanos_since};
use crate::table::{distinct_keys, has_key, key_index, lemma_key_index, law_lookup_removed, lookup, removed};

verus! {

/// An entry stored in the [`CompiledModuleCache`].
pub struct CachedModule {
    /// The compiled module, shared with those who run it.
    pub module: Arc<Module>,
    /// When this entry was inserted (or refreshed after it expired).
    pub cached_at: Instant,
    /// Number of times this entry has been returned from the cache.
    pub hit_count: u64,
    /// Size of the original WASM bytes that produced this module.
    pub wasm_bytes: usize,
}

// ── The LRU list ───────────────────────────────────────────────────────────

/// `lru::LruCache`, a bounded map that forgets what was least recently used.
#[verifier::external_type_specification]
#[verifier::external_body]
#[verifier::reject_recursive_types(K)]
#[verifier::reject_recursive_types(V)]
#[verifier::reject_recursive_types(S)]
pub struct ExLruCache<K, V, S>(lru::LruCache<K, V, S>);

/// `lru::DefaultHasher`, the hasher of an `lru::LruCache`.
#[verifier::external_type_specification]
#[verifier::external_body]
pub struct ExDefaultHasher(lru::DefaultHasher);

/// The entries of a cache, most recently used first.
pub uninterp spec fn lru_entries(list: LruCache<String, CachedModule>) -> Seq<(Seq<char>, CachedModule)>;

/// The most entries that a cache holds.
pub uninterp spec fn lru_capacity(list: LruCache<String, CachedModule>) -> nat;

/// `lru::LruCache::new` makes an empty cache that holds at most `capacity`
/// entries. It reserves room for all of them: the upper bound keeps that within
/// what can be allocated.
#[verifier::external_body]
fn lru_new(capacity: usize) -> (list: LruCache<String, CachedModule>)
    requires
        0 < capacity <= usize::MAX / 128,
    ensures
        lru_entries(list) == Seq::<(Seq<char>, CachedModule)>::empty(),
        lru_capacity(list) == capacity,
{
    LruCache::new(NonZeroUsize::new(capacity).unwrap())
}

/// `lru::LruCache::len` gives the number of entries.
#[verifier::external_body]
fn lru_len(list: &LruCache<String, CachedModule>) -> (n: usize)
    ensures
        n == lru_entries(*list).len(),
{
    list.len()
}

/// `lru::LruCache::cap` gives the most entries that the cache holds.
#[verifier::external_body]
fn lru_cap(list: &LruCache<String, CachedModule>) -> (n: usize)
    ensures
        n == lru_capacity(*list),
{
    list.cap().get()
}

/// `lru::LruCache::peek` finds the value of a key and changes nothing.
#[verifier::external_body]
fn lru_peek<'a>(list: &'a LruCache<String, CachedModule>, key: &str) -> (r: Option<&'a CachedModule>)
    ensures
        match r {
            Some(entry) => lookup(lru_entries(*list), key@) == Some(*entry),
            None => lookup(lru_entries(*list), key@) is None,
        },
{
    list.peek(key)
}

/// `lru::LruCache::peek_lru` finds the value that was least recently used and
/// changes nothing.
#[verifier::external_body]
fn lru_peek_last<'a>(list: &'a LruCache<String, CachedModule>) -> (r: Option<&'a CachedModule>)
    ensures
        match r {
            Some(entry) => lru_entries(*list).len() > 0 && lru_entries(*list).last().1 == *entry,
            None => lru_entries(*list).len() == 0,
        },
{
    list.peek_lru().map(|entry| entry.1)
}

/// `lru::LruCache::get_mut` finds the value of a key, to be changed in place,
/// and makes it the most recently used one.
#[verifier::external_body]
fn lru_get_mut<'a>(list: &'a mut LruCache<String, CachedModule>, key: &str) -> (r: Option<&'a mut CachedModule>)
    ensures
        lru_capacity(*final(list)) == lru_capacity(*old(list)),
        match r {
            Some(entry) => {
                &&& lookup(lru_entries(*old(list)), key@) == Some(*entry)
                &&& lru_entries(*final(list)) == fronted(lru_entries(*old(list)), key@, *final(entry))
            },
            None => {
                &&& lookup(lru_entries(*old(list)), key@) is None
                &&& lru_entries(*final(list)) == lru_entries(*old(list))
            },
        },
{
    list.get_mut(key)
}

/// `lru::LruCache::pop` removes a key and gives the value that it had.
#[verifier::external_body]
fn lru_pop(list: &mut LruCache<String, CachedModule>, key: &str) -> (r: Option<CachedModule>)
    ensures
        lru_capacity(*final(list)) == lru_capacity(*old(list)),
        r == lookup(lru_entries(*old(list)), key@),
        lru_entries(*final(list)) == removed(lru_entries(*old(list)), key@),
{
    list.pop(key)
}

/// `lru::LruCache::put` stores a value as the most recently used one. It gives
/// back the value that the key had before. If the key is new and the cache is
/// full, the least recently used entry is dropped.
#[verifier::external_body]
fn lru_put(list: &mut LruCache<String, CachedModule>, key: String, value: CachedModule) -> (r: Option<CachedModule>)
    ensures
        lru_capacity(*final(list)) == lru_capacity(*old(list)),
        r == lookup(lru_entries(*old(list)), key@),
        lru_entries(*final(list)) == put_front(lru_entries(*old(list)), lru_capacity(*old(list)), key@, value),
{
    list.put(key, value)
}

/// `s` with `value` under `key` in front, in place of the entry that the key
/// had.
pub open spec fn fronted(s: Seq<(Seq<char>, CachedModule)>, key: Seq<char>, value: CachedModule) -> Seq<
    (Seq<char>, CachedModule),
> {
    seq![(key, value)] + removed(s, key)
}

/// `s` with `value` under `key` in front; the last entry leaves if there would
/// be more than `capacity` entries.
pub open spec fn put_front(s: Seq<(Seq<char>, CachedModule)>, capacity: nat, key: Seq<char>, value: CachedModule) -> Seq<
    (Seq<char>, CachedModule),
> {
    if !has_key(s, key) && s.len() == capacity {
        seq![(key, value)] + s.drop_last()
    } else {
        fronted(s, key, value)
    }
}

// ── The cache ──────────────────────────────────────────────────────────────

/// Snapshot statistics returned by [`CompiledModuleCache::stats`].
#[derive(Debug, Clone, Copy, PartialEq, Eq, Structural)]
pub struct CacheStats {
    /// Current number of entries in the cache.
    pub size: usize,
    /// Total successful cache lookups.
    pub hits: u64,
    /// Total cache misses (compilations triggered).
    pub misses: u64,
    /// Total entries evicted (LRU overflow or expiry).
    pub evictions: u64,
    /// Sum of original WASM byte sizes for all currently cached modules.
    pub total_wasm_bytes: u64,
}

impl Default for CacheStats {
    fn default() -> (stats: Self)
        ensures
            stats == (CacheStats { size: 0, hits: 0, misses: 0, evictions: 0, total_wasm_bytes: 0 }),
    {
        CacheStats { size: 0, hits: 0, misses: 0, evictions: 0, total_wasm_bytes: 0 }
    }
}

/// LRU cache of compiled modules.
///
/// Create a single instance per process and share it across request handlers
/// behind a lock.
pub struct CompiledModuleCache {
    engine: Arc<WasmEngine>,
    list: LruCache<String, CachedModule>,
    hits: u64,
    misses: u64,
    evictions: u64,
    total_wasm_bytes: u64,
    ttl_nanos: u128,
}

/// What a [`CompiledModuleCache`] holds.
pub struct CacheView {
    /// The engine that compiles modules.
    pub engine: Arc<WasmEngine>,
    /// The entries, most recently used first.
    pub entries: Seq<(Seq<char>, CachedModule)>,
    /// The most entries that the cache holds.
    pub capacity: nat,
    /// How long an entry stays valid, in nanoseconds.
    pub ttl_nanos: u128,
    pub hits: u64,
    pub misses: u64,
    pub evictions: u64,
}

impl View for CompiledModuleCache {
    type V = CacheView;

    closed spec fn view(&self) -> CacheView {
        CacheView {
            engine: self.engine,
            entries: lru_entries(self.list),
            capacity: lru_capacity(self.list),
            ttl_nanos: self.ttl_nanos,
            hits: self.hits,
            misses: self.misses,
            evictions: self.evictions,
        }
    }
}

/// The sum of the sizes of the WASM bytes of all entries.
pub open spec fn total_bytes(entries: Seq<(Seq<char>, CachedModule)>) -> int
    decreases entries.len(),
{
    if entries.len() == 0 {
        0
    } else {
        total_bytes(entries.drop_last()) + entries.last().1.wasm_bytes
    }
}

impl CacheView {
    /// No key occurs twice, the capacity is kept to, no entry was returned more
    /// often than there were hits, and every module can run on the cache's engine.
    pub open spec fn valid(self) -> bool {
        &&& distinct_keys(self.entries)
        &&& self.entries.len() <= self.capacity
        &&& 0 < self.capacity
        &&& forall|i: int| 0 <= i < self.entries.len() ==> self.fits((#[trigger] self.entries[i]).1)
    }

    /// Whether an entry can be in this cache: it was not returned more often than
    /// there were hits, and its module can run on the cache's engine.
    pub open spec fn fits(self, entry: CachedModule) -> bool {
        entry.hit_count <= self.hits && module_engine(*entry.module) == self.engine.handle()
    }

    /// Whether the entry of `key` can be `age` nanoseconds old; where there is no
    /// entry the age is zero.
    pub open spec fn may_be_age(self, key: Seq<char>, age: u128) -> bool {
        match lookup(self.entries, key) {
            Some(entry) => may_be_nanos_since(entry.cached_at, age),
            None => age == 0,
        }
    }

    /// The cache once `key` has been looked up, `age` nanoseconds after its
    /// entry was inserted. An entry that is not older than the time to live is
    /// returned and becomes the most recently used one; an older one is
    /// evicted.
    pub open spec fn looked_up(self, key: Seq<char>, age: u128) -> CacheView {
        match lookup(self.entries, key) {
            Some(entry) => if age <= self.ttl_nanos {
                CacheView {
                    entries: fronted(
                        self.entries,
                        key,
                        CachedModule { hit_count: (entry.hit_count + 1) as u64, ..entry },
                    ),
                    hits: (self.hits + 1) as u64,
                    ..self
                }
            } else {
                CacheView {
                    entries: removed(self.entries, key),
                    evictions: (self.evictions + 1) as u64,
                    ..self
                }
            },
            None => self,
        }
    }

    /// The module that a lookup of `key` finds.
    pub open spec fn found(self, key: Seq<char>, age: u128) -> Option<Arc<Module>> {
        match lookup(self.entries, key) {
            Some(entry) => if age <= self.ttl_nanos {
                Some(entry.module)
            } else {
                None
            },
            None => None,
        }
    }

    /// The cache once a lookup that found nothing has been counted as a miss.
    pub open spec fn missed(self) -> CacheView {
        CacheView { misses: (self.misses + 1) as u64, ..self }
    }

    /// The cache once `entry` has been inserted under `key`.
    pub open spec fn inserted(self, key: Seq<char>, entry: CachedModule) -> CacheView {
        CacheView {
            entries: put_front(self.entries, self.capacity, key, entry),
            evictions: if !has_key(self.entries, key) && self.entries.len() == self.capacity {
                (self.evictions + 1) as u64
            } else {
                self.evictions
            },
            ..self
        }
    }

    /// What serving `key` from the cache, or else from a compilation of `bytes`
    /// that ended at `now`, can give and make of the cache.
    pub open spec fn served(
        self,
        after: CacheView,
        key: Seq<char>,
        bytes: Seq<u8>,
        age: u128,
        now: Instant,
        r: Result<Arc<Module>, WasmError>,
    ) -> bool {
        match self.found(key, age) {
            Some(module) => r is Ok && r->Ok_0 == module && after == self.looked_up(key, age),
            None => {
                let missed = self.looked_up(key, age).missed();
                match r {
                    Ok(module) => {
                        &&& program_of(*module) == (Program { bytes, engine: self.engine.handle() })
                        &&& is_binary_form(bytes) ==> is_valid_wasm(bytes)
                        &&& may_be_now(now)
                        &&& after == missed.inserted(
                            key,
                            CachedModule { module, cached_at: now, hit_count: 0, wasm_bytes: bytes.len() as usize },
                        )
                    },
                    Err(_) => not_compiled(self.engine.handle(), bytes, r) && after == missed,
                }
            },
        }
    }

    /// The cache once the entry of `key` has been removed.
    pub open spec fn invalidated(self, key: Seq<char>) -> CacheView {
        CacheView { entries: removed(self.entries, key), ..self }
    }
}

proof fn lemma_total_add(a: Seq<(Seq<char>, CachedModule)>, b: Seq<(Seq<char>, CachedModule)>)
    ensures
        total_bytes(a + b) == total_bytes(a) + total_bytes(b),
    decreases b.len(),
{
    if b.len() == 0 {
        assert(a + b =~= a);
    } else {
        assert((a + b).drop_last() =~= a + b.drop_last());
        lemma_total_add(a, b.drop_last());
    }
}

proof fn lemma_total_one(key: Seq<char>, entry: CachedModule)
    ensures
        total_bytes(seq![(key, entry)]) == entry.wasm_bytes,
{
    assert(seq![(key, entry)].drop_last() =~= Seq::<(Seq<char>, CachedModule)>::empty());
    assert(total_bytes(Seq::<(Seq<char>, CachedModule)>::empty()) == 0);
}

proof fn lemma_total_removed(s: Seq<(Seq<char>, CachedModule)>, key: Seq<char>)
    requires
        has_key(s, key),
    ensures
        total_bytes(removed(s, key)) == total_bytes(s) - lookup(s, key)->0.wasm_bytes,
{
    let p = key_index(s, key);
    assert(0 <= p < s.len() && s[p].0 == key);
    let head = s.take(p);
    let tail = s.skip(p + 1);
    assert(s =~= head + seq![s[p]] + tail);
    assert(removed(s, key) =~= head + tail);
    lemma_total_add(head + seq![s[p]], tail);
    lemma_total_add(head, seq![s[p]]);
    lemma_total_add(head, tail);
    lemma_total_one(s[p].0, s[p].1);
    assert(seq![s[p]] =~= seq![(s[p].0, s[p].1)]);
}

proof fn lemma_total_bounds(s: Seq<(Seq<char>, CachedModule)>)
    ensures
        total_bytes(s) >= 0,
        forall|i: int| 0 <= i < s.len() ==> (#[trigger] s[i]).1.wasm_bytes <= total_bytes(s),
    decreases s.len(),
{
    if s.len() > 0 {
        lemma_total_bounds(s.drop_last());
        assert forall|i: int| 0 <= i < s.len() implies (#[trigger] s[i]).1.wasm_bytes <= total_bytes(s) by {
            if i < s.len() - 1 {
                assert(s.drop_last()[i] == s[i]);
            }
        }
    }
}

proof fn lemma_fronted_distinct(s: Seq<(Seq<char>, CachedModule)>, key: Seq<char>, entry: CachedModule)
    requires
        distinct_keys(s),
    ensures
        distinct_keys(fronted(s, key, entry)),
        forall|i: int| 0 <= i < removed(s, key).len() ==> s.contains(#[trigger] removed(s, key)[i]),
        has_key(s, key) ==> fronted(s, key, entry).len() == s.len(),
        !has_key(s, key) ==> fronted(s, key, entry).len() == s.len() + 1,
{
    let rest = removed(s, key);
    let t = fronted(s, key, entry);
    law_lookup_removed(s, key, key);
    if has_key(s, key) {
        let p = key_index(s, key);
        assert(0 <= p < s.len() && s[p].0 == key);
    }
    assert forall|i: int| 0 <= i < rest.len() implies s.contains(#[trigger] rest[i]) && rest[i].0 != key by {
        if has_key(s, key) {
            let p = key_index(s, key);
            let j = if i < p { i } else { i + 1 };
            assert(rest[i] == s[j]);
        } else {
            assert(rest[i] == s[i]);
        }
        if rest[i].0 == key {
            assert(has_key(rest, key));
            assert(lookup(rest, key) is Some);
        }
    }
    assert forall|i: int, j: int| 0 <= i < t.len() && 0 <= j < t.len() && (#[trigger] t[i]).0 == (#[trigger] t[j]).0 implies i
        == j by {
        if i > 0 {
            assert(t[i] == rest[i - 1]);
        }
        if j > 0 {
            assert(t[j] == rest[j - 1]);
        }
    }
}

proof fn lemma_pushed_out_distinct(s: Seq<(Seq<char>, CachedModule)>, key: Seq<char>, entry: CachedModule)
    requires
        distinct_keys(s),
        !has_key(s, key),
        s.len() > 0,
    ensures
        distinct_keys(seq![(key, entry)] + s.drop_last()),
{
    let t = seq![(key, entry)] + s.drop_last();
    assert forall|i: int, j: int| 0 <= i < t.len() && 0 <= j < t.len() && (#[trigger] t[i]).0 == (#[trigger] t[j]).0 implies i
        == j by {
        if i > 0 {
            assert(t[i] == s[i - 1]);
        }
        if j > 0 {
            assert(t[j] == s[j - 1]);
        }
    }
}

proof fn lemma_invalidated_valid(c: CacheView, key: Seq<char>)
    requires
        c.valid(),
    ensures
        c.invalidated(key).valid(),
{
    let s = c.entries;
    law_lookup_removed(s, key, key);
    let after = c.invalidated(key);
    if has_key(s, key) {
        let p = key_index(s, key);
        assert(0 <= p < s.len() && s[p].0 == key);
        assert forall|i: int| 0 <= i < after.entries.len() implies after.fits((#[trigger] after.entries[i]).1) by {
            let j = if i < p { i } else { i + 1 };
            assert(after.entries[i] == s[j]);
        }
    }
}

/// A lookup, an insertion and an invalidation keep a cache valid.
pub proof fn law_cache_stays_valid(c: CacheView, key: Seq<char>, age: u128, entry: CachedModule)
    requires
        c.valid(),
        entry.hit_count == 0,
        module_engine(*entry.module) == c.engine.handle(),
    ensures
        c.hits < u64::MAX ==> c.looked_up(key, age).valid(),
        c.inserted(key, entry).valid(),
        c.invalidated(key).valid(),
{
    let s = c.entries;
    law_lookup_removed(s, key, key);
    lemma_fronted_distinct(s, key, entry);
    if has_key(s, key) {
        let p = key_index(s, key);
        assert(0 <= p < s.len() && s[p].0 == key);
        let found = s[p].1;
        lemma_fronted_distinct(s, key, CachedModule { hit_count: (found.hit_count + 1) as u64, ..found });
    } else if s.len() == c.capacity {
        lemma_pushed_out_distinct(s, key, entry);
    }
    let after = c.looked_up(key, age);
    assert forall|i: int| c.hits < u64::MAX && 0 <= i < after.entries.len() implies after.fits(
        (#[trigger] after.entries[i]).1,
    ) by {
        if has_key(s, key) && age <= c.ttl_nanos {
            if i > 0 {
                assert(after.entries[i] == removed(s, key)[i - 1]);
            }
        } else if has_key(s, key) {
            assert(after.entries[i] == removed(s, key)[i]);
        }
    }
    let after = c.inserted(key, entry);
    assert forall|i: int| 0 <= i < after.entries.len() implies after.fits((#[trigger] after.entries[i]).1) by {
        if i > 0 {
            if !has_key(s, key) && s.len() == c.capacity {
                assert(after.entries[i] == s[i - 1]);
            } else {
                assert(after.entries[i] == removed(s, key)[i - 1]);
            }
        }
    }
    lemma_invalidated_valid(c, key);
}

impl CompiledModuleCache {
    /// The running total of the sizes of the WASM bytes of all entries.
    pub closed spec fn running_total(&self) -> int {
        self.total_wasm_bytes as int
    }

    /// The cache is valid, and the running total is the sum over its entries.
    pub open spec fn wf(&self) -> bool {
        &&& self@.valid()
        &&& self.running_total() == total_bytes(self@.entries)
    }

    /// Whether every counter can still be increased.
    pub open spec fn can_count(&self) -> bool {
        &&& self@.hits < u64::MAX
        &&& self@.misses < u64::MAX
        &&& self@.evictions < u64::MAX
    }

    /// Create a new cache.
    ///
    /// * `max_size` — maximum number of compiled modules kept in memory.
    ///   When full, the least-recently-used entry is evicted.
    /// * `ttl_secs` — entries older than this are treated as expired and
    ///   recompiled on next access.
    pub fn new(engine: Arc<WasmEngine>, max_size: usize, ttl_secs: u64) -> (cache: Self)
        requires
            max_size <= usize::MAX / 128,
        ensures
            cache.wf(),
            cache@.engine == engine,
            cache@.entries.len() == 0,
            cache@.capacity == (if max_size == 0 { 1nat } else { max_size as nat }),
            cache@.ttl_nanos == ttl_secs * 1_000_000_000,
            cache@.hits == 0 && cache@.misses == 0 && cache@.evictions == 0,
    {
        assert(ttl_secs * 1_000_000_000 <= u128::MAX);
        Self::new_with_ttl(engine, max_size, ttl_secs as u128 * 1_000_000_000)
    }

    /// Like [`new`](Self::new) but takes the time to live in nanoseconds.
    pub fn new_with_ttl(engine: Arc<WasmEngine>, max_size: usize, ttl_nanos: u128) -> (cache: Self)
        requires
            max_size <= usize::MAX / 128,
        ensures
            cache.wf(),
            cache@.engine == engine,
            cache@.entries.len() == 0,
            cache@.capacity == (if max_size == 0 { 1nat } else { max_size as nat }),
            cache@.ttl_nanos == ttl_nanos,
            cache@.hits == 0 && cache@.misses == 0 && cache@.evictions == 0,
    {
        let capacity: usize = if max_size == 0 { 1 } else { max_size };
        CompiledModuleCache {
            engine,
            list: lru_new(capacity),
            hits: 0,
            misses: 0,
            evictions: 0,
            total_wasm_bytes: 0,
            ttl_nanos,
        }
    }

    /// The nanoseconds since the entry of `key` was inserted; zero if there is
    /// none.
    fn age_of(&self, key: &str) -> (age: u128)
        ensures
            self@.may_be_age(key@, age),
    {
        match lru_peek(&self.list, key) {
            Some(entry) => nanos_since(&entry.cached_at),
            None => 0,
        }
    }

    /// Return a cached module for `key` if one exists and has not expired.
    ///
    /// Unlike [`get_or_compile`](Self::get_or_compile), this never triggers
    /// compilation. Updates the hit count on a hit but does not count a miss.
    pub fn get_cached(&mut self, key: &str) -> (r: Option<Arc<Module>>)
        requires
            old(self).wf(),
            old(self).can_count(),
        ensures
            final(self).wf(),
            exists|age: u128|
                {
                    &&& old(self)@.may_be_age(key@, age)
                    &&& r == #[trigger] old(self)@.found(key@, age)
                    &&& final(self)@ == old(self)@.looked_up(key@, age)
                },
    {
        let age: u128 = self.age_of(key);
        let r = self.get_cached_at_age(key, age);
        assert(r == old(self)@.found(key@, age));
        r
    }

    /// [`get_cached`](Self::get_cached) when the entry of `key`, if there is
    /// one, is `age` nanoseconds old.
    pub fn get_cached_at_age(&mut self, key: &str, age: u128) -> (r: Option<Arc<Module>>)
        requires
            old(self).wf(),
            old(self).can_count(),
        ensures
            final(self).wf(),
            r == old(self)@.found(key@, age),
            final(self)@ == old(self)@.looked_up(key@, age),
    {
        let ghost before = self@;
        let ghost s = self@.entries;
        proof {
            if has_key(s, key@) {
                let p = key_index(s, key@);
                assert(0 <= p < s.len() && s[p].0 == key@);
                lemma_total_removed(s, key@);
                lemma_total_bounds(s);
                lemma_total_bounds(removed(s, key@));
                let entry = s[p].1;
                let hit = CachedModule { hit_count: (entry.hit_count + 1) as u64, ..entry };
                lemma_total_add(seq![(key@, hit)], removed(s, key@));
                lemma_total_one(key@, hit);
                law_cache_stays_valid(before, key@, age, CachedModule { hit_count: 0, ..entry });
            }
        }
        if age <= self.ttl_nanos {
            match lru_get_mut(&mut self.list, key) {
                Some(entry) => {
                    entry.hit_count = entry.hit_count + 1;
                    let module = Arc::clone(&entry.module);
                    self.hits = self.hits + 1;
                    Some(module)
                },
                None => None,
            }
        } else {
            if let Some(evicted) = lru_pop(&mut self.list, key) {
                self.total_wasm_bytes = self.total_wasm_bytes - evicted.wasm_bytes as u64;
                self.evictions = self.evictions + 1;
            }
            None
        }
    }

    /// The first part of [`get_or_compile`](Self::get_or_compile): the cached
    /// module, or else a miss is counted.
    pub fn look_up(&mut self, key: &str) -> (r: Option<Arc<Module>>)
        requires
            old(self).wf(),
            old(self).can_count(),
        ensures
            final(self).wf(),
            exists|age: u128|
                {
                    &&& old(self)@.may_be_age(key@, age)
                    &&& r == #[trigger] old(self)@.found(key@, age)
                    &&& final(self)@ == (if r is Some {
                        old(self)@.looked_up(key@, age)
                    } else {
                        old(self)@.looked_up(key@, age).missed()
                    })
                },
    {
        let age: u128 = self.age_of(key);
        let r = self.look_up_at_age(key, age);
        assert(r == old(self)@.found(key@, age));
        r
    }

    /// [`look_up`](Self::look_up) when the entry of `key`, if there is one, is
    /// `age` nanoseconds old.
    pub fn look_up_at_age(&mut self, key: &str, age: u128) -> (r: Option<Arc<Module>>)
        requires
            old(self).wf(),
            old(self).can_count(),
        ensures
            final(self).wf(),
            r == old(self)@.found(key@, age),
            final(self)@ == (if r is Some {
                old(self)@.looked_up(key@, age)
            } else {
                old(self)@.looked_up(key@, age).missed()
            }),
    {
        let r = self.get_cached_at_age(key, age);
        if r.is_none() {
            self.misses = self.misses + 1;
        }
        r
    }

    /// The last part of [`get_or_compile`](Self::get_or_compile): stores a
    /// module that was compiled from `wasm_bytes` bytes.
    pub fn insert(&mut self, key: &str, module: Arc<Module>, wasm_bytes: usize)
        requires
            old(self).wf(),
            old(self)@.evictions < u64::MAX,
            module_engine(*module) == old(self)@.engine.handle(),
            total_bytes(old(self)@.entries) + wasm_bytes <= u64::MAX,
        ensures
            final(self).wf(),
            exists|now: Instant|
                may_be_now(now) && final(self)@ == #[trigger] old(self)@.inserted(
                    key@,
                    CachedModule { module, cached_at: now, hit_count: 0, wasm_bytes },
                ),
    {
        let now = Instant::now();
        self.insert_at(key, module, wasm_bytes, now)
    }

    /// [`insert`](Self::insert) at the time `now`.
    pub fn insert_at(&mut self, key: &str, module: Arc<Module>, wasm_bytes: usize, now: Instant)
        requires
            old(self).wf(),
            old(self)@.evictions < u64::MAX,
            module_engine(*module) == old(self)@.engine.handle(),
            total_bytes(old(self)@.entries) + wasm_bytes <= u64::MAX,
        ensures
            final(self).wf(),
            final(self)@ == old(self)@.inserted(
                key@,
                CachedModule { module, cached_at: now, hit_count: 0, wasm_bytes },
            ),
    {
        let entry = CachedModule { module, cached_at: now, hit_count: 0, wasm_bytes };
        let ghost before = self@;
        let ghost s = self@.entries;
        proof {
            law_cache_stays_valid(before, key@, 0, entry);
            lemma_total_one(key@, entry);
            lemma_total_bounds(s);
            lemma_total_add(seq![(key@, entry)], removed(s, key@));
            if has_key(s, key@) {
                lemma_total_removed(s, key@);
                lemma_total_bounds(removed(s, key@));
                let p = key_index(s, key@);
                assert(0 <= p < s.len() && s[p].0 == key@);
            }
            if s.len() > 0 {
                lemma_total_add(seq![(key@, entry)], s.drop_last());
                lemma_total_bounds(s.drop_last());
            }
        }
        let full = lru_len(&self.list) == lru_cap(&self.list);
        let last: u64 = match lru_peek_last(&self.list) {
            Some(entry) => entry.wasm_bytes as u64,
            None => 0,
        };
        match lru_put(&mut self.list, key.to_string(), entry) {
            Some(replaced) => {
                self.total_wasm_bytes = self.total_wasm_bytes - replaced.wasm_bytes as u64;
            },
            None => {
                if full {
                    self.total_wasm_bytes = self.total_wasm_bytes - last;
                    self.evictions = self.evictions + 1;
                }
            },
        }
        self.total_wasm_bytes = self.total_wasm_bytes + wasm_bytes as u64;
    }

    /// Return the cached module for `key`, compiling from `wasm_bytes` if the
    /// key is absent or has expired.
    pub fn get_or_compile(&mut self, key: &str, wasm_bytes: &[u8]) -> (r: Result<Arc<Module>, WasmError>)
        requires
            old(self).wf(),
            old(self)@.hits < u64::MAX,
            old(self)@.misses < u64::MAX,
            old(self)@.evictions < u64::MAX - 1,
            total_bytes(old(self)@.entries) + wasm_bytes@.len() <= u64::MAX,
        ensures
            final(self).wf(),
            exists|age: u128, now: Instant|
                old(self)@.may_be_age(key@, age) && #[trigger] old(self)@.served(
                    final(self)@,
                    key@,
                    wasm_bytes@,
                    age,
                    now,
                    r,
                ),
    {
        let age: u128 = self.age_of(key);
        if let Some(module) = self.look_up_at_age(key, age) {
            let r = Ok(module);
            assert(old(self)@.served(self@, key@, wasm_bytes@, age, arbitrary(), r));
            return r;
        }
        proof {
            let s = old(self)@.entries;
            if has_key(s, key@) {
                lemma_total_removed(s, key@);
            }
        }
        match self.engine.compile(wasm_bytes) {
            Ok(compiled) => {
                let module = Arc::new(compiled);
                let now = Instant::now();
                self.insert_at(key, Arc::clone(&module), wasm_bytes.len(), now);
                let r = Ok(module);
                assert(old(self)@.served(self@, key@, wasm_bytes@, age, now, r));
                r
            },
            Err(message) => {
                let r = Err(WasmError::CompilationFailed(message));
                assert(old(self)@.served(self@, key@, wasm_bytes@, age, arbitrary(), r));
                r
            },
        }
    }

    /// Remove the entry for `key` from the cache (no-op if absent).
    pub fn invalidate(&mut self, key: &str)
        requires
            old(self).wf(),
        ensures
            final(self).wf(),
            final(self)@ == old(self)@.invalidated(key@),
    {
        let ghost s = self@.entries;
        proof {
            law_lookup_removed(s, key@, key@);
            if has_key(s, key@) {
                lemma_total_removed(s, key@);
                lemma_total_bounds(removed(s, key@));
            }
            lemma_invalidated_valid(self@, key@);
        }
        if let Some(dropped) = lru_pop(&mut self.list, key) {
            self.total_wasm_bytes = self.total_wasm_bytes - dropped.wasm_bytes as u64;
        }
    }

    /// The engine that compiles modules for this cache.
    pub fn engine(&self) -> (engine: Arc<WasmEngine>)
        ensures
            engine == self@.engine,
    {
        Arc::clone(&self.engine)
    }

    /// Return a point-in-time snapshot of cache statistics.
    pub fn stats(&self) -> (stats: CacheStats)
        requires
            self.wf(),
        ensures
            stats.size == self@.entries.len(),
            stats.hits == self@.hits,
            stats.misses == self@.misses,
            stats.evictions == self@.evictions,
            stats.total_wasm_bytes == total_bytes(self@.entries),
    {
        CacheStats {
            size: lru_len(&self.list),
            hits: self.hits,
            misses: self.misses,
            evictions: self.evictions,
            total_wasm_bytes: self.total_wasm_bytes,
        }
    }
}

/// A module that was inserted is found again as long as it is not older than
/// the time to live, and no longer after that.
pub proof fn law_inserted_module_is_found(c: CacheView, key: Seq<char>, entry: CachedModule, age: u128)
    requires
        c.valid(),
        entry.hit_count == 0,
        module_engine(*entry.module) == c.engine.handle(),
    ensures
        c.inserted(key, entry).found(key, age) == (if age <= c.ttl_nanos {
            Some(entry.module)
        } else {
            None
        }),
{
    law_cache_stays_valid(c, key, age, entry);
    let after = c.inserted(key, entry).entries;
    assert(after[0] == (key, entry));
    lemma_key_index(after, 0);
}

/// Every module that a lookup finds can run on the cache's engine.
pub proof fn law_found_module_is_of_the_engine(c: CacheView, key: Seq<char>, age: u128)
    requires
        c.valid(),
        c.found(key, age) is Some,
    ensures
        module_engine(*c.found(key, age)->0) == c.engine.handle(),
{
    let p = key_index(c.entries, key);
    assert(0 <= p < c.entries.len() && c.entries[p].0 == key);
    assert(c.fits(c.entries[p].1));
}

/// A lookup that finds an entry too old removes it: the next lookup finds
/// nothing, whatever the clock says. Nor is anything found under a key that was
/// invalidated.
pub proof fn law_expired_and_invalidated_are_gone(c: CacheView, key: Seq<char>, age: u128, later: u128)
    requires
        c.valid(),
    ensures
        age > c.ttl_nanos ==> c.looked_up(key, age).found(key, later) is None,
        c.invalidated(key).found(key, later) is None,
{
    law_lookup_removed(c.entries, key, key);
}

/// Inserting a new key into a full cache removes the entry that was least
/// recently used, and no other.
pub proof fn law_full_cache_drops_least_recently_used(c: CacheView, key: Seq<char>, entry: CachedModule, i: int)
    requires
        c.valid(),
        c.entries.len() == c.capacity,
        !has_key(c.entries, key),
        entry.hit_count == 0,
        module_engine(*entry.module) == c.engine.handle(),
        0 <= i < c.entries.len(),
    ensures
        lookup(c.inserted(key, entry).entries, c.entries[i].0) == (if i == c.entries.len() - 1 {
            None
        } else {
            Some(c.entries[i].1)
        }),
        c.inserted(key, entry).evictions == (c.evictions + 1) as u64,
{
    law_cache_stays_valid(c, key, 0, entry);
    let s = c.entries;
    let after = c.inserted(key, entry).entries;
    if i < s.len() - 1 {
        assert(after[i + 1] == s[i]);
        lemma_key_index(after, i + 1);
    } else if has_key(after, s[i].0) {
        let j = key_index(after, s[i].0);
        if j > 0 {
            assert(after[j] == s[j - 1]);
        } else {
            assert(after[0].0 == key);
            assert(has_key(s, key));
        }
    }
}

/// An entry that a lookup has just returned survives the next insertion, unless
/// the cache holds one entry only.
pub proof fn law_recently_used_survives(c: CacheView, key: Seq<char>, age: u128, other: Seq<char>, entry: CachedModule)
    requires
        c.valid(),
        c.hits < u64::MAX,
        c.found(key, age) is Some,
        other != key,
        entry.hit_count == 0,
        module_engine(*entry.module) == c.engine.handle(),
        c.capacity > 1,
    ensures
        c.looked_up(key, age).inserted(other, entry).found(key, age) == c.found(key, age),
{
    law_cache_stays_valid(c, key, age, entry);
    let mid = c.looked_up(key, age);
    law_cache_stays_valid(mid, other, age, entry);
    let s = mid.entries;
    let after = mid.inserted(other, entry).entries;
    assert(s[0].0 == key);
    if has_key(s, other) {
        let p = key_index(s, other);
        assert(0 <= p < s.len() && s[p].0 == other);
        assert(removed(s, other)[0] == s[0]);
    }
    assert(after[1] == s[0]);
    lemma_key_index(after, 1);
}

/// Serving a key twice in a row from a cache compiles at most once: after the
/// first time the module is found, as long as it is not older than the time to
/// live.
pub proof fn law_served_once_is_cached(
    c: CacheView,
    after: CacheView,
    key: Seq<char>,
    bytes: Seq<u8>,
    age: u128,
    now: Instant,
    r: Result<Arc<Module>, WasmError>,
    later: u128,
)
    requires
        c.valid(),
        c.hits < u64::MAX,
        c.served(after, key, bytes, age, now, r),
        r is Ok,
        later <= c.ttl_nanos,
    ensures
        after.found(key, later) == Some(r->Ok_0),
{
    let entry = CachedModule { module: r->Ok_0, cached_at: now, hit_count: 0, wasm_bytes: bytes.len() as usize };
    law_cache_stays_valid(c, key, age, entry);
    if c.found(key, age) is Some {
        assert(after.entries[0].0 == key);
        lemma_key_index(after.entries, 0);
    } else {
        let missed = c.looked_up(key, age).missed();
        law_inserted_module_is_found(missed, key, entry, later);
    }
}

// ── A series of calls ──────────────────────────────────────────────────────

/// A call of the cache, with what decided it.
pub enum CacheCall {
    /// [`CompiledModuleCache::get_cached`].
    GetCached { key: Seq<char>, age: u128 },
    /// [`CompiledModuleCache::get_or_compile`].
    GetOrCompile { key: Seq<char>, bytes: Seq<u8>, age: u128, now: Instant, r: Result<Arc<Module>, WasmError> },
}

impl CacheCall {
    /// Whether the call takes a cache from one state to another.
    pub open spec fn takes(self, before: CacheView, after: CacheView) -> bool {
        match self {
            CacheCall::GetCached { key, age } => after == before.looked_up(key, age),
            CacheCall::GetOrCompile { key, bytes, age, now, r } => before.served(after, key, bytes, age, now, r),
        }
    }

    /// Whether the call counts as a hit or a miss: every `get_or_compile` does, and
    /// every `get_cached` that finds a module.
    pub open spec fn counts(self, before: CacheView) -> bool {
        match self {
            CacheCall::GetCached { key, age } => before.found(key, age) is Some,
            CacheCall::GetOrCompile { .. } => true,
        }
    }
}

/// Whether calls take a cache through a series of states.
pub open spec fn is_series(states: Seq<CacheView>, calls: Seq<CacheCall>) -> bool {
    &&& states.len() == calls.len() + 1
    &&& forall|i: int| 0 <= i < calls.len() ==> (#[trigger] calls[i]).takes(states[i], states[i + 1])
}

/// How many calls of a series count as a hit or a miss.
pub open spec fn counted(states: Seq<CacheView>, calls: Seq<CacheCall>) -> int
    decreases calls.len(),
{
    if calls.len() == 0 {
        0
    } else {
        counted(states.drop_last(), calls.drop_last()) + if calls.last().counts(states[calls.len() - 1]) {
            1int
        } else {
            0int
        }
    }
}

/// Over a series of calls, hits and misses together grow by one for each
/// `get_or_compile` and for each `get_cached` that finds a module; and the cache
/// stays valid, so it never holds more entries than its capacity.
pub proof fn law_hits_and_misses_add_up(states: Seq<CacheView>, calls: Seq<CacheCall>)
    requires
        is_series(states, calls),
        states[0].valid(),
        states[0].hits + states[0].misses + calls.len() < u64::MAX,
    ensures
        states.last().hits + states.last().misses == states[0].hits + states[0].misses + counted(states, calls),
        states.last().valid(),
        states.last().entries.len() <= states.last().capacity,
        states.last().capacity == states[0].capacity,
        0 <= counted(states, calls) <= calls.len(),
    decreases calls.len(),
{
    if calls.len() > 0 {
        let n = calls.len() as int;
        let init_states = states.drop_last();
        let init_calls = calls.drop_last();
        assert(is_series(init_states, init_calls)) by {
            assert forall|i: int| 0 <= i < init_calls.len() implies (#[trigger] init_calls[i]).takes(
                init_states[i],
                init_states[i + 1],
            ) by {
                assert(init_calls[i] == calls[i]);
            }
        }
        law_hits_and_misses_add_up(init_states, init_calls);
        let before = states[n - 1];
        let after = states[n];
        assert(init_states.last() == before);
        assert(calls[n - 1].takes(before, after));
        match calls[n - 1] {
            CacheCall::GetCached { key, age } => {
                lemma_looked_up_valid(before, key, age);
            },
            CacheCall::GetOrCompile { key, bytes, age, now, r } => {
                lemma_looked_up_valid(before, key, age);
                if before.found(key, age) is None && r is Ok {
                    let missed = before.looked_up(key, age).missed();
                    let entry = CachedModule {
                        module: r->Ok_0,
                        cached_at: now,
                        hit_count: 0,
                        wasm_bytes: bytes.len() as usize,
                    };
                    law_cache_stays_valid(missed, key, age, entry);
                }
            },
        }
    }
}

proof fn lemma_looked_up_valid(c: CacheView, key: Seq<char>, age: u128)
    requires
        c.valid(),
        c.hits < u64::MAX,
    ensures
        c.looked_up(key, age).valid(),
{
    match lookup(c.entries, key) {
        Some(entry) => {
            law_cache_stays_valid(c, key, age, CachedModule { hit_count: 0, ..entry });
        },
        None => {},
    }
}

// ── What each call does ────────────────────────────────────────────────────

/// A lookup finds the module of its key exactly if there is an entry that is not older than
/// the time to live. That counts as a hit, of the cache and of the entry, which becomes the
/// most recently used one and is otherwise the same. An older entry leaves the cache, which
/// counts as an eviction. No lookup changes what is held under another key.
pub proof fn law_lookup_finds_what_is_not_too_old(c: CacheView, key: Seq<char>, age: u128, other: Seq<char>)
    requires
        c.valid(),
        c.hits < u64::MAX,
        c.evictions < u64::MAX,
        other != key,
    ensures
        ({
            let present = lookup(c.entries, key);
            let found = c.found(key, age);
            let after = c.looked_up(key, age);
            let kept = lookup(after.entries, key);
            &&& found is Some <==> present is Some && age <= c.ttl_nanos
            &&& found is Some ==> {
                &&& found->0 == present->0.module
                &&& after.entries[0].0 == key
                &&& after.entries.len() == c.entries.len()
                &&& kept is Some
                &&& kept->0.module == present->0.module
                &&& kept->0.cached_at == present->0.cached_at
                &&& kept->0.wasm_bytes == present->0.wasm_bytes
                &&& kept->0.hit_count == present->0.hit_count + 1
            }
            &&& found is None ==> kept is None
            &&& found is None && present is Some ==> after.entries.len() == c.entries.len() - 1
            &&& present is None ==> after == c
            &&& after.hits == c.hits + if found is Some { 1int } else { 0int }
            &&& after.misses == c.misses
            &&& after.evictions == c.evictions + if present is Some && age > c.ttl_nanos { 1int } else { 0int }
            &&& after.engine == c.engine
            &&& after.capacity == c.capacity
            &&& after.ttl_nanos == c.ttl_nanos
            &&& lookup(after.entries, other) == lookup(c.entries, other)
        }),
{
    let s = c.entries;
    law_lookup_removed(s, key, key);
    law_lookup_removed(s, key, other);
    if let Some(entry) = lookup(s, key) {
        let p = key_index(s, key);
        assert(0 <= p < s.len() && s[p].0 == key);
        assert(c.fits(s[p].1));
        let hit = CachedModule { hit_count: (entry.hit_count + 1) as u64, ..entry };
        lemma_fronted_distinct(s, key, hit);
        lemma_lookup_fronted(s, key, hit, other);
    }
}

proof fn lemma_lookup_fronted(s: Seq<(Seq<char>, CachedModule)>, key: Seq<char>, entry: CachedModule, other: Seq<char>)
    requires
        distinct_keys(s),
        other != key,
    ensures
        lookup(fronted(s, key, entry), key) == Some(entry),
        lookup(fronted(s, key, entry), other) == lookup(s, other),
{
    let t = fronted(s, key, entry);
    let rest = removed(s, key);
    lemma_fronted_distinct(s, key, entry);
    law_lookup_removed(s, key, other);
    assert(t[0] == (key, entry));
    lemma_key_index(t, 0);
    if has_key(rest, other) {
        let p = key_index(rest, other);
        assert(0 <= p < rest.len() && rest[p].0 == other);
        assert(t[p + 1] == rest[p]);
        lemma_key_index(t, p + 1);
        lemma_key_index(rest, p);
    } else if has_key(t, other) {
        let p = key_index(t, other);
        assert(0 <= p < t.len() && t[p].0 == other);
        assert(p > 0);
        assert(rest[p - 1] == t[p]);
    }
}

/// An inserted entry is the most recently used one and is held as it was given. It takes the
/// place of the entry that its key had; only a new key in a full cache makes another entry
/// leave, which counts as an eviction. As long as none has to leave, what is held under
/// other keys stays the same. An insertion is neither a hit nor a miss.
pub proof fn law_insertion_makes_room_only_if_full(c: CacheView, key: Seq<char>, entry: CachedModule, other: Seq<char>)
    requires
        c.valid(),
        c.evictions < u64::MAX,
        entry.hit_count == 0,
        module_engine(*entry.module) == c.engine.handle(),
        other != key,
    ensures
        ({
            let after = c.inserted(key, entry);
            let replaces = lookup(c.entries, key) is Some;
            let full = c.entries.len() == c.capacity;
            &&& after.entries[0] == (key, entry)
            &&& lookup(after.entries, key) == Some(entry)
            &&& after.entries.len() <= after.capacity
            &&& after.entries.len() == c.entries.len() + if replaces || full { 0int } else { 1int }
            &&& after.evictions == c.evictions + if !replaces && full { 1int } else { 0int }
            &&& after.hits == c.hits
            &&& after.misses == c.misses
            &&& after.engine == c.engine
            &&& after.capacity == c.capacity
            &&& after.ttl_nanos == c.ttl_nanos
            &&& replaces || !full ==> lookup(after.entries, other) == lookup(c.entries, other)
        }),
{
    law_cache_stays_valid(c, key, 0, entry);
    lemma_fronted_distinct(c.entries, key, entry);
    lemma_lookup_fronted(c.entries, key, entry, other);
    lemma_key_index(c.inserted(key, entry).entries, 0);
}

/// Serving a key counts as one hit if the module was found, and else as one miss. A module
/// that was found is the one that was held; else it is compiled from the given bytes on the
/// cache's engine and held under the key from then on, with their size. If they do not
/// compile, nothing is held under the key.
pub proof fn law_serving_counts_a_hit_or_a_miss(
    c: CacheView,
    after: CacheView,
    key: Seq<char>,
    bytes: Seq<u8>,
    age: u128,
    now: Instant,
    r: Result<Arc<Module>, WasmError>,
)
    requires
        c.valid(),
        c.hits < u64::MAX,
        c.misses < u64::MAX,
        c.evictions < u64::MAX,
        bytes.len() <= usize::MAX,
        c.served(after, key, bytes, age, now, r),
    ensures
        ({
            let present = lookup(c.entries, key);
            let hit = present is Some && age <= c.ttl_nanos;
            let held = lookup(after.entries, key);
            &&& hit ==> {
                &&& r is Ok
                &&& r->Ok_0 == present->0.module
                &&& after.hits == c.hits + 1
                &&& after.misses == c.misses
            }
            &&& !hit ==> after.hits == c.hits && after.misses == c.misses + 1
            &&& !hit && r is Ok ==> {
                &&& program_of(*r->Ok_0).bytes == bytes
                &&& program_of(*r->Ok_0).engine == c.engine.handle()
                &&& held is Some
                &&& held->0.module == r->Ok_0
                &&& held->0.cached_at == now
                &&& held->0.hit_count == 0
                &&& held->0.wasm_bytes == bytes.len()
                &&& may_be_now(now)
            }
            &&& r is Err ==> r->Err_0@ is CompilationFailed && held is None
            &&& after.entries.len() <= c.capacity
        }),
{
    let other = key.push('x');
    assert(other.len() != key.len());
    law_lookup_finds_what_is_not_too_old(c, key, age, other);
    lemma_looked_up_valid(c, key, age);
    if c.found(key, age) is None && r is Ok {
        let missed = c.looked_up(key, age).missed();
        let entry = CachedModule { module: r->Ok_0, cached_at: now, hit_count: 0, wasm_bytes: bytes.len() as usize };
        law_cache_stays_valid(missed, key, 0, entry);
        assert(missed.inserted(key, entry).entries[0] == (key, entry));
        lemma_key_index(missed.inserted(key, entry).entries, 0);
    }
}

/// An invalidation removes the entry of its key and no other, and counts as nothing.
pub proof fn law_invalidation_removes_one_entry(c: CacheView, key: Seq<char>, other: Seq<char>)
    requires
        c.valid(),
        other != key,
    ensures
        lookup(c.invalidated(key).entries, key) is None,
        lookup(c.invalidated(key).entries, other) == lookup(c.entries, other),
        c.invalidated(key).entries.len() == c.entries.len() - if lookup(c.entries, key) is Some { 1int } else { 0int },
        c.invalidated(key) == (CacheView { entries: c.invalidated(key).entries, ..c }),
{
    law_lookup_removed(c.entries, key, key);
    law_lookup_removed(c.entries, key, other);
    if has_key(c.entries, key) {
        let p = key_index(c.entries, key);
        assert(0 <= p < c.entries.len() && c.entries[p].0 == key);
    }
}

/// The total of the sizes grows by the size of each entry that comes and shrinks by that of
/// each entry that goes; a hit leaves it as it is.
pub proof fn law_total_follows_the_entries(c: CacheView, key: Seq<char>, entry: CachedModule, age: u128)
    requires
        c.valid(),
    ensures
        ({
            let present = lookup(c.entries, key);
            let own = match present {
                Some(held) => held.wasm_bytes as int,
                None => 0,
            };
            let leaves = if present is None && c.entries.len() == c.capacity {
                c.entries.last().1.wasm_bytes as int
            } else {
                0
            };
            &&& total_bytes(c.inserted(key, entry).entries) == total_bytes(c.entries) - own - leaves + entry.wasm_bytes
            &&& total_bytes(c.invalidated(key).entries) == total_bytes(c.entries) - own
            &&& age <= c.ttl_nanos ==> total_bytes(c.looked_up(key, age).entries) == total_bytes(c.entries)
            &&& age > c.ttl_nanos ==> total_bytes(c.looked_up(key, age).entries) == total_bytes(c.entries) - own
            &&& total_bytes(Seq::empty()) == 0
            &&& total_bytes(c.entries.push((key, entry))) == total_bytes(c.entries) + entry.wasm_bytes
        }),
{
    let s = c.entries;
    lemma_total_one(key, entry);
    lemma_total_add(seq![(key, entry)], removed(s, key));
    assert(s.push((key, entry)).drop_last() =~= s);
    if let Some(held) = lookup(s, key) {
        lemma_total_removed(s, key);
        let hit = CachedModule { hit_count: (held.hit_count + 1) as u64, ..held };
        lemma_total_one(key, hit);
        lemma_total_add(seq![(key, hit)], removed(s, key));
    } else if s.len() == c.capacity {
        lemma_total_add(seq![(key, entry)], s.drop_last());
    }
}

/// The age of an entry is what has passed since it was inserted.
pub proof fn law_age_counts_from_the_insertion(c: CacheView, key: Seq<char>, entry: CachedModule, age: u128)
    requires
        c.valid(),
        entry.hit_count == 0,
        module_engine(*entry.module) == c.engine.handle(),
    ensures
        lookup(c.entries, key) is Some && c.may_be_age(key, age) ==> may_be_nanos_since(
            lookup(c.entries, key)->0.cached_at,
            age,
        ),
        c.inserted(key, entry).may_be_age(key, age) ==> may_be_nanos_since(entry.cached_at, age),
{
    law_cache_stays_valid(c, key, age, entry);
    assert(c.inserted(key, entry).entries[0] == (key, entry));
    lemma_key_index(c.inserted(key, entry).entries, 0);
}

} // verus!
