//! A time-limited cache for AI responses, keyed by text.
//!
//! Times are milliseconds since the Unix epoch. An entry created at `t` with a
//! time-to-live of `d` expires at `t + d`: it is served while the time is
//! before that. When the cache holds `max_size` entries or more, inserting first
//! evicts the `eviction_batch_size` oldest entries (by creation time).
use crate::clock::now_millis;
use crate::table::KeyedTable;
use crate::text::{owned, push_char, push_text};
use vstd::prelude::*;

verus! {

#[verifier::external_type_specification]
#[verifier::external_body]
pub struct ExJsonValue(serde_json::Value);

/// `Clone` for `serde_json::Value`, which the crate derives: the clone is the
/// same JSON value.
pub assume_specification[ <serde_json::Value as Clone>::clone ](v: &serde_json::Value) -> (r: serde_json::Value)
    ensures
        r == *v,
;

/// A cached value with its creation and expiry times.
#[derive(Debug, Clone)]
pub struct CacheEntry<T> {
    pub value: T,
    pub expires_at: u64,
    pub created_at: u64,
}

impl<T> CacheEntry<T> {
    /// Whether the entry has expired at `now`.
    pub open spec fn expired_at(&self, now: u64) -> bool {
        now >= self.expires_at
    }

    /// An entry created at `now`, expiring `ttl` milliseconds later.
    pub fn new_at(value: T, ttl: u64, now: u64) -> (e: Self)
        requires
            now + ttl <= u64::MAX,
        ensures
            e.value == value,
            e.created_at == now,
            e.expires_at == now + ttl,
    {
        CacheEntry { value, expires_at: now + ttl, created_at: now }
    }

    /// The entry `new_at` makes at `now`, or none when its expiry time is not
    /// representable.
    pub open spec fn made_at(value: T, ttl: u64, now: u64) -> Option<CacheEntry<T>> {
        if now + ttl <= u64::MAX {
            Some(CacheEntry { value, expires_at: (now + ttl) as u64, created_at: now })
        } else {
            None
        }
    }

    /// An entry created now (the system clock), expiring `ttl` milliseconds
    /// later; `None` when that expiry time is not representable: what
    /// `made_at` gives at the clock's reading.
    pub fn new(value: T, ttl: u64) -> (r: Option<Self>)
        ensures
            exists|now: u64| r == #[trigger] CacheEntry::made_at(value, ttl, now),
            r matches Some(e) ==> e.value == value && e.expires_at == e.created_at + ttl,
    {
        let now = now_millis();
        let ghost v = value;
        let r = if ttl > u64::MAX - now {
            None
        } else {
            Some(CacheEntry::new_at(value, ttl, now))
        };
        proof {
            assert(r == CacheEntry::made_at(v, ttl, now));
        }
        r
    }

    /// Whether the entry has expired at `now`.
    pub fn is_expired_at(&self, now: u64) -> (b: bool)
        ensures
            b == self.expired_at(now),
    {
        now >= self.expires_at
    }

    /// Whether the entry has expired by the system clock: `is_expired_at` at
    /// the clock's reading, which no clause can name.
    pub fn is_expired(&self) -> (b: bool)
        ensures
            exists|now: u64| #[trigger] self.expired_at(now) == b,
    {
        let now = now_millis();
        self.is_expired_at(now)
    }
}

/// How a cache behaves. Durations are in milliseconds.
#[derive(Debug, Clone, Copy)]
pub struct CacheConfig {
    /// Time-to-live of an entry inserted without one.
    pub default_ttl: u64,
    /// Number of entries at which inserting evicts.
    pub max_size: usize,
    /// Number of oldest entries evicted at a time.
    pub eviction_batch_size: usize,
    /// How often expired entries should be cleaned up.
    pub cleanup_interval: u64,
    /// Whether cached values should be compressed.
    pub enable_compression: bool,
}

impl Default for CacheConfig {
    /// Five minutes to live, 1000 entries, evicting 100 at a time, cleaned up
    /// every minute, no compression.
    fn default() -> (c: Self)
        ensures
            c.default_ttl == 300_000,
            c.max_size == 1000,
            c.eviction_batch_size == 100,
            c.cleanup_interval == 60_000,
            !c.enable_compression,
    {
        CacheConfig {
            default_ttl: 300_000,
            max_size: 1000,
            eviction_batch_size: 100,
            cleanup_interval: 60_000,
            enable_compression: false,
        }
    }
}

/// A reading of a cache's size and counters.
#[derive(Debug, Clone, Copy)]
pub struct CacheStats {
    pub size: usize,
    pub max_size: usize,
    pub hits: u64,
    pub misses: u64,
    /// The default time-to-live, in milliseconds.
    pub ttl_default: u64,
}

/// A cache from text keys to values of type `V`.
pub struct AiCache<V> {
    entries: KeyedTable<CacheEntry<V>>,
    config: CacheConfig,
    hits: u64,
    misses: u64,
}

/// The entries of `m` that have not expired at `now`.
pub open spec fn live_entries<V>(m: Map<Seq<char>, CacheEntry<V>>, now: u64) -> Map<Seq<char>, CacheEntry<V>> {
    m.restrict(m.dom().filter(|k: Seq<char>| !m[k].expired_at(now)))
}

/// `after` is `before` with `count` entries removed, none of them created later
/// than an entry kept.
pub open spec fn evicted_oldest<V>(
    before: Map<Seq<char>, CacheEntry<V>>,
    after: Map<Seq<char>, CacheEntry<V>>,
    count: nat,
) -> bool {
    &&& after.dom().subset_of(before.dom())
    &&& forall|k: Seq<char>| #[trigger] after.contains_key(k) ==> after[k] == before[k]
    &&& after.dom().len() + count == before.dom().len()
    &&& forall|r: Seq<char>, q: Seq<char>|
        before.contains_key(r) && !after.contains_key(r) && #[trigger] after.contains_key(q) ==> #[trigger] before[r].created_at
            <= before[q].created_at
}

/// The time-to-live used for an insertion: the one given, else the default.
pub open spec fn effective_ttl(ttl: Option<u64>, default_ttl: u64) -> u64 {
    match ttl {
        Some(t) => t,
        None => default_ttl,
    }
}

/// The smaller of two numbers.
pub open spec fn min_nat(a: nat, b: nat) -> nat {
    if a <= b {
        a
    } else {
        b
    }
}

impl<V> AiCache<V> {
    /// The entries by key.
    pub closed spec fn view(&self) -> Map<Seq<char>, CacheEntry<V>> {
        self.entries@
    }

    pub closed spec fn wf(&self) -> bool {
        &&& self.entries.wf()
        &&& self.entries@.dom().finite()
    }

    /// The configuration.
    pub closed spec fn config_spec(&self) -> CacheConfig {
        self.config
    }

    /// Lookups that found a live entry.
    pub closed spec fn hits_spec(&self) -> u64 {
        self.hits
    }

    /// Lookups of a key not in the cache.
    pub closed spec fn misses_spec(&self) -> u64 {
        self.misses
    }

    /// What a lookup of `key` at `now` finds: the entry, when present and live.
    pub open spec fn live_entry(&self, key: Seq<char>, now: u64) -> Option<CacheEntry<V>> {
        if self@.contains_key(key) && !self@[key].expired_at(now) {
            Some(self@[key])
        } else {
            None
        }
    }

    /// An empty cache with the given configuration.
    pub fn new(config: CacheConfig) -> (c: Self)
        ensures
            c.wf(),
            c@ == Map::<Seq<char>, CacheEntry<V>>::empty(),
            c.config_spec() == config,
            c.hits_spec() == 0,
            c.misses_spec() == 0,
    {
        let c = AiCache { entries: KeyedTable::new(), config, hits: 0, misses: 0 };
        proof {
            c.entries.lemma_domain();
        }
        c
    }

    /// Number of entries (live or not).
    pub fn len(&self) -> (n: usize)
        requires
            self.wf(),
        ensures
            n == self@.dom().len(),
    {
        self.entries.len()
    }

    /// Position of an entry created no later than any other.
    fn oldest_index(&self) -> (i: usize)
        requires
            self.wf(),
            self@.dom().len() > 0,
        ensures
            i < self.entries.keys().len(),
            self@.contains_key(self.entries.keys()[i as int]),
            forall|k: Seq<char>| #[trigger] self@.contains_key(k) ==> self@[self.entries.keys()[i as int]].created_at
                <= self@[k].created_at,
    {
        proof {
            self.entries.lemma_domain();
        }
        let n = self.entries.len();
        let mut best: usize = 0;
        let mut j: usize = 1;
        proof {
            self.entries.lemma_index(0);
        }
        while j < n
            invariant
                self.wf(),
                n == self.entries.keys().len(),
                0 <= best < j <= n,
                forall|a: int| 0 <= a < j ==> self.entries.values()[best as int].created_at <= #[trigger] self.entries.values()[a].created_at,
            decreases n - j,
        {
            let (_, e) = self.entries.entry_at(j);
            let (_, b) = self.entries.entry_at(best);
            if e.created_at < b.created_at {
                best = j;
            }
            j = j + 1;
        }
        proof {
            self.entries.lemma_index(best as int);
            assert forall|k: Seq<char>| #[trigger] self@.contains_key(k) implies self@[self.entries.keys()[best as int]].created_at
                <= self@[k].created_at by {
                assert(self.entries.keys().to_set().contains(k));
                let a = choose|a: int| 0 <= a < self.entries.keys().len() && self.entries.keys()[a] == k;
                self.entries.lemma_index(a);
            }
        }
        best
    }

    /// Removes the `eviction_batch_size` oldest entries (all of them when fewer).
    fn evict_entries(&mut self)
        requires
            old(self).wf(),
        ensures
            final(self).wf(),
            evicted_oldest(old(self)@, final(self)@, min_nat(old(self).config_spec().eviction_batch_size as nat, old(self)@.dom().len())),
            final(self).config_spec() == old(self).config_spec(),
            final(self).hits_spec() == old(self).hits_spec(),
            final(self).misses_spec() == old(self).misses_spec(),
    {
        let ghost before = self@;
        proof {
            self.entries.lemma_domain();
        }
        let len = self.entries.len();
        let to_remove = if self.config.eviction_batch_size < len {
            self.config.eviction_batch_size
        } else {
            len
        };
        let mut count: usize = 0;
        while count < to_remove
            invariant
                self.wf(),
                self.config == old(self).config,
                self.hits == old(self).hits,
                self.misses == old(self).misses,
                before == old(self)@,
                to_remove <= len,
                len == before.dom().len(),
                count <= to_remove,
                evicted_oldest(before, self@, count as nat),
            decreases to_remove - count,
        {
            proof {
                self.entries.lemma_domain();
            }
            let i = self.oldest_index();
            let ghost cur = self@;
            let ghost m = self.entries.keys()[i as int];
            let _ = self.entries.remove_at(i);
            proof {
                self.entries.lemma_domain();
                assert(self@ == cur.remove(m));
                assert forall|r: Seq<char>, q: Seq<char>|
                    before.contains_key(r) && !self@.contains_key(r) && #[trigger] self@.contains_key(q) implies #[trigger] before[r].created_at
                        <= before[q].created_at by {
                    assert(cur.contains_key(q));
                    if r != m {
                        assert(!cur.contains_key(r));
                    } else {
                        assert(cur[m] == before[m]);
                    }
                }
            }
            count = count + 1;
        }
    }

    /// Removes every entry that has expired at `now`.
    fn cleanup_expired_entries_at(&mut self, now: u64)
        requires
            old(self).wf(),
        ensures
            final(self).wf(),
            final(self)@ == live_entries(old(self)@, now),
            final(self).config_spec() == old(self).config_spec(),
            final(self).hits_spec() == old(self).hits_spec(),
            final(self).misses_spec() == old(self).misses_spec(),
    {
        let ghost before = self@;
        let mut i: usize = 0;
        proof {
            self.entries.lemma_domain();
        }
        while i < self.entries.len()
            invariant
                self.wf(),
                self.config == old(self).config,
                self.hits == old(self).hits,
                self.misses == old(self).misses,
                before == old(self)@,
                i <= self.entries.keys().len(),
                forall|k: Seq<char>| #[trigger] self@.contains_key(k) ==> before.contains_key(k) && self@[k] == before[k],
                forall|k: Seq<char>| #[trigger] before.contains_key(k) && !before[k].expired_at(now) ==> self@.contains_key(k),
                forall|a: int| 0 <= a < i ==> !(#[trigger] self.entries.values()[a]).expired_at(now),
            decreases self.entries.keys().len() - i,
        {
            proof {
                self.entries.lemma_domain();
            }
            let (_, e) = self.entries.entry_at(i);
            if e.is_expired_at(now) {
                let ghost cur = *self;
                let ghost m = self.entries.keys()[i as int];
                proof {
                    cur.entries.lemma_index(i as int);
                }
                let _ = self.entries.remove_at(i);
                proof {
                    self.entries.lemma_domain();
                    assert(self@ == cur@.remove(m));
                    assert forall|k: Seq<char>| #[trigger] self@.contains_key(k) implies before.contains_key(k) && self@[k] == before[k] by {
                        assert(cur@.contains_key(k));
                    }
                    assert forall|a: int| 0 <= a < i implies !(#[trigger] self.entries.values()[a]).expired_at(now) by {
                        assert(self.entries.values()[a] == cur.entries.values()[a]);
                    }
                }
            } else {
                i = i + 1;
            }
        }
        proof {
            self.entries.lemma_domain();
            assert forall|k: Seq<char>| #[trigger] self@.contains_key(k) implies !before[k].expired_at(now) by {
                assert(self.entries.keys().to_set().contains(k));
                let a = choose|a: int| 0 <= a < self.entries.keys().len() && self.entries.keys()[a] == k;
                self.entries.lemma_index(a);
            }
            assert(self@ =~= live_entries(before, now));
        }
    }

    /// What `put_at` does at `now`, from this cache to `after`, returning `r`:
    /// fails, changing nothing, exactly when the expiry time `now + ttl` (the
    /// default ttl for none) is not representable; otherwise, when the cache
    /// held `max_size` entries or more, the oldest are evicted, and the entry
    /// is stored under `key`.
    pub open spec fn put_outcome(
        self,
        after: Self,
        key: Seq<char>,
        value: V,
        ttl: Option<u64>,
        now: u64,
        r: Result<(), String>,
    ) -> bool {
        let d = effective_ttl(ttl, self.config_spec().default_ttl);
        &&& r is Ok <==> now + d <= u64::MAX
        &&& r is Err ==> after@ == self@
        &&& r is Ok ==> exists|kept: Map<Seq<char>, CacheEntry<V>>|
            {
                &&& (if self@.dom().len() >= self.config_spec().max_size {
                    evicted_oldest(
                        self@,
                        kept,
                        min_nat(self.config_spec().eviction_batch_size as nat, self@.dom().len()),
                    )
                } else {
                    kept == self@
                })
                &&& after@ == #[trigger] kept.insert(key, CacheEntry { value, expires_at: (now + d) as u64, created_at: now })
            }
    }

    /// What `cleanup_at` does to the entries at `now`: the expired ones go,
    /// then the oldest are evicted when `max_size` or more remain.
    pub open spec fn cleanup_outcome(self, after: Self, now: u64) -> bool {
        let live = live_entries(self@, now);
        if live.dom().len() >= self.config_spec().max_size {
            evicted_oldest(live, after@, min_nat(self.config_spec().eviction_batch_size as nat, live.dom().len()))
        } else {
            after@ == live
        }
    }

    /// Inserts `value` under `key` at time `now`, living `ttl` milliseconds (the
    /// configured default when `None`). When the cache already holds
    /// `max_size` entries or more, the oldest are evicted first. Fails, changing
    /// nothing, when the expiry time is not representable.
    pub fn put_at(&mut self, key: String, value: V, ttl: Option<u64>, now: u64) -> (r: Result<(), String>)
        requires
            old(self).wf(),
        ensures
            final(self).wf(),
            final(self).config_spec() == old(self).config_spec(),
            final(self).hits_spec() == old(self).hits_spec(),
            final(self).misses_spec() == old(self).misses_spec(),
            old(self).put_outcome(*final(self), key@, value, ttl, now, r),
    {
        let d = match ttl {
            Some(t) => t,
            None => self.config.default_ttl,
        };
        if d > u64::MAX - now {
            return Err(owned("cache entry expiry time is out of range"));
        }
        let entry = CacheEntry::new_at(value, d, now);
        let ghost start = self@;
        let full = self.entries.len() >= self.config.max_size;
        if full {
            self.evict_entries();
        }
        proof {
            if start.dom().len() >= self.config.max_size {
                assert(evicted_oldest(start, self@, min_nat(self.config.eviction_batch_size as nat, start.dom().len())));
            } else {
                assert(self@ == start);
            }
        }
        let ghost kept = self@;
        let ghost k = key@;
        self.entries.insert(key, entry);
        proof {
            self.entries.lemma_domain();
            let e = CacheEntry { value, expires_at: (now + d) as u64, created_at: now };
            assert(self@ == kept.insert(k, e));
            assert((if old(self)@.dom().len() >= old(self).config_spec().max_size {
                evicted_oldest(old(self)@, kept, min_nat(old(self).config_spec().eviction_batch_size as nat, old(self)@.dom().len()))
            } else {
                kept == old(self)@
            }) && self@ == kept.insert(key@, e));
        }
        Ok(())
    }

    /// `put_at` at the system clock's time.
    pub fn put(&mut self, key: String, value: V, ttl: Option<u64>) -> (r: Result<(), String>)
        requires
            old(self).wf(),
        ensures
            final(self).wf(),
            exists|now: u64| #[trigger] old(self).put_outcome(*final(self), key@, value, ttl, now, r),
            final(self).config_spec() == old(self).config_spec(),
            final(self).hits_spec() == old(self).hits_spec(),
            final(self).misses_spec() == old(self).misses_spec(),
            r is Err ==> final(self)@ == old(self)@,
            r is Ok ==> final(self)@.contains_key(key@) && final(self)@[key@].value == value
                && final(self)@[key@].expires_at == final(self)@[key@].created_at + match ttl {
                    Some(t) => t,
                    None => old(self).config_spec().default_ttl,
                },
    {
        let now = now_millis();
        self.put_at(key, value, ttl, now)
    }

    /// Whether `key` is cached and live at `now`.
    pub fn contains_key_at(&self, key: &String, now: u64) -> (b: bool)
        requires
            self.wf(),
        ensures
            b == self.live_entry(key@, now) is Some,
    {
        match self.entries.get(key) {
            Some(e) => !e.is_expired_at(now),
            None => false,
        }
    }

    /// `contains_key_at` by the system clock: false when the key is not cached.
    pub fn contains_key(&self, key: &String) -> (b: bool)
        requires
            self.wf(),
        ensures
            exists|now: u64| b == (#[trigger] self.live_entry(key@, now) is Some),
            b ==> self@.contains_key(key@),
    {
        let now = now_millis();
        self.contains_key_at(key, now)
    }

    /// Removes `key`, returning its value (expired or not).
    pub fn remove(&mut self, key: &String) -> (r: Option<V>)
        requires
            old(self).wf(),
        ensures
            final(self).wf(),
            final(self)@ == old(self)@.remove(key@),
            r matches Some(v) ==> old(self)@.contains_key(key@) && v == old(self)@[key@].value,
            r is None <==> !old(self)@.contains_key(key@),
            final(self).config_spec() == old(self).config_spec(),
            final(self).hits_spec() == old(self).hits_spec(),
            final(self).misses_spec() == old(self).misses_spec(),
    {
        let r = self.entries.remove(key);
        proof {
            self.entries.lemma_domain();
        }
        match r {
            Some(e) => Some(e.value),
            None => None,
        }
    }

    /// Removes every entry and resets the counters.
    pub fn clear(&mut self)
        ensures
            final(self).wf(),
            final(self)@ == Map::<Seq<char>, CacheEntry<V>>::empty(),
            final(self).hits_spec() == 0,
            final(self).misses_spec() == 0,
            final(self).config_spec() == old(self).config_spec(),
    {
        self.entries.clear();
        self.hits = 0;
        self.misses = 0;
        proof {
            self.entries.lemma_domain();
        }
    }

    /// Removes expired entries (at `now`), then evicts the oldest if the cache is
    /// still at `max_size` or more.
    pub fn cleanup_at(&mut self, now: u64)
        requires
            old(self).wf(),
        ensures
            final(self).wf(),
            final(self).config_spec() == old(self).config_spec(),
            final(self).hits_spec() == old(self).hits_spec(),
            final(self).misses_spec() == old(self).misses_spec(),
            old(self).cleanup_outcome(*final(self), now),
    {
        self.cleanup_expired_entries_at(now);
        if self.entries.len() >= self.config.max_size {
            self.evict_entries();
        }
    }

    /// `cleanup_at` at the system clock's time: keeps only entries that were
    /// cached before.
    pub fn cleanup(&mut self)
        requires
            old(self).wf(),
        ensures
            final(self).wf(),
            exists|now: u64| #[trigger] old(self).cleanup_outcome(*final(self), now),
            final(self)@.dom().subset_of(old(self)@.dom()),
            forall|k: Seq<char>| #[trigger] final(self)@.contains_key(k) ==> final(self)@[k] == old(self)@[k],
            final(self).config_spec() == old(self).config_spec(),
            final(self).hits_spec() == old(self).hits_spec(),
            final(self).misses_spec() == old(self).misses_spec(),
    {
        let now = now_millis();
        self.cleanup_at(now);
    }

    /// Size, capacity, counters and default time-to-live.
    pub fn stats(&self) -> (s: CacheStats)
        requires
            self.wf(),
        ensures
            s.size == self@.dom().len(),
            s.max_size == self.config_spec().max_size,
            s.hits == self.hits_spec(),
            s.misses == self.misses_spec(),
            s.ttl_default == self.config_spec().default_ttl,
    {
        CacheStats {
            size: self.entries.len(),
            max_size: self.config.max_size,
            hits: self.hits,
            misses: self.misses,
            ttl_default: self.config.default_ttl,
        }
    }

    /// Whether the cache holds `max_size` entries or more.
    pub fn is_full(&self) -> (b: bool)
        requires
            self.wf(),
        ensures
            b == (self@.dom().len() >= self.config_spec().max_size),
    {
        self.entries.len() >= self.config.max_size
    }
}

impl<V: Clone> AiCache<V> {
    /// What `get_at` does at `now`, from this cache to `after`, returning `r`:
    /// the entries stay; a live entry's value is returned (a clone) and counted
    /// as a hit; an expired entry gives nothing and is not counted; a missing
    /// key gives nothing and is counted as a miss.
    pub open spec fn get_outcome(self, after: Self, key: Seq<char>, now: u64, r: Option<V>) -> bool {
        &&& after@ == self@
        &&& after.config_spec() == self.config_spec()
        &&& match self.live_entry(key, now) {
            Some(e) => r matches Some(v) && cloned(e.value, v),
            None => r is None,
        }
        &&& after.hits_spec() == self.hits_spec() + if self.live_entry(key, now) is Some {
            1int
        } else {
            0int
        }
        &&& after.misses_spec() == self.misses_spec() + if self@.contains_key(key) {
            0int
        } else {
            1int
        }
    }

    /// Looks `key` up at `now`: a live entry's value (a clone), counted as a hit;
    /// nothing for an expired entry (not counted); nothing for a missing key,
    /// counted as a miss.
    pub fn get_at(&mut self, key: &String, now: u64) -> (r: Option<V>)
        requires
            old(self).wf(),
            old(self).live_entry(key@, now) is Some ==> old(self).hits_spec() < u64::MAX,
            !old(self)@.contains_key(key@) ==> old(self).misses_spec() < u64::MAX,
        ensures
            final(self).wf(),
            old(self).get_outcome(*final(self), key@, now, r),
    {
        match self.entries.get(key) {
            Some(e) => {
                if !e.is_expired_at(now) {
                    let v = e.value.clone();
                    self.hits = self.hits + 1;
                    Some(v)
                } else {
                    None
                }
            },
            None => {
                self.misses = self.misses + 1;
                None
            },
        }
    }

    /// `get_at` by the system clock.
    pub fn get(&mut self, key: &String) -> (r: Option<V>)
        requires
            old(self).wf(),
            old(self).hits_spec() < u64::MAX,
            old(self).misses_spec() < u64::MAX,
        ensures
            final(self).wf(),
            exists|now: u64| #[trigger] old(self).get_outcome(*final(self), key@, now, r),
            final(self)@ == old(self)@,
            final(self).config_spec() == old(self).config_spec(),
            r matches Some(v) ==> old(self)@.contains_key(key@) && cloned(old(self)@[key@].value, v),
            !old(self)@.contains_key(key@) ==> r is None,
    {
        let now = now_millis();
        self.get_at(key, now)
    }
}

/// What is cached at time `t` with time-to-live `d` is found by a lookup before
/// `t + d`, and no longer from `t + d` on (unless stored again): a lookup of
/// the key in the cache that results finds exactly the value stored.
pub proof fn lemma_get_after_put<V>(c: AiCache<V>, key: Seq<char>, value: V, t: u64, d: u64, now: u64)
    requires
        c@.contains_key(key),
        c@[key] == (CacheEntry { value, expires_at: (t + d) as u64, created_at: t }),
        t + d <= u64::MAX,
    ensures
        now < t + d ==> c.live_entry(key, now) == Some(CacheEntry { value, expires_at: (t + d) as u64, created_at: t }),
        now >= t + d ==> c.live_entry(key, now) is None,
{
}

/// A cache holding at most `max_size` entries (with `max_size` and the
/// eviction batch at least one) still holds at most `max_size` after a put:
/// a full cache evicts at least one entry before the new one goes in.
pub proof fn lemma_put_keeps_size_bound<V>(
    c: AiCache<V>,
    after: AiCache<V>,
    key: Seq<char>,
    value: V,
    ttl: Option<u64>,
    now: u64,
    r: Result<(), String>,
)
    requires
        c.wf(),
        c@.dom().len() <= c.config_spec().max_size,
        c.config_spec().max_size >= 1,
        c.config_spec().eviction_batch_size >= 1,
        c.put_outcome(after, key, value, ttl, now, r),
    ensures
        after@.dom().len() <= c.config_spec().max_size,
{
    if r is Ok {
        let d = effective_ttl(ttl, c.config_spec().default_ttl);
        let kept = choose|kept: Map<Seq<char>, CacheEntry<V>>|
            {
                &&& (if c@.dom().len() >= c.config_spec().max_size {
                    evicted_oldest(c@, kept, min_nat(c.config_spec().eviction_batch_size as nat, c@.dom().len()))
                } else {
                    kept == c@
                })
                &&& after@ == #[trigger] kept.insert(key, CacheEntry { value, expires_at: (now + d) as u64, created_at: now })
            };
        assert(kept.dom().subset_of(c@.dom()));
        assert(kept.dom().len() < c.config_spec().max_size);
        assert(after@.dom() == kept.dom().insert(key));
        assert(kept.dom().finite()) by {
            vstd::set_lib::lemma_set_subset_finite(c@.dom(), kept.dom());
        }
    }
}

/// A lookup after a successful put at `t0` with time-to-live `d` finds the
/// value (a clone of it, counted as a hit) before `t0 + d`, and nothing (not
/// counted) from `t0 + d` on; a lookup of a key that is not cached finds
/// nothing and is counted as a miss.
pub proof fn lemma_put_then_get<V: Clone>(
    c0: AiCache<V>,
    c1: AiCache<V>,
    c2: AiCache<V>,
    key: Seq<char>,
    value: V,
    ttl: Option<u64>,
    t0: u64,
    t: u64,
    r: Option<V>,
)
    requires
        c0.put_outcome(c1, key, value, ttl, t0, Ok(())),
        c1.get_outcome(c2, key, t, r),
    ensures
        ({
            let d = effective_ttl(ttl, c0.config_spec().default_ttl);
            &&& t < t0 + d ==> (r matches Some(v) && cloned(value, v)) && c2.hits_spec() == c1.hits_spec() + 1
            &&& t >= t0 + d ==> r is None && c2.hits_spec() == c1.hits_spec() && c2.misses_spec() == c1.misses_spec()
            &&& c2@ == c1@
        }),
{
    let d = effective_ttl(ttl, c0.config_spec().default_ttl);
    let kept = choose|kept: Map<Seq<char>, CacheEntry<V>>|
        {
            &&& (if c0@.dom().len() >= c0.config_spec().max_size {
                evicted_oldest(c0@, kept, min_nat(c0.config_spec().eviction_batch_size as nat, c0@.dom().len()))
            } else {
                kept == c0@
            })
            &&& c1@ == #[trigger] kept.insert(key, CacheEntry { value, expires_at: (t0 + d) as u64, created_at: t0 })
        };
    assert(c1@.contains_key(key));
    assert(c1@[key] == CacheEntry { value, expires_at: (t0 + d) as u64, created_at: t0 });
}

/// A lookup of a key that is not cached finds nothing and counts a miss.
pub proof fn lemma_get_missing<V: Clone>(c1: AiCache<V>, c2: AiCache<V>, key: Seq<char>, t: u64, r: Option<V>)
    requires
        !c1@.contains_key(key),
        c1.get_outcome(c2, key, t, r),
    ensures
        r is None,
        c2.misses_spec() == c1.misses_spec() + 1,
        c2.hits_spec() == c1.hits_spec(),
{
}

/// The cache of AI model responses (JSON values).
pub type AiResponseCache = AiCache<serde_json::Value>;

/// The cache key of a model's response to an input: "<model>:<input hash>".
pub open spec fn response_key(model_name: Seq<char>, input_hash: Seq<char>) -> Seq<char> {
    model_name + seq![':'] + input_hash
}

fn response_key_text(model_name: &str, input_hash: &str) -> (k: String)
    ensures
        k@ == response_key(model_name@, input_hash@),
{
    let mut k = owned(model_name);
    push_char(&mut k, ':');
    push_text(&mut k, input_hash);
    k
}

impl AiCache<serde_json::Value> {
    /// A cache for model responses: ten minutes to live, 5000 entries, evicting
    /// 500 at a time, cleaned up every five minutes, compressed.
    pub fn ai_response_cache() -> (c: Self)
        ensures
            c.wf(),
            c@ == Map::<Seq<char>, CacheEntry<serde_json::Value>>::empty(),
            c.config_spec() == (CacheConfig {
                default_ttl: 600_000,
                max_size: 5000,
                eviction_batch_size: 500,
                cleanup_interval: 300_000,
                enable_compression: true,
            }),
            c.hits_spec() == 0,
            c.misses_spec() == 0,
    {
        AiCache::new(
            CacheConfig {
                default_ttl: 600_000,
                max_size: 5000,
                eviction_batch_size: 500,
                cleanup_interval: 300_000,
                enable_compression: true,
            },
        )
    }

    /// Caches a model's response to an input (see `put`).
    pub fn cache_ai_response(
        &mut self,
        model_name: &str,
        input_hash: &str,
        response: serde_json::Value,
        ttl: Option<u64>,
    ) -> (r: Result<(), String>)
        requires
            old(self).wf(),
        ensures
            final(self).wf(),
            exists|now: u64| #[trigger] old(self).put_outcome(*final(self), response_key(model_name@, input_hash@), response, ttl, now, r),
            final(self).config_spec() == old(self).config_spec(),
            final(self).hits_spec() == old(self).hits_spec(),
            final(self).misses_spec() == old(self).misses_spec(),
            r is Err ==> final(self)@ == old(self)@,
            r is Ok ==> final(self)@.contains_key(response_key(model_name@, input_hash@))
                && final(self)@[response_key(model_name@, input_hash@)].value == response,
    {
        let key = response_key_text(model_name, input_hash);
        self.put(key, response, ttl)
    }

    /// The cached response of a model to an input, if live at `now` (see
    /// `get_at`).
    pub fn get_cached_response_at(&mut self, model_name: &str, input_hash: &str, now: u64) -> (r: Option<serde_json::Value>)
        requires
            old(self).wf(),
            old(self).hits_spec() < u64::MAX,
            old(self).misses_spec() < u64::MAX,
        ensures
            final(self).wf(),
            old(self).get_outcome(*final(self), response_key(model_name@, input_hash@), now, r),
    {
        let key = response_key_text(model_name, input_hash);
        self.get_at(&key, now)
    }

    /// The cached response of a model to an input, if live (see `get`).
    pub fn get_cached_response(&mut self, model_name: &str, input_hash: &str) -> (r: Option<serde_json::Value>)
        requires
            old(self).wf(),
            old(self).hits_spec() < u64::MAX,
            old(self).misses_spec() < u64::MAX,
        ensures
            final(self).wf(),
            exists|now: u64| #[trigger] old(self).get_outcome(*final(self), response_key(model_name@, input_hash@), now, r),
            final(self)@ == old(self)@,
            r matches Some(v) ==> old(self)@.contains_key(response_key(model_name@, input_hash@)) && cloned(
                old(self)@[response_key(model_name@, input_hash@)].value,
                v,
            ),
    {
        let key = response_key_text(model_name, input_hash);
        self.get(&key)
    }
}

/// Response keys keep the model and the input apart: two keys for the same
/// input hash, or for model names of one length, or for model names without
/// ':', are equal only when both the model names and the input hashes are, so
/// a response cached for one model is never found under another. (Without
/// these conditions keys can meet: "a:b" with "c" and "a" with "b:c".)
pub proof fn lemma_response_key_injective(m1: Seq<char>, h1: Seq<char>, m2: Seq<char>, h2: Seq<char>)
    requires
        !m1.contains(':') && !m2.contains(':') || m1.len() == m2.len() || h1 == h2,
        response_key(m1, h1) == response_key(m2, h2),
    ensures
        m1 == m2,
        h1 == h2,
{
    let k = response_key(m1, h1);
    if m1.len() != m2.len() {
        if h1 == h2 {
            assert(k.len() == m1.len() + 1 + h1.len());
            assert(response_key(m2, h2).len() == m2.len() + 1 + h2.len());
        } else {
            // Neither model contains ':', and the key's first ':' ends the model.
            let (short, long) = if m1.len() < m2.len() { (m1, m2) } else { (m2, m1) };
            assert(k[short.len() as int] == ':');
            assert(long[short.len() as int] == k[short.len() as int]);
            assert(long.contains(':'));
        }
    }
    assert(m1 =~= k.subrange(0, m1.len() as int));
    assert(m2 =~= k.subrange(0, m2.len() as int));
    assert(h1 =~= k.subrange(m1.len() + 1int, k.len() as int));
    assert(h2 =~= k.subrange(m2.len() + 1int, k.len() as int));
}

/// The key of a model's response to an input starts with the model's name and
/// ends with the input hash, one ':' between them: "gpt-4" and "abc" give
/// "gpt-4:abc".
pub proof fn lemma_response_key_shape(m: Seq<char>, h: Seq<char>)
    ensures
        response_key(m, h).len() == m.len() + 1 + h.len(),
        response_key(m, h).subrange(0, m.len() as int) == m,
        response_key(m, h)[m.len() as int] == ':',
        response_key(m, h).subrange(m.len() + 1int, response_key(m, h).len() as int) == h,
{
    assert(response_key(m, h).subrange(0, m.len() as int) =~= m);
    assert(response_key(m, h).subrange(m.len() + 1int, response_key(m, h).len() as int) =~= h);
}


/// A response cached for one model is never served for another: after model
/// `m1`'s response to input `h` is cached, a lookup of another model `m2` for
/// the same input, where nothing was cached for `m2` before, finds nothing and
/// counts a miss.
pub proof fn lemma_response_not_shared_between_models(
    c0: AiResponseCache,
    c1: AiResponseCache,
    c2: AiResponseCache,
    m1: Seq<char>,
    m2: Seq<char>,
    h: Seq<char>,
    response: serde_json::Value,
    ttl: Option<u64>,
    t0: u64,
    t: u64,
    stored: Result<(), String>,
    r: Option<serde_json::Value>,
)
    requires
        m1 != m2,
        !c0@.contains_key(response_key(m2, h)),
        c0.put_outcome(c1, response_key(m1, h), response, ttl, t0, stored),
        c1.get_outcome(c2, response_key(m2, h), t, r),
    ensures
        r is None,
        c2.misses_spec() == c1.misses_spec() + 1,
        c2.hits_spec() == c1.hits_spec(),
{
    let k1 = response_key(m1, h);
    let k2 = response_key(m2, h);
    if k1 == k2 {
        lemma_response_key_injective(m1, h, m2, h);
    }
    if stored is Ok {
        let d = effective_ttl(ttl, c0.config_spec().default_ttl);
        let kept = choose|kept: Map<Seq<char>, CacheEntry<serde_json::Value>>|
            {
                &&& (if c0@.dom().len() >= c0.config_spec().max_size {
                    evicted_oldest(c0@, kept, min_nat(c0.config_spec().eviction_batch_size as nat, c0@.dom().len()))
                } else {
                    kept == c0@
                })
                &&& c1@ == #[trigger] kept.insert(k1, CacheEntry { value: response, expires_at: (t0 + d) as u64, created_at: t0 })
            };
        assert(!kept.contains_key(k2));
    }
    assert(!c1@.contains_key(k2));
}

} // verus!
