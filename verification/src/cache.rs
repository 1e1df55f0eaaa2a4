//! Bounded, time-expiring response cache: one namespace for transaction
//! lookups and one for address transfer lists, with shared hit/miss/
//! eviction counters.
//!
//! Each namespace is a `TtlCache`: a capacity-bounded store in insertion
//! order. An entry expires `ttl_ms` after it was set and an expired entry
//! is treated as a miss; when the store is full and a new key arrives,
//! the oldest entry (by insertion) is evicted. Overwriting a key
//! refreshes its expiry and keeps its insertion position. The abstract
//! content of a cache is its `CacheModel` view, and every operation's
//! contract is an exact transition on that view.
//!
//! As everywhere in this crate, the current time in milliseconds is an
//! argument, never a clock read.

use vstd::prelude::*;

use crate::counters::spec_bump;
use crate::errors::RuneError;
use crate::runes::{RuneTransfer, RunesTransactionResponse};

verus! {

/// Capacity and time-to-live for the two namespaces.
#[derive(Debug, Clone, Copy, PartialEq, Eq, Structural)]
pub struct CacheConfig {
    pub transaction_cache_size: usize,
    pub transaction_ttl_ms: u64,
    pub address_cache_size: usize,
    pub address_ttl_ms: u64,
}

impl CacheConfig {
    pub open spec fn wf(self) -> bool {
        &&& 0 < self.transaction_cache_size
        &&& 0 < self.address_cache_size
    }
}

impl Default for CacheConfig {
    /// 10,000 transactions for five minutes; 5,000 address lists for one
    /// minute.
    fn default() -> (c: Self)
        ensures
            c.wf(),
            c == (CacheConfig {
                transaction_cache_size: 10_000usize,
                transaction_ttl_ms: 300_000u64,
                address_cache_size: 5_000usize,
                address_ttl_ms: 60_000u64,
            }),
    {
        CacheConfig {
            transaction_cache_size: 10_000,
            transaction_ttl_ms: 300_000,
            address_cache_size: 5_000,
            address_ttl_ms: 60_000,
        }
    }
}

/// The expiry stamp of an entry set at `now_ms`, clamped at the largest
/// representable time.
pub open spec fn spec_expiry(now_ms: u64, ttl_ms: u64) -> u64 {
    if now_ms + ttl_ms > u64::MAX {
        u64::MAX
    } else {
        (now_ms + ttl_ms) as u64
    }
}

/// One abstract cache entry: key, value, and expiry stamp.
pub ghost struct EntryModel<V> {
    pub key: Seq<char>,
    pub value: V,
    pub expires_at_ms: u64,
}

/// The abstract content of a `TtlCache`: its entries in insertion order
/// (oldest first), its capacity, and its time-to-live.
pub ghost struct CacheModel<V> {
    pub entries: Seq<EntryModel<V>>,
    pub capacity: nat,
    pub ttl_ms: u64,
}

impl<V> CacheModel<V> {
    /// Bounded, one entry per key, positive capacity.
    pub open spec fn wf(self) -> bool {
        &&& 0 < self.capacity
        &&& self.entries.len() <= self.capacity
        &&& forall|i: int, j: int|
                0 <= i < j < self.entries.len() ==> (#[trigger] self.entries[i]).key != (
                #[trigger] self.entries[j]).key
    }

    pub open spec fn has_key(self, k: Seq<char>) -> bool {
        exists|i: int| 0 <= i < self.entries.len() && (#[trigger] self.entries[i]).key == k
    }

    pub open spec fn index_of(self, k: Seq<char>) -> int {
        choose|i: int| 0 <= i < self.entries.len() && (#[trigger] self.entries[i]).key == k
    }

    pub open spec fn value_for(self, k: Seq<char>) -> V {
        self.entries[self.index_of(k)].value
    }

    pub open spec fn expiry_for(self, k: Seq<char>) -> u64 {
        self.entries[self.index_of(k)].expires_at_ms
    }

    /// The key is present and not yet expired at `now_ms`.
    pub open spec fn live(self, k: Seq<char>, now_ms: u64) -> bool {
        self.has_key(k) && now_ms < self.expiry_for(k)
    }

    /// What a `get` at `now_ms` answers: the stored value while the
    /// entry is live, nothing otherwise.
    pub open spec fn spec_lookup(self, k: Seq<char>, now_ms: u64) -> Option<V> {
        if self.live(k, now_ms) {
            Some(self.value_for(k))
        } else {
            None
        }
    }

    /// Whether a `set` of key `k` evicts the oldest entry: only when the
    /// key is new and the store is full.
    pub open spec fn spec_evicts(self, k: Seq<char>) -> bool {
        !self.has_key(k) && self.entries.len() == self.capacity
    }

    /// The content after `set(k, v)` at `now_ms`: an existing key is
    /// overwritten in place with a fresh expiry; a new key is appended,
    /// evicting the oldest entry when the store is full.
    pub open spec fn spec_set(self, k: Seq<char>, v: V, now_ms: u64) -> CacheModel<V> {
        let e = EntryModel { key: k, value: v, expires_at_ms: spec_expiry(now_ms, self.ttl_ms) };
        let entries = if self.has_key(k) {
            self.entries.update(self.index_of(k), e)
        } else if self.entries.len() == self.capacity {
            self.entries.drop_first().push(e)
        } else {
            self.entries.push(e)
        };
        CacheModel { entries, ..self }
    }

    /// The content after `invalidate(k)`: the entry removed if present.
    pub open spec fn spec_remove(self, k: Seq<char>) -> CacheModel<V> {
        if self.has_key(k) {
            CacheModel { entries: self.entries.remove(self.index_of(k)), ..self }
        } else {
            self
        }
    }

    /// The content after `clear`.
    pub open spec fn spec_clear(self) -> CacheModel<V> {
        CacheModel { entries: Seq::empty(), ..self }
    }

    /// With one entry per key, any index holding key `k` is the lookup
    /// index.
    pub proof fn lemma_index(self, k: Seq<char>, i: int)
        requires
            forall|a: int, b: int|
                0 <= a < b < self.entries.len() ==> (#[trigger] self.entries[a]).key != (
                #[trigger] self.entries[b]).key,
            0 <= i < self.entries.len(),
            self.entries[i].key == k,
        ensures
            self.has_key(k),
            self.index_of(k) == i,
            self.value_for(k) == self.entries[i].value,
            self.expiry_for(k) == self.entries[i].expires_at_ms,
    {
        assert(self.has_key(k));
        let w = self.index_of(k);
        if w != i {
            if w < i {
                assert(self.entries[w].key != self.entries[i].key);
            } else {
                assert(self.entries[i].key != self.entries[w].key);
            }
        }
    }
}

/// Setting a key makes an immediate lookup of that key a hit that
/// answers exactly the stored value, whatever the cache held before —
/// as long as the store's time-to-live is positive and the clock can
/// still advance.
pub proof fn lemma_get_after_set<V>(m: CacheModel<V>, k: Seq<char>, v: V, now_ms: u64)
    requires
        m.wf(),
        0 < m.ttl_ms,
        now_ms < u64::MAX,
    ensures
        m.spec_set(k, v, now_ms).wf(),
        m.spec_set(k, v, now_ms).spec_lookup(k, now_ms) == Some(v),
{
    lemma_get_after_set_shape(m, k, v, now_ms);
}

/// A key the cache does not hold — never set, or invalidated since —
/// is a miss at any time.
pub proof fn lemma_absent_is_miss<V>(m: CacheModel<V>, k: Seq<char>, now_ms: u64)
    requires
        !m.has_key(k),
    ensures
        m.spec_lookup(k, now_ms) is None,
{
}

/// Once a key's time-to-live has elapsed, looking it up is a miss
/// again.
pub proof fn lemma_expired_is_miss<V>(m: CacheModel<V>, k: Seq<char>, v: V, set_ms: u64, now_ms: u64)
    requires
        m.wf(),
        now_ms >= spec_expiry(set_ms, m.ttl_ms),
    ensures
        m.spec_set(k, v, set_ms).spec_lookup(k, now_ms) is None,
{
    let m2 = m.spec_set(k, v, set_ms);
    lemma_get_after_set_shape(m, k, v, set_ms);
    if m2.live(k, now_ms) {
        assert(m2.expiry_for(k) == spec_expiry(set_ms, m.ttl_ms));
    }
}

/// After `set(k, v)` the entry for `k` carries the fresh expiry stamp —
/// whichever of the three `spec_set` shapes applied.
proof fn lemma_get_after_set_shape<V>(m: CacheModel<V>, k: Seq<char>, v: V, now_ms: u64)
    requires
        m.wf(),
    ensures
        m.spec_set(k, v, now_ms).wf(),
        m.spec_set(k, v, now_ms).has_key(k),
        m.spec_set(k, v, now_ms).value_for(k) == v,
        m.spec_set(k, v, now_ms).expiry_for(k) == spec_expiry(now_ms, m.ttl_ms),
{
    let m2 = m.spec_set(k, v, now_ms);
    if m.has_key(k) {
        let w = m.index_of(k);
        assert(0 <= w < m.entries.len() && m.entries[w].key == k);
        assert forall|a: int, b: int| 0 <= a < b < m2.entries.len() implies (
        #[trigger] m2.entries[a]).key != (#[trigger] m2.entries[b]).key by {
            assert(m2.entries[a].key == m.entries[a].key);
            assert(m2.entries[b].key == m.entries[b].key);
        }
        m2.lemma_index(k, w);
    } else if m.entries.len() == m.capacity {
        let n = m2.entries.len() as int;
        assert forall|a: int, b: int| 0 <= a < b < n implies (#[trigger] m2.entries[a]).key != (
        #[trigger] m2.entries[b]).key by {
            if b < n - 1 {
                assert(m2.entries[a] == m.entries[a + 1]);
                assert(m2.entries[b] == m.entries[b + 1]);
            } else {
                assert(m2.entries[a] == m.entries[a + 1]);
                assert(m.entries[a + 1].key != k);
            }
        }
        m2.lemma_index(k, n - 1);
    } else {
        let n = m2.entries.len() as int;
        assert forall|a: int, b: int| 0 <= a < b < n implies (#[trigger] m2.entries[a]).key != (
        #[trigger] m2.entries[b]).key by {
            if b == n - 1 {
                assert(m2.entries[a] == m.entries[a]);
                assert(m.entries[a].key != k);
            } else {
                assert(m2.entries[a] == m.entries[a]);
                assert(m2.entries[b] == m.entries[b]);
            }
        }
        m2.lemma_index(k, n - 1);
    }
}

/// At capacity, setting a new key evicts exactly the oldest entry: the
/// store stays at capacity, the new key is live, and the oldest key is
/// gone.
pub proof fn lemma_eviction_at_capacity<V>(m: CacheModel<V>, k: Seq<char>, v: V, now_ms: u64)
    requires
        m.wf(),
        m.entries.len() == m.capacity,
        !m.has_key(k),
    ensures
        m.spec_evicts(k),
        m.spec_set(k, v, now_ms).wf(),
        m.spec_set(k, v, now_ms).entries.len() == m.capacity,
        m.spec_set(k, v, now_ms).has_key(k),
        !m.spec_set(k, v, now_ms).has_key(m.entries[0].key),
{
    let m2 = m.spec_set(k, v, now_ms);
    lemma_get_after_set_shape(m, k, v, now_ms);
    let k0 = m.entries[0].key;
    assert(k0 != k) by {
        if k0 == k {
            assert(m.has_key(k));
        }
    }
    if m2.has_key(k0) {
        let w = choose|w: int| 0 <= w < m2.entries.len() && (#[trigger] m2.entries[w]).key == k0;
        if w < m2.entries.len() - 1 {
            assert(m2.entries[w] == m.entries[w + 1]);
            assert(m.entries[0].key != m.entries[w + 1].key);
        } else {
            assert(m2.entries[w].key == k);
        }
    }
}

struct Slot<V> {
    key: String,
    value: V,
    expires_at_ms: u64,
}

/// A capacity-bounded store of values with per-entry expiry, in
/// insertion order. Its contract is exact over its `CacheModel` view.
pub struct TtlCache<V> {
    slots: Vec<Slot<V>>,
    capacity: usize,
    ttl_ms: u64,
}

impl<V> View for TtlCache<V> {
    type V = CacheModel<V>;

    closed spec fn view(&self) -> CacheModel<V> {
        CacheModel {
            entries: self.slots@.map(
                |i: int, s: Slot<V>|
                    EntryModel { key: s.key@, value: s.value, expires_at_ms: s.expires_at_ms },
            ),
            capacity: self.capacity as nat,
            ttl_ms: self.ttl_ms,
        }
    }
}

impl<V> TtlCache<V> {
    pub open spec fn wf(self) -> bool {
        self@.wf()
    }

    /// An empty store with the given bound and time-to-live.
    pub fn new(capacity: usize, ttl_ms: u64) -> (c: TtlCache<V>)
        requires
            0 < capacity,
        ensures
            c.wf(),
            c@.entries == Seq::<EntryModel<V>>::empty(),
            c@.capacity == capacity as nat,
            c@.ttl_ms == ttl_ms,
    {
        let c = TtlCache { slots: Vec::new(), capacity, ttl_ms };
        proof {
            assert(c@.entries =~= Seq::<EntryModel<V>>::empty());
        }
        c
    }

    /// The number of stored entries, expired ones included.
    pub fn len(&self) -> (n: usize)
        ensures
            n == self@.entries.len(),
    {
        self.slots.len()
    }

    fn find(&self, key: &String) -> (r: Option<usize>)
        requires
            self.wf(),
        ensures
            match r {
                Some(i) => self@.has_key(key@) && i < self@.entries.len() && self@.entries[
                    i as int
                ].key == key@ && self@.index_of(key@) == i,
                None => !self@.has_key(key@),
            },
    {
        let n = self.slots.len();
        let mut i: usize = 0;
        while i < n
            invariant
                self.wf(),
                n == self@.entries.len(),
                i <= n,
                forall|j: int| 0 <= j < i ==> (#[trigger] self@.entries[j]).key != key@,
            decreases n - i,
        {
            if self.slots[i].key == *key {
                proof {
                    self@.lemma_index(key@, i as int);
                }
                return Some(i);
            }
            i = i + 1;
        }
        None
    }

    /// The index of the live entry for `key` at `now_ms`, if any; an
    /// expired or absent entry gives none.
    pub fn find_live(&self, key: &str, now_ms: u64) -> (r: Option<usize>)
        requires
            self.wf(),
        ensures
            match r {
                Some(i) => self@.live(key@, now_ms) && i < self@.entries.len() && self@.entries[
                    i as int
                ].value == self@.value_for(key@),
                None => !self@.live(key@, now_ms),
            },
            (r is Some) == (self@.spec_lookup(key@, now_ms) is Some),
    {
        let key_owned: String = key.to_owned();
        match self.find(&key_owned) {
            Some(i) => {
                if now_ms < self.slots[i].expires_at_ms {
                    Some(i)
                } else {
                    None
                }
            },
            None => None,
        }
    }

    /// Read access to the value stored at a known index.
    pub fn value_at(&self, i: usize) -> (r: &V)
        requires
            i < self@.entries.len(),
        ensures
            *r == self@.entries[i as int].value,
    {
        &self.slots[i].value
    }

    /// Stores `value` under `key` as `spec_set` describes, and reports
    /// whether the oldest entry was evicted to make room.
    pub fn set(&mut self, key: String, value: V, now_ms: u64) -> (evicted: bool)
        requires
            old(self).wf(),
        ensures
            final(self).wf(),
            evicted == old(self)@.spec_evicts(key@),
            final(self)@ == old(self)@.spec_set(key@, value, now_ms),
    {
        let ghost pre = self@;
        let expires_at_ms: u64 = now_ms.saturating_add(self.ttl_ms);
        let found = self.find(&key);
        match found {
            Some(i) => {
                let entry = &mut self.slots[i];
                entry.value = value;
                entry.expires_at_ms = expires_at_ms;
                proof {
                    assert(self@.entries =~= pre.entries.update(
                        pre.index_of(key@),
                        EntryModel {
                            key: key@,
                            value: value,
                            expires_at_ms: spec_expiry(now_ms, pre.ttl_ms),
                        },
                    ));
                    assert(self@ == pre.spec_set(key@, value, now_ms));
                    assert forall|a: int, b: int| 0 <= a < b < self@.entries.len() implies (
                    #[trigger] self@.entries[a]).key != (#[trigger] self@.entries[b]).key by {
                        assert(self@.entries[a].key == pre.entries[a].key);
                        assert(self@.entries[b].key == pre.entries[b].key);
                    }
                }
                false
            },
            None => {
                let at_capacity = self.slots.len() == self.capacity;
                if at_capacity {
                    let ghost before = self@;
                    let _oldest = self.slots.remove(0);
                    proof {
                        assert(self@.entries =~= before.entries.drop_first());
                    }
                }
                let ghost mid = self@;
                self.slots.push(Slot { key, value, expires_at_ms });
                proof {
                    let e = EntryModel {
                        key: key@,
                        value: value,
                        expires_at_ms: spec_expiry(now_ms, pre.ttl_ms),
                    };
                    assert(self@.entries =~= mid.entries.push(e));
                    if at_capacity {
                        assert(self@.entries =~= pre.entries.drop_first().push(e));
                    } else {
                        assert(self@.entries =~= pre.entries.push(e));
                    }
                    assert(self@ == pre.spec_set(key@, value, now_ms));
                    let n = self@.entries.len() as int;
                    assert forall|a: int, b: int| 0 <= a < b < n implies (
                    #[trigger] self@.entries[a]).key != (#[trigger] self@.entries[b]).key by {
                        if at_capacity {
                            if b < n - 1 {
                                assert(self@.entries[a] == pre.entries[a + 1]);
                                assert(self@.entries[b] == pre.entries[b + 1]);
                            } else {
                                assert(self@.entries[a] == pre.entries[a + 1]);
                                assert(pre.entries[a + 1].key != key@);
                            }
                        } else {
                            if b < n - 1 {
                                assert(self@.entries[a] == pre.entries[a]);
                                assert(self@.entries[b] == pre.entries[b]);
                            } else {
                                assert(self@.entries[a] == pre.entries[a]);
                                assert(pre.entries[a].key != key@);
                            }
                        }
                    }
                }
                at_capacity
            },
        }
    }

    /// Removes the entry for `key` if present, reporting whether one was
    /// removed.
    pub fn remove(&mut self, key: &str) -> (removed: bool)
        requires
            old(self).wf(),
        ensures
            final(self).wf(),
            removed == old(self)@.has_key(key@),
            final(self)@ == old(self)@.spec_remove(key@),
    {
        let ghost pre = self@;
        let key_owned: String = key.to_owned();
        match self.find(&key_owned) {
            Some(i) => {
                self.slots.remove(i);
                proof {
                    assert(self@.entries =~= pre.entries.remove(pre.index_of(key@)));
                    assert(self@ == pre.spec_remove(key@));
                    let n = self@.entries.len() as int;
                    let w = pre.index_of(key@);
                    assert forall|a: int, b: int| 0 <= a < b < n implies (
                    #[trigger] self@.entries[a]).key != (#[trigger] self@.entries[b]).key by {
                        let a0 = if a < w {
                            a
                        } else {
                            a + 1
                        };
                        let b0 = if b < w {
                            b
                        } else {
                            b + 1
                        };
                        assert(self@.entries[a] == pre.entries[a0]);
                        assert(self@.entries[b] == pre.entries[b0]);
                        assert(pre.entries[a0].key != pre.entries[b0].key);
                    }
                }
                true
            },
            None => {
                false
            },
        }
    }

    /// Drops every entry.
    pub fn clear(&mut self)
        requires
            old(self).wf(),
        ensures
            final(self).wf(),
            final(self)@ == old(self)@.spec_clear(),
    {
        self.slots.clear();
        proof {
            assert(self@.entries =~= Seq::<EntryModel<V>>::empty());
        }
    }
}

/// Recording counters shared by both cache namespaces.
#[derive(Debug, Clone, Copy, PartialEq, Eq, Structural)]
pub struct CacheMetrics {
    pub hits: u64,
    pub misses: u64,
    pub evictions: u64,
}

impl CacheMetrics {
    /// All counters at zero.
    pub fn new() -> (m: CacheMetrics)
        ensures
            m == (CacheMetrics { hits: 0u64, misses: 0u64, evictions: 0u64 }),
    {
        CacheMetrics { hits: 0, misses: 0, evictions: 0 }
    }
}

/// A point-in-time reading of both namespace sizes and the counters.
#[derive(Debug, Clone, Copy, PartialEq, Eq, Structural)]
pub struct CacheStats {
    pub transaction_cache_size: usize,
    pub address_cache_size: usize,
    pub hits: u64,
    pub misses: u64,
    pub evictions: u64,
}

/// The response cache: a transaction namespace, an address-transfers
/// namespace, and shared counters. `get` counts a hit or a miss; `set`
/// counts an eviction when one happens.
pub struct RunesCache {
    tx_cache: TtlCache<RunesTransactionResponse>,
    addr_cache: TtlCache<Vec<RuneTransfer>>,
    metrics: CacheMetrics,
}

impl RunesCache {
    pub closed spec fn tx_model(self) -> CacheModel<RunesTransactionResponse> {
        self.tx_cache@
    }

    pub closed spec fn addr_model(self) -> CacheModel<Vec<RuneTransfer>> {
        self.addr_cache@
    }

    pub closed spec fn spec_metrics(self) -> CacheMetrics {
        self.metrics
    }

    pub closed spec fn wf(self) -> bool {
        self.tx_cache.wf() && self.addr_cache.wf()
    }

    /// What a well-formed cache guarantees its callers: both namespace
    /// models are well-formed, which the cache laws ask of their model
    /// arguments.
    pub proof fn lemma_wf_models(self)
        requires
            self.wf(),
        ensures
            self.tx_model().wf(),
            self.addr_model().wf(),
    {
    }

    /// Two empty namespaces sized by `config`, with the given starting
    /// counters.
    pub fn new(config: CacheConfig, metrics: CacheMetrics) -> (c: RunesCache)
        requires
            config.wf(),
        ensures
            c.wf(),
            c.tx_model().entries.len() == 0,
            c.tx_model().capacity == config.transaction_cache_size as nat,
            c.tx_model().ttl_ms == config.transaction_ttl_ms,
            c.addr_model().entries.len() == 0,
            c.addr_model().capacity == config.address_cache_size as nat,
            c.addr_model().ttl_ms == config.address_ttl_ms,
            c.spec_metrics() == metrics,
    {
        RunesCache {
            tx_cache: TtlCache::new(config.transaction_cache_size, config.transaction_ttl_ms),
            addr_cache: TtlCache::new(config.address_cache_size, config.address_ttl_ms),
            metrics,
        }
    }

    /// Looks up a transaction: the stored value while its entry is live
    /// (counted as a hit), nothing otherwise (counted as a miss).
    pub fn get_transaction<'a>(&'a mut self, tx_id: &str, now_ms: u64) -> (r: Option<
        &'a RunesTransactionResponse,
    >)
        requires
            old(self).wf(),
        ensures
            final(self).wf(),
            final(self).tx_model() == old(self).tx_model(),
            final(self).addr_model() == old(self).addr_model(),
            final(self).spec_metrics().evictions == old(self).spec_metrics().evictions,
            match r {
                Some(v) => old(self).tx_model().spec_lookup(tx_id@, now_ms) == Some(*v)
                    && final(self).spec_metrics().hits == spec_bump(old(self).spec_metrics().hits)
                    && final(self).spec_metrics().misses == old(self).spec_metrics().misses,
                None => (old(self).tx_model().spec_lookup(tx_id@, now_ms) is None)
                    && final(self).spec_metrics().misses == spec_bump(
                    old(self).spec_metrics().misses,
                ) && final(self).spec_metrics().hits == old(self).spec_metrics().hits,
            },
    {
        match self.tx_cache.find_live(tx_id, now_ms) {
            Some(i) => {
                self.metrics.hits = self.metrics.hits.saturating_add(1);
                Some(self.tx_cache.value_at(i))
            },
            None => {
                self.metrics.misses = self.metrics.misses.saturating_add(1);
                None
            },
        }
    }

    /// Stores a transaction under its id, evicting the oldest entry when
    /// the namespace is full; a capacity eviction advances the eviction
    /// counter. Always succeeds.
    pub fn set_transaction(
        &mut self,
        tx_id: String,
        response: RunesTransactionResponse,
        now_ms: u64,
    ) -> (r: Result<(), RuneError>)
        requires
            old(self).wf(),
        ensures
            final(self).wf(),
            r is Ok,
            final(self).tx_model() == old(self).tx_model().spec_set(tx_id@, response, now_ms),
            final(self).addr_model() == old(self).addr_model(),
            final(self).spec_metrics().hits == old(self).spec_metrics().hits,
            final(self).spec_metrics().misses == old(self).spec_metrics().misses,
            final(self).spec_metrics().evictions == (if old(self).tx_model().spec_evicts(tx_id@) {
                spec_bump(old(self).spec_metrics().evictions)
            } else {
                old(self).spec_metrics().evictions
            }),
    {
        let evicted = self.tx_cache.set(tx_id, response, now_ms);
        if evicted {
            self.metrics.evictions = self.metrics.evictions.saturating_add(1);
        }
        Ok(())
    }

    /// Looks up the transfer list of an address, with the same hit/miss
    /// accounting as transaction lookups.
    pub fn get_address_transfers<'a>(&'a mut self, address: &str, now_ms: u64) -> (r: Option<
        &'a Vec<RuneTransfer>,
    >)
        requires
            old(self).wf(),
        ensures
            final(self).wf(),
            final(self).tx_model() == old(self).tx_model(),
            final(self).addr_model() == old(self).addr_model(),
            final(self).spec_metrics().evictions == old(self).spec_metrics().evictions,
            match r {
                Some(v) => old(self).addr_model().spec_lookup(address@, now_ms) == Some(*v)
                    && final(self).spec_metrics().hits == spec_bump(old(self).spec_metrics().hits)
                    && final(self).spec_metrics().misses == old(self).spec_metrics().misses,
                None => (old(self).addr_model().spec_lookup(address@, now_ms) is None)
                    && final(self).spec_metrics().misses == spec_bump(
                    old(self).spec_metrics().misses,
                ) && final(self).spec_metrics().hits == old(self).spec_metrics().hits,
            },
    {
        match self.addr_cache.find_live(address, now_ms) {
            Some(i) => {
                self.metrics.hits = self.metrics.hits.saturating_add(1);
                Some(self.addr_cache.value_at(i))
            },
            None => {
                self.metrics.misses = self.metrics.misses.saturating_add(1);
                None
            },
        }
    }

    /// Stores an address's transfer list, with the same eviction
    /// accounting as transaction stores. Always succeeds.
    pub fn set_address_transfers(
        &mut self,
        address: String,
        transfers: Vec<RuneTransfer>,
        now_ms: u64,
    ) -> (r: Result<(), RuneError>)
        requires
            old(self).wf(),
        ensures
            final(self).wf(),
            r is Ok,
            final(self).addr_model() == old(self).addr_model().spec_set(
                address@,
                transfers,
                now_ms,
            ),
            final(self).tx_model() == old(self).tx_model(),
            final(self).spec_metrics().hits == old(self).spec_metrics().hits,
            final(self).spec_metrics().misses == old(self).spec_metrics().misses,
            final(self).spec_metrics().evictions == (if old(self).addr_model().spec_evicts(
                address@,
            ) {
                spec_bump(old(self).spec_metrics().evictions)
            } else {
                old(self).spec_metrics().evictions
            }),
    {
        let evicted = self.addr_cache.set(address, transfers, now_ms);
        if evicted {
            self.metrics.evictions = self.metrics.evictions.saturating_add(1);
        }
        Ok(())
    }

    /// Drops the transaction entry for `tx_id` if present.
    pub fn invalidate_transaction(&mut self, tx_id: &str)
        requires
            old(self).wf(),
        ensures
            final(self).wf(),
            final(self).tx_model() == old(self).tx_model().spec_remove(tx_id@),
            final(self).addr_model() == old(self).addr_model(),
            final(self).spec_metrics() == old(self).spec_metrics(),
    {
        self.tx_cache.remove(tx_id);
    }

    /// Drops the transfer-list entry for `address` if present.
    pub fn invalidate_address(&mut self, address: &str)
        requires
            old(self).wf(),
        ensures
            final(self).wf(),
            final(self).addr_model() == old(self).addr_model().spec_remove(address@),
            final(self).tx_model() == old(self).tx_model(),
            final(self).spec_metrics() == old(self).spec_metrics(),
    {
        self.addr_cache.remove(address);
    }

    /// Drops every entry in both namespaces; the counters keep counting.
    pub fn clear_all(&mut self)
        requires
            old(self).wf(),
        ensures
            final(self).wf(),
            final(self).tx_model() == old(self).tx_model().spec_clear(),
            final(self).addr_model() == old(self).addr_model().spec_clear(),
            final(self).spec_metrics() == old(self).spec_metrics(),
    {
        self.tx_cache.clear();
        self.addr_cache.clear();
    }

    /// Both namespace sizes and the counters, read together.
    pub fn get_metrics(&self) -> (s: CacheStats)
        requires
            self.wf(),
        ensures
            s.transaction_cache_size == self.tx_model().entries.len(),
            s.address_cache_size == self.addr_model().entries.len(),
            s.hits == self.spec_metrics().hits,
            s.misses == self.spec_metrics().misses,
            s.evictions == self.spec_metrics().evictions,
    {
        CacheStats {
            transaction_cache_size: self.tx_cache.len(),
            address_cache_size: self.addr_cache.len(),
            hits: self.metrics.hits,
            misses: self.metrics.misses,
            evictions: self.metrics.evictions,
        }
    }
}

} // verus!
