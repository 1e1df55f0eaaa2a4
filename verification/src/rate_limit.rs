//! Cost-weighted admission control: a token bucket per client key, with
//! continuous refill, an explicit cleanup sweep for idle buckets, and
//! recording counters.
//!
//! Token amounts are kept in fixed point: a bucket stores
//! `tokens * window_size_ms` ("scaled tokens"), so a refill of
//! `elapsed_ms * max_requests / window_size_ms` tokens is the exact
//! integer `elapsed_ms * max_requests` in scaled units. All transitions
//! are exact; nothing is rounded.
//!
//! Time never comes from a clock here: every operation takes the current
//! time in milliseconds from the caller, so each transition is a pure
//! function of its arguments.

use vstd::prelude::*;

use crate::counters::spec_bump;
use crate::errors::RuneError;

verus! {

/// Admission parameters: `max_requests` tokens are refilled per
/// `window_size_ms`; `burst_size` is informational.
#[derive(Debug, Clone, Copy, PartialEq, Eq, Structural)]
pub struct RateLimitConfig {
    pub window_size_ms: u64,
    pub max_requests: u32,
    pub burst_size: u32,
}

impl RateLimitConfig {
    /// A usable configuration: a positive window, a positive refill rate,
    /// and a token cap whose scaled form fits in 64 bits.
    pub open spec fn wf(self) -> bool {
        &&& 0 < self.window_size_ms
        &&& 0 < self.max_requests
        &&& self.max_requests as int * self.window_size_ms as int <= u64::MAX as int
    }
}

impl Default for RateLimitConfig {
    /// 100 requests per minute, with a burst hint of 10.
    fn default() -> (c: Self)
        ensures
            c.wf(),
            c == (RateLimitConfig { window_size_ms: 60_000u64, max_requests: 100u32, burst_size: 10u32 }),
    {
        RateLimitConfig { window_size_ms: 60_000, max_requests: 100, burst_size: 10 }
    }
}

/// One key's bucket. `tokens_scaled` is the token amount multiplied by
/// `window_size_ms`; the cap is `max_requests * window_size_ms`. The
/// fields are the bucket's whole mathematical state, so every spec
/// function over it is open.
#[derive(Debug, Clone, Copy, PartialEq, Eq, Structural)]
pub struct TokenBucket {
    pub tokens_scaled: u64,
    pub last_refill_ms: u64,
    pub max_requests: u32,
    pub window_size_ms: u64,
}

impl TokenBucket {
    /// The scaled token cap (`maxTokens` in scaled units).
    pub open spec fn cap_scaled(self) -> int {
        self.max_requests as int * self.window_size_ms as int
    }

    pub open spec fn spec_tokens_scaled(self) -> int {
        self.tokens_scaled as int
    }

    pub open spec fn spec_last_refill(self) -> u64 {
        self.last_refill_ms
    }

    /// The bucket holds at most the cap: the token count never exceeds
    /// `maxTokens` and, being unsigned, never goes negative.
    pub open spec fn wf(self) -> bool {
        &&& 0 < self.window_size_ms
        &&& 0 < self.max_requests
        &&& self.cap_scaled() <= u64::MAX as int
        &&& self.spec_tokens_scaled() <= self.cap_scaled()
    }

    /// The bucket refills at the rate of the given configuration.
    pub open spec fn matches_config(self, c: RateLimitConfig) -> bool {
        &&& self.max_requests == c.max_requests
        &&& self.window_size_ms == c.window_size_ms
    }

    /// Milliseconds since the last refill; a clock that appears to run
    /// backwards counts as no elapsed time.
    pub open spec fn spec_elapsed(self, now_ms: u64) -> int {
        if now_ms >= self.last_refill_ms {
            now_ms - self.last_refill_ms
        } else {
            0
        }
    }

    /// Scaled token amount after the continuous refill at `now_ms`,
    /// capped at the scaled cap.
    pub open spec fn spec_refilled(self, now_ms: u64) -> int {
        let grown = self.spec_tokens_scaled() + self.spec_elapsed(now_ms) * self.max_requests as int;
        if grown < self.cap_scaled() {
            grown
        } else {
            self.cap_scaled()
        }
    }

    /// A cost in scaled units.
    pub open spec fn cost_scaled(self, cost: u32) -> int {
        cost as int * self.window_size_ms as int
    }

    /// Whether a check of the given cost at `now_ms` is admitted.
    pub open spec fn spec_allows(self, cost: u32, now_ms: u64) -> bool {
        self.spec_refilled(now_ms) >= self.cost_scaled(cost)
    }

    /// The bucket after a check at `now_ms`: refilled, stamped, and
    /// charged `cost` exactly when the check was admitted.
    pub open spec fn spec_after(self, cost: u32, now_ms: u64) -> TokenBucket {
        TokenBucket {
            tokens_scaled: (if self.spec_allows(cost, now_ms) {
                self.spec_refilled(now_ms) - self.cost_scaled(cost)
            } else {
                self.spec_refilled(now_ms)
            }) as u64,
            last_refill_ms: now_ms,
            ..self
        }
    }

    /// A fresh bucket for a key first seen at `now_ms`: full, at the
    /// configuration's rate.
    pub open spec fn spec_fresh(c: RateLimitConfig, now_ms: u64) -> TokenBucket {
        TokenBucket {
            tokens_scaled: (c.max_requests as int * c.window_size_ms as int) as u64,
            last_refill_ms: now_ms,
            max_requests: c.max_requests,
            window_size_ms: c.window_size_ms,
        }
    }

    /// Builds the full bucket that `spec_fresh` describes.
    pub fn new(config: &RateLimitConfig, now_ms: u64) -> (b: TokenBucket)
        requires
            config.wf(),
        ensures
            b == TokenBucket::spec_fresh(*config, now_ms),
            b.wf(),
            b.matches_config(*config),
    {
        TokenBucket {
            tokens_scaled: (config.max_requests as u64) * config.window_size_ms,
            last_refill_ms: now_ms,
            max_requests: config.max_requests,
            window_size_ms: config.window_size_ms,
        }
    }

    /// One check: refill by the time elapsed since the last check, then
    /// admit and charge `cost` if enough tokens are present, else reject
    /// and charge nothing. Either way the refill timestamp advances, so
    /// an idle bucket accumulates tokens only up to the cap.
    pub fn try_acquire(&mut self, cost: u32, now_ms: u64) -> (allowed: bool)
        requires
            old(self).wf(),
        ensures
            final(self).wf(),
            allowed == old(self).spec_allows(cost, now_ms),
            *final(self) == old(self).spec_after(cost, now_ms),
    {
        let elapsed: u64 = if now_ms >= self.last_refill_ms {
            now_ms - self.last_refill_ms
        } else {
            0
        };
        let cap: u128 = (self.max_requests as u128) * (self.window_size_ms as u128);
        proof {
            assert(elapsed as int * self.max_requests as int <= u64::MAX as int * u32::MAX as int)
                by (nonlinear_arith)
                requires
                    0 <= elapsed as int <= u64::MAX as int,
                    0 <= self.max_requests as int <= u32::MAX as int,
            ;
        }
        let grown: u128 = (self.tokens_scaled as u128) + (elapsed as u128) * (self.max_requests as u128);
        let refilled: u128 = if grown < cap {
            grown
        } else {
            cap
        };
        proof {
            assert(cost as int * self.window_size_ms as int <= u32::MAX as int * u64::MAX as int)
                by (nonlinear_arith)
                requires
                    0 <= cost as int <= u32::MAX as int,
                    0 <= self.window_size_ms as int <= u64::MAX as int,
            ;
        }
        let needed: u128 = (cost as u128) * (self.window_size_ms as u128);
        self.last_refill_ms = now_ms;
        if refilled >= needed {
            self.tokens_scaled = (refilled - needed) as u64;
            true
        } else {
            self.tokens_scaled = refilled as u64;
            false
        }
    }
}

/// A check of any cost at any time keeps the bucket within its bounds:
/// the token amount after the check is never negative and never above
/// the cap, so by induction no sequence of checks on one key can push
/// `tokens` outside `[0, maxTokens]`.
pub proof fn lemma_token_cap_preserved(b: TokenBucket, cost: u32, now_ms: u64)
    requires
        b.wf(),
    ensures
        b.spec_after(cost, now_ms).wf(),
        0 <= b.spec_after(cost, now_ms).spec_tokens_scaled(),
        b.spec_after(cost, now_ms).spec_tokens_scaled() <= b.spec_after(cost, now_ms).cap_scaled(),
{
    assert(b.spec_elapsed(now_ms) * b.max_requests as int >= 0) by (nonlinear_arith)
        requires b.spec_elapsed(now_ms) >= 0;
}

/// Whether a character is the whitespace the client-key extraction
/// strips: a space or a tab.
pub open spec fn spec_is_ws(c: char) -> bool {
    c == ' ' || c == '\t'
}

/// The index of the first comma in `s` at or after `i`, or the length
/// when there is none.
pub open spec fn spec_comma_at(s: Seq<char>, i: int) -> int
    decreases s.len() - i,
{
    if i < 0 || i >= s.len() {
        s.len() as int
    } else if s[i] == ',' {
        i
    } else {
        spec_comma_at(s, i + 1)
    }
}

/// The index of the first non-whitespace character at or after `i`, or
/// the length when all of the rest is whitespace.
pub open spec fn spec_skip_ws(s: Seq<char>, i: int) -> int
    decreases s.len() - i,
{
    if i < 0 || i >= s.len() {
        s.len() as int
    } else if spec_is_ws(s[i]) {
        spec_skip_ws(s, i + 1)
    } else {
        i
    }
}

/// One past the last non-whitespace character strictly before `j`, or
/// zero when everything before `j` is whitespace.
pub open spec fn spec_rskip_ws(s: Seq<char>, j: int) -> int
    decreases j,
{
    if j <= 0 {
        0
    } else if spec_is_ws(s[j - 1]) {
        spec_rskip_ws(s, j - 1)
    } else {
        j
    }
}

/// The first comma-separated entry of a forwarded-for header, with its
/// leading and trailing spaces and tabs stripped.
pub open spec fn spec_first_entry(s: Seq<char>) -> Seq<char> {
    let m = spec_comma_at(s, 0);
    let a = spec_skip_ws(s.take(m), 0);
    let b = spec_rskip_ws(s.take(m), m);
    if a < b {
        s.subrange(a, b)
    } else {
        Seq::empty()
    }
}

/// The admission key of a request, from the headers a proxy chain
/// leaves behind: the first entry of `X-Forwarded-For` when that header
/// is present, else `X-Real-IP`, else the transport's remote address,
/// else nothing.
pub fn get_client_ip(
    forwarded_for: Option<&str>,
    real_ip: Option<&str>,
    remote_addr: Option<&str>,
) -> (r: Option<String>)
    ensures
        match (forwarded_for, real_ip, remote_addr) {
            (Some(f), _, _) => r matches Some(ip) && ip@ == spec_first_entry(f@),
            (None, Some(x), _) => r matches Some(ip) && ip@ == x@,
            (None, None, Some(x)) => r matches Some(ip) && ip@ == x@,
            (None, None, None) => r is None,
        },
{
    match forwarded_for {
        Some(f) => Some(first_forwarded_entry(f)),
        None => match real_ip {
            Some(x) => Some(x.to_owned()),
            None => match remote_addr {
                Some(x) => Some(x.to_owned()),
                None => None,
            },
        },
    }
}

fn first_forwarded_entry(f: &str) -> (r: String)
    ensures
        r@ == spec_first_entry(f@),
{
    let n = f.unicode_len();
    let mut m: usize = 0;
    while m < n && f.get_char(m) != ','
        invariant
            m <= n,
            n == f@.len(),
            spec_comma_at(f@, 0) == spec_comma_at(f@, m as int),
        decreases n - m,
    {
        m = m + 1;
    }
    let ghost prefix = f@.take(m as int);
    proof {
        assert(spec_comma_at(f@, m as int) == m as int);
        assert forall|j: int| 0 <= j < m implies prefix[j] == f@[j] by {}
    }
    let mut a: usize = 0;
    while a < m && (f.get_char(a) == ' ' || f.get_char(a) == '\t')
        invariant
            a <= m <= n,
            n == f@.len(),
            prefix == f@.take(m as int),
            spec_skip_ws(prefix, 0) == spec_skip_ws(prefix, a as int),
        decreases m - a,
    {
        proof {
            assert(prefix[a as int] == f@[a as int]);
        }
        a = a + 1;
    }
    proof {
        if a < m {
            assert(prefix[a as int] == f@[a as int]);
        }
        assert(spec_skip_ws(prefix, a as int) == a as int);
    }
    let mut b: usize = m;
    while b > a && (f.get_char(b - 1) == ' ' || f.get_char(b - 1) == '\t')
        invariant
            a <= b <= m <= n,
            n == f@.len(),
            prefix == f@.take(m as int),
            spec_rskip_ws(prefix, m as int) == spec_rskip_ws(prefix, b as int),
        decreases b,
    {
        proof {
            assert(prefix[b as int - 1] == f@[b as int - 1]);
        }
        b = b - 1;
    }
    proof {
        if b > a {
            assert(prefix[b as int - 1] == f@[b as int - 1]);
            assert(spec_rskip_ws(prefix, b as int) == b as int);
        }
    }
    if a < b {
        let entry = f.substring_char(a, b);
        proof {
            assert(spec_rskip_ws(prefix, b as int) == b as int);
        }
        entry.to_owned()
    } else {
        proof {
            assert(spec_rskip_ws(prefix, b as int) <= b as int) by {
                lemma_rskip_ws_le(prefix, b as int);
            }
            assert(spec_first_entry(f@) =~= Seq::<char>::empty());
        }
        String::new()
    }
}

proof fn lemma_rskip_ws_le(s: Seq<char>, j: int)
    ensures
        spec_rskip_ws(s, j) <= j || j < 0,
    decreases j,
{
    if j > 0 && spec_is_ws(s[j - 1]) {
        lemma_rskip_ws_le(s, j - 1);
    }
}

/// Recording counters for admission decisions, injected at construction.
#[derive(Debug, Clone, Copy, PartialEq, Eq, Structural)]
pub struct RateLimitMetrics {
    pub allowed_requests: u64,
    pub rejected_requests: u64,
}

impl RateLimitMetrics {
    /// Both counters at zero.
    pub fn new() -> (m: RateLimitMetrics)
        ensures
            m == (RateLimitMetrics { allowed_requests: 0u64, rejected_requests: 0u64 }),
    {
        RateLimitMetrics { allowed_requests: 0, rejected_requests: 0 }
    }
}

/// A point-in-time reading of the admission counters and the number of
/// live buckets.
#[derive(Debug, Clone, Copy, PartialEq, Eq, Structural)]
pub struct RateLimitStats {
    pub allowed_requests: u64,
    pub rejected_requests: u64,
    pub current_buckets: u64,
}

struct KeyBucket {
    key: String,
    bucket: TokenBucket,
}

spec fn count_kept(s: Seq<KeyBucket>, max_age_ms: u64, now_ms: u64) -> nat
    decreases s.len(),
{
    if s.len() == 0 {
        0
    } else {
        count_kept(s.drop_last(), max_age_ms, now_ms) + (if s.last().bucket.spec_elapsed(now_ms)
            < max_age_ms {
            1nat
        } else {
            0nat
        })
    }
}

proof fn lemma_count_kept_le_len(s: Seq<KeyBucket>, max_age_ms: u64, now_ms: u64)
    ensures
        count_kept(s, max_age_ms, now_ms) <= s.len(),
    decreases s.len(),
{
    if s.len() > 0 {
        lemma_count_kept_le_len(s.drop_last(), max_age_ms, now_ms);
    }
}

proof fn lemma_count_kept_none(s: Seq<KeyBucket>, max_age_ms: u64, now_ms: u64)
    requires
        forall|m: int|
            0 <= m < s.len() ==> (#[trigger] s[m]).bucket.spec_elapsed(now_ms) >= max_age_ms,
    ensures
        count_kept(s, max_age_ms, now_ms) == 0,
    decreases s.len(),
{
    if s.len() > 0 {
        assert forall|m: int|
            0 <= m < s.drop_last().len() implies (#[trigger] s.drop_last()[m]).bucket.spec_elapsed(
            now_ms,
        ) >= max_age_ms by {
            assert(s.drop_last()[m] == s[m]);
        }
        lemma_count_kept_none(s.drop_last(), max_age_ms, now_ms);
        assert(s.last() == s[s.len() - 1]);
    }
}

proof fn lemma_count_kept_all(s: Seq<KeyBucket>, max_age_ms: u64, now_ms: u64)
    requires
        forall|m: int|
            0 <= m < s.len() ==> (#[trigger] s[m]).bucket.spec_elapsed(now_ms) < max_age_ms,
    ensures
        count_kept(s, max_age_ms, now_ms) == s.len(),
    decreases s.len(),
{
    if s.len() > 0 {
        assert forall|m: int|
            0 <= m < s.drop_last().len() implies (#[trigger] s.drop_last()[m]).bucket.spec_elapsed(
            now_ms,
        ) < max_age_ms by {
            assert(s.drop_last()[m] == s[m]);
        }
        lemma_count_kept_all(s.drop_last(), max_age_ms, now_ms);
        assert(s.last() == s[s.len() - 1]);
    }
}

/// The admission controller: one token bucket per key, created lazily on
/// a key's first check and removed by `cleanup_old_buckets` when idle.
pub struct RateLimiter {
    config: RateLimitConfig,
    buckets: Vec<KeyBucket>,
    metrics: RateLimitMetrics,
}

impl RateLimiter {
    pub closed spec fn spec_config(self) -> RateLimitConfig {
        self.config
    }

    pub closed spec fn spec_metrics(self) -> RateLimitMetrics {
        self.metrics
    }

    pub closed spec fn bucket_count(self) -> nat {
        self.buckets@.len()
    }

    /// How many of the current buckets a cleanup with the given idle
    /// age at `now_ms` would keep.
    pub closed spec fn surviving_bucket_count(self, max_age_ms: u64, now_ms: u64) -> nat {
        count_kept(self.buckets@, max_age_ms, now_ms)
    }

    /// Whether a bucket exists for key `k`.
    pub closed spec fn has_key(self, k: Seq<char>) -> bool {
        exists|i: int| 0 <= i < self.buckets@.len() && (#[trigger] self.buckets@[i]).key@ == k
    }

    spec fn key_index(self, k: Seq<char>) -> int {
        choose|i: int| 0 <= i < self.buckets@.len() && (#[trigger] self.buckets@[i]).key@ == k
    }

    /// The bucket stored for key `k` (meaningful when `has_key(k)`).
    pub closed spec fn bucket_for(self, k: Seq<char>) -> TokenBucket {
        self.buckets@[self.key_index(k)].bucket
    }

    /// Well-formed controller state: a usable configuration, one bucket
    /// per key, and every bucket within bounds at the configured rate.
    pub closed spec fn wf(self) -> bool {
        &&& self.config.wf()
        &&& forall|i: int, j: int|
                0 <= i < j < self.buckets@.len() ==> (#[trigger] self.buckets@[i]).key@ != (
                #[trigger] self.buckets@[j]).key@
        &&& forall|i: int|
                0 <= i < self.buckets@.len() ==> (#[trigger] self.buckets@[i]).bucket.wf()
                    && self.buckets@[i].bucket.matches_config(self.config)
    }

    /// What a well-formed controller guarantees its callers: the
    /// configuration is usable, and every stored bucket is within
    /// bounds at the configured rate.
    pub proof fn lemma_wf_exposes(self)
        requires
            self.wf(),
        ensures
            self.spec_config().wf(),
            forall|k: Seq<char>|
                #[trigger] self.has_key(k) ==> self.bucket_for(k).wf() && self.bucket_for(
                    k,
                ).matches_config(self.spec_config()),
    {
        assert forall|k: Seq<char>| #[trigger] self.has_key(k) implies self.bucket_for(k).wf()
            && self.bucket_for(k).matches_config(self.spec_config()) by {
            let w = self.key_index(k);
            assert(0 <= w < self.buckets@.len() && self.buckets@[w].key@ == k);
            assert(self.buckets@[w].bucket.wf());
        }
    }

    /// A controller with no buckets and the given starting counters.
    pub fn new(config: RateLimitConfig, metrics: RateLimitMetrics) -> (r: RateLimiter)
        requires
            config.wf(),
        ensures
            r.wf(),
            r.spec_config() == config,
            r.spec_metrics() == metrics,
            r.bucket_count() == 0,
            forall|k: Seq<char>| !r.has_key(k),
    {
        RateLimiter { config, buckets: Vec::new(), metrics }
    }

    fn find_bucket(&self, key: &String) -> (r: Option<usize>)
        requires
            self.wf(),
        ensures
            match r {
                Some(i) => self.has_key(key@) && i < self.buckets@.len()
                    && self.buckets@[i as int].key@ == key@ && self.key_index(key@) == i,
                None => !self.has_key(key@),
            },
    {
        let n = self.buckets.len();
        let mut i: usize = 0;
        while i < n
            invariant
                self.wf(),
                n == self.buckets@.len(),
                i <= n,
                forall|j: int| 0 <= j < i ==> (#[trigger] self.buckets@[j]).key@ != key@,
            decreases n - i,
        {
            if self.buckets[i].key == *key {
                proof {
                    let w = self.key_index(key@);
                    assert(self.buckets@[i as int].key@ == key@);
                    assert(0 <= w < self.buckets@.len() && self.buckets@[w].key@ == key@);
                    if w != i as int {
                        assert(self.buckets@[w].key@ != self.buckets@[i as int].key@);
                    }
                }
                return Some(i);
            }
            i = i + 1;
        }
        None
    }

    /// One admission check for `key` with the given cost at `now_ms`.
    ///
    /// The key's bucket (a fresh, full one on the key's first check) is
    /// refilled for the time elapsed and then charged: `Ok` and `cost`
    /// tokens deducted when enough are present, otherwise
    /// `Err(RateLimitExceeded)` with nothing deducted. Exactly one of
    /// the two counters advances. Buckets of other keys are untouched.
    pub fn check_rate_limit(&mut self, key: &str, cost: u32, now_ms: u64) -> (r: Result<
        (),
        RuneError,
    >)
        requires
            old(self).wf(),
        ensures
            final(self).wf(),
            final(self).spec_config() == old(self).spec_config(),
            ({
                let b0 = if old(self).has_key(key@) {
                    old(self).bucket_for(key@)
                } else {
                    TokenBucket::spec_fresh(old(self).spec_config(), now_ms)
                };
                let allowed = b0.spec_allows(cost, now_ms);
                &&& (r is Ok) == allowed
                &&& !allowed ==> r == Err::<(), RuneError>(RuneError::RateLimitExceeded)
                &&& final(self).has_key(key@)
                &&& final(self).bucket_for(key@) == b0.spec_after(cost, now_ms)
                &&& final(self).spec_metrics().allowed_requests == (if allowed {
                    spec_bump(old(self).spec_metrics().allowed_requests)
                } else {
                    old(self).spec_metrics().allowed_requests
                })
                &&& final(self).spec_metrics().rejected_requests == (if allowed {
                    old(self).spec_metrics().rejected_requests
                } else {
                    spec_bump(old(self).spec_metrics().rejected_requests)
                })
                &&& final(self).bucket_count() == old(self).bucket_count() + (if old(self).has_key(
                    key@,
                ) {
                    0int
                } else {
                    1int
                })
            }),
            forall|k: Seq<char>|
                k != key@ ==> (#[trigger] final(self).has_key(k)) == old(self).has_key(k),
            forall|k: Seq<char>|
                k != key@ && old(self).has_key(k) ==> (#[trigger] final(self).bucket_for(k))
                    == old(self).bucket_for(k),
    {
        let key_owned: String = key.to_owned();
        let ghost pre = *self;
        let i: usize = match self.find_bucket(&key_owned) {
            Some(j) => j,
            None => {
                let b = TokenBucket::new(&self.config, now_ms);
                let n = self.buckets.len();
                self.buckets.push(KeyBucket { key: key_owned, bucket: b });
                proof {
                    assert(self.buckets@[n as int].key@ == key@);
                    assert forall|k: Seq<char>| k != key@ implies (#[trigger] self.has_key(k))
                        == pre.has_key(k) by {
                        if self.has_key(k) {
                            let w = choose|w: int|
                                0 <= w < self.buckets@.len() && (#[trigger] self.buckets@[w]).key@
                                    == k;
                            assert(w != n as int);
                            assert(pre.buckets@[w].key@ == k);
                        }
                        if pre.has_key(k) {
                            let w = choose|w: int|
                                0 <= w < pre.buckets@.len() && (#[trigger] pre.buckets@[w]).key@
                                    == k;
                            assert(self.buckets@[w].key@ == k);
                        }
                    }
                }
                n
            },
        };
        let ghost mid = *self;
        let allowed: bool;
        {
            let entry = &mut self.buckets[i];
            allowed = entry.bucket.try_acquire(cost, now_ms);
        }
        if allowed {
            self.metrics.allowed_requests = self.metrics.allowed_requests.saturating_add(1);
        } else {
            self.metrics.rejected_requests = self.metrics.rejected_requests.saturating_add(1);
        }
        proof {
            assert(self.buckets@.len() == mid.buckets@.len());
            assert(self.buckets@[i as int].key@ == key@);
            assert forall|j: int| 0 <= j < self.buckets@.len() && j != i as int implies
                self.buckets@[j] == mid.buckets@[j] by {}
            assert forall|a: int, b: int| 0 <= a < b < mid.buckets@.len() implies (
            #[trigger] mid.buckets@[a]).key@ != (#[trigger] mid.buckets@[b]).key@ by {
                if !pre.has_key(key@) && b == pre.buckets@.len() as int {
                    assert(mid.buckets@[a] == pre.buckets@[a]);
                    assert(pre.buckets@[a].key@ != key@);
                }
            }
            assert forall|a: int, b: int| 0 <= a < b < self.buckets@.len() implies (
            #[trigger] self.buckets@[a]).key@ != (#[trigger] self.buckets@[b]).key@ by {
                assert(self.buckets@[a].key@ == mid.buckets@[a].key@);
                assert(self.buckets@[b].key@ == mid.buckets@[b].key@);
            }
            self.lemma_lookup(key@, i as int);
            assert forall|k: Seq<char>| k != key@ implies (#[trigger] self.has_key(k))
                == pre.has_key(k) by {
                if self.has_key(k) {
                    let w = choose|w: int|
                        0 <= w < self.buckets@.len() && (#[trigger] self.buckets@[w]).key@ == k;
                    assert(w != i as int);
                    assert(mid.buckets@[w].key@ == k);
                    if i < pre.buckets@.len() {
                        assert(pre.buckets@[w].key@ == k);
                    } else {
                        assert(w != pre.buckets@.len());
                        assert(pre.buckets@[w].key@ == k);
                    }
                }
                if pre.has_key(k) {
                    let w = choose|w: int|
                        0 <= w < pre.buckets@.len() && (#[trigger] pre.buckets@[w]).key@ == k;
                    assert(self.buckets@[w].key@ == k);
                    assert(self.has_key(k));
                }
            }
            assert forall|k: Seq<char>| k != key@ && pre.has_key(k) implies (
            #[trigger] self.bucket_for(k)) == pre.bucket_for(k) by {
                let w = choose|w: int|
                    0 <= w < pre.buckets@.len() && (#[trigger] pre.buckets@[w]).key@ == k;
                assert(self.buckets@[w].key@ == k);
                self.lemma_lookup(k, w);
                pre.lemma_lookup(k, w);
            }
        }
        if allowed {
            Ok(())
        } else {
            Err(RuneError::RateLimitExceeded)
        }
    }

    /// With unique keys, any index holding key `k` is the lookup index.
    proof fn lemma_lookup(self, k: Seq<char>, i: int)
        requires
            self.wf() || (forall|a: int, b: int|
                0 <= a < b < self.buckets@.len() ==> (#[trigger] self.buckets@[a]).key@ != (
                #[trigger] self.buckets@[b]).key@),
            0 <= i < self.buckets@.len(),
            self.buckets@[i].key@ == k,
        ensures
            self.has_key(k),
            self.key_index(k) == i,
            self.bucket_for(k) == self.buckets@[i].bucket,
    {
        assert(self.has_key(k));
        let w = self.key_index(k);
        assert(0 <= w < self.buckets@.len() && self.buckets@[w].key@ == k);
        if w != i {
            if w < i {
                assert(self.buckets@[w].key@ != self.buckets@[i].key@);
            } else {
                assert(self.buckets@[i].key@ != self.buckets@[w].key@);
            }
        }
    }

    /// Removes every bucket whose last refill is `max_age_ms` or more
    /// milliseconds before `now_ms`; all younger buckets survive
    /// unchanged, the live-bucket count drops to exactly the number of
    /// survivors, and the request counters do not move.
    #[verifier::rlimit(50)]
    pub fn cleanup_old_buckets(&mut self, max_age_ms: u64, now_ms: u64)
        requires
            old(self).wf(),
        ensures
            final(self).wf(),
            final(self).spec_config() == old(self).spec_config(),
            final(self).spec_metrics() == old(self).spec_metrics(),
            forall|k: Seq<char>|
                #[trigger] final(self).has_key(k) <==> old(self).has_key(k) && old(
                    self,
                ).bucket_for(k).spec_elapsed(now_ms) < max_age_ms,
            forall|k: Seq<char>|
                #[trigger] final(self).has_key(k) ==> final(self).bucket_for(k) == old(
                    self,
                ).bucket_for(k),
            final(self).bucket_count() == old(self).surviving_bucket_count(max_age_ms, now_ms),
            final(self).bucket_count() <= old(self).bucket_count(),
            (forall|k: Seq<char>|
                #[trigger] old(self).has_key(k) ==> old(self).bucket_for(k).spec_elapsed(now_ms)
                    >= max_age_ms) ==> final(self).bucket_count() == 0,
            (forall|k: Seq<char>|
                #[trigger] old(self).has_key(k) ==> old(self).bucket_for(k).spec_elapsed(now_ms)
                    < max_age_ms) ==> final(self).bucket_count() == old(self).bucket_count(),
    {
        let ghost pre = *self;
        let mut kept: Vec<KeyBucket> = Vec::new();
        let n = self.buckets.len();
        let mut i: usize = 0;
        proof {
            assert(pre.buckets@.take(0) =~= Seq::<KeyBucket>::empty());
        }
        while i < n
            invariant
                pre.wf(),
                *self == (RateLimiter { buckets: pre.buckets, ..pre }),
                n == self.buckets@.len(),
                i <= n,
                kept@.len() == count_kept(pre.buckets@.take(i as int), max_age_ms, now_ms),
                forall|j: int|
                    0 <= j < kept@.len() ==> exists|m: int|
                        0 <= m < i && #[trigger] kept@[j] == pre.buckets@[m],
                forall|j: int|
                    0 <= j < kept@.len() ==> (#[trigger] kept@[j]).bucket.spec_elapsed(now_ms)
                        < max_age_ms,
                forall|m: int|
                    0 <= m < i && (#[trigger] pre.buckets@[m]).bucket.spec_elapsed(now_ms)
                        < max_age_ms ==> exists|j: int|
                        0 <= j < kept@.len() && #[trigger] kept@[j] == pre.buckets@[m],
                forall|j1: int, j2: int|
                    0 <= j1 < j2 < kept@.len() ==> (#[trigger] kept@[j1]).key@ != (
                    #[trigger] kept@[j2]).key@,
            decreases n - i,
        {
            let age_ok: bool = {
                let b = &self.buckets[i].bucket;
                let elapsed: u64 = if now_ms >= b.last_refill_ms {
                    now_ms - b.last_refill_ms
                } else {
                    0
                };
                elapsed < max_age_ms
            };
            proof {
                assert(pre.buckets@.take(i as int + 1).drop_last() =~= pre.buckets@.take(i as int));
                assert(pre.buckets@.take(i as int + 1).last() == pre.buckets@[i as int]);
            }
            if age_ok {
                let ghost kept_pre = kept@;
                let k2 = self.buckets[i].key.clone();
                let b2 = self.buckets[i].bucket;
                kept.push(KeyBucket { key: k2, bucket: b2 });
                proof {
                    let last = kept_pre.len() as int;
                    assert(kept@[last] == pre.buckets@[i as int]);
                    assert forall|j: int| 0 <= j < kept@.len() implies exists|m: int|
                        0 <= m < i + 1 && #[trigger] kept@[j] == pre.buckets@[m] by {
                        if j < last {
                            let m = choose|m: int|
                                0 <= m < i && #[trigger] kept_pre[j] == pre.buckets@[m];
                            assert(kept@[j] == pre.buckets@[m]);
                        } else {
                            assert(kept@[j] == pre.buckets@[i as int]);
                        }
                    }
                    assert forall|m: int|
                        0 <= m < i + 1 && (#[trigger] pre.buckets@[m]).bucket.spec_elapsed(now_ms)
                            < max_age_ms implies exists|j: int|
                        0 <= j < kept@.len() && #[trigger] kept@[j] == pre.buckets@[m] by {
                        if m < i {
                            let j = choose|j: int|
                                0 <= j < kept_pre.len() && #[trigger] kept_pre[j]
                                    == pre.buckets@[m];
                            assert(kept@[j] == pre.buckets@[m]);
                        } else {
                            assert(kept@[last] == pre.buckets@[m]);
                        }
                    }
                    assert forall|j1: int, j2: int| 0 <= j1 < j2 < kept@.len() implies (
                    #[trigger] kept@[j1]).key@ != (#[trigger] kept@[j2]).key@ by {
                        if j2 == last {
                            let m = choose|m: int|
                                0 <= m < i && #[trigger] kept_pre[j1] == pre.buckets@[m];
                            assert(pre.buckets@[m].key@ != pre.buckets@[i as int].key@);
                        }
                    }
                }
            } else {
                proof {
                    assert(pre.buckets@[i as int].bucket.spec_elapsed(now_ms) >= max_age_ms);
                }
            }
            i = i + 1;
        }
        self.buckets = kept;
        proof {
            assert forall|k: Seq<char>| #[trigger] self.has_key(k) implies pre.has_key(k)
                && pre.bucket_for(k).spec_elapsed(now_ms) < max_age_ms && self.bucket_for(k)
                == pre.bucket_for(k) by {
                let j = choose|j: int|
                    0 <= j < self.buckets@.len() && (#[trigger] self.buckets@[j]).key@ == k;
                let m = choose|m: int|
                    0 <= m < n && #[trigger] self.buckets@[j] == pre.buckets@[m];
                pre.lemma_lookup(k, m);
                self.lemma_lookup(k, j);
            }
            assert forall|k: Seq<char>|
                pre.has_key(k) && pre.bucket_for(k).spec_elapsed(now_ms)
                    < max_age_ms implies #[trigger] self.has_key(k) by {
                let m = pre.key_index(k);
                assert(0 <= m < n && pre.buckets@[m].key@ == k);
                assert(pre.buckets@[m].bucket == pre.bucket_for(k));
                let j = choose|j: int|
                    0 <= j < self.buckets@.len() && #[trigger] self.buckets@[j] == pre.buckets@[m];
                assert(self.buckets@[j].key@ == k);
            }
            assert(pre.buckets@.take(n as int) =~= pre.buckets@);
            lemma_count_kept_le_len(pre.buckets@, max_age_ms, now_ms);
            if forall|k: Seq<char>|
                #[trigger] pre.has_key(k) ==> pre.bucket_for(k).spec_elapsed(now_ms)
                    >= max_age_ms {
                assert forall|m: int|
                    0 <= m < pre.buckets@.len() implies (
                #[trigger] pre.buckets@[m]).bucket.spec_elapsed(now_ms) >= max_age_ms by {
                    pre.lemma_lookup(pre.buckets@[m].key@, m);
                }
                lemma_count_kept_none(pre.buckets@, max_age_ms, now_ms);
            }
            if forall|k: Seq<char>|
                #[trigger] pre.has_key(k) ==> pre.bucket_for(k).spec_elapsed(now_ms)
                    < max_age_ms {
                assert forall|m: int|
                    0 <= m < pre.buckets@.len() implies (
                #[trigger] pre.buckets@[m]).bucket.spec_elapsed(now_ms) < max_age_ms by {
                    pre.lemma_lookup(pre.buckets@[m].key@, m);
                }
                lemma_count_kept_all(pre.buckets@, max_age_ms, now_ms);
            }
        }
    }

    /// The counters and the number of live buckets, read together.
    pub fn get_metrics(&self) -> (s: RateLimitStats)
        requires
            self.wf(),
        ensures
            s.allowed_requests == self.spec_metrics().allowed_requests,
            s.rejected_requests == self.spec_metrics().rejected_requests,
            s.current_buckets == self.bucket_count(),
    {
        RateLimitStats {
            allowed_requests: self.metrics.allowed_requests,
            rejected_requests: self.metrics.rejected_requests,
            current_buckets: self.buckets.len() as u64,
        }
    }
}

} // verus!
