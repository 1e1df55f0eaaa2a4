//! The webhook delivery engine's verified core: a registry of outbound
//! subscriptions keyed by URL, recipient selection for an event, the
//! retry/backoff schedule, and the signature decision.
//!
//! The registry maps a URL to its subscription; registering a URL twice
//! replaces the earlier subscription (the policy here, documented rather
//! than inferred). The abstract registry is the `RegistryModel` view and
//! every operation's contract is exact over it.
//!
//! Actually POSTing to an endpoint, sleeping between attempts, and
//! joining the fan-out happen outside this crate; the loop out there
//! asks `backoff_delay_ms` how long to sleep before each retry and
//! `delivery_report` condenses the attempt outcomes it saw.

use url::Url;
use vstd::prelude::*;
use vstd::string::StringSliceAdditionalSpecFns;

use crate::counters::spec_bump;
use crate::errors::RuneError;
use crate::retry::{lemma_pow2_mono, lemma_pow2_pos, spec_pow2};
use crate::signing::{compute_signature, spec_signature};

verus! {

/// The event kinds a subscriber can ask for.
#[derive(Debug, Clone, Copy, PartialEq, Eq, Structural)]
pub enum WebhookEventType {
    TransactionConfirmed,
    TransactionFailed,
    RuneTransfer,
    BlockSynced,
}

/// One outbound subscription: where to deliver, an optional signing
/// secret, which events to deliver, and the retry schedule
/// (`max_retries` attempts, backoff base `retry_delay_ms`).
#[derive(Debug, Clone)]
pub struct WebhookConfig {
    pub url: String,
    pub secret: Option<String>,
    pub events: Vec<WebhookEventType>,
    pub max_retries: u32,
    pub retry_delay_ms: u64,
}

/// The abstract form of one subscription.
pub ghost struct SubModel {
    pub url: Seq<char>,
    pub secret: Option<Seq<char>>,
    pub events: Seq<WebhookEventType>,
    pub max_retries: u32,
    pub retry_delay_ms: u64,
}

impl View for WebhookConfig {
    type V = SubModel;

    open spec fn view(&self) -> SubModel {
        SubModel {
            url: self.url@,
            secret: match self.secret {
                Some(s) => Some(s@),
                None => None,
            },
            events: self.events@,
            max_retries: self.max_retries,
            retry_delay_ms: self.retry_delay_ms,
        }
    }
}

/// One event to fan out: its kind, when it happened, and its payload as
/// raw JSON text.
#[derive(Debug, Clone)]
pub struct WebhookEvent {
    pub event_type: WebhookEventType,
    pub timestamp: u64,
    pub payload: String,
}

/// The wire form of a registration request.
#[derive(Debug, Clone)]
pub struct RegisterWebhookRequest {
    pub url: String,
    pub secret: Option<String>,
    pub events: Vec<WebhookEventType>,
    pub max_retries: u32,
    pub retry_delay: u64,
}

impl RegisterWebhookRequest {
    /// The subscription a registration request asks for, field by field.
    pub fn into_config(self) -> (c: WebhookConfig)
        ensures
            c.url == self.url,
            c.secret == self.secret,
            c.events == self.events,
            c.max_retries == self.max_retries,
            c.retry_delay_ms == self.retry_delay,
    {
        WebhookConfig {
            url: self.url,
            secret: self.secret,
            events: self.events,
            max_retries: self.max_retries,
            retry_delay_ms: self.retry_delay,
        }
    }
}

/// The retry cap a registration gets when it names none.
pub fn default_max_retries() -> (r: u32)
    ensures
        r == 3,
{
    3
}

/// The backoff base in milliseconds a registration gets when it names
/// none.
pub fn default_retry_delay() -> (r: u64)
    ensures
        r == 1000,
{
    1000
}

/// The wire form of a registration or unregistration answer.
#[derive(Debug, Clone)]
pub struct WebhookResponse {
    pub success: bool,
    pub message: Option<String>,
}

/// Whether a string is a syntactically valid absolute URL, as the `url`
/// crate's parser decides it; a function of the string alone.
pub uninterp spec fn url_ok(s: Seq<char>) -> bool;

/// Relies on `url::Url::parse` (what reqwest re-exports as
/// `reqwest::Url`): acceptance depends on the input string alone.
#[verifier::external_body]
fn parse_url_ok(s: &str) -> (r: bool)
    ensures
        r == url_ok(s@),
{
    Url::parse(s).is_ok()
}

/// The abstract registry: subscriptions in registration order, one per
/// URL.
pub ghost struct RegistryModel {
    pub entries: Seq<SubModel>,
}

impl RegistryModel {
    /// One subscription per URL.
    pub open spec fn wf(self) -> bool {
        forall|i: int, j: int|
            0 <= i < j < self.entries.len() ==> (#[trigger] self.entries[i]).url != (
            #[trigger] self.entries[j]).url
    }

    pub open spec fn has_url(self, u: Seq<char>) -> bool {
        exists|i: int| 0 <= i < self.entries.len() && (#[trigger] self.entries[i]).url == u
    }

    pub open spec fn index_of(self, u: Seq<char>) -> int {
        choose|i: int| 0 <= i < self.entries.len() && (#[trigger] self.entries[i]).url == u
    }

    pub open spec fn sub_for(self, u: Seq<char>) -> SubModel {
        self.entries[self.index_of(u)]
    }

    /// Whether a dispatch of an event of kind `t` would deliver to the
    /// subscriber at `u`.
    pub open spec fn subscribed(self, u: Seq<char>, t: WebhookEventType) -> bool {
        self.has_url(u) && self.sub_for(u).events.contains(t)
    }

    /// The registry after registering `s`: a new URL is appended, an
    /// already-registered URL has its subscription replaced in place.
    pub open spec fn spec_register(self, s: SubModel) -> RegistryModel {
        if self.has_url(s.url) {
            RegistryModel { entries: self.entries.update(self.index_of(s.url), s) }
        } else {
            RegistryModel { entries: self.entries.push(s) }
        }
    }

    /// The registry after unregistering `u` (when present).
    pub open spec fn spec_unregister(self, u: Seq<char>) -> RegistryModel {
        if self.has_url(u) {
            RegistryModel { entries: self.entries.remove(self.index_of(u)) }
        } else {
            self
        }
    }

    /// With one subscription per URL, any index holding URL `u` is the
    /// lookup index.
    pub proof fn lemma_index(self, u: Seq<char>, i: int)
        requires
            self.wf(),
            0 <= i < self.entries.len(),
            self.entries[i].url == u,
        ensures
            self.has_url(u),
            self.index_of(u) == i,
            self.sub_for(u) == self.entries[i],
    {
        assert(self.has_url(u));
        let w = self.index_of(u);
        if w != i {
            if w < i {
                assert(self.entries[w].url != self.entries[i].url);
            } else {
                assert(self.entries[i].url != self.entries[w].url);
            }
        }
    }
}

/// Registering a subscription and dispatching an event round-trip as
/// expected: after `register(s)`, an event kind is delivered to `s.url`
/// exactly when `s.events` asks for it — whatever was registered there
/// before.
pub proof fn lemma_register_dispatch_roundtrip(m: RegistryModel, s: SubModel, t: WebhookEventType)
    requires
        m.wf(),
    ensures
        m.spec_register(s).wf(),
        m.spec_register(s).subscribed(s.url, t) == s.events.contains(t),
{
    let m2 = m.spec_register(s);
    if m.has_url(s.url) {
        let w = m.index_of(s.url);
        assert(0 <= w < m.entries.len() && m.entries[w].url == s.url);
        assert forall|i: int, j: int| 0 <= i < j < m2.entries.len() implies (
        #[trigger] m2.entries[i]).url != (#[trigger] m2.entries[j]).url by {
            assert(m2.entries[i].url == m.entries[i].url);
            assert(m2.entries[j].url == m.entries[j].url);
        }
        m2.lemma_index(s.url, w);
    } else {
        let n = m.entries.len() as int;
        assert forall|i: int, j: int| 0 <= i < j < m2.entries.len() implies (
        #[trigger] m2.entries[i]).url != (#[trigger] m2.entries[j]).url by {
            if j == n {
                assert(m2.entries[i] == m.entries[i]);
                assert(m.entries[i].url != s.url);
            } else {
                assert(m2.entries[i] == m.entries[i]);
                assert(m2.entries[j] == m.entries[j]);
            }
        }
        m2.lemma_index(s.url, n);
    }
}

/// After unregistering a URL it is gone from the registry, so a
/// subsequent dispatch delivers nothing to it.
pub proof fn lemma_unregistered_gets_nothing(m: RegistryModel, u: Seq<char>, t: WebhookEventType)
    requires
        m.wf(),
    ensures
        m.spec_unregister(u).wf(),
        !m.spec_unregister(u).has_url(u),
        !m.spec_unregister(u).subscribed(u, t),
{
    let m2 = m.spec_unregister(u);
    if m.has_url(u) {
        let w = m.index_of(u);
        assert(0 <= w < m.entries.len() && m.entries[w].url == u);
        assert forall|i: int, j: int| 0 <= i < j < m2.entries.len() implies (
        #[trigger] m2.entries[i]).url != (#[trigger] m2.entries[j]).url by {
            let i0 = if i < w {
                i
            } else {
                i + 1
            };
            let j0 = if j < w {
                j
            } else {
                j + 1
            };
            assert(m2.entries[i] == m.entries[i0]);
            assert(m2.entries[j] == m.entries[j0]);
            assert(m.entries[i0].url != m.entries[j0].url);
        }
        if m2.has_url(u) {
            let v = choose|v: int|
                0 <= v < m2.entries.len() && (#[trigger] m2.entries[v]).url == u;
            let v0 = if v < w {
                v
            } else {
                v + 1
            };
            assert(m2.entries[v] == m.entries[v0]);
            m.lemma_index(u, v0);
        }
    }
}

/// The webhook manager: the subscription registry plus a counter of
/// deliveries that exhausted their retries.
pub struct WebhookManager {
    configs: Vec<WebhookConfig>,
    delivery_failures: u64,
}

impl View for WebhookManager {
    type V = RegistryModel;

    closed spec fn view(&self) -> RegistryModel {
        RegistryModel { entries: self.configs@.map(|i: int, c: WebhookConfig| c@) }
    }
}

impl WebhookManager {
    pub open spec fn wf(self) -> bool {
        self@.wf()
    }

    pub closed spec fn spec_failure_count(self) -> u64 {
        self.delivery_failures
    }

    /// An empty registry with the failure counter at zero.
    pub fn new() -> (m: WebhookManager)
        ensures
            m.wf(),
            m@.entries == Seq::<SubModel>::empty(),
            m.spec_failure_count() == 0,
    {
        let m = WebhookManager { configs: Vec::new(), delivery_failures: 0 };
        proof {
            assert(m@.entries =~= Seq::<SubModel>::empty());
        }
        m
    }

    fn find(&self, u: &String) -> (r: Option<usize>)
        requires
            self.wf(),
        ensures
            match r {
                Some(i) => self@.has_url(u@) && i < self@.entries.len() && self@.entries[
                    i as int
                ].url == u@ && self@.index_of(u@) == i,
                None => !self@.has_url(u@),
            },
    {
        let n = self.configs.len();
        let mut i: usize = 0;
        while i < n
            invariant
                self.wf(),
                n == self@.entries.len(),
                i <= n,
                forall|j: int| 0 <= j < i ==> (#[trigger] self@.entries[j]).url != u@,
            decreases n - i,
        {
            if self.configs[i].url == *u {
                proof {
                    self@.lemma_index(u@, i as int);
                }
                return Some(i);
            }
            i = i + 1;
        }
        None
    }

    /// Registers `config` after checking that its URL parses: `Ok` and
    /// the registry updated as `spec_register` describes exactly when
    /// the URL is valid, otherwise `Err(ConfigError)` with the registry
    /// untouched.
    pub fn register_webhook(&mut self, config: WebhookConfig) -> (r: Result<(), RuneError>)
        requires
            old(self).wf(),
        ensures
            final(self).wf(),
            final(self).spec_failure_count() == old(self).spec_failure_count(),
            (r is Ok) == url_ok(config.url@),
            r is Ok ==> final(self)@ == old(self)@.spec_register(config@),
            r is Err ==> final(self)@ == old(self)@ && (r matches Err(RuneError::ConfigError(m))
                && m@ == "Invalid webhook URL"@),
    {
        if !parse_url_ok(config.url.as_str()) {
            return Err(RuneError::ConfigError("Invalid webhook URL".to_owned()));
        }
        let ghost pre = self@;
        match self.find(&config.url) {
            Some(i) => {
                let ghost w = pre.index_of(config.url@);
                self.configs[i] = config;
                proof {
                    assert(self@.entries =~= pre.entries.update(w, self.configs@[i as int]@));
                    assert(self@ == pre.spec_register(self.configs@[i as int]@));
                    assert forall|a: int, b: int| 0 <= a < b < self@.entries.len() implies (
                    #[trigger] self@.entries[a]).url != (#[trigger] self@.entries[b]).url by {
                        assert(self@.entries[a].url == pre.entries[a].url);
                        assert(self@.entries[b].url == pre.entries[b].url);
                    }
                }
            },
            None => {
                let ghost n = pre.entries.len() as int;
                self.configs.push(config);
                proof {
                    assert(self@.entries =~= pre.entries.push(self.configs@[n]@));
                    assert(self@ == pre.spec_register(self.configs@[n]@));
                    assert forall|a: int, b: int| 0 <= a < b < self@.entries.len() implies (
                    #[trigger] self@.entries[a]).url != (#[trigger] self@.entries[b]).url by {
                        if b == n {
                            assert(self@.entries[a] == pre.entries[a]);
                            assert(pre.entries[a].url != self@.entries[n].url);
                        } else {
                            assert(self@.entries[a] == pre.entries[a]);
                            assert(self@.entries[b] == pre.entries[b]);
                        }
                    }
                }
            },
        }
        Ok(())
    }

    /// Unregisters the subscription at `url`: `Ok` with the entry
    /// removed when one exists, otherwise `Err(ConfigError)` with the
    /// registry untouched — so unregistering an unknown URL fails and
    /// changes nothing.
    pub fn unregister_webhook(&mut self, url: &str) -> (r: Result<(), RuneError>)
        requires
            old(self).wf(),
        ensures
            final(self).wf(),
            final(self).spec_failure_count() == old(self).spec_failure_count(),
            (r is Ok) == old(self)@.has_url(url@),
            final(self)@ == old(self)@.spec_unregister(url@),
            r is Err ==> final(self)@ == old(self)@ && (r matches Err(RuneError::ConfigError(m))
                && m@ == "Webhook not found"@),
    {
        let ghost pre = self@;
        let url_owned: String = url.to_owned();
        match self.find(&url_owned) {
            Some(i) => {
                self.configs.remove(i);
                proof {
                    assert(self@.entries =~= pre.entries.remove(pre.index_of(url@)));
                    assert(self@ == pre.spec_unregister(url@));
                    lemma_unregistered_gets_nothing(
                        pre,
                        url@,
                        WebhookEventType::TransactionConfirmed,
                    );
                }
                Ok(())
            },
            None => {
                Err(RuneError::ConfigError("Webhook not found".to_owned()))
            },
        }
    }

    /// The number of registered subscriptions.
    pub fn webhook_count(&self) -> (n: usize)
        ensures
            n == self@.entries.len(),
    {
        self.configs.len()
    }

    /// Read access to the subscription at a known index.
    pub fn config_at(&self, i: usize) -> (r: &WebhookConfig)
        requires
            i < self@.entries.len(),
        ensures
            r@ == self@.entries[i as int],
    {
        &self.configs[i]
    }

    /// The dispatch plan for an event of kind `t`: the indices of every
    /// subscription asking for `t`, each exactly once, in registry
    /// order. Delivery to the selected endpoints is the caller's fan-out.
    pub fn select_recipients(&self, t: WebhookEventType) -> (r: Vec<usize>)
        requires
            self.wf(),
        ensures
            forall|a: int, b: int| 0 <= a < b < r@.len() ==> r@[a] < r@[b],
            forall|j: int|
                0 <= j < r@.len() ==> r@[j] < self@.entries.len() && (#[trigger] self@.entries[
                    r@[j] as int
                ]).events.contains(t),
            forall|i: int|
                0 <= i < self@.entries.len() && (#[trigger] self@.entries[i]).events.contains(t)
                    ==> r@.contains(i as usize),
    {
        let n = self.configs.len();
        let mut r: Vec<usize> = Vec::new();
        let mut i: usize = 0;
        while i < n
            invariant
                self.wf(),
                n == self@.entries.len(),
                i <= n,
                forall|a: int, b: int| 0 <= a < b < r@.len() ==> r@[a] < r@[b],
                forall|j: int| 0 <= j < r@.len() ==> r@[j] < i,
                forall|j: int|
                    0 <= j < r@.len() ==> (#[trigger] self@.entries[r@[j] as int]).events.contains(
                        t,
                    ),
                forall|m: int|
                    0 <= m < i && (#[trigger] self@.entries[m]).events.contains(t) ==> r@.contains(
                        m as usize,
                    ),
            decreases n - i,
        {
            let ghost r_pre = r@;
            if events_contain(&self.configs[i].events, t) {
                r.push(i);
                proof {
                    assert(self@.entries[i as int].events == self.configs@[i as int].events@);
                    assert forall|m: int|
                        0 <= m < i + 1 && (#[trigger] self@.entries[m]).events.contains(
                            t,
                        ) implies r@.contains(m as usize) by {
                        if m < i {
                            let j = choose|j: int|
                                0 <= j < r_pre.len() && r_pre[j] == m as usize;
                            assert(r@[j] == m as usize);
                        } else {
                            assert(r@[r_pre.len() as int] == m as usize);
                        }
                    }
                }
            }
            i = i + 1;
        }
        r
    }

    /// Records one delivery that exhausted its retries.
    pub fn record_failed_delivery(&mut self)
        requires
            old(self).wf(),
        ensures
            final(self).wf(),
            final(self)@ == old(self)@,
            final(self).spec_failure_count() == spec_bump(old(self).spec_failure_count()),
    {
        self.delivery_failures = self.delivery_failures.saturating_add(1);
    }

    /// How many deliveries have exhausted their retries so far.
    pub fn failed_delivery_count(&self) -> (n: u64)
        ensures
            n == self.spec_failure_count(),
    {
        self.delivery_failures
    }
}

/// Whether `events` lists the kind `t`.
fn events_contain(events: &Vec<WebhookEventType>, t: WebhookEventType) -> (r: bool)
    ensures
        r == events@.contains(t),
{
    let n = events.len();
    let mut i: usize = 0;
    while i < n
        invariant
            n == events@.len(),
            i <= n,
            forall|j: int| 0 <= j < i ==> events@[j] != t,
        decreases n - i,
    {
        if events[i] == t {
            return true;
        }
        i = i + 1;
    }
    false
}

/// The pause before retry attempt `attempt` (attempts count from 1; the
/// first attempt waits nothing): the backoff base doubled per earlier
/// attempt, clamped at the largest representable delay.
pub open spec fn spec_backoff_ms(retry_delay_ms: u64, attempt: u32) -> u64
    recommends
        1 <= attempt,
{
    let exact = retry_delay_ms as int * spec_pow2((attempt - 1) as nat);
    if exact > u64::MAX as int {
        u64::MAX
    } else {
        exact as u64
    }
}

/// Computes the backoff pause before retry `attempt`, as
/// `spec_backoff_ms` states.
pub fn backoff_delay_ms(retry_delay_ms: u64, attempt: u32) -> (r: u64)
    requires
        1 <= attempt,
    ensures
        r == spec_backoff_ms(retry_delay_ms, attempt),
{
    let mut d: u64 = retry_delay_ms;
    let mut k: u32 = 1;
    proof {
        assert(spec_pow2(0) == 1);
        assert(spec_backoff_ms(retry_delay_ms, 1) == retry_delay_ms);
    }
    while k < attempt
        invariant
            1 <= k <= attempt,
            d == spec_backoff_ms(retry_delay_ms, k),
        decreases attempt - k,
    {
        proof {
            lemma_pow2_pos((k - 1) as nat);
            assert(spec_pow2(k as nat) == 2 * spec_pow2((k - 1) as nat));
            assert(retry_delay_ms as int * (2 * spec_pow2((k - 1) as nat)) == 2 * (
            retry_delay_ms as int * spec_pow2((k - 1) as nat))) by (nonlinear_arith);
            assert(retry_delay_ms as int * spec_pow2((k - 1) as nat) >= 0) by (nonlinear_arith)
                requires
                    retry_delay_ms as int >= 0,
                    spec_pow2((k - 1) as nat) >= 1,
            ;
        }
        d = if d > u64::MAX / 2 {
            u64::MAX
        } else {
            d * 2
        };
        k = k + 1;
    }
    d
}

/// The retry pauses never shrink: a later retry waits at least as long
/// as an earlier one.
pub proof fn lemma_backoff_nondecreasing(retry_delay_ms: u64, a: u32, b: u32)
    requires
        1 <= a <= b,
    ensures
        spec_backoff_ms(retry_delay_ms, a) <= spec_backoff_ms(retry_delay_ms, b),
{
    lemma_pow2_mono((a - 1) as nat, (b - 1) as nat);
    lemma_pow2_pos((a - 1) as nat);
    assert(retry_delay_ms as int * spec_pow2((a - 1) as nat) <= retry_delay_ms as int * spec_pow2(
        (b - 1) as nat,
    )) by (nonlinear_arith)
        requires
            retry_delay_ms as int >= 0,
            spec_pow2((a - 1) as nat) <= spec_pow2((b - 1) as nat),
    ;
}

/// What one subscriber's delivery ladder did: how many attempts it made
/// and whether one succeeded.
#[derive(Debug, Clone, Copy, PartialEq, Eq, Structural)]
pub struct DeliveryReport {
    pub attempts: u32,
    pub delivered: bool,
}

pub open spec fn spec_delivered_from(outcomes: Seq<bool>, k: int, max: int) -> bool
    decreases max - k,
{
    if k < 0 || k >= max {
        false
    } else if outcomes[k] {
        true
    } else {
        spec_delivered_from(outcomes, k + 1, max)
    }
}

pub open spec fn spec_attempts_from(outcomes: Seq<bool>, k: int, max: int) -> int
    decreases max - k,
{
    if k < 0 || k >= max {
        0
    } else if outcomes[k] {
        1
    } else {
        1 + spec_attempts_from(outcomes, k + 1, max)
    }
}

/// Whether a ladder capped at `max_retries` attempts delivers, when the
/// k-th attempt (from 0) succeeds exactly when `outcomes[k]`.
pub open spec fn spec_delivered(outcomes: Seq<bool>, max_retries: u32) -> bool {
    spec_delivered_from(outcomes, 0, max_retries as int)
}

/// How many attempts that ladder makes: it stops at the first success,
/// or after `max_retries` failures.
pub open spec fn spec_attempts(outcomes: Seq<bool>, max_retries: u32) -> int {
    spec_attempts_from(outcomes, 0, max_retries as int)
}

/// Condenses the attempt outcomes an endpoint produced (`true` = a
/// successful response) under a cap of `max_retries` attempts: attempts
/// stop at the first success or when the cap is spent, and exhausting
/// the cap without a success is the delivery failure the engine records
/// — never an error raised to the dispatcher.
pub fn delivery_report(outcomes: &Vec<bool>, max_retries: u32) -> (r: DeliveryReport)
    requires
        outcomes@.len() >= max_retries,
    ensures
        r.delivered == spec_delivered(outcomes@, max_retries),
        r.attempts == spec_attempts(outcomes@, max_retries),
        r.attempts <= max_retries,
{
    let mut k: u32 = 0;
    while k < max_retries
        invariant
            k <= max_retries,
            outcomes@.len() >= max_retries,
            spec_delivered(outcomes@, max_retries) == spec_delivered_from(
                outcomes@,
                k as int,
                max_retries as int,
            ),
            spec_attempts(outcomes@, max_retries) == k + spec_attempts_from(
                outcomes@,
                k as int,
                max_retries as int,
            ),
        decreases max_retries - k,
    {
        if outcomes[k as usize] {
            return DeliveryReport { attempts: k + 1, delivered: true };
        }
        k = k + 1;
    }
    DeliveryReport { attempts: max_retries, delivered: false }
}

/// The signature header value for delivering `body` under `config`:
/// present exactly when the subscription has a secret, and then the
/// fixed HMAC-SHA256 hex signature of the body under that secret.
pub fn signature_for(config: &WebhookConfig, body: &str) -> (r: Option<String>)
    ensures
        (r is Some) == (config@.secret is Some),
        match (r, &config.secret) {
            (Some(v), Some(s)) => v@ == spec_signature(
                vstd::utf8::encode_utf8(s@),
                body.spec_bytes(),
            ) && v@.len() == 64,
            (None, None) => true,
            _ => false,
        },
{
    match &config.secret {
        Some(s) => Some(compute_signature(s.as_str(), body)),
        None => None,
    }
}

} // verus!
