//! The upstream connection's verified core: configuration, the
//! connect-with-retry plan, parsing the block-height answer, and the
//! recording collector for request metrics.
//!
//! The HTTP calls themselves happen outside this crate. The connect
//! loop out there performs one health check per attempt and asks
//! `connect_retry_step` what to do after a failure: sleep `2^attempt`
//! seconds and try again, or give up with a terminal connection error.
//! All other upstream queries are single attempts; their retry policy
//! belongs to their callers.

use vstd::prelude::*;
use vstd::string::StringSliceAdditionalSpecFns;

use crate::counters::spec_bump;
use crate::errors::RuneError;
use crate::retry::{pow2_saturated, spec_pow2_saturated};

verus! {

/// How to reach the upstream node.
#[derive(Debug, Clone)]
pub struct NodeConfig {
    pub rpc_url: String,
    pub username: Option<String>,
    pub password: Option<String>,
    pub timeout_ms: u64,
    pub max_retries: u32,
}

/// A health-check answer: whether the node responds, how far its chain
/// reaches, how many peers it sees, and its own sync progress in
/// thousandths (0 ..= 1000).
#[derive(Debug, Clone, Copy, PartialEq, Eq, Structural)]
pub struct NodeStatus {
    pub is_connected: bool,
    pub block_height: u64,
    pub peer_count: u32,
    pub sync_progress_milli: u32,
}

impl NodeStatus {
    pub open spec fn wf(self) -> bool {
        self.sync_progress_milli <= 1000
    }
}

/// Recording counters for upstream calls, injected at construction of
/// the connection that updates them.
#[derive(Debug, Clone, Copy, PartialEq, Eq, Structural)]
pub struct MetricsCollector {
    pub transaction_count: u64,
    pub error_count: u64,
    pub response_time_ms_total: u64,
    pub active_connections: u64,
}

impl MetricsCollector {
    /// All counters at zero.
    pub fn new() -> (m: MetricsCollector)
        ensures
            m == (MetricsCollector {
                transaction_count: 0u64,
                error_count: 0u64,
                response_time_ms_total: 0u64,
                active_connections: 0u64,
            }),
    {
        MetricsCollector {
            transaction_count: 0,
            error_count: 0,
            response_time_ms_total: 0,
            active_connections: 0,
        }
    }

    /// Records one finished request and its duration.
    pub fn record_request(&mut self, duration_ms: u64)
        ensures
            final(self).transaction_count == spec_bump(old(self).transaction_count),
            final(self).response_time_ms_total == (if old(self).response_time_ms_total
                + duration_ms > u64::MAX {
                u64::MAX
            } else {
                (old(self).response_time_ms_total + duration_ms) as u64
            }),
            final(self).error_count == old(self).error_count,
            final(self).active_connections == old(self).active_connections,
    {
        self.transaction_count = self.transaction_count.saturating_add(1);
        self.response_time_ms_total = self.response_time_ms_total.saturating_add(duration_ms);
    }

    /// Records one failed request.
    pub fn record_error(&mut self)
        ensures
            final(self).error_count == spec_bump(old(self).error_count),
            final(self).transaction_count == old(self).transaction_count,
            final(self).response_time_ms_total == old(self).response_time_ms_total,
            final(self).active_connections == old(self).active_connections,
    {
        self.error_count = self.error_count.saturating_add(1);
    }

    /// Raises the live-connection gauge.
    pub fn connection_opened(&mut self)
        ensures
            final(self).active_connections == spec_bump(old(self).active_connections),
            final(self).transaction_count == old(self).transaction_count,
            final(self).error_count == old(self).error_count,
            final(self).response_time_ms_total == old(self).response_time_ms_total,
    {
        self.active_connections = self.active_connections.saturating_add(1);
    }

    /// Lowers the live-connection gauge, never below zero.
    pub fn connection_closed(&mut self)
        ensures
            final(self).active_connections == (if old(self).active_connections > 0 {
                (old(self).active_connections - 1) as u64
            } else {
                0u64
            }),
            final(self).transaction_count == old(self).transaction_count,
            final(self).error_count == old(self).error_count,
            final(self).response_time_ms_total == old(self).response_time_ms_total,
    {
        self.active_connections = self.active_connections.saturating_sub(1);
    }
}

/// What the connect loop does after health-check attempt `attempt`
/// (counted from 0) failed.
#[derive(Debug, Clone, Copy, PartialEq, Eq, Structural)]
pub enum ConnectStep {
    /// Sleep this many seconds, then try again.
    RetryAfterSeconds(u64),
    /// Retries are spent: report the terminal connection error.
    GiveUp,
}

/// The connect plan: after a failed attempt `attempt` out of
/// `max_retries`, either back off `2^attempt` seconds and retry, or —
/// when that was the last attempt — give up. Retries are strictly
/// capped: the loop this plan drives always terminates.
pub fn connect_retry_step(attempt: u32, max_retries: u32) -> (r: ConnectStep)
    requires
        attempt < max_retries,
    ensures
        attempt + 1 == max_retries ==> r == ConnectStep::GiveUp,
        attempt + 1 < max_retries ==> r == ConnectStep::RetryAfterSeconds(
            spec_pow2_saturated(attempt),
        ),
{
    if attempt + 1 == max_retries {
        ConnectStep::GiveUp
    } else {
        ConnectStep::RetryAfterSeconds(pow2_saturated(attempt))
    }
}

/// The message of the terminal error after `connect` exhausts its
/// retries.
pub fn max_retries_error() -> (r: RuneError)
    ensures
        r matches RuneError::NodeConnectionError(m) && m@ == "Max retries exceeded"@,
{
    RuneError::NodeConnectionError("Max retries exceeded".to_owned())
}

/// Whether a byte is an ASCII decimal digit.
pub open spec fn spec_is_digit(b: u8) -> bool {
    48 <= b <= 57
}

/// The number written by a digit string, most significant digit first.
pub open spec fn spec_dec_value(s: Seq<u8>) -> int
    decreases s.len(),
{
    if s.len() == 0 {
        0
    } else {
        spec_dec_value(s.drop_last()) * 10 + (s.last() - 48)
    }
}

/// The digits of the height answer: the whole answer, less one leading
/// `+` if the answer starts with one (which `u64` parsing accepts).
pub open spec fn spec_height_digits(s: Seq<u8>) -> Seq<u8> {
    if s.len() > 0 && s[0] == 43 {
        s.drop_first()
    } else {
        s
    }
}

/// Whether the height answer is well-formed and in range: at least one
/// digit, digits only, and a value that fits in 64 bits.
pub open spec fn spec_height_ok(s: Seq<u8>) -> bool {
    &&& spec_height_digits(s).len() > 0
    &&& (forall|i: int|
        0 <= i < spec_height_digits(s).len() ==> spec_is_digit(#[trigger] spec_height_digits(s)[i]))
    &&& spec_dec_value(spec_height_digits(s)) <= u64::MAX as int
}

proof fn lemma_dec_value_nonneg(s: Seq<u8>)
    requires
        forall|i: int| 0 <= i < s.len() ==> spec_is_digit(#[trigger] s[i]),
    ensures
        spec_dec_value(s) >= 0,
    decreases s.len(),
{
    if s.len() > 0 {
        lemma_dec_value_nonneg(s.drop_last());
    }
}

proof fn lemma_dec_value_prefix_le(s: Seq<u8>, j: int)
    requires
        forall|i: int| 0 <= i < s.len() ==> spec_is_digit(#[trigger] s[i]),
        0 <= j <= s.len(),
    ensures
        spec_dec_value(s.take(j)) <= spec_dec_value(s),
    decreases s.len() - j,
{
    if j < s.len() {
        lemma_dec_value_prefix_le(s.drop_last(), j);
        assert(s.drop_last().take(j) =~= s.take(j));
        lemma_dec_value_nonneg(s.drop_last());
    } else {
        assert(s.take(j) =~= s);
    }
}

/// Parses the node's block-height answer: an optional leading `+`, then
/// decimal digits whose value fits in 64 bits, exactly as `u64` parsing
/// accepts it. Anything else — empty, a stray character, or a value out
/// of range — is the height-format connection error.
pub fn parse_block_height(s: &str) -> (r: Result<u64, RuneError>)
    ensures
        (r is Ok) == spec_height_ok(s.spec_bytes()),
        r matches Ok(h) ==> h == spec_dec_value(spec_height_digits(s.spec_bytes())),
        r matches Err(e) ==> e matches RuneError::NodeConnectionError(m) && m@
            == "Invalid height format"@,
{
    let bytes = s.as_bytes_vec();
    let ghost whole = s.spec_bytes();
    let ghost digits = spec_height_digits(whole);
    let start: usize = if bytes.len() > 0 && bytes[0] == 43 {
        1
    } else {
        0
    };
    proof {
        assert(digits =~= whole.skip(start as int));
    }
    let n = bytes.len();
    if n == start {
        return Err(RuneError::NodeConnectionError("Invalid height format".to_owned()));
    }
    let mut value: u64 = 0;
    let mut i: usize = start;
    while i < n
        invariant
            start <= i <= n,
            n == whole.len(),
            whole == s.spec_bytes(),
            bytes@ == whole,
            digits == spec_height_digits(whole),
            digits == whole.skip(start as int),
            start <= 1,
            forall|j: int| start <= j < i ==> spec_is_digit(#[trigger] whole[j]),
            value == spec_dec_value(whole.take(i as int).skip(start as int)),
        decreases n - i,
    {
        let b = bytes[i];
        if b < 48 || b > 57 {
            proof {
                assert(spec_height_digits(whole) == digits);
                assert(digits.len() == n - start);
                assert(0 <= (i - start) && (i - start) < digits.len());
                assert(digits[(i - start) as int] == whole[i as int]);
                assert(!spec_is_digit(digits[(i - start) as int]));
                assert(!spec_height_ok(whole)) by {
                    if spec_height_ok(whole) {
                        assert(spec_is_digit(spec_height_digits(whole)[(i - start) as int]));
                        assert(spec_is_digit(digits[(i - start) as int]));
                        assert(false);
                    }
                }
            }
            return Err(RuneError::NodeConnectionError("Invalid height format".to_owned()));
        }
        let d: u64 = (b - 48) as u64;
        let ghost prefix = whole.take(i as int).skip(start as int);
        let ghost prefix1 = whole.take(i as int + 1).skip(start as int);
        proof {
            assert(prefix1.drop_last() =~= prefix);
            assert(prefix1.last() == whole[i as int]);
            assert(spec_dec_value(prefix1) == spec_dec_value(prefix) * 10 + d);
        }
        if value > (u64::MAX - d) / 10 {
            proof {
                if spec_height_ok(whole) {
                    assert(prefix1 =~= digits.take(i as int + 1 - start));
                    assert forall|j: int| 0 <= j < digits.len() implies spec_is_digit(
                        #[trigger] digits[j],
                    ) by {
                        assert(spec_is_digit(spec_height_digits(whole)[j]));
                    }
                    lemma_dec_value_prefix_le(digits, i as int + 1 - start);
                    assert(spec_dec_value(digits.take(i as int + 1 - start)) <= spec_dec_value(
                        digits,
                    ));
                    assert(spec_dec_value(digits) <= u64::MAX as int);
                    assert(spec_dec_value(prefix1) > u64::MAX as int);
                    assert(false);
                }
            }
            return Err(RuneError::NodeConnectionError("Invalid height format".to_owned()));
        }
        value = value * 10 + d;
        i = i + 1;
    }
    proof {
        assert(whole.take(n as int) =~= whole);
        assert(value == spec_dec_value(digits));
        assert(digits.len() > 0);
        assert forall|j: int| 0 <= j < digits.len() implies spec_is_digit(
            #[trigger] digits[j],
        ) by {
            assert(digits[j] == whole[j + start as int]);
        }
    }
    Ok(value)
}

} // verus!
