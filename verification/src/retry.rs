//! Powers of two, shared by the exponential backoff schedules of the
//! upstream connection and the webhook delivery engine.

use vstd::prelude::*;

verus! {

/// 2 to the power `e`.
pub open spec fn spec_pow2(e: nat) -> int
    decreases e,
{
    if e == 0 {
        1
    } else {
        2 * spec_pow2((e - 1) as nat)
    }
}

pub proof fn lemma_pow2_pos(e: nat)
    ensures
        spec_pow2(e) >= 1,
    decreases e,
{
    if e > 0 {
        lemma_pow2_pos((e - 1) as nat);
    }
}

pub proof fn lemma_pow2_mono(a: nat, b: nat)
    requires
        a <= b,
    ensures
        spec_pow2(a) <= spec_pow2(b),
    decreases b,
{
    if a < b {
        lemma_pow2_mono(a, (b - 1) as nat);
        lemma_pow2_pos((b - 1) as nat);
    }
}

/// 2 to the power `e`, clamped at the largest representable value.
pub open spec fn spec_pow2_saturated(e: u32) -> u64 {
    if spec_pow2(e as nat) > u64::MAX as int {
        u64::MAX
    } else {
        spec_pow2(e as nat) as u64
    }
}

/// Computes `spec_pow2_saturated` by doubling.
pub fn pow2_saturated(e: u32) -> (r: u64)
    ensures
        r == spec_pow2_saturated(e),
{
    let mut d: u64 = 1;
    let mut k: u32 = 0;
    proof {
        assert(spec_pow2(0) == 1);
    }
    while k < e
        invariant
            k <= e,
            d == spec_pow2_saturated(k),
        decreases e - k,
    {
        proof {
            lemma_pow2_pos(k as nat);
            assert(spec_pow2((k + 1) as nat) == 2 * spec_pow2(k as nat));
        }
        d = if d > u64::MAX / 2 {
            u64::MAX
        } else {
            d * 2
        };
        k = k + 1;
    }
    d
}

} // verus!
