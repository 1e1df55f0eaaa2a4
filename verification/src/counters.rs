//! Saturating counter arithmetic, shared by the services' recording
//! collectors: a counter bump sticks at the maximum instead of
//! wrapping.

use vstd::prelude::*;

verus! {

/// `x + 1`, clamped at the largest representable count.
pub open spec fn spec_bump(x: u64) -> u64 {
    if x == u64::MAX {
        x
    } else {
        (x + 1) as u64
    }
}

} // verus!
