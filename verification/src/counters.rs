//! Saturating 64-bit counters, shared by the reader's statistics and the
//! capture and replay metrics: session counters only ever grow, and stop at
//! the top of their range rather than wrap.

use vstd::prelude::*;

verus! {

/// `a + d`, stopped at the top of the 64-bit range.
pub open spec fn sat_add_u64(a: u64, d: int) -> u64
    recommends
        d >= 0,
{
    if a + d > u64::MAX {
        u64::MAX
    } else {
        (a + d) as u64
    }
}

/// Saturating counter bump.
pub fn sat_add(a: u64, b: u64) -> (r: u64)
    ensures
        r == sat_add_u64(a, b as int),
{
    if a > u64::MAX - b {
        u64::MAX
    } else {
        a + b
    }
}

/// Saturating a counter twice by nonnegative steps is saturating it once by
/// their sum.
pub proof fn lemma_sat_add_chain(a: u64, x: int, y: int)
    requires
        x >= 0,
        y >= 0,
    ensures
        sat_add_u64(sat_add_u64(a, x), y) == sat_add_u64(a, x + y),
{
}

} // verus!
