//! Saturating counter arithmetic.
//!
//! Request tallies and deadlines never wrap: a counter that has reached
//! the top of its type stays there, and the contracts say exactly that.

use vstd::prelude::*;

verus! {

/// `x + 1`, stopping at the top of `u32`.
pub open spec fn inc_u32_spec(x: u32) -> u32 {
    if x < u32::MAX {
        (x + 1) as u32
    } else {
        x
    }
}

/// Increments a `u32` without wrapping.
pub fn inc_u32(x: u32) -> (r: u32)
    ensures
        r == inc_u32_spec(x),
{
    if x < u32::MAX {
        x + 1
    } else {
        x
    }
}

/// `x + 1`, stopping at the top of `u64`.
pub open spec fn inc_u64_spec(x: u64) -> u64 {
    if x < u64::MAX {
        (x + 1) as u64
    } else {
        x
    }
}

/// Increments a `u64` without wrapping.
pub fn inc_u64(x: u64) -> (r: u64)
    ensures
        r == inc_u64_spec(x),
{
    if x < u64::MAX {
        x + 1
    } else {
        x
    }
}

/// `a + b`, stopping at the top of `u64`.
pub open spec fn sat_add_u64_spec(a: u64, b: u64) -> u64 {
    if a + b <= u64::MAX {
        (a + b) as u64
    } else {
        u64::MAX
    }
}

/// Adds two `u64` values without wrapping.
pub fn sat_add_u64(a: u64, b: u64) -> (r: u64)
    ensures
        r == sat_add_u64_spec(a, b),
{
    if a <= u64::MAX - b {
        a + b
    } else {
        u64::MAX
    }
}

} // verus!
