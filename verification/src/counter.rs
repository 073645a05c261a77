//! Saturating monotone counters.
//!
//! The statistics counters only ever grow; at the top of their range they
//! stay put instead of wrapping.

use vstd::prelude::*;

verus! {

/// `x + 1`, saturating at the top of `u64`.
pub fn bump(x: u64) -> (r: u64)
    ensures
        r == if x < u64::MAX {
            x + 1
        } else {
            x as int
        },
        r >= x,
{
    if x < u64::MAX {
        x + 1
    } else {
        x
    }
}

/// `x + y`, saturating at the top of `u128`.
pub fn add_saturating(x: u128, y: u128) -> (r: u128)
    ensures
        r == if x + y <= u128::MAX {
            x + y
        } else {
            u128::MAX as int
        },
        r >= x,
        r >= y,
{
    if x <= u128::MAX - y {
        x + y
    } else {
        u128::MAX
    }
}

/// `x` clipped into `u64`.
pub fn sat_u64(x: u128) -> (r: u64)
    ensures
        r == if x <= u64::MAX {
            x as int
        } else {
            u64::MAX as int
        },
{
    if x <= u64::MAX as u128 {
        x as u64
    } else {
        u64::MAX
    }
}

/// `s + add`, saturating at the top of `i32`.
pub fn bump_score(s: i32, add: i32) -> (r: i32)
    requires
        add >= 0,
        s >= 0,
    ensures
        r == if s + add <= i32::MAX {
            s + add
        } else {
            i32::MAX as int
        },
        r >= s,
        r >= 0,
{
    if s <= i32::MAX - add {
        s + add
    } else {
        i32::MAX
    }
}

} // verus!
