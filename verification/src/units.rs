//! Units of measure and arithmetic that stops at the ends of the number range.

use vstd::prelude::*;

verus! {

/// Ticks in one second of simulated time.
pub const TICKS_PER_SECOND: i64 = 60;

/// Sub-units in one world unit.
///
/// It is the square of [`TICKS_PER_SECOND`]: a speed of one world unit per
/// second, gained over one tick and then travelled for one tick, covers
/// exactly one sub-unit.
pub const UNIT: i64 = 3600;

/// Sub-units per tick in a speed of one world unit per second.
pub const UNIT_PER_SECOND: i64 = 60;

/// The value of `v` brought into the range of `i64`.
pub open spec fn clamp_i64(v: int) -> int {
    if v > i64::MAX {
        i64::MAX as int
    } else if v < i64::MIN {
        i64::MIN as int
    } else {
        v
    }
}

/// The value of `v` brought into the range of `usize`, for `v` not negative.
pub open spec fn clamp_usize(v: int) -> int {
    if v > usize::MAX {
        usize::MAX as int
    } else {
        v
    }
}

/// The value of `v` brought into the range from `lo` to `hi`.
pub open spec fn clamp_between(v: int, lo: int, hi: int) -> int {
    if v < lo {
        lo
    } else if v > hi {
        hi
    } else {
        v
    }
}

/// The sum of `a` and `b`, or the end of the range that the sum lies beyond.
pub fn sat_add(a: i64, b: i64) -> (r: i64)
    ensures
        r == clamp_i64(a + b),
{
    let wide: i128 = a as i128 + b as i128;
    if wide > i64::MAX as i128 {
        i64::MAX
    } else if wide < i64::MIN as i128 {
        i64::MIN
    } else {
        wide as i64
    }
}

/// `a` with its sign turned; the least value, which has no opposite, gives the greatest.
pub fn sat_neg(a: i64) -> (r: i64)
    ensures
        r == clamp_i64(-a),
{
    if a == i64::MIN {
        i64::MAX
    } else {
        -a
    }
}

/// `a` less the count `t`, or the least value where the difference lies below it.
pub fn sat_sub_count(a: i64, t: u64) -> (r: i64)
    ensures
        r == clamp_i64(a - t),
{
    let wide: i128 = a as i128 - t as i128;
    if wide < i64::MIN as i128 {
        i64::MIN
    } else {
        wide as i64
    }
}

/// `v` if it lies between `lo` and `hi`, else the nearer of the two.
pub fn clamp(v: i64, lo: i64, hi: i64) -> (r: i64)
    requires
        lo <= hi,
    ensures
        r == clamp_between(v as int, lo as int, hi as int),
        lo <= r <= hi,
{
    if v < lo {
        lo
    } else if v > hi {
        hi
    } else {
        v
    }
}

} // verus!
