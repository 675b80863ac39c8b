//! Small integer helpers.
use vstd::prelude::*;

verus! {

/// `x` limited to `[lo, hi]`.
pub open spec fn clamp(x: int, lo: int, hi: int) -> int {
    if x < lo {
        lo
    } else if x > hi {
        hi
    } else {
        x
    }
}

/// `x.clamp(lo, hi)`.
pub fn clamp_i32(x: i32, lo: i32, hi: i32) -> (r: i32)
    requires
        lo <= hi,
    ensures
        r == clamp(x as int, lo as int, hi as int),
{
    if x < lo {
        lo
    } else if x > hi {
        hi
    } else {
        x
    }
}

/// The smaller of two integers.
pub open spec fn min_int(a: int, b: int) -> int {
    if a <= b {
        a
    } else {
        b
    }
}

/// The larger of two integers.
pub open spec fn max_int(a: int, b: int) -> int {
    if a >= b {
        a
    } else {
        b
    }
}

/// Truncating division of an integer by ten, rounding toward zero. Applied
/// to six times an `i32`, it is what `x as f64 * 0.6` followed by `as i32`
/// gives: the float product never strays across a whole number.
pub open spec fn div10_toward_zero(x: int) -> int {
    if x >= 0 {
        x / 10
    } else {
        -((-x) / 10)
    }
}

/// Three fifths of `x`, rounded toward zero.
pub fn three_fifths(x: i32) -> (r: i32)
    ensures
        r == div10_toward_zero(x * 6),
{
    let w = x as i64 * 6;
    if w >= 0 {
        (w / 10) as i32
    } else {
        -((-w) / 10) as i32
    }
}

} // verus!
