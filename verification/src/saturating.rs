//! Signed arithmetic that stops at the ends of its range or rounds towards zero.

use vstd::prelude::*;

verus! {

/// The nearest value that an `i64` holds.
pub open spec fn clamp_i64(value: int) -> i64 {
    if value < i64::MIN {
        i64::MIN
    } else if value > i64::MAX {
        i64::MAX
    } else {
        value as i64
    }
}

/// The nearest value that an `i32` holds.
pub open spec fn clamp_i32(value: int) -> i32 {
    if value < i32::MIN {
        i32::MIN
    } else if value > i32::MAX {
        i32::MAX
    } else {
        value as i32
    }
}

/// Half of a number, rounded towards zero.
pub open spec fn half(value: int) -> int {
    if value < 0 {
        -((-value) / 2)
    } else {
        value / 2
    }
}

pub fn half_of(value: i64) -> (result: i64)
    ensures
        result == half(value as int),
{
    if value < 0 {
        if value % 2 == 0 {
            value / 2
        } else {
            (value + 1) / 2
        }
    } else {
        value / 2
    }
}

/// The sum, or the end of the range that it lies beyond.
pub fn saturating_add_i64(a: i64, b: i64) -> (sum: i64)
    ensures
        sum == clamp_i64(a + b),
{
    match a.checked_add(b) {
        Some(sum) => sum,
        None => if b < 0 {
            i64::MIN
        } else {
            i64::MAX
        },
    }
}

/// The square, or the largest value where it lies beyond.
pub fn saturating_square_i64(a: i64) -> (square: i64)
    ensures
        square == clamp_i64(a * a),
{
    assert(a * a >= 0) by (nonlinear_arith);
    match a.checked_mul(a) {
        Some(square) => square,
        None => i64::MAX,
    }
}

/// The value, or the end of the `i32` range that it lies beyond.
pub fn saturating_i64_to_i32(value: i64) -> (result: i32)
    ensures
        result == clamp_i32(value as int),
{
    if value < i32::MIN as i64 {
        i32::MIN
    } else if value > i32::MAX as i64 {
        i32::MAX
    } else {
        value as i32
    }
}

} // verus!
