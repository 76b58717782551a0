//! Fixed-point arithmetic for the optimizer.
//!
//! A real quantity is held as an `i64` number of units of `1 / SCALE`.
//! The spec functions here give exact mathematical meaning to the few
//! operations the search loop performs: truncating division, magnitude,
//! and clamping to the representable range.

use vstd::prelude::*;

verus! {

/// Number of fixed-point units per whole unit: values carry nine
/// fractional decimal digits.
pub const SCALE: i64 = 1_000_000_000;

/// Upper bound on the boost multiplier, in fixed-point units: 10.0.
pub const BOOST_CAP: i64 = 10 * SCALE;

/// Magnitude of an integer.
pub open spec fn abs_int(x: int) -> int {
    if x >= 0 {
        x
    } else {
        -x
    }
}

/// The smaller of two integers.
pub open spec fn min_int(a: int, b: int) -> int {
    if a <= b {
        a
    } else {
        b
    }
}

/// Division rounding toward zero, as the machine's signed division does.
pub open spec fn div_trunc(a: int, d: int) -> int
    recommends
        d > 0,
{
    if a >= 0 {
        a / d
    } else {
        -((-a) / d)
    }
}

/// Clamp an integer into the range of `i64`.
pub open spec fn clamp_i64(x: int) -> int {
    if x > i64::MAX {
        i64::MAX as int
    } else if x < i64::MIN {
        i64::MIN as int
    } else {
        x
    }
}

/// Clamp a wide intermediate into the range of `i64`.
pub fn clamp128(x: i128) -> (r: i64)
    ensures
        r as int == clamp_i64(x as int),
{
    if x > (i64::MAX as i128) {
        i64::MAX
    } else if x < (i64::MIN as i128) {
        i64::MIN
    } else {
        x as i64
    }
}

/// Truncating division never grows a magnitude.
pub proof fn lemma_div_trunc_shrinks(a: int, d: int)
    requires
        d >= 1,
    ensures
        abs_int(div_trunc(a, d)) <= abs_int(a),
{
    if a >= 0 {
        vstd::arithmetic::div_mod::lemma_div_pos_is_pos(a, d);
        vstd::arithmetic::div_mod::lemma_div_nonincreasing(a, d);
    } else {
        vstd::arithmetic::div_mod::lemma_div_pos_is_pos(-a, d);
        vstd::arithmetic::div_mod::lemma_div_nonincreasing(-a, d);
    }
}

/// Halving rounds the magnitude down to half, strictly shrinking any
/// nonzero magnitude.
pub proof fn lemma_halving_shrinks(a: int)
    requires
        a != 0,
    ensures
        abs_int(div_trunc(a, 2)) < abs_int(a),
        abs_int(div_trunc(a, 2)) == abs_int(a) / 2,
{
    if a >= 0 {
        vstd::arithmetic::div_mod::lemma_div_pos_is_pos(a, 2);
        vstd::arithmetic::div_mod::lemma_div_decreases(a, 2);
    } else {
        vstd::arithmetic::div_mod::lemma_div_pos_is_pos(-a, 2);
        vstd::arithmetic::div_mod::lemma_div_decreases(-a, 2);
    }
}

} // verus!
