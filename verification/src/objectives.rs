//! Ready-made objectives.
//!
//! Two simple fixed-point objectives ship with the optimizer: one well-behaved
//! calibration target and one adversarial shape, each with its residual
//! stated exactly as a spec function.

use vstd::prelude::*;
use crate::fixed::{SCALE, abs_int, div_trunc, clamp_i64, clamp128};
use crate::optimizer::Objective;

verus! {

/// The residual `(target - v * v)^2` in fixed-point arithmetic: squares are
/// scaled products rounded toward zero, and results too large to represent
/// saturate at `i64::MAX`.
pub open spec fn square_match_residual(target: int, v: int) -> int {
    let sq = div_trunc(v * v, SCALE as int);
    let d = target - sq;
    if abs_int(d) > 0x8000_0000_0000_0000 {
        i64::MAX as int
    } else {
        clamp_i64(div_trunc(d * d, SCALE as int))
    }
}

/// An objective whose residual is `(target - v^2)^2`: it vanishes exactly
/// where the square of the input matches `target`, so minimizing it
/// calibrates a square root.
pub struct SquareMatchObjective {
    pub target: i64,
}

impl Objective for SquareMatchObjective {
    open spec fn eval_spec(&self, v: int) -> int {
        square_match_residual(self.target as int, v)
    }

    fn evaluate(&self, v: i64) -> (r: i64)
        ensures
            r as int == self.eval_spec(v as int),
    {
        proof {
            assert(0 <= (v as int) * (v as int)
                <= 85070591730234615865843651857942052864int)
                by (nonlinear_arith)
                requires
                    -9223372036854775808int <= v as int <= 9223372036854775807int,
            ;
        }
        let sqn: i128 = (v as i128) * (v as i128);
        let sq: i128 = sqn / (SCALE as i128);
        proof {
            vstd::arithmetic::div_mod::lemma_div_pos_is_pos(sqn as int, SCALE as int);
            vstd::arithmetic::div_mod::lemma_div_nonincreasing(sqn as int, SCALE as int);
        }
        let d: i128 = (self.target as i128) - sq;
        let dm: i128 = if d >= 0 {
            d
        } else {
            -d
        };
        if dm > 9223372036854775808i128 {
            i64::MAX
        } else {
            proof {
                assert(dm as int * (dm as int) == (d as int) * (d as int)
                    && 0 <= (dm as int) * (dm as int)
                    <= 85070591730234615865843651857942052864int)
                    by (nonlinear_arith)
                    requires
                        0 <= dm as int <= 9223372036854775808int,
                        dm as int == abs_int(d as int),
                ;
            }
            let dd: i128 = dm * dm;
            proof {
                vstd::arithmetic::div_mod::lemma_div_pos_is_pos(dd as int, SCALE as int);
            }
            clamp128(dd / (SCALE as i128))
        }
    }
}

/// The residual `-(|v - peak|)` in fixed-point arithmetic, clamped into the
/// representable range.
pub open spec fn peak_residual(peak: int, v: int) -> int {
    clamp_i64(-abs_int(v - peak))
}

/// An adversarial objective whose residual rises toward a single worst point
/// at `peak` and improves without bound away from it.  A search started on
/// one side of the peak finds every move toward it worse than the last, so
/// it backtracks until the step floor stops it — useful for exercising the
/// overshoot and step-floor behaviour.
pub struct PeakObjective {
    pub peak: i64,
}

impl Objective for PeakObjective {
    open spec fn eval_spec(&self, v: int) -> int {
        peak_residual(self.peak as int, v)
    }

    fn evaluate(&self, v: i64) -> (r: i64)
        ensures
            r as int == self.eval_spec(v as int),
    {
        let d: i128 = (v as i128) - (self.peak as i128);
        let m: i128 = if d >= 0 {
            d
        } else {
            -d
        };
        clamp128(-m)
    }
}

} // verus!
