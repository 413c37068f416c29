//! Saturating fixed-point arithmetic on 64-bit scalars.
//!
//! Every scalar quantity in this crate (positions, velocities, time deltas)
//! is a fixed-point number: an `i64` holding the quantity times [`SCALE`].
//! Sums saturate at the `i64` range; a product is scaled back down by
//! [`SCALE`], truncated toward zero, and saturated likewise.

use vstd::prelude::*;

verus! {

/// Number of fixed-point units in one whole unit.
pub const SCALE: i64 = 1000;

/// Clamp an unbounded integer into the `i64` range.
pub open spec fn sat64(x: int) -> int {
    if x > i64::MAX {
        i64::MAX as int
    } else if x < i64::MIN {
        i64::MIN as int
    } else {
        x
    }
}

/// Quotient of `x` by [`SCALE`], truncated toward zero.
pub open spec fn div_scale_trunc(x: int) -> int {
    if x >= 0 {
        x / (SCALE as int)
    } else {
        -((-x) / (SCALE as int))
    }
}

/// The fixed-point product of `a` and `b`: their integer product scaled back
/// down, truncated toward zero, saturated at the `i64` range.
pub open spec fn mul_fixed_spec(a: int, b: int) -> int {
    sat64(div_scale_trunc(a * b))
}

/// Saturating sum of two scalars.
pub fn add_sat(a: i64, b: i64) -> (r: i64)
    ensures
        r == sat64(a + b),
{
    let s: i128 = (a as i128) + (b as i128);
    if s > (i64::MAX as i128) {
        i64::MAX
    } else if s < (i64::MIN as i128) {
        i64::MIN
    } else {
        s as i64
    }
}

/// Fixed-point product of two scalars.
pub fn mul_fixed(a: i64, b: i64) -> (r: i64)
    ensures
        r == mul_fixed_spec(a as int, b as int),
{
    proof {
        assert((a as int) * (b as int) <= 0x4000_0000_0000_0000_0000_0000_0000_0000
            && (a as int) * (b as int) >= -0x4000_0000_0000_0000_0000_0000_0000_0000)
            by (nonlinear_arith)
            requires
                -0x8000_0000_0000_0000 <= a as int <= 0x7fff_ffff_ffff_ffff,
                -0x8000_0000_0000_0000 <= b as int <= 0x7fff_ffff_ffff_ffff,
        ;
    }
    let p: i128 = (a as i128) * (b as i128);
    if p >= 0 {
        let q: u128 = (p as u128) / (SCALE as u128);
        if q > (i64::MAX as u128) {
            i64::MAX
        } else {
            q as i64
        }
    } else {
        let m: u128 = ((-p) as u128) / (SCALE as u128);
        if m >= 0x8000_0000_0000_0000u128 {
            i64::MIN
        } else {
            -(m as i64)
        }
    }
}

} // verus!
