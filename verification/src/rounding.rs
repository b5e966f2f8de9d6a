//! Round-half-up integer division with a saturating numerator.
//!
//! Every other component divides through these functions. Truncating division
//! would drift placements downward across many rows and columns; rounding to
//! nearest keeps the cumulative error near zero. The numerator addition
//! saturates at the type's maximum instead of wrapping. Divisors are
//! guaranteed non-zero by the callers.

use vstd::prelude::*;

verus! {

/// Round-half-up division `(a + b/2) / b` on mathematical integers, `b > 0`.
pub open spec fn rdiv(a: int, b: int) -> int {
    (a + b / 2) / b
}

/// Value of the saturating round-half-up division on `u16`: the numerator
/// `a + b/2` is clamped to `u16::MAX` before dividing.
pub open spec fn rdiv_sat_u16(a: int, b: int) -> int {
    if a + b / 2 <= u16::MAX {
        rdiv(a, b)
    } else {
        (u16::MAX as int) / b
    }
}

/// Value of the saturating round-half-up division on `u32`: the numerator
/// `a + b/2` is clamped to `u32::MAX` before dividing.
pub open spec fn rdiv_sat_u32(a: int, b: int) -> int {
    if a + b / 2 <= u32::MAX {
        rdiv(a, b)
    } else {
        (u32::MAX as int) / b
    }
}

/// Round-half-up division on `u16` values; the numerator saturates at
/// `u16::MAX` instead of overflowing.
pub fn div_int_u16(a: u16, b: u16) -> (r: u16)
    requires
        b > 0,
    ensures
        r as int == rdiv_sat_u16(a as int, b as int),
{
    let half: u16 = b / 2;
    let num: u16 = if a > u16::MAX - half {
        u16::MAX
    } else {
        a + half
    };
    num / b
}

/// Round-half-up division on `u32` values; the numerator saturates at
/// `u32::MAX` instead of overflowing.
pub fn div_int_u32(a: u32, b: u32) -> (r: u32)
    requires
        b > 0,
    ensures
        r as int == rdiv_sat_u32(a as int, b as int),
{
    let half: u32 = b / 2;
    let num: u32 = if a > u32::MAX - half {
        u32::MAX
    } else {
        a + half
    };
    num / b
}

/// The rounded quotient lies between the exact quotient and one more:
/// `b * rdiv(a, b)` is within `b/2` above `a` and within `b - 1 + b/2` below.
pub proof fn lemma_rdiv_bounds(a: int, b: int)
    requires
        0 <= a,
        1 <= b,
    ensures
        0 <= rdiv(a, b) <= a,
        b * rdiv(a, b) <= a + b / 2,
        a + b / 2 < b * rdiv(a, b) + b,
{
    assert(0 <= rdiv(a, b) <= a && b * rdiv(a, b) <= a + b / 2 && a + b / 2 < b * rdiv(a, b) + b)
        by (nonlinear_arith)
        requires
            0 <= a,
            1 <= b,
    ;
}

/// Scaling a value `x` by a fraction `a / b` with `a <= b` and rounding to
/// nearest never makes it larger.
pub proof fn lemma_rdiv_scale_le(x: int, a: int, b: int)
    requires
        0 <= x,
        0 <= a <= b,
        1 <= b,
    ensures
        rdiv(x * a, b) <= x,
{
    assert(rdiv(x * a, b) <= x) by (nonlinear_arith)
        requires
            0 <= x,
            0 <= a <= b,
            1 <= b,
    ;
}

} // verus!
