//! Fixed-point scalar arithmetic.
//!
//! Spatial state (positions, rotations, scales) is held in `Fx`, a signed
//! 64-bit fixed-point number with 16 fractional bits: one unit is `FX_ONE`
//! (65536). All operations saturate at the `i64` range and round quotients
//! toward zero, so every result is an exact, deterministic function of its
//! inputs — the composition laws of the transform hierarchy are stated over
//! these operations.

use vstd::prelude::*;

verus! {

/// Fixed-point scalar: `i64` with 16 fractional bits.
pub type Fx = i64;

/// The fixed-point representation of 1.
pub const FX_ONE: i64 = 65536;

/// Saturate a mathematical integer into the `i64` range.
pub open spec fn sat64(x: int) -> int {
    if x > i64::MAX as int {
        i64::MAX as int
    } else if x < i64::MIN as int {
        i64::MIN as int
    } else {
        x
    }
}

/// Magnitude of a mathematical integer.
pub open spec fn abs_i(x: int) -> int {
    if x >= 0 {
        x
    } else {
        -x
    }
}

/// Saturating fixed-point addition.
pub open spec fn fx_add_s(a: int, b: int) -> int {
    sat64(a + b)
}

/// Saturating fixed-point subtraction.
pub open spec fn fx_sub_s(a: int, b: int) -> int {
    sat64(a - b)
}

/// Saturating fixed-point negation.
pub open spec fn fx_neg_s(a: int) -> int {
    sat64(-a)
}

/// Saturating fixed-point multiplication: the double-width product is
/// rescaled by `FX_ONE`, rounding toward zero.
pub open spec fn fx_mul_s(a: int, b: int) -> int {
    if a * b >= 0 {
        sat64((a * b) / (FX_ONE as int))
    } else {
        sat64(-((-(a * b)) / (FX_ONE as int)))
    }
}

/// Saturating fixed-point division, rounding toward zero. Division by zero
/// is defined as zero: callers treat a degenerate divisor as absent effect
/// rather than a crash.
pub open spec fn fx_div_s(a: int, b: int) -> int {
    if b == 0 {
        0
    } else if (a >= 0) == (b >= 0) {
        sat64((abs_i(a) * (FX_ONE as int)) / abs_i(b))
    } else {
        sat64(-((abs_i(a) * (FX_ONE as int)) / abs_i(b)))
    }
}

/// Clamp to a closed interval.
pub open spec fn fx_clamp_s(v: int, lo: int, hi: int) -> int {
    if v < lo {
        lo
    } else if v > hi {
        hi
    } else {
        v
    }
}

/// Saturating addition.
pub fn fx_add(a: Fx, b: Fx) -> (r: Fx)
    ensures
        r as int == fx_add_s(a as int, b as int),
{
    let s: i128 = a as i128 + b as i128;
    if s > i64::MAX as i128 {
        i64::MAX
    } else if s < i64::MIN as i128 {
        i64::MIN
    } else {
        s as i64
    }
}

/// Saturating subtraction.
pub fn fx_sub(a: Fx, b: Fx) -> (r: Fx)
    ensures
        r as int == fx_sub_s(a as int, b as int),
{
    let s: i128 = a as i128 - b as i128;
    if s > i64::MAX as i128 {
        i64::MAX
    } else if s < i64::MIN as i128 {
        i64::MIN
    } else {
        s as i64
    }
}

/// Saturating negation.
pub fn fx_neg(a: Fx) -> (r: Fx)
    ensures
        r as int == fx_neg_s(a as int),
{
    if a == i64::MIN {
        i64::MAX
    } else {
        -a
    }
}

/// Magnitude of an `i64` as a `u128`.
fn abs_u128(a: i64) -> (r: u128)
    ensures
        r as int == abs_i(a as int),
{
    if a >= 0 {
        a as u128
    } else {
        (-(a as i128)) as u128
    }
}

/// Clamp a `u128` magnitude into the `i64` range with the requested sign.
fn signed_sat(mag: u128, negative: bool) -> (r: i64)
    ensures
        negative ==> r as int == sat64(-(mag as int)),
        !negative ==> r as int == sat64(mag as int),
{
    if negative {
        if mag >= 9223372036854775808u128 {
            i64::MIN
        } else {
            -((mag as i128) as i64)
        }
    } else {
        if mag >= 9223372036854775807u128 {
            i64::MAX
        } else {
            mag as i64
        }
    }
}

/// Saturating multiplication with rescaling by `FX_ONE`.
pub fn fx_mul(a: Fx, b: Fx) -> (r: Fx)
    ensures
        r as int == fx_mul_s(a as int, b as int),
{
    let ma = abs_u128(a);
    let mb = abs_u128(b);
    proof {
        assert(ma as int * mb as int <= 0x8000_0000_0000_0000 * 0x8000_0000_0000_0000)
            by (nonlinear_arith)
            requires
                0 <= ma as int <= 0x8000_0000_0000_0000,
                0 <= mb as int <= 0x8000_0000_0000_0000,
        ;
    }
    let mag: u128 = (ma * mb) / (FX_ONE as u128);
    let negative = (a < 0) != (b < 0);
    proof {
        let p = (a as int) * (b as int);
        assert(ma as int * mb as int == abs_i(p)) by (nonlinear_arith)
            requires
                ma as int == abs_i(a as int),
                mb as int == abs_i(b as int),
                p == (a as int) * (b as int),
        ;
        if negative && p > 0 {
            assert(false) by (nonlinear_arith)
                requires
                    p == (a as int) * (b as int),
                    (a < 0) != (b < 0),
                    p > 0,
            ;
        }
        if !negative && p < 0 {
            assert(false) by (nonlinear_arith)
                requires
                    p == (a as int) * (b as int),
                    (a < 0) == (b < 0),
                    p < 0,
            ;
        }
    }
    signed_sat(mag, negative && mag > 0)
}

/// Saturating division with rescaling by `FX_ONE`; division by zero yields
/// zero.
pub fn fx_div(a: Fx, b: Fx) -> (r: Fx)
    ensures
        r as int == fx_div_s(a as int, b as int),
{
    if b == 0 {
        return 0;
    }
    let ma = abs_u128(a);
    let mb = abs_u128(b);
    proof {
        assert(ma as int * (FX_ONE as int) <= 0x8000_0000_0000_0000 * 0x10000)
            by (nonlinear_arith)
            requires
                0 <= ma as int <= 0x8000_0000_0000_0000,
        ;
    }
    let mag: u128 = (ma * (FX_ONE as u128)) / mb;
    let negative = (a < 0) != (b < 0);
    signed_sat(mag, negative && mag > 0)
}

/// Clamp to a closed interval.
pub fn fx_clamp(v: Fx, lo: Fx, hi: Fx) -> (r: Fx)
    requires
        lo <= hi,
    ensures
        r as int == fx_clamp_s(v as int, lo as int, hi as int),
{
    if v < lo {
        lo
    } else if v > hi {
        hi
    } else {
        v
    }
}

} // verus!
