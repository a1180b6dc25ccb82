//! Fast polynomial approximation of the exponential function.
//!
//! The algorithm clamps its argument, rescales it by `log2(e)` into a base-2
//! exponent domain, splits off the integer part, corrects the fractional part
//! with a fixed third-degree minimax polynomial, and finally rebuilds the
//! result by moving the pre-scaled, biased exponent directly into the
//! exponent field of an IEEE-754 single-precision bit pattern.  Since every
//! scalar in this crate already travels as its bit pattern, that final
//! reinterpretation step is the identity here.
//!
//! All named constants are the `u32` bit patterns of the single-precision
//! values given in their doc comments.

use vstd::prelude::*;
use crate::softfloat::{
    single_add, single_sub, single_mul, single_lt, single_floor, single_trunc_to_u32,
    add_single, sub_single, mul_single, lt_single, floor_single, trunc_to_u32_single,
};

verus! {

/// Upper clamp bound: 88.3762626647949, just below the largest argument
/// whose exponential is a finite single-precision value.
pub const EXP_HI: u32 = 0x42B0_C0A5;

/// Lower clamp bound for the scalar path: -88.3762626647949.
pub const EXP_LO: u32 = 0xC2B0_C0A5;

/// Lower clamp bound for the lane path: -88.028.  It is tighter than
/// `EXP_LO` so that the final conversion to a signed integer cannot go
/// negative.
pub const EXP_LO_AVX_SIGNED: u32 = 0xC2B0_0E56;

/// Degree-0 minimax polynomial coefficient: 1.06906116358144185133e-4.
pub const C0: u32 = 0x38E0_32C9;

/// Degree-1 minimax polynomial coefficient: 0.303543677780836240743.
pub const C1: u32 = 0x3E9B_6A14;

/// Degree-2 minimax polynomial coefficient: -0.224339532327269441936.
pub const C2: u32 = 0xBE65_B943;

/// Degree-3 minimax polynomial coefficient: -0.0792041454535668681958.
pub const C3: u32 = 0xBDA2_35C8;

/// log2(e) = 1.4426950408889634, the scale from base e to base 2.
pub const LOG2_E: u32 = 0x3FB8_AA3B;

/// 2^23 = 8388608.0, the width of the single-precision mantissa field.
pub const S: u32 = 0x4B00_0000;

/// 127 * 2^23 = 1065353216.0, the exponent bias pre-scaled by `S`.
pub const B: u32 = 0x4E7E_0000;

/// `x` clamped into `[lo, hi]`: first the minimum with `hi`, then the
/// maximum with `lo`, each written as a compare-and-select so that a NaN
/// argument saturates to `hi` exactly as the hardware lane operations do.
pub open spec fn single_clamp(x: u32, lo: u32, hi: u32) -> u32 {
    let t = if single_lt(x, hi) {
        x
    } else {
        hi
    };
    if single_lt(lo, t) {
        t
    } else {
        lo
    }
}

/// The scalar fast path: clamp to `[EXP_LO, EXP_HI]`, rescale by `log2(e)`,
/// split off the integer part with `floor`, evaluate the third-degree
/// polynomial on the fractional remainder, subtract the correction, and
/// rebuild the bit pattern through `S * y + B` truncated to an unsigned
/// integer.
pub open spec fn exp_approx_f32_spec(x: u32) -> u32 {
    let c = single_clamp(x, EXP_LO, EXP_HI);
    let t = single_mul(c, LOG2_E);
    let fl = single_floor(t);
    let xf = single_sub(t, fl);
    let k2 = single_add(single_mul(xf, C3), C2);
    let k1 = single_add(single_mul(xf, k2), C1);
    let k0 = single_add(single_mul(xf, k1), C0);
    let y = single_sub(t, k0);
    single_trunc_to_u32(single_add(single_mul(S, y), B))
}

/// `x` clamped into `[lo, hi]`, with a NaN argument saturating to `hi`.
pub(crate) fn clamp_single(x: u32, lo: u32, hi: u32) -> (r: u32)
    ensures
        r == single_clamp(x, lo, hi),
{
    let t = if lt_single(x, hi) {
        x
    } else {
        hi
    };
    if lt_single(lo, t) {
        t
    } else {
        lo
    }
}

/// Approximation of `e^x` on single-precision bit patterns, accurate to
/// about 1e-4 relative error on the domain of interest; arguments outside
/// the clamp range saturate instead of overflowing.
pub fn exp_approx_f32(x: u32) -> (r: u32)
    ensures
        r == exp_approx_f32_spec(x),
{
    let c = clamp_single(x, EXP_LO, EXP_HI);
    let t = mul_single(c, LOG2_E);
    let fl = floor_single(t);
    let xf = sub_single(t, fl);
    let k2 = add_single(mul_single(xf, C3), C2);
    let k1 = add_single(mul_single(xf, k2), C1);
    let k0 = add_single(mul_single(xf, k1), C0);
    let y = sub_single(t, k0);
    trunc_to_u32_single(add_single(mul_single(S, y), B))
}

} // verus!
