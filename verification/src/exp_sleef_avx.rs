//! High-accuracy exponential approximation (about 1e-7 relative error).
//!
//! Range reduction: `q = round(x / ln 2)` as an integer, then
//! `s = x - q * ln2` computed with a split high/low representation of `ln 2`
//! and fused multiply-adds.  A fifth-degree polynomial approximates `e^s`,
//! and the result is scaled by `2^q` through two half-sized exponent-field
//! factors (`ldexp2`).  Arguments below -104 map to zero and above 100 to
//! infinity.
//!
//! All named constants are the `u32` bit patterns of the single-precision
//! values given in their doc comments; the `ldexp2` scaling is plain integer
//! work on the exponent field and is verified directly.

use vstd::prelude::*;
use crate::softfloat::{
    single_add, single_mul, single_mul_add, single_lt, single_round_to_i32, single_of_i32,
    add_single, mul_single, mul_add_single, lt_single, round_to_i32_single, single_from_i32,
};

verus! {

/// 1/ln(2) = 1.4426950408889634.
pub const R_LN2F: u32 = 0x3FB8_AA3B;

/// -0.693145751953125, the negated high part of ln(2).
pub const NEG_L2UF: u32 = 0xBF31_7200;

/// -1.428606765330187045e-6, the negated low part of ln(2).
pub const NEG_L2LF: u32 = 0xB5BF_BE8E;

/// Degree-5 polynomial coefficient: 1.98527617612853646278381e-4.
pub const P5: u32 = 0x3950_2BDA;

/// Degree-4 polynomial coefficient: 1.39304355252534151077271e-3.
pub const P4: u32 = 0x3AB6_96C9;

/// Degree-3 polynomial coefficient: 8.33336077630519866943359e-3.
pub const P3: u32 = 0x3C08_88A6;

/// Degree-2 polynomial coefficient: 4.16664853692054748535156e-2.
pub const P2: u32 = 0x3D2A_AA7A;

/// Degree-1 polynomial coefficient: 0.166666671633720397949219.
pub const P1: u32 = 0x3E2A_AAAB;

/// 0.5.
pub const HALF: u32 = 0x3F00_0000;

/// 1.0.
pub const ONE: u32 = 0x3F80_0000;

/// Positive infinity.
pub const INFINITY_BITS: u32 = 0x7F80_0000;

/// -104.0: arguments below this give exactly zero.
pub const UNDERFLOW_CUTOFF: u32 = 0xC2D0_0000;

/// 100.0: arguments above this give infinity.
pub const OVERFLOW_CUTOFF: u32 = 0x42C8_0000;

/// The bit pattern of `2^e` built by moving `e + 127` into the exponent
/// field; only the low nine bits of `e` survive the shift, exactly as in the
/// 32-bit lane operation this mirrors.
pub open spec fn spec_pow2i(e: u32) -> u32 {
    (((((e & 0x1ff) + 0x7f) as u32) & 0x1ff) as u32) << 23u32
}

/// Arithmetic shift right by one of a 32-bit two's-complement value.
pub open spec fn spec_sra1(q: u32) -> u32 {
    (q >> 1u32) | (q & 0x8000_0000)
}

/// The low nine bits of the two's-complement difference `q - e`, which is
/// all `spec_pow2i` reads of it.
pub open spec fn spec_diff_low9(q: u32, e: u32) -> u32 {
    ((((q & 0x1ff) + 0x200 - (e & 0x1ff)) as u32) & 0x1ff) as u32
}

/// `d * 2^q`, with the scale split into two half-sized exponent-field
/// factors so that `q` just outside the exponent range still scales
/// correctly.
pub open spec fn spec_ldexp2(d: u32, q: u32) -> u32 {
    let e1 = spec_sra1(q);
    single_mul(single_mul(d, spec_pow2i(e1)), spec_pow2i(spec_diff_low9(q, e1)))
}

/// One lane of the high-accuracy exponential.
pub open spec fn spec_xexpf(d: u32) -> u32 {
    let q = single_round_to_i32(single_mul(d, R_LN2F));
    let qf = single_of_i32(q);
    let s1 = single_mul_add(qf, NEG_L2UF, d);
    let s = single_mul_add(qf, NEG_L2LF, s1);
    let u4 = single_mul_add(P5, s, P4);
    let u3 = single_mul_add(u4, s, P3);
    let u2 = single_mul_add(u3, s, P2);
    let u1 = single_mul_add(u2, s, P1);
    let u0 = single_mul_add(u1, s, HALF);
    let v = single_add(ONE, single_mul_add(single_mul(s, s), u0, s));
    let w = spec_ldexp2(v, q);
    let w_lo = if single_lt(d, UNDERFLOW_CUTOFF) {
        0u32
    } else {
        w
    };
    if single_lt(OVERFLOW_CUTOFF, d) {
        INFINITY_BITS
    } else {
        w_lo
    }
}

/// Masking to nine bits bounds a value by the mask.
proof fn lemma_low9_bound(x: u32)
    ensures
        x & 0x1ff <= 0x1ff,
{
    assert(x & 0x1ff <= 0x1ff) by (bit_vector);
}

/// The bit pattern of `2^e` (exponent-field construction).
fn pow2i(e: u32) -> (r: u32)
    ensures
        r == spec_pow2i(e),
{
    proof {
        lemma_low9_bound(e);
    }
    (((e & 0x1ff) + 0x7f) & 0x1ff) << 23u32
}

/// One lane of the high-accuracy exponential.
pub(crate) fn xexpf(d: u32) -> (r: u32)
    ensures
        r == spec_xexpf(d),
{
    let q = round_to_i32_single(mul_single(d, R_LN2F));
    let qf = single_from_i32(q);
    let s1 = mul_add_single(qf, NEG_L2UF, d);
    let s = mul_add_single(qf, NEG_L2LF, s1);
    let u4 = mul_add_single(P5, s, P4);
    let u3 = mul_add_single(u4, s, P3);
    let u2 = mul_add_single(u3, s, P2);
    let u1 = mul_add_single(u2, s, P1);
    let u0 = mul_add_single(u1, s, HALF);
    let v = add_single(ONE, mul_add_single(mul_single(s, s), u0, s));
    let e1 = (q >> 1u32) | (q & 0x8000_0000);
    proof {
        lemma_low9_bound(q);
        lemma_low9_bound(e1);
    }
    let e2 = ((q & 0x1ff) + 0x200 - (e1 & 0x1ff)) & 0x1ff;
    let w = mul_single(mul_single(v, pow2i(e1)), pow2i(e2));
    let w_lo = if lt_single(d, UNDERFLOW_CUTOFF) {
        0u32
    } else {
        w
    };
    if lt_single(OVERFLOW_CUTOFF, d) {
        INFINITY_BITS
    } else {
        w_lo
    }
}

/// The high-accuracy exponential applied to every lane of a vector of
/// single-precision bit patterns.
pub fn exp(x: &Vec<u32>) -> (r: Vec<u32>)
    ensures
        r@.len() == x@.len(),
        forall|i: int| 0 <= i < x@.len() ==> r@[i] == spec_xexpf(x@[i]),
{
    let mut out: Vec<u32> = Vec::new();
    let mut i: usize = 0;
    while i < x.len()
        invariant
            i <= x@.len(),
            out@.len() == i,
            forall|j: int| 0 <= j < i ==> out@[j] == spec_xexpf(x@[j]),
        decreases x@.len() - i,
    {
        out.push(xexpf(x[i]));
        i = i + 1;
    }
    out
}

} // verus!
