//! Narrow-lane form of the fast exponential approximation.
//!
//! Same constants and polynomial as the wide-lane path; the differences it
//! mirrors from its instruction sequence are the clamp order (maximum with
//! the lower bound first, then minimum with the upper bound) and a final
//! conversion that truncates toward zero instead of rounding to nearest.

use vstd::prelude::*;
use crate::softfloat::{
    single_add, single_sub, single_mul, single_lt, single_floor, single_trunc_to_i32,
    add_single, sub_single, mul_single, lt_single, floor_single, trunc_to_i32_single,
};
use crate::exp_approx::{EXP_HI, EXP_LO_AVX_SIGNED, C0, C1, C2, C3, LOG2_E, S, B};

verus! {

/// One lane of the narrow-lane fast exponential approximation.
pub open spec fn exp_approx_arm_lane_spec(x: u32) -> u32 {
    let t0 = if single_lt(EXP_LO_AVX_SIGNED, x) {
        x
    } else {
        EXP_LO_AVX_SIGNED
    };
    let c = if single_lt(t0, EXP_HI) {
        t0
    } else {
        EXP_HI
    };
    let t = single_mul(c, LOG2_E);
    let fl = single_floor(t);
    let xf = single_sub(t, fl);
    let k2 = single_add(single_mul(xf, C3), C2);
    let k1 = single_add(single_mul(xf, k2), C1);
    let k0 = single_add(single_mul(xf, k1), C0);
    let y = single_sub(t, k0);
    single_trunc_to_i32(single_add(single_mul(S, y), B))
}

/// The fast exponential approximation applied to every lane of a vector of
/// single-precision bit patterns, in its narrow-lane variant.
pub fn exp_approx_armf32(x: &Vec<u32>) -> (r: Vec<u32>)
    ensures
        r@.len() == x@.len(),
        forall|i: int| 0 <= i < x@.len() ==> r@[i] == exp_approx_arm_lane_spec(x@[i]),
{
    let mut out: Vec<u32> = Vec::new();
    let mut i: usize = 0;
    while i < x.len()
        invariant
            i <= x@.len(),
            out@.len() == i,
            forall|j: int| 0 <= j < i ==> out@[j] == exp_approx_arm_lane_spec(x@[j]),
        decreases x@.len() - i,
    {
        let d = x[i];
        let t0 = if lt_single(EXP_LO_AVX_SIGNED, d) {
            d
        } else {
            EXP_LO_AVX_SIGNED
        };
        let c = if lt_single(t0, EXP_HI) {
            t0
        } else {
            EXP_HI
        };
        let t = mul_single(c, LOG2_E);
        let fl = floor_single(t);
        let xf = sub_single(t, fl);
        let k2 = add_single(mul_single(xf, C3), C2);
        let k1 = add_single(mul_single(xf, k2), C1);
        let k0 = add_single(mul_single(xf, k1), C0);
        let y = sub_single(t, k0);
        out.push(trunc_to_i32_single(add_single(mul_single(S, y), B)));
        i = i + 1;
    }
    out
}

} // verus!
