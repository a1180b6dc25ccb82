//! Lane-wise form of the fast exponential approximation.
//!
//! This is the variant the softmax kernels apply to a whole lane vector at a
//! time.  It differs from the scalar path in two ways, both inherited from
//! the vector instruction sequence it mirrors: the lower clamp bound is the
//! tighter `EXP_LO_AVX_SIGNED`, and the final conversion rounds to a signed
//! 32-bit integer to nearest instead of truncating to an unsigned one.

use vstd::prelude::*;
use crate::softfloat::{
    single_add, single_sub, single_mul, single_round_to_i32,
    add_single, sub_single, mul_single, round_to_i32_single,
};
use crate::exp_approx::{
    single_clamp, clamp_single, EXP_HI, EXP_LO_AVX_SIGNED, C0, C1, C2, C3, LOG2_E, S, B,
};

verus! {

/// One lane of the fast exponential approximation: the same clamp, rescale,
/// floor-split, polynomial correction and exponent-field reconstruction as
/// the scalar path, with the signed-integer rounding of the lane
/// instructions.
pub open spec fn exp_approx_lane_spec(x: u32) -> u32 {
    let c = single_clamp(x, EXP_LO_AVX_SIGNED, EXP_HI);
    let t = single_mul(c, LOG2_E);
    let fl = crate::softfloat::single_floor(t);
    let xf = single_sub(t, fl);
    let k2 = single_add(single_mul(xf, C3), C2);
    let k1 = single_add(single_mul(xf, k2), C1);
    let k0 = single_add(single_mul(xf, k1), C0);
    let y = single_sub(t, k0);
    single_round_to_i32(single_add(single_mul(S, y), B))
}

/// One lane of the fast exponential approximation.
pub(crate) fn exp_approx_lane(x: u32) -> (r: u32)
    ensures
        r == exp_approx_lane_spec(x),
{
    let c = clamp_single(x, EXP_LO_AVX_SIGNED, EXP_HI);
    let t = mul_single(c, LOG2_E);
    let fl = crate::softfloat::floor_single(t);
    let xf = sub_single(t, fl);
    let k2 = add_single(mul_single(xf, C3), C2);
    let k1 = add_single(mul_single(xf, k2), C1);
    let k0 = add_single(mul_single(xf, k1), C0);
    let y = sub_single(t, k0);
    round_to_i32_single(add_single(mul_single(S, y), B))
}

/// The fast exponential approximation applied to every lane of a vector of
/// single-precision bit patterns.
pub fn exp_approx_avxf32(x: &Vec<u32>) -> (r: Vec<u32>)
    ensures
        r@.len() == x@.len(),
        forall|i: int| 0 <= i < x@.len() ==> r@[i] == exp_approx_lane_spec(x@[i]),
{
    let mut out: Vec<u32> = Vec::new();
    let mut i: usize = 0;
    while i < x.len()
        invariant
            i <= x@.len(),
            out@.len() == i,
            forall|j: int| 0 <= j < i ==> out@[j] == exp_approx_lane_spec(x@[j]),
        decreases x@.len() - i,
    {
        out.push(exp_approx_lane(x[i]));
        i = i + 1;
    }
    out
}

} // verus!
