//! Bit-level IEEE-754 single-precision arithmetic.
//!
//! Every scalar that flows through this crate is carried as the `u32` bit
//! pattern of an IEEE-754 single-precision number.  The arithmetic itself is
//! delegated to the `rustc_apfloat` crate, a software implementation of
//! IEEE-754 that is bit-exact with hardware single-precision units for the
//! operations used here.  Each operation gets an uninterpreted name (a spec
//! function over bit patterns); the contracts of the rest of the crate are
//! stated as compositions of those names, so they pin down the exact result
//! of every kernel without this crate having to restate IEEE-754.

use vstd::prelude::*;
use rustc_apfloat::Float;
use rustc_apfloat::Round;
use rustc_apfloat::ieee::Single;

verus! {

/// Bits of the IEEE-754 single-precision sum `a + b`, rounded to nearest,
/// ties to even.
pub uninterp spec fn single_add(a: u32, b: u32) -> u32;

/// Bits of the IEEE-754 single-precision difference `a - b`, rounded to
/// nearest, ties to even.
pub uninterp spec fn single_sub(a: u32, b: u32) -> u32;

/// Bits of the IEEE-754 single-precision product `a * b`, rounded to nearest,
/// ties to even.
pub uninterp spec fn single_mul(a: u32, b: u32) -> u32;

/// Bits of the fused multiply-add `a * b + c` with a single final rounding,
/// to nearest, ties to even.
pub uninterp spec fn single_mul_add(a: u32, b: u32, c: u32) -> u32;

/// The IEEE-754 comparison `a < b` on single-precision bit patterns
/// (false whenever either operand is a NaN).
pub uninterp spec fn single_lt(a: u32, b: u32) -> bool;

/// Bits of `a` rounded to an integral value toward negative infinity.
pub uninterp spec fn single_floor(a: u32) -> u32;

/// Two's-complement bits of `a` converted to a 32-bit signed integer,
/// rounded to nearest, ties to even, saturating out-of-range values.
pub uninterp spec fn single_round_to_i32(a: u32) -> u32;

/// Two's-complement bits of `a` converted to a 32-bit signed integer,
/// rounded toward zero, saturating out-of-range values.
pub uninterp spec fn single_trunc_to_i32(a: u32) -> u32;

/// `a` converted to a 32-bit unsigned integer, rounded toward zero;
/// negative values and NaN give 0, overflowing values give `u32::MAX`.
pub uninterp spec fn single_trunc_to_u32(a: u32) -> u32;

/// Bits of the single-precision value nearest to the signed integer whose
/// two's-complement bits are `a`, ties to even.
pub uninterp spec fn single_of_i32(a: u32) -> u32;

/// Relies on `rustc_apfloat`'s `Single::add_r` with `NearestTiesToEven`:
/// IEEE-754 single-precision addition in the default rounding mode.
#[verifier::external_body]
pub(crate) fn add_single(a: u32, b: u32) -> (r: u32)
    ensures
        r == single_add(a, b),
{
    let x = Single::from_bits(a as u128);
    let y = Single::from_bits(b as u128);
    x.add_r(y, Round::NearestTiesToEven).value.to_bits() as u32
}

/// Relies on `rustc_apfloat`'s `Single::sub_r` with `NearestTiesToEven`:
/// IEEE-754 single-precision subtraction in the default rounding mode.
#[verifier::external_body]
pub(crate) fn sub_single(a: u32, b: u32) -> (r: u32)
    ensures
        r == single_sub(a, b),
{
    let x = Single::from_bits(a as u128);
    let y = Single::from_bits(b as u128);
    x.sub_r(y, Round::NearestTiesToEven).value.to_bits() as u32
}

/// Relies on `rustc_apfloat`'s `Single::mul_r` with `NearestTiesToEven`:
/// IEEE-754 single-precision multiplication in the default rounding mode.
#[verifier::external_body]
pub(crate) fn mul_single(a: u32, b: u32) -> (r: u32)
    ensures
        r == single_mul(a, b),
{
    let x = Single::from_bits(a as u128);
    let y = Single::from_bits(b as u128);
    x.mul_r(y, Round::NearestTiesToEven).value.to_bits() as u32
}

/// Relies on `rustc_apfloat`'s `Single::mul_add_r` with `NearestTiesToEven`:
/// fused multiply-add (`a * b + c` with one final rounding).
#[verifier::external_body]
pub(crate) fn mul_add_single(a: u32, b: u32, c: u32) -> (r: u32)
    ensures
        r == single_mul_add(a, b, c),
{
    let x = Single::from_bits(a as u128);
    let y = Single::from_bits(b as u128);
    let z = Single::from_bits(c as u128);
    x.mul_add_r(y, z, Round::NearestTiesToEven).value.to_bits() as u32
}

/// Relies on `rustc_apfloat`'s `PartialOrd` for `Single`, which returns
/// `None` when either operand is a NaN, so `<` is the IEEE-754 ordered
/// less-than comparison.
#[verifier::external_body]
pub(crate) fn lt_single(a: u32, b: u32) -> (r: bool)
    ensures
        r == single_lt(a, b),
{
    let x = Single::from_bits(a as u128);
    let y = Single::from_bits(b as u128);
    x < y
}

/// Relies on `rustc_apfloat`'s `Single::round_to_integral` with
/// `TowardNegative`: rounding to an integral value toward negative infinity.
#[verifier::external_body]
pub(crate) fn floor_single(a: u32) -> (r: u32)
    ensures
        r == single_floor(a),
{
    let x = Single::from_bits(a as u128);
    x.round_to_integral(Round::TowardNegative).value.to_bits() as u32
}

/// Relies on `rustc_apfloat`'s `Single::to_i128_r` at width 32 with
/// `NearestTiesToEven`: conversion to a signed 32-bit integer, rounding to
/// nearest with ties to even, returning saturated values when out of range
/// and 0 for NaN.
#[verifier::external_body]
pub(crate) fn round_to_i32_single(a: u32) -> (r: u32)
    ensures
        r == single_round_to_i32(a),
{
    let x = Single::from_bits(a as u128);
    let mut exact = false;
    let v = x.to_i128_r(32, Round::NearestTiesToEven, &mut exact).value;
    (v as i32) as u32
}

/// Relies on `rustc_apfloat`'s `Single::to_i128_r` at width 32 with
/// `TowardZero`: conversion to a signed 32-bit integer, rounding toward
/// zero, returning saturated values when out of range and 0 for NaN.
#[verifier::external_body]
pub(crate) fn trunc_to_i32_single(a: u32) -> (r: u32)
    ensures
        r == single_trunc_to_i32(a),
{
    let x = Single::from_bits(a as u128);
    let mut exact = false;
    let v = x.to_i128_r(32, Round::TowardZero, &mut exact).value;
    (v as i32) as u32
}

/// Relies on `rustc_apfloat`'s `Single::to_u128_r` at width 32 with
/// `TowardZero`: conversion to an unsigned 32-bit integer, rounding toward
/// zero, returning 0 for NaN and negative values and saturating overflow.
#[verifier::external_body]
pub(crate) fn trunc_to_u32_single(a: u32) -> (r: u32)
    ensures
        r == single_trunc_to_u32(a),
{
    let x = Single::from_bits(a as u128);
    let mut exact = false;
    let v = x.to_u128_r(32, Round::TowardZero, &mut exact).value;
    v as u32
}

/// Relies on `rustc_apfloat`'s `Single::from_i128_r` with
/// `NearestTiesToEven`: the single-precision value nearest to a signed
/// 32-bit integer.
#[verifier::external_body]
pub(crate) fn single_from_i32(a: u32) -> (r: u32)
    ensures
        r == single_of_i32(a),
{
    let v = (a as i32) as i128;
    Single::from_i128_r(v, Round::NearestTiesToEven).value.to_bits() as u32
}

} // verus!
