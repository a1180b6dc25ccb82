//! Low-latency affine transforms (`y = W*x + b`) over lane-packed matrices,
//! with fused softmax-cumulative variants and a safe opaque-handle boundary.
//!
//! Scalars are IEEE-754 single-precision values carried as their `u32` bit
//! patterns; the `softfloat` module is the only place where the arithmetic
//! on them is performed.

pub mod common;
pub mod interop;
pub mod matrix;
pub mod softfloat;
pub mod exp_approx;
pub mod exp_approx_arm;
pub mod exp_approx_avx;
pub mod exp_sleef_avx;
pub mod matrix_avx;

