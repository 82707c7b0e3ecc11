//! A 2D gradient-noise (Perlin) engine over a fixed-point number line,
//! together with a grayscale heightmap renderer.
//!
//! Real-valued quantities are carried as `i64` fixed-point values: a value
//! `v` stands for the real number `v / FP_ONE`.  Noise-space coordinates,
//! gradient components and interpolation parameters all use this scale;
//! corner influences and noise values use the square of it (`FP_ONE * FP_ONE`
//! stands for `1.0`), since they are products of two scaled quantities.
#![allow(unused_imports)]
use vstd::prelude::*;

pub mod interp;
pub mod math;
pub mod noise;
pub mod render;
mod rng;

verus! {

/// One whole unit of noise space: the fixed-point scale factor.
pub const FP_ONE: i64 = 1024;

/// The fixed-point representation of `1.0` for quantities at the squared
/// scale (corner influences and noise values).
pub const FP_UNIT: i64 = 1024 * 1024;

} // verus!
