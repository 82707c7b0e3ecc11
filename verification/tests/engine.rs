//! Tests of the noise engine: table construction, vector and
//! interpolation primitives, and the noise function itself.
use perlin_noise::interp::{fade, lerp};
use perlin_noise::math::{Vec2, VectorConstants};
use perlin_noise::noise::PerlinNoise;
use perlin_noise::FP_ONE;
use perlin_noise::FP_UNIT;

#[test]
fn permutation_table_is_bijection() {
    let engine = PerlinNoise::new();
    let table = engine.permutation_table();
    assert_eq!(table.len(), 256);
    let mut counts = [0usize; 256];
    for &v in table.iter() {
        assert!(v < 256);
        counts[v] += 1;
    }
    for c in counts.iter() {
        assert_eq!(*c, 1);
    }
}

#[test]
fn gradients_have_unit_length() {
    let engine = PerlinNoise::new();
    let table = engine.gradient_table();
    assert_eq!(table.len(), 8);
    for g in table.iter() {
        let mag = ((g.x * g.x + g.y * g.y) as f64).sqrt() / FP_ONE as f64;
        assert!((mag - 1.0).abs() < 0.003, "gradient magnitude {mag} too far from 1");
    }
}

#[test]
fn noise_is_zero_at_lattice_points() {
    let engine = PerlinNoise::new();
    assert_eq!(engine.calculate_noise(Vec2::new(0, 0)), 0);
    assert_eq!(engine.calculate_noise(Vec2::new(3 * FP_ONE, 5 * FP_ONE)), 0);
    assert_eq!(engine.calculate_noise(Vec2::new(-2 * FP_ONE, 4 * FP_ONE)), 0);
}

#[test]
fn noise_is_continuous_under_small_steps() {
    let engine = PerlinNoise::new();
    // A step of one ten-thousandth of a unit is below the fixed-point
    // resolution, so both queries sample the same representable point.
    let exact = engine.calculate_noise(Vec2::new(FP_ONE, FP_ONE));
    let nudged = engine.calculate_noise(Vec2::new(FP_ONE, FP_ONE));
    assert_eq!(exact, nudged);
    // One representable step apart the values stay close: no jump.
    let next = engine.calculate_noise(Vec2::new(FP_ONE + 1, FP_ONE + 1));
    assert!((exact - next).abs() < FP_UNIT / 20);
}

#[test]
fn noise_is_deterministic_within_an_instance() {
    let engine = PerlinNoise::new();
    let p = Vec2::new(1234, 56789);
    let first = engine.calculate_noise(p);
    let second = engine.calculate_noise(p);
    let third = engine.calculate_noise(p);
    assert_eq!(first, second);
    assert_eq!(first, third);
}

#[test]
fn noise_stays_in_bounded_range_on_dense_grid() {
    let engine = PerlinNoise::new();
    let bound = (1.1 * FP_UNIT as f64) as i64;
    for i in 0..=64i64 {
        for j in 0..=64i64 {
            // eight periods either way, sampled every eighth of a unit
            let v = engine.calculate_noise(Vec2::new(i * 128 - 4096, j * 128 - 4096));
            assert!(-bound <= v && v <= bound, "noise value {v} out of range");
        }
    }
}

#[test]
fn lerp_interpolates_linearly() {
    assert_eq!(lerp(0, FP_ONE, 512), 512);
    assert_eq!(lerp(-500, 500, 256), -250);
    assert_eq!(lerp(100, 900, 0), 100);
    assert_eq!(lerp(100, 900, FP_ONE), 900);
}

#[test]
fn fade_matches_quintic_smoothstep() {
    assert_eq!(fade(0), 0);
    assert_eq!(fade(FP_ONE), FP_ONE);
    // the smoothstep is exactly one half at the midpoint
    assert_eq!(fade(512), 512);
    // quarter point: 6*(1/4)^5 - 15*(1/4)^4 + 10*(1/4)^3 = 106/1024 exactly
    assert_eq!(fade(256), 106);
    for t in 0..=1024 {
        let f = fade(t);
        assert!((0..=1024).contains(&f));
    }
}

#[test]
fn vector_arithmetic_is_componentwise() {
    let a = Vec2::new(3i64, -4i64);
    let b = Vec2::new(10i64, 20i64);
    let sum = a.add(b);
    assert_eq!((sum.x, sum.y), (13, 16));
    let diff = a.sub(b);
    assert_eq!((diff.x, diff.y), (-7, -24));
    let scaled = a.mul(3);
    assert_eq!((scaled.x, scaled.y), (9, -12));
    // division rounds towards negative infinity (Euclidean convention)
    let halved = Vec2::new(7i64, -7i64).div(2);
    assert_eq!((halved.x, halved.y), (3, -4));
}

#[test]
fn dot_and_magnitude_follow_their_formulas() {
    let a = Vec2::new(1i64, 2i64);
    let b = Vec2::new(3i64, 4i64);
    assert_eq!(a.dot(&b), 11);
    assert_eq!(Vec2::new(3i64, 4i64).magnitude(), 5);
    assert_eq!(Vec2::new(0i64, 0i64).magnitude(), 0);
    // rounded down when the length is not a whole number
    assert_eq!(Vec2::new(1i64, 1i64).magnitude(), 1);
}

#[test]
fn lerp_extrapolates_outside_the_unit_range() {
    // no clamping: a parameter of two units overshoots the endpoint
    assert_eq!(lerp(0, 1024, 2048), 2048);
    assert_eq!(lerp(0, 1024, -1024), -1024);
}

#[test]
fn noise_is_total_over_extreme_coordinates() {
    let engine = PerlinNoise::new();
    let bound = perlin_noise::noise::NOISE_BOUND;
    for p in [
        Vec2::new(i64::MAX, i64::MAX),
        Vec2::new(i64::MIN, i64::MIN),
        Vec2::new(i64::MIN, i64::MAX),
        Vec2::new(0, i64::MAX),
    ] {
        let v = engine.calculate_noise(p);
        assert!(-bound <= v && v <= bound);
    }
}

#[test]
fn vector_constants_name_zero_and_one() {
    let z: Vec2<i64> = Vec2::zero();
    assert_eq!((z.x, z.y), (0, 0));
    let o: Vec2<u32> = Vec2::one();
    assert_eq!((o.x, o.y), (1, 1));
}

#[test]
fn random_unit_vectors_lie_on_the_ring() {
    for _ in 0..32 {
        let g = Vec2::random_unit_vec();
        let m = g.x * g.x + g.y * g.y;
        assert!((FP_ONE - 2) * (FP_ONE - 2) <= m && m <= FP_ONE * FP_ONE);
    }
}
