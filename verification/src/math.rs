//! The two-component vector primitive of the engine.
use vstd::prelude::*;

verus! {

/// The zero and unit vectors of a vector type.
pub trait VectorConstants: Sized {
    /// The vector with every component zero.
    fn zero() -> Self;

    /// The vector with every component one.
    fn one() -> Self;
}

/// An ordered pair `(x, y)`: a point or direction in the plane.
///
/// Pure value semantics: every operation returns a new vector.  The engine
/// instantiates it with `i64` fixed-point components (see the crate root) and
/// with small unsigned integers for pixel coordinates.
#[derive(Clone, Copy, Debug, PartialEq, Eq, Structural)]
pub struct Vec2<T> {
    pub x: T,
    pub y: T,
}

impl<T> Vec2<T> {
    /// Builds the vector `(x, y)`.
    pub fn new(x: T, y: T) -> (v: Self)
        ensures
            v.x == x,
            v.y == y,
    {
        Vec2 { x, y }
    }
}

impl Vec2<i64> {
    /// Component-wise sum.
    pub fn add(self, other: Self) -> (r: Self)
        requires
            i64::MIN <= self.x + other.x <= i64::MAX,
            i64::MIN <= self.y + other.y <= i64::MAX,
        ensures
            r.x == self.x + other.x,
            r.y == self.y + other.y,
    {
        Vec2 { x: self.x + other.x, y: self.y + other.y }
    }

    /// Component-wise difference.
    pub fn sub(self, other: Self) -> (r: Self)
        requires
            i64::MIN <= self.x - other.x <= i64::MAX,
            i64::MIN <= self.y - other.y <= i64::MAX,
        ensures
            r.x == self.x - other.x,
            r.y == self.y - other.y,
    {
        Vec2 { x: self.x - other.x, y: self.y - other.y }
    }

    /// Scales both components by `scalar`.
    pub fn mul(self, scalar: i64) -> (r: Self)
        requires
            i64::MIN <= self.x * scalar <= i64::MAX,
            i64::MIN <= self.y * scalar <= i64::MAX,
        ensures
            r.x == self.x * scalar,
            r.y == self.y * scalar,
    {
        Vec2 { x: self.x * scalar, y: self.y * scalar }
    }

    /// Divides both components by `scalar`, rounding towards negative
    /// infinity (Euclidean division, the convention used throughout the
    /// engine).  Division by zero is rejected rather than left to trap.
    pub fn div(self, scalar: i64) -> (r: Self)
        requires
            scalar != 0,
            !(self.x == i64::MIN && scalar == -1),
            !(self.y == i64::MIN && scalar == -1),
        ensures
            r.x == self.x / scalar,
            r.y == self.y / scalar,
    {
        proof {
            lemma_div_fits_i64(self.x as int, scalar as int);
            lemma_div_fits_i64(self.y as int, scalar as int);
        }
        Vec2 {
            x: self.x.checked_div_euclid(scalar).unwrap(),
            y: self.y.checked_div_euclid(scalar).unwrap(),
        }
    }

    /// The dot product `x1*x2 + y1*y2`.
    pub fn dot(&self, other: &Self) -> (r: i64)
        requires
            i64::MIN <= self.x * other.x <= i64::MAX,
            i64::MIN <= self.y * other.y <= i64::MAX,
            i64::MIN <= self.x * other.x + self.y * other.y <= i64::MAX,
        ensures
            r == self.x * other.x + self.y * other.y,
    {
        self.x * other.x + self.y * other.y
    }

    /// The Euclidean length, rounded down to an integer: the greatest `r`
    /// with `r * r <= x*x + y*y`.
    pub fn magnitude(&self) -> (r: i64)
        requires
            self.x * self.x + self.y * self.y <= i64::MAX,
        ensures
            0 <= r,
            r * r <= self.x * self.x + self.y * self.y,
            self.x * self.x + self.y * self.y < (r + 1) * (r + 1),
    {
        proof {
            assert(self.x * self.x >= 0 && self.y * self.y >= 0) by (nonlinear_arith);
        }
        let m: u64 = (self.x * self.x + self.y * self.y) as u64;
        isqrt(m) as i64
    }
}

/// Euclidean division of one `i64` by another stays within `i64`, as long as
/// the one overflowing pair (the smallest value divided by minus one) is
/// ruled out.
pub(crate) proof fn lemma_div_fits_i64(x: int, y: int)
    requires
        i64::MIN <= x <= i64::MAX,
        i64::MIN <= y <= i64::MAX,
        y != 0,
        !(x == i64::MIN && y == -1),
    ensures
        i64::MIN <= x / y <= i64::MAX,
{
    assert(i64::MIN <= x / y <= i64::MAX) by (nonlinear_arith)
        requires
            i64::MIN <= x <= i64::MAX,
            i64::MIN <= y <= i64::MAX,
            y != 0,
            !(x == i64::MIN && y == -1),
    ;
}

impl VectorConstants for Vec2<i64> {
    fn zero() -> (v: Self)
        ensures
            v.x == 0,
            v.y == 0,
    {
        Vec2 { x: 0i64, y: 0i64 }
    }

    fn one() -> (v: Self)
        ensures
            v.x == 1,
            v.y == 1,
    {
        Vec2 { x: 1i64, y: 1i64 }
    }
}

impl VectorConstants for Vec2<i32> {
    fn zero() -> (v: Self)
        ensures
            v.x == 0,
            v.y == 0,
    {
        Vec2 { x: 0i32, y: 0i32 }
    }

    fn one() -> (v: Self)
        ensures
            v.x == 1,
            v.y == 1,
    {
        Vec2 { x: 1i32, y: 1i32 }
    }
}

impl VectorConstants for Vec2<u32> {
    fn zero() -> (v: Self)
        ensures
            v.x == 0,
            v.y == 0,
    {
        Vec2 { x: 0u32, y: 0u32 }
    }

    fn one() -> (v: Self)
        ensures
            v.x == 1,
            v.y == 1,
    {
        Vec2 { x: 1u32, y: 1u32 }
    }
}

impl VectorConstants for Vec2<usize> {
    fn zero() -> (v: Self)
        ensures
            v.x == 0,
            v.y == 0,
    {
        Vec2 { x: 0usize, y: 0usize }
    }

    fn one() -> (v: Self)
        ensures
            v.x == 1,
            v.y == 1,
    {
        Vec2 { x: 1usize, y: 1usize }
    }
}

/// A vector lies on the thin ring about the unit circle that gradient
/// directions are drawn from: both components are at most one unit in
/// magnitude and the squared length is within two fixed-point steps of one
/// unit, so the vector has unit length up to a relative error of about
/// `2 / FP_ONE`.
pub open spec fn on_unit_ring(g: Vec2<i64>) -> bool {
    &&& -crate::FP_ONE <= g.x <= crate::FP_ONE
    &&& -crate::FP_ONE <= g.y <= crate::FP_ONE
    &&& (crate::FP_ONE - 2) * (crate::FP_ONE - 2) <= g.x * g.x + g.y * g.y <= crate::FP_ONE
        * crate::FP_ONE
}

impl Vec2<i64> {
    /// A pseudo-random direction of unit length (within the tolerance of
    /// the fixed-point scale): a point drawn uniformly from the thin ring
    /// `on_unit_ring` describes, which makes its angle uniform over
    /// `[0, 2*pi)`.  Drawing consumes randomness from the process-wide
    /// source; the draw is by rejection from the enclosing square, and
    /// after an (astronomically unlikely) run of misses the unit vector
    /// along the x axis is returned.
    pub fn random_unit_vec() -> (g: Self)
        ensures
            on_unit_ring(g),
    {
        let mut tries: usize = 0;
        while tries < 20000
            invariant
                tries <= 20000,
            decreases 20000 - tries,
        {
            let x = crate::rng::random_i64_between(-crate::FP_ONE, crate::FP_ONE);
            let y = crate::rng::random_i64_between(-crate::FP_ONE, crate::FP_ONE);
            proof {
                assert(0 <= x * x <= 1024 * 1024 && 0 <= y * y <= 1024 * 1024)
                    by (nonlinear_arith)
                    requires
                        -1024 <= x <= 1024,
                        -1024 <= y <= 1024,
                ;
            }
            let m = x * x + y * y;
            if (crate::FP_ONE - 2) * (crate::FP_ONE - 2) <= m && m <= crate::FP_ONE
                * crate::FP_ONE {
                return Vec2 { x, y };
            }
            tries = tries + 1;
        }
        Vec2 { x: crate::FP_ONE, y: 0 }
    }
}

/// The integer square root: the greatest `r` with `r * r <= m`.
fn isqrt(m: u64) -> (r: u64)
    requires
        m <= 0x7fff_ffff_ffff_ffff,
    ensures
        r <= 3037000499u64,
        r * r <= m,
        m < (r + 1) * (r + 1),
{
    if m == 0 {
        return 0;
    }
    let mut lo: u64 = 0;
    let mut hi: u64 = 3037000500;
    proof {
        assert(3037000500u64 * 3037000500u64 > 0x7fff_ffff_ffff_ffffu64) by (nonlinear_arith);
    }
    while lo + 1 < hi
        invariant
            lo < hi <= 3037000500,
            lo * lo <= m,
            m < hi * hi,
        decreases hi - lo,
    {
        let mid: u64 = lo + (hi - lo) / 2;
        proof {
            assert(mid * mid <= 3037000499u64 * 3037000499u64) by (nonlinear_arith)
                requires
                    0 <= mid <= 3037000499u64,
            ;
        }
        if mid * mid <= m {
            lo = mid;
        } else {
            hi = mid;
        }
    }
    lo
}

} // verus!
