//! Interpolation primitives: linear interpolation and the quintic
//! smoothstep, over the fixed-point scale of the crate root.
use vstd::arithmetic::div_mod::{
    lemma_div_is_ordered, lemma_div_multiples_vanish, lemma_div_nonincreasing,
    lemma_div_pos_is_pos,
};
use vstd::prelude::*;

verus! {

/// Inputs to `lerp` must stay within this bound so that the intermediate
/// product fits in an `i64`.
pub const LERP_LIMIT: i64 = 0x4_0000_0000_0000;

/// What `lerp` computes: `a + (b - a) * t / FP_ONE`, the point a fraction
/// `t / FP_ONE` of the way from `a` to `b`, rounded towards negative
/// infinity.
pub open spec fn spec_lerp(a: int, b: int, t: int) -> int {
    a + (b - a) * t / (crate::FP_ONE as int)
}

/// What `fade` computes: the quintic smoothstep `6u^5 - 15u^4 + 10u^3` for
/// `u == t / FP_ONE`, scaled back so that one unit is again `FP_ONE`, and
/// rounded towards negative infinity.
pub open spec fn spec_fade(t: int) -> int {
    t * t * t * (6 * t * t - 15 * (crate::FP_ONE as int) * t + 10 * (crate::FP_ONE as int) * (
    crate::FP_ONE as int)) / ((crate::FP_ONE as int) * (crate::FP_ONE as int) * (
    crate::FP_ONE as int) * (crate::FP_ONE as int))
}

/// Linear interpolation between `a` and `b` with parameter `t` out of
/// `FP_ONE`.  No range restriction is put on `t` beyond what keeps the
/// intermediate product in an `i64`: values of `t` outside `[0, FP_ONE]`
/// extrapolate linearly, and for `t` inside that range the result never
/// leaves the interval spanned by `a` and `b`.
pub fn lerp(a: i64, b: i64, t: i64) -> (r: i64)
    requires
        -LERP_LIMIT <= a <= LERP_LIMIT,
        -LERP_LIMIT <= b <= LERP_LIMIT,
        i64::MIN <= (b - a) * t <= i64::MAX,
    ensures
        r == spec_lerp(a as int, b as int, t as int),
        0 <= t <= crate::FP_ONE ==> ((a <= b ==> a <= r <= b) && (b <= a ==> b <= r <= a)),
{
    let diff = b - a;
    proof {
        lemma_div_is_ordered(i64::MIN as int, (diff as int) * (t as int), 1024);
        lemma_div_is_ordered((diff as int) * (t as int), i64::MAX as int, 1024);
        if 0 <= t && t <= crate::FP_ONE {
            lemma_step_bounds(diff as int, t as int);
        }
    }
    let num = diff * t;
    let q = num.checked_div_euclid(crate::FP_ONE).unwrap();
    a + q
}

/// The step `(b - a) * t / FP_ONE` taken by `lerp` lies between `0` and
/// `b - a`, whichever way round those are, whenever `t` is in
/// `[0, FP_ONE]`.
proof fn lemma_step_bounds(diff: int, t: int)
    requires
        0 <= t <= crate::FP_ONE,
    ensures
        diff >= 0 ==> 0 <= diff * t / (crate::FP_ONE as int) <= diff,
        diff <= 0 ==> diff <= diff * t / (crate::FP_ONE as int) <= 0,
{
    let s = crate::FP_ONE as int;
    if diff >= 0 {
        assert(0 <= diff * t <= diff * s) by (nonlinear_arith)
            requires
                diff >= 0,
                0 <= t <= s,
        ;
        lemma_div_pos_is_pos(diff * t, s);
        lemma_div_is_ordered(diff * t, diff * s, s);
        lemma_div_multiples_vanish(diff, s);
        assert(s * diff == diff * s) by (nonlinear_arith);
    } else {
        assert(diff * s <= diff * t <= 0) by (nonlinear_arith)
            requires
                diff <= 0,
                0 <= t <= s,
        ;
        lemma_div_is_ordered(diff * s, diff * t, s);
        lemma_div_is_ordered(diff * t, 0, s);
        lemma_div_multiples_vanish(diff, s);
        assert(s * diff == diff * s) by (nonlinear_arith);
        assert(0int / s == 0);
    }
}

/// The quintic smoothstep on `[0, FP_ONE]`.  It is exactly `0` at `0` and
/// exactly `FP_ONE` at `FP_ONE`, and never leaves `[0, FP_ONE]`; its real
/// counterpart has zero first and second derivatives at both endpoints,
/// which is what makes the assembled noise field smooth across lattice
/// cell boundaries.
pub fn fade(t: i64) -> (r: i64)
    requires
        0 <= t <= crate::FP_ONE,
    ensures
        r == spec_fade(t as int),
        0 <= r <= crate::FP_ONE,
        t == 0 ==> r == 0,
        t == crate::FP_ONE ==> r == crate::FP_ONE,
{
    proof {
        assert(0 <= t * t <= 1024 * 1024) by (nonlinear_arith)
            requires
                0 <= t <= 1024,
        ;
    }
    let t2 = t * t;
    proof {
        assert(0 <= t2 * t <= 1024 * 1024 * 1024) by (nonlinear_arith)
            requires
                0 <= t <= 1024,
                0 <= t2 <= 1024 * 1024,
        ;
    }
    let t3 = t2 * t;
    let inner = 6 * t2 - 15 * crate::FP_ONE * t + 10 * crate::FP_ONE * crate::FP_ONE;
    proof {
        assert(0 <= t3 * inner <= 1024int * 1024 * 1024 * 1024 * 1024) by (nonlinear_arith)
            requires
                0 <= t <= 1024,
                t2 == t * t,
                t3 == t2 * t,
                inner == 6 * t2 - 15 * 1024 * t + 10 * 1024 * 1024,
        ;
    }
    let num = t3 * inner;
    let q = num.checked_div_euclid(crate::FP_ONE * crate::FP_ONE * crate::FP_ONE * crate::FP_ONE)
        .unwrap();
    proof {
        let s = crate::FP_ONE as int;
        let s4 = 1099511627776int;
        assert(s * s * s * s == s4);
        assert(num == t * t * t * (6 * t * t - 15 * s * t + 10 * s * s)) by (nonlinear_arith)
            requires
                s == 1024,
                t2 == t * t,
                t3 == t2 * t,
                inner == 6 * t2 - 15 * 1024 * t + 10 * 1024 * 1024,
                num == t3 * inner,
        ;
        lemma_div_pos_is_pos(num as int, s4);
        lemma_div_is_ordered(num as int, 1024int * 1024 * 1024 * 1024 * 1024, s4);
        assert(s4 * 1024 == 1024int * 1024 * 1024 * 1024 * 1024);
        lemma_div_multiples_vanish(1024, s4);
        if t == 0 {
            assert(spec_fade(0) == 0);
        }
        if t == crate::FP_ONE {
            assert(spec_fade(1024) == 1024);
        }
    }
    q
}

/// Interpolating with parameter zero returns the start point exactly.
pub proof fn lemma_lerp_at_zero(a: int, b: int)
    ensures
        spec_lerp(a, b, 0) == a,
{
    let s = crate::FP_ONE as int;
    assert((b - a) * 0 == 0);
    lemma_div_pos_is_pos(0, s);
    lemma_div_nonincreasing(0, s);
}

/// The smoothstep endpoints: exactly zero at zero, exactly one unit at one
/// unit.
pub proof fn lemma_fade_endpoints()
    ensures
        spec_fade(0) == 0,
        spec_fade(crate::FP_ONE as int) == crate::FP_ONE as int,
{
    let s = crate::FP_ONE as int;
    let d = s * s * s * s;
    assert(0 < s * s && 0 < s * s * s && 0 < d) by (nonlinear_arith)
        requires
            s == 1024,
            d == s * s * s * s,
    ;
    assert(0int * 0 * 0 * (6 * 0 * 0 - 15 * s * 0 + 10 * s * s) == 0) by (nonlinear_arith);
    lemma_div_pos_is_pos(0, d);
    lemma_div_nonincreasing(0, d);
    assert(spec_fade(0) == 0);
    assert(s * s * s * (6 * s * s - 15 * s * s + 10 * s * s) == d * s) by (nonlinear_arith)
        requires
            d == s * s * s * s,
    ;
    lemma_div_multiples_vanish(s, d);
    assert(spec_fade(s) == s);
}

} // verus!
