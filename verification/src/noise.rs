//! The noise engine: a per-instance gradient table and permutation table,
//! a hash from lattice corners to gradient indices, and the smoothed
//! bilinear blend of the four corner influences.
use crate::interp::{fade, lerp, spec_fade, spec_lerp};
use crate::math::{on_unit_ring, Vec2};
use vstd::arithmetic::div_mod::{lemma_div_is_ordered, lemma_mod_bound};
use vstd::prelude::*;

verus! {

/// Number of entries in the permutation table.
pub const TABLE_SIZE: usize = 256;

/// Number of gradient directions in the gradient table.
pub const GRADIENT_COUNT: usize = 8;

/// The provable bound on the noise magnitude, in the squared fixed-point
/// scale: the greatest integer whose square is at most
/// `2 * FP_UNIT * FP_UNIT`, that is, the square root of two in units.  A
/// near-unit gradient dotted with an in-cell offset is at most
/// `|g| * |d| <= sqrt(2)` units by the Cauchy-Schwarz inequality, and the
/// fade-weighted interpolation never leaves the range of the four corner
/// influences.
pub const NOISE_BOUND: i64 = 1482910;

/// The sequence is a permutation of `[0, TABLE_SIZE)`: it has exactly
/// `TABLE_SIZE` entries, every entry is in range, no entry repeats, and
/// every value in range occurs.
pub open spec fn is_permutation_table(s: Seq<usize>) -> bool {
    &&& s.len() == TABLE_SIZE
    &&& (forall|i: int| 0 <= i < s.len() ==> (#[trigger] s[i]) < TABLE_SIZE)
    &&& s.no_duplicates()
    &&& (forall|v: usize| v < TABLE_SIZE ==> s.contains(v))
}

/// The hash that sends a lattice corner `(cx, cy)` to a gradient index:
/// both coordinates are reduced modulo `TABLE_SIZE` (Euclidean, so the
/// remainder is nonnegative for negative corners too — the convention this
/// engine uses throughout), chained through the permutation table, and the
/// result is folded onto the gradient table.
pub open spec fn spec_gradient_index(perm: Seq<usize>, cx: int, cy: int) -> int {
    (perm[(cx % (TABLE_SIZE as int) + perm[cy % (TABLE_SIZE as int)]) % (TABLE_SIZE as int)] as int)
        % (GRADIENT_COUNT as int)
}

/// The noise value at the fixed-point point `(x, y)`, as a mathematical
/// function of the two tables and the point: decompose each coordinate
/// into its lattice cell and fractional part, hash the four cell corners
/// to gradients, take each gradient's dot product with the offset from its
/// corner to the point, and blend the four influences with the
/// fade-smoothed bilinear interpolation.  Influences and the result carry
/// the squared fixed-point scale (`FP_UNIT` is one unit).
pub open spec fn spec_noise(grads: Seq<Vec2<i64>>, perm: Seq<usize>, x: int, y: int) -> int {
    let s = crate::FP_ONE as int;
    let cx = x / s;
    let cy = y / s;
    let fx = x % s;
    let fy = y % s;
    let g00 = grads[spec_gradient_index(perm, cx, cy)];
    let g10 = grads[spec_gradient_index(perm, cx + 1, cy)];
    let g01 = grads[spec_gradient_index(perm, cx, cy + 1)];
    let g11 = grads[spec_gradient_index(perm, cx + 1, cy + 1)];
    let d00 = g00.x * fx + g00.y * fy;
    let d10 = g10.x * (fx - s) + g10.y * fy;
    let d01 = g01.x * fx + g01.y * (fy - s);
    let d11 = g11.x * (fx - s) + g11.y * (fy - s);
    let u = spec_fade(fx);
    let v = spec_fade(fy);
    spec_lerp(spec_lerp(d00, d10, u), spec_lerp(d01, d11, u), v)
}

/// The noise engine.  Both tables are filled once at construction from the
/// process-wide random source and never change afterwards; queries are
/// pure.
pub struct PerlinNoise {
    gradients: Vec<Vec2<i64>>,
    permutations: Vec<usize>,
}

impl PerlinNoise {
    /// The gradient table, as the sequence of its entries.
    pub closed spec fn spec_gradients(self) -> Seq<Vec2<i64>> {
        self.gradients@
    }

    /// The permutation table, as the sequence of its entries.
    pub closed spec fn spec_permutations(self) -> Seq<usize> {
        self.permutations@
    }

    /// Both tables are well formed: the gradient table holds exactly
    /// `GRADIENT_COUNT` near-unit directions and the permutation table is
    /// a permutation of `[0, TABLE_SIZE)`.
    pub open spec fn wf(self) -> bool {
        &&& self.spec_gradients().len() == GRADIENT_COUNT
        &&& (forall|i: int|
            0 <= i < self.spec_gradients().len() ==> on_unit_ring(
                #[trigger] self.spec_gradients()[i],
            ))
        &&& is_permutation_table(self.spec_permutations())
    }

    /// Builds an engine with freshly randomized gradient and permutation
    /// tables.
    pub fn new() -> (engine: Self)
        ensures
            engine.wf(),
    {
        PerlinNoise { gradients: Self::gen_gradients(), permutations: Self::gen_permutations() }
    }

    /// A copy of the permutation table.
    pub fn permutation_table(&self) -> (r: &Vec<usize>)
        ensures
            r@ == self.spec_permutations(),
    {
        &self.permutations
    }

    /// A copy of the gradient table.
    pub fn gradient_table(&self) -> (r: &Vec<Vec2<i64>>)
        ensures
            r@ == self.spec_gradients(),
    {
        &self.gradients
    }

    /// Exactly `GRADIENT_COUNT` pseudo-random near-unit directions, in the
    /// order drawn.
    fn gen_gradients() -> (g: Vec<Vec2<i64>>)
        ensures
            g@.len() == GRADIENT_COUNT,
            forall|i: int| 0 <= i < g@.len() ==> on_unit_ring(#[trigger] g@[i]),
    {
        let mut gradients: Vec<Vec2<i64>> = Vec::new();
        let mut k: usize = 0;
        while k < GRADIENT_COUNT
            invariant
                k <= GRADIENT_COUNT,
                gradients@.len() == k,
                forall|i: int| 0 <= i < k ==> on_unit_ring(#[trigger] gradients@[i]),
            decreases GRADIENT_COUNT - k,
        {
            gradients.push(Vec2::random_unit_vec());
            k = k + 1;
        }
        gradients
    }

    /// The gradient-table index of the lattice corner `(cx, cy)`, by the
    /// permutation-chained hash `spec_gradient_index`.
    fn gradient_index(&self, cx: i64, cy: i64) -> (idx: usize)
        requires
            self.wf(),
        ensures
            idx as int == spec_gradient_index(self.spec_permutations(), cx as int, cy as int),
            idx < GRADIENT_COUNT,
    {
        proof {
            lemma_mod_bound(cx as int, TABLE_SIZE as int);
            lemma_mod_bound(cy as int, TABLE_SIZE as int);
        }
        let hx = cx.checked_rem_euclid(256).unwrap() as usize;
        let hy = cy.checked_rem_euclid(256).unwrap() as usize;
        let t = (hx + self.permutations[hy]) % 256;
        self.permutations[t] % 8
    }

    /// The noise value at the fixed-point point `p`, in the squared
    /// fixed-point scale (`FP_UNIT` stands for `1.0`).  The function is
    /// total: every `i64` coordinate pair is accepted.  The result is the
    /// mathematical `spec_noise` of this engine's tables at `p` — so it is
    /// deterministic for a fixed engine — and its magnitude is at most the
    /// square root of two in units (see `NOISE_BOUND`).  At points whose
    /// coordinates are whole multiples of `FP_ONE` (lattice points) it is
    /// exactly zero; see `lemma_noise_zero_at_lattice`.
    pub fn calculate_noise(&self, p: Vec2<i64>) -> (r: i64)
        requires
            self.wf(),
        ensures
            r == spec_noise(self.spec_gradients(), self.spec_permutations(), p.x as int,
            p.y as int),
            -NOISE_BOUND <= r <= NOISE_BOUND,
    {
        proof {
            lemma_div_is_ordered(i64::MIN as int, p.x as int, crate::FP_ONE as int);
            lemma_div_is_ordered(p.x as int, i64::MAX as int, crate::FP_ONE as int);
            lemma_div_is_ordered(i64::MIN as int, p.y as int, crate::FP_ONE as int);
            lemma_div_is_ordered(p.y as int, i64::MAX as int, crate::FP_ONE as int);
            lemma_mod_bound(p.x as int, crate::FP_ONE as int);
            lemma_mod_bound(p.y as int, crate::FP_ONE as int);
        }
        let cx = p.x.checked_div_euclid(crate::FP_ONE).unwrap();
        let cy = p.y.checked_div_euclid(crate::FP_ONE).unwrap();
        let fx = p.x.checked_rem_euclid(crate::FP_ONE).unwrap();
        let fy = p.y.checked_rem_euclid(crate::FP_ONE).unwrap();

        let g00 = self.gradients[self.gradient_index(cx, cy)];
        let g10 = self.gradients[self.gradient_index(cx + 1, cy)];
        let g01 = self.gradients[self.gradient_index(cx, cy + 1)];
        let g11 = self.gradients[self.gradient_index(cx + 1, cy + 1)];

        proof {
            assert((crate::FP_ONE as int) * (crate::FP_ONE as int) == 1024 * 1024)
                by (nonlinear_arith)
                requires
                    crate::FP_ONE == 1024,
            ;
            lemma_influence_bounds(g00.x as int, g00.y as int, fx as int, fy as int);
            lemma_influence_bounds(g10.x as int, g10.y as int, fx as int - 1024, fy as int);
            lemma_influence_bounds(g01.x as int, g01.y as int, fx as int, fy as int - 1024);
            lemma_influence_bounds(g11.x as int, g11.y as int, fx as int - 1024, fy as int
                - 1024);
        }
        let d00 = g00.dot(&Vec2::new(fx, fy));
        let d10 = g10.dot(&Vec2::new(fx - crate::FP_ONE, fy));
        let d01 = g01.dot(&Vec2::new(fx, fy - crate::FP_ONE));
        let d11 = g11.dot(&Vec2::new(fx - crate::FP_ONE, fy - crate::FP_ONE));

        let u = fade(fx);
        let v = fade(fy);

        proof {
            assert(-0x1_0000_0000i64 <= (d10 - d00) * u <= 0x1_0000_0000i64
                && -0x1_0000_0000i64 <= (d11 - d01) * u <= 0x1_0000_0000i64)
                by (nonlinear_arith)
                requires
                    -2097152 <= d00 <= 2097152,
                    -2097152 <= d10 <= 2097152,
                    -2097152 <= d01 <= 2097152,
                    -2097152 <= d11 <= 2097152,
                    0 <= u <= 1024,
            ;
        }
        let ix0 = lerp(d00, d10, u);
        let ix1 = lerp(d01, d11, u);
        proof {
            assert(-0x1_0000_0000i64 <= (ix1 - ix0) * v <= 0x1_0000_0000i64)
                by (nonlinear_arith)
                requires
                    -2097152 <= ix0 <= 2097152,
                    -2097152 <= ix1 <= 2097152,
                    0 <= v <= 1024,
            ;
        }
        lerp(ix0, ix1, v)
    }

    /// The identity sequence on `[0, TABLE_SIZE)`, shuffled in place by an
    /// unbiased Fisher-Yates pass: for each position from the top down, a
    /// uniformly drawn position at or below it is swapped in.
    fn gen_permutations() -> (perm: Vec<usize>)
        ensures
            is_permutation_table(perm@),
    {
        let mut perm: Vec<usize> = Vec::new();
        let mut k: usize = 0;
        while k < TABLE_SIZE
            invariant
                k <= TABLE_SIZE,
                perm@.len() == k,
                forall|i: int| 0 <= i < k ==> (#[trigger] perm@[i]) == i,
            decreases TABLE_SIZE - k,
        {
            perm.push(k);
            k = k + 1;
        }
        proof {
            assert forall|v: usize| v < TABLE_SIZE implies perm@.contains(v) by {
                assert(perm@[v as int] == v);
            }
            assert(is_permutation_table(perm@));
        }
        let mut i: usize = TABLE_SIZE - 1;
        while i >= 1
            invariant
                i <= TABLE_SIZE - 1,
                is_permutation_table(perm@),
            decreases i,
        {
            let j = crate::rng::random_usize_upto(i);
            let ghost before = perm@;
            let pi = perm[i];
            let pj = perm[j];
            perm[i] = pj;
            perm[j] = pi;
            proof {
                lemma_swap_keeps_permutation(before, perm@, i as int, j as int);
            }
            i = i - 1;
        }
        perm
    }
}

/// A corner influence — the dot product of a near-unit gradient with an
/// offset of at most one cell — is at most `NOISE_BOUND` (the square root
/// of two in units) in magnitude by the Cauchy-Schwarz inequality, and
/// each of its two products at most one unit.
#[verifier::rlimit(100)]
proof fn lemma_influence_bounds(gx: int, gy: int, dx: int, dy: int)
    requires
        -1024 <= gx <= 1024,
        -1024 <= gy <= 1024,
        gx * gx + gy * gy <= 1024 * 1024,
        -1024 <= dx <= 1024,
        -1024 <= dy <= 1024,
    ensures
        -(1024 * 1024) <= gx * dx <= 1024 * 1024,
        -(1024 * 1024) <= gy * dy <= 1024 * 1024,
        -NOISE_BOUND <= gx * dx + gy * dy <= NOISE_BOUND,
{
    assert(-(1024 * 1024) <= gx * dx <= 1024 * 1024 && -(1024 * 1024) <= gy * dy <= 1024
        * 1024) by (nonlinear_arith)
        requires
            -1024 <= gx <= 1024,
            -1024 <= gy <= 1024,
            -1024 <= dx <= 1024,
            -1024 <= dy <= 1024,
    ;
    let ax = if gx >= 0 {
        gx
    } else {
        -gx
    };
    let ay = if gy >= 0 {
        gy
    } else {
        -gy
    };
    assert(ax * ax + ay * ay <= 1024 * 1024) by (nonlinear_arith)
        requires
            ax == gx || ax == -gx,
            ay == gy || ay == -gy,
            gx * gx + gy * gy <= 1024 * 1024,
    ;
    assert((ax + ay) * (ax + ay) <= 2 * (ax * ax + ay * ay)) by (nonlinear_arith);
    assert(ax + ay <= 1448) by (nonlinear_arith)
        requires
            0 <= ax + ay,
            (ax + ay) * (ax + ay) <= 2 * 1024 * 1024,
    ;
    assert(-(1024 * ax) <= gx * dx <= 1024 * ax) by (nonlinear_arith)
        requires
            ax == gx || ax == -gx,
            0 <= ax,
            -1024 <= dx <= 1024,
    ;
    assert(-(1024 * ay) <= gy * dy <= 1024 * ay) by (nonlinear_arith)
        requires
            ay == gy || ay == -gy,
            0 <= ay,
            -1024 <= dy <= 1024,
    ;
}

/// Every value in `[0, TABLE_SIZE)` occurs exactly once in a well-formed
/// permutation table: the table, read as a multiset, gives each such value
/// multiplicity one.
pub proof fn lemma_permutation_counts(s: Seq<usize>)
    requires
        is_permutation_table(s),
    ensures
        forall|v: usize| v < TABLE_SIZE ==> s.to_multiset().count(v) == 1,
{
    s.lemma_multiset_has_no_duplicates();
    s.to_multiset_ensures();
    assert forall|v: usize| v < TABLE_SIZE implies s.to_multiset().count(v) == 1 by {
        assert(s.contains(v));
        assert(s.to_multiset().count(v) > 0);
        assert(s.to_multiset().contains(v));
    }
}

/// Determinism: the noise value is a mathematical function of the engine's
/// two tables and the query point alone, so two queries of one engine at
/// one point return the same value.
pub proof fn lemma_noise_deterministic(
    grads: Seq<Vec2<i64>>,
    perm: Seq<usize>,
    x: int,
    y: int,
    r1: int,
    r2: int,
)
    requires
        r1 == spec_noise(grads, perm, x, y),
        r2 == spec_noise(grads, perm, x, y),
    ensures
        r1 == r2,
{
}

/// At lattice points — both coordinates whole multiples of `FP_ONE` — the
/// noise is exactly zero: the offset from the cell's base corner is the
/// zero vector, so that corner contributes nothing, and with both fade
/// parameters zero every interpolation step returns that corner's
/// contribution.
pub proof fn lemma_noise_zero_at_lattice(grads: Seq<Vec2<i64>>, perm: Seq<usize>, x: int, y: int)
    requires
        x % (crate::FP_ONE as int) == 0,
        y % (crate::FP_ONE as int) == 0,
    ensures
        spec_noise(grads, perm, x, y) == 0,
{
    let s = crate::FP_ONE as int;
    let fx = x % s;
    let fy = y % s;
    crate::interp::lemma_fade_endpoints();
    let g00 = grads[spec_gradient_index(perm, x / s, y / s)];
    let g10 = grads[spec_gradient_index(perm, x / s + 1, y / s)];
    let g01 = grads[spec_gradient_index(perm, x / s, y / s + 1)];
    let g11 = grads[spec_gradient_index(perm, x / s + 1, y / s + 1)];
    let d00 = g00.x * fx + g00.y * fy;
    let d10 = g10.x * (fx - s) + g10.y * fy;
    let d01 = g01.x * fx + g01.y * (fy - s);
    let d11 = g11.x * (fx - s) + g11.y * (fy - s);
    assert(d00 == 0) by (nonlinear_arith)
        requires
            fx == 0,
            fy == 0,
            d00 == g00.x * fx + g00.y * fy,
    ;
    let u = spec_fade(fx);
    let v = spec_fade(fy);
    assert(u == 0 && v == 0);
    crate::interp::lemma_lerp_at_zero(d00, d10);
    crate::interp::lemma_lerp_at_zero(d01, d11);
    crate::interp::lemma_lerp_at_zero(spec_lerp(d00, d10, u), spec_lerp(d01, d11, u));
    assert(spec_noise(grads, perm, x, y) == spec_lerp(
        spec_lerp(d00, d10, u),
        spec_lerp(d01, d11, u),
        v,
    ));
}

/// Swapping two entries of a permutation of `[0, TABLE_SIZE)` leaves a
/// permutation of `[0, TABLE_SIZE)`.
proof fn lemma_swap_keeps_permutation(before: Seq<usize>, after: Seq<usize>, i: int, j: int)
    requires
        is_permutation_table(before),
        0 <= i < before.len(),
        0 <= j < before.len(),
        after == before.update(i, before[j]).update(j, before[i]),
    ensures
        is_permutation_table(after),
{
    assert(after.len() == before.len());
    assert forall|p: int, q: int|
        0 <= p < after.len() && 0 <= q < after.len() && p != q implies after[p] != after[q] by {
        let p0 = if p == j { i } else if p == i { j } else { p };
        let q0 = if q == j { i } else if q == i { j } else { q };
        assert(after[p] == before[p0]);
        assert(after[q] == before[q0]);
    }
    assert forall|v: usize| v < TABLE_SIZE implies after.contains(v) by {
        assert(before.contains(v));
        let k = choose|k: int| 0 <= k < before.len() && before[k] == v;
        if k == i {
            assert(after[j] == v);
        } else if k == j {
            assert(after[i] == v);
        } else {
            assert(after[k] == v);
        }
    }
}

} // verus!
