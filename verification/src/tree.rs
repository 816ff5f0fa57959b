//! The Gram matrix of a 2x2 frequency-domain basis, its one-step LDL*
//! factorization, the recursive schedule tree built from it, and the
//! normalization pass that turns raw diagonal values into per-leaf standard
//! deviations.

use vstd::prelude::*;
use crate::scalar::{Cplx, rdiv_bits, rsqrt_bits};
use crate::poly::{
    had_add, had_sub, had_mul, had_div, seq_conj, seq_zeros, seq_ones,
    poly_add, poly_sub, poly_mul, poly_div, poly_conj, poly_copy, poly_zeros, poly_ones,
};
use crate::fft::{is_pow2, lg, split_lo, split_hi, twiddle_table, split_fft};

verus! {

/// A 2x2 matrix of frequency-domain polynomials, row major, all slots of
/// equal length.
pub struct Mat2 {
    pub m00: Vec<Cplx>,
    pub m01: Vec<Cplx>,
    pub m10: Vec<Cplx>,
    pub m11: Vec<Cplx>,
}

/// The common slot length of a matrix.
pub open spec fn mat_dim(m: Mat2) -> nat {
    m.m00@.len()
}

/// All four slots have the common length.
pub open spec fn mat_wf(m: Mat2) -> bool {
    m.m01@.len() == mat_dim(m) && m.m10@.len() == mat_dim(m) && m.m11@.len() == mat_dim(m)
}

/// The schedule tree: a branch holds the off-diagonal factorization
/// coefficient and the two half-dimension subtrees; a leaf holds the two
/// scalars of a base-dimension diagonal entry.
pub enum LdlTree {
    Branch(Vec<Cplx>, Box<LdlTree>, Box<LdlTree>),
    Leaf(Cplx, Cplx),
}

/// The tree covering dimension n: a leaf covers dimension one, and a branch
/// covering n carries a length-n coefficient and two subtrees covering n/2.
pub open spec fn tree_dim_ok(t: LdlTree, n: nat) -> bool
    decreases t,
{
    match t {
        LdlTree::Leaf(_a, _b) => n == 1,
        LdlTree::Branch(ell, l, r) => n >= 2 && n % 2 == 0 && ell@.len() == n
            && tree_dim_ok(*l, n / 2) && tree_dim_ok(*r, n / 2),
    }
}

/// The number of leaves of a tree.
pub open spec fn leaf_count(t: LdlTree) -> nat
    decreases t,
{
    match t {
        LdlTree::Leaf(_a, _b) => 1,
        LdlTree::Branch(_e, l, r) => leaf_count(*l) + leaf_count(*r),
    }
}

/// The number of branch levels of a tree.
pub open spec fn branch_levels(t: LdlTree) -> nat
    decreases t,
{
    match t {
        LdlTree::Leaf(_a, _b) => 0,
        LdlTree::Branch(_e, l, r) => 1 + if branch_levels(*l) >= branch_levels(*r) {
            branch_levels(*l)
        } else {
            branch_levels(*r)
        },
    }
}

/// The leaves of a tree, left to right.
pub open spec fn leaves_of(t: LdlTree) -> Seq<(Cplx, Cplx)>
    decreases t,
{
    match t {
        LdlTree::Leaf(a, b) => seq![(a, b)],
        LdlTree::Branch(_e, l, r) => leaves_of(*l) + leaves_of(*r),
    }
}

/// A tree covering dimension n has exactly n leaves and lg(n) branch
/// levels.
pub proof fn lemma_tree_shape(t: LdlTree, n: nat)
    requires
        tree_dim_ok(t, n),
    ensures
        leaf_count(t) == n,
        branch_levels(t) == lg(n),
        leaves_of(t).len() == n,
    decreases t,
{
    match t {
        LdlTree::Leaf(_a, _b) => {
        }
        LdlTree::Branch(_e, l, r) => {
            lemma_tree_shape(*l, n / 2);
            lemma_tree_shape(*r, n / 2);
        }
    }
}

/// The Gram matrix of a basis: each entry is the sum over the row pairing
/// of the Hadamard product with the conjugated other row. The upper
/// off-diagonal slot is the elementwise conjugate of the lower one, so the
/// result is Hermitian by construction.
pub fn gram(b: &Mat2) -> (g: Mat2)
    requires
        mat_wf(*b),
    ensures
        mat_wf(g),
        mat_dim(g) == mat_dim(*b),
        g.m00@ == had_add(
            had_mul(b.m00@, seq_conj(b.m00@)),
            had_mul(b.m01@, seq_conj(b.m01@)),
        ),
        g.m10@ == had_add(
            had_mul(b.m10@, seq_conj(b.m00@)),
            had_mul(b.m11@, seq_conj(b.m01@)),
        ),
        g.m11@ == had_add(
            had_mul(b.m10@, seq_conj(b.m10@)),
            had_mul(b.m11@, seq_conj(b.m11@)),
        ),
        g.m01@ == seq_conj(g.m10@),
{
    let c00 = poly_conj(&b.m00);
    let c01 = poly_conj(&b.m01);
    let g00 = poly_add(&poly_mul(&b.m00, &c00), &poly_mul(&b.m01, &c01));
    let g10 = poly_add(&poly_mul(&b.m10, &c00), &poly_mul(&b.m11, &c01));
    let g11 = poly_add(
        &poly_mul(&b.m10, &poly_conj(&b.m10)),
        &poly_mul(&b.m11, &poly_conj(&b.m11)),
    );
    let g01 = poly_conj(&g10);
    Mat2 { m00: g00, m01: g01, m10: g10, m11: g11 }
}

/// One step of LDL* factorization of a Hermitian matrix G: L is unit lower
/// triangular with `L10 = G10 / G00`, and D is diagonal with `D00 = G00`
/// and `D11 = G11 - G00 * (L10 * conj(L10))`, all elementwise.
pub fn ldl(g: &Mat2) -> (r: (Mat2, Mat2))
    requires
        mat_wf(*g),
    ensures
        mat_wf(r.0),
        mat_wf(r.1),
        mat_dim(r.0) == mat_dim(*g),
        mat_dim(r.1) == mat_dim(*g),
        r.0.m10@ == had_div(g.m10@, g.m00@),
        r.0.m00@ == seq_ones(mat_dim(*g)),
        r.0.m01@ == seq_zeros(mat_dim(*g)),
        r.0.m11@ == seq_ones(mat_dim(*g)),
        r.1.m00@ == g.m00@,
        r.1.m01@ == seq_zeros(mat_dim(*g)),
        r.1.m10@ == seq_zeros(mat_dim(*g)),
        r.1.m11@ == had_sub(
            g.m11@,
            had_mul(g.m00@, had_mul(had_div(g.m10@, g.m00@), seq_conj(had_div(g.m10@, g.m00@)))),
        ),
{
    let n = g.m00.len();
    let l10 = poly_div(&g.m10, &g.m00);
    let bc = poly_mul(&l10, &poly_conj(&l10));
    let abc = poly_mul(&g.m00, &bc);
    let d11 = poly_sub(&g.m11, &abc);
    let l = Mat2 { m00: poly_ones(n), m01: poly_zeros(n), m10: l10, m11: poly_ones(n) };
    let d = Mat2 { m00: g.m00.clone(), m01: poly_zeros(n), m10: poly_zeros(n), m11: d11 };
    (l, d)
}

/// The second diagonal entry of the one-step factorization, over the slot
/// views the builder reads.
pub open spec fn d11_of(g00: Seq<Cplx>, g10: Seq<Cplx>, g11: Seq<Cplx>) -> Seq<Cplx> {
    had_sub(g11, had_mul(g00, had_mul(had_div(g10, g00), seq_conj(had_div(g10, g00)))))
}

/// How a built tree relates to the matrix it came from, over the three
/// slots the builder reads. The branch coefficient is `G10 / G00`; at
/// dimension two the leaves carry the two diagonal entries of the
/// factorization; above that there is one twiddle vector of the half
/// length such that each subtree stands in the same relation to the
/// half-dimension Hermitian matrix built from the matching split diagonal
/// entry. The twiddle values come from platform trigonometry and are
/// rightly not pinned.
pub open spec fn ffldl_outcome(g00: Seq<Cplx>, g10: Seq<Cplx>, g11: Seq<Cplx>, t: LdlTree) -> bool
    decreases t,
{
    match t {
        LdlTree::Leaf(_a, _b) => false,
        LdlTree::Branch(e, l, r) => {
            let ell = had_div(g10, g00);
            let d11 = d11_of(g00, g10, g11);
            e@ == ell && if g00.len() == 2 {
                *l == LdlTree::Leaf(g00[0], g00[1]) && *r == LdlTree::Leaf(d11[0], d11[1])
            } else {
                exists|w: Seq<Cplx>|
                    #![trigger split_hi(g00, w)]
                    w.len() == g00.len() / 2
                    && ffldl_outcome(split_lo(g00), seq_conj(split_hi(g00, w)), split_lo(g00), *l)
                    && ffldl_outcome(split_lo(d11), seq_conj(split_hi(d11, w)), split_lo(d11), *r)
            }
        }
    }
}

/// Build the schedule tree of a Hermitian, positive-definite matrix in
/// frequency-domain form: factor once, split the two diagonal entries into
/// half-dimension Hermitian matrices, and recurse down to dimension two,
/// whose diagonal entries become the leaves.
pub fn ffldl(g: &Mat2) -> (t: LdlTree)
    requires
        mat_wf(*g),
        mat_dim(*g) >= 2,
        is_pow2(mat_dim(*g)),
    ensures
        tree_dim_ok(t, mat_dim(*g)),
        t matches LdlTree::Branch(ell, _l, _r) && ell@ == had_div(g.m10@, g.m00@),
        ffldl_outcome(g.m00@, g.m10@, g.m11@, t),
    decreases mat_dim(*g),
{
    let n = g.m00.len();
    let (l, d) = ldl(g);
    let Mat2 { m00: _, m01: _, m10: ell, m11: _ } = l;
    if n > 2 {
        let w = twiddle_table(n / 2);
        let (d00, d01) = split_fft(&d.m00, &w);
        let (d10, d11) = split_fft(&d.m11, &w);
        let g0 = Mat2 { m00: poly_copy(&d00), m01: poly_copy(&d01), m10: poly_conj(&d01), m11: d00 };
        let g1 = Mat2 { m00: poly_copy(&d10), m01: poly_copy(&d11), m10: poly_conj(&d11), m11: d10 };
        let left = ffldl(&g0);
        let right = ffldl(&g1);
        proof {
            assert(mat_dim(g0) == mat_dim(*g) / 2);
            assert(mat_dim(g1) == mat_dim(*g) / 2);
            assert(tree_dim_ok(left, mat_dim(*g) / 2));
            assert(tree_dim_ok(right, mat_dim(*g) / 2));
        }
        let t = LdlTree::Branch(ell, Box::new(left), Box::new(right));
        proof {
            reveal_with_fuel(tree_dim_ok, 2);
            assert(tree_dim_ok(t, mat_dim(*g)));
            reveal_with_fuel(ffldl_outcome, 2);
            let dv = d11_of(g.m00@, g.m10@, g.m11@);
            assert(w@.len() == g.m00@.len() / 2
                && ffldl_outcome(
                    split_lo(g.m00@),
                    seq_conj(split_hi(g.m00@, w@)),
                    split_lo(g.m00@),
                    left,
                )
                && ffldl_outcome(split_lo(dv), seq_conj(split_hi(dv, w@)), split_lo(dv), right));
            assert(ffldl_outcome(g.m00@, g.m10@, g.m11@, t));
        }
        t
    } else {
        let a = LdlTree::Leaf(d.m00[0], d.m00[1]);
        let b = LdlTree::Leaf(d.m11[0], d.m11[1]);
        let t = LdlTree::Branch(ell, Box::new(a), Box::new(b));
        proof {
            reveal_with_fuel(tree_dim_ok, 2);
            assert(tree_dim_ok(t, mat_dim(*g)));
            assert(ffldl_outcome(g.m00@, g.m10@, g.m11@, t));
        }
        t
    }
}

/// What normalization makes of a leaf's first scalar: the target standard
/// deviation divided by the square root of the raw value's real part, with
/// zero imaginary part.
pub open spec fn norm_leaf(a: Cplx, sigma: u64) -> Cplx {
    Cplx { re: rdiv_bits(sigma, rsqrt_bits(a.re)), im: 0 }
}

/// The normalized tree: branches are kept, every leaf's first scalar
/// becomes its per-leaf standard deviation and its second becomes exactly
/// zero.
pub open spec fn normalize_spec(t: LdlTree, sigma: u64) -> LdlTree
    decreases t,
{
    match t {
        LdlTree::Branch(e, l, r) => LdlTree::Branch(
            e,
            Box::new(normalize_spec(*l, sigma)),
            Box::new(normalize_spec(*r, sigma)),
        ),
        LdlTree::Leaf(a, _b) => LdlTree::Leaf(norm_leaf(a, sigma), Cplx { re: 0, im: 0 }),
    }
}

fn normalize_owned(t: LdlTree, sigma: u64) -> (r: LdlTree)
    ensures
        r == normalize_spec(t, sigma),
    decreases t,
{
    match t {
        LdlTree::Branch(e, l, r) => {
            let nl = normalize_owned(*l, sigma);
            let nr = normalize_owned(*r, sigma);
            LdlTree::Branch(e, Box::new(nl), Box::new(nr))
        }
        LdlTree::Leaf(a, _b) => {
            let s = crate::scalar::r_div(sigma, crate::scalar::r_sqrt(a.re));
            LdlTree::Leaf(Cplx { re: s, im: 0 }, Cplx { re: 0, im: 0 })
        }
    }
}

/// Rescale every leaf to the target standard deviation, in place. Runs once
/// between tree building and sampling.
pub fn normalize_tree(tree: &mut LdlTree, sigma: u64)
    ensures
        *final(tree) == normalize_spec(*old(tree), sigma),
{
    let mut t = LdlTree::Leaf(Cplx { re: 0, im: 0 }, Cplx { re: 0, im: 0 });
    core::mem::swap(tree, &mut t);
    let mut n = normalize_owned(t, sigma);
    core::mem::swap(tree, &mut n);
}

/// Normalization touches every leaf and only the leaves: the leaf sequence
/// of the normalized tree is, entry by entry, the normalized leaf pair of
/// the original, and the tree's shape is unchanged.
pub proof fn lemma_normalize_leaves(t: LdlTree, sigma: u64)
    ensures
        leaves_of(normalize_spec(t, sigma)).len() == leaves_of(t).len(),
        forall|i: int| 0 <= i < leaves_of(t).len() ==> leaves_of(normalize_spec(t, sigma))[i]
            == (norm_leaf(leaves_of(t)[i].0, sigma), Cplx { re: 0, im: 0 }),
        branch_levels(normalize_spec(t, sigma)) == branch_levels(t),
    decreases t,
{
    match t {
        LdlTree::Leaf(_a, _b) => {
        }
        LdlTree::Branch(e, l, r) => {
            lemma_normalize_leaves(*l, sigma);
            lemma_normalize_leaves(*r, sigma);
            assert(leaves_of(normalize_spec(t, sigma)) == leaves_of(normalize_spec(*l, sigma))
                + leaves_of(normalize_spec(*r, sigma)));
            assert(forall|i: int| 0 <= i < leaves_of(t).len() ==> leaves_of(t)[i]
                == if i < leaves_of(*l).len() {
                    leaves_of(*l)[i]
                } else {
                    leaves_of(*r)[i - leaves_of(*l).len()]
                });
        }
    }
}

} // verus!
