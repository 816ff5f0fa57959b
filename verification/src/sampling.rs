//! The recursive top-down sampler: walks the normalized schedule tree,
//! drawing integers at the leaves from a scalar Gaussian primitive driven
//! by a caller-supplied random source, and carries each right-subtree
//! sampling error into the left subtree's target. The right subtree is
//! always sampled strictly before the left one.
//!
//! The scalar primitive here rounds a continuous normal draw to the
//! nearest integer: a stand-in that is statistically close to, but not
//! exactly, the discrete Gaussian a signing scheme would use.

use vstd::prelude::*;
use rand_distr::num_traits::FromBytes;
use crate::scalar::{
    Cplx, is_finite_bits, rmax_bits, real_of_int, unsign_zero, r_max, int_to_real, finite,
};
use crate::poly::{had_add, had_sub, had_mul, poly_add, poly_sub, poly_mul};
use crate::fft::{is_pow2, split_lo, split_hi, merge_of, twiddle_table, split_fft, merge_fft};
use crate::tree::{LdlTree, tree_dim_ok};

verus! {

/// The read-only sampling parameters: the standard-deviation floor below
/// which no leaf samples tighter, and the ring degree the key was built
/// for, both supplied by the surrounding scheme.
pub struct SamplerParams {
    pub sigmin: u64,
    pub degree: usize,
}

/// The caller-supplied random source, rand's standard generator, declared
/// so that it can be threaded opaquely through the verified signatures.
#[verifier::external_type_specification]
#[verifier::external_body]
pub struct ExStdRng(rand::rngs::StdRng);

/// Relies on rand_distr's `Normal`: draws one normally distributed value
/// with the given center and standard deviation (both handed over as IEEE
/// bit patterns) and rounds it to the nearest integer. `Normal::new`
/// accepts every finite standard deviation, so the construction cannot
/// fail here; nothing is promised of the drawn value.
#[verifier::external_body]
fn normal_round(center: u64, sigma: u64, rng: &mut rand::rngs::StdRng) -> i64
    requires
        is_finite_bits(sigma),
{
    let c = num_complex::Complex64::new(
        FromBytes::from_be_bytes(&center.to_be_bytes()),
        FromBytes::from_be_bytes(&sigma.to_be_bytes()),
    );
    let d = rand_distr::Normal::new(c.re, c.im).unwrap();
    let x = rand_distr::Distribution::sample(&d, rng);
    x.round() as i64
}

/// Whether every leaf's floored standard deviation is finite, so that the
/// scalar Gaussian primitive accepts it; a non-finite value marks an
/// ill-conditioned basis, on which sampling is refused.
pub open spec fn sigmas_ok(t: LdlTree, sigmin: u64) -> bool
    decreases t,
{
    match t {
        LdlTree::Leaf(a, _b) => is_finite_bits(rmax_bits(unsign_zero(a.re), unsign_zero(sigmin))),
        LdlTree::Branch(_e, l, r) => sigmas_ok(*l, sigmin) && sigmas_ok(*r, sigmin),
    }
}

/// What an output pair of the sampler can be, for a given target pair and
/// tree. At a leaf both outputs are single real integers. At a branch there
/// is one twiddle vector of the half length such that the second output is
/// the merge of an outcome of the right subtree on the split of the second
/// target, and the first output is the merge of an outcome of the left
/// subtree on the split of the corrected target `t0 + (t1 - z1) * ell` —
/// the right-before-left data flow. The twiddle values themselves come
/// from platform trigonometry and are rightly not pinned.
pub open spec fn sample_outcome(
    t0: Seq<Cplx>,
    t1: Seq<Cplx>,
    tree: LdlTree,
    z0: Seq<Cplx>,
    z1: Seq<Cplx>,
) -> bool
    decreases tree,
{
    match tree {
        LdlTree::Leaf(_a, _b) => z0.len() == 1 && z1.len() == 1 && z0[0].im == 0 && z1[0].im == 0
            && (exists|k: i64| z0[0].re == real_of_int(k))
            && (exists|k: i64| z1[0].re == real_of_int(k)),
        LdlTree::Branch(ell, l, r) => exists|w: Seq<Cplx>|
            #![trigger split_hi(t1, w)]
            {
                let tc = had_add(t0, had_mul(had_sub(t1, z1), ell@));
                w.len() == t1.len() / 2
                && (exists|y0: Seq<Cplx>, y1: Seq<Cplx>|
                    sample_outcome(split_lo(t1), split_hi(t1, w), *r, y0, y1)
                    && z1 == merge_of(y0, y1, w))
                && (exists|x0: Seq<Cplx>, x1: Seq<Cplx>|
                    sample_outcome(split_lo(tc), split_hi(tc, w), *l, x0, x1)
                    && z0 == merge_of(x0, x1, w))
            },
    }
}

/// A tree covering dimension n forces n to be a power of two.
proof fn lemma_dim_pow2(t: LdlTree, n: nat)
    requires
        tree_dim_ok(t, n),
    ensures
        is_pow2(n),
    decreases t,
{
    match t {
        LdlTree::Leaf(_a, _b) => {
        }
        LdlTree::Branch(_e, l, r) => {
            lemma_dim_pow2(*l, n / 2);
        }
    }
}

/// The back-substitution step of the sampler: the corrected left target
/// `t0 + (t1 - z1) * ell`, elementwise, carrying the right subtree's
/// sampling error into the left subtree's target.
pub fn correct_target(
    t0: &Vec<Cplx>,
    t1: &Vec<Cplx>,
    z1: &Vec<Cplx>,
    ell: &Vec<Cplx>,
) -> (r: Vec<Cplx>)
    requires
        t0@.len() == t1@.len(),
        t0@.len() == z1@.len(),
        t0@.len() == ell@.len(),
    ensures
        r@ == had_add(t0@, had_mul(had_sub(t1@, z1@), ell@)),
{
    poly_add(t0, &poly_mul(&poly_sub(t1, z1), ell))
}

/// Sample a short vector close to the target pair, walking the normalized
/// schedule tree top down. At a branch the right subtree is sampled first,
/// its error is propagated into the left target, and the two half-length
/// results are merged; at a leaf two integers are drawn around the real
/// parts of the targets with the leaf's floored standard deviation. Returns
/// `None` exactly when some leaf's floored standard deviation is not
/// finite, the mark of an ill-conditioned basis.
pub fn ffsampling(
    t: &(Vec<Cplx>, Vec<Cplx>),
    tree: &LdlTree,
    params: &SamplerParams,
    rng: &mut rand::rngs::StdRng,
) -> (z: Option<(Vec<Cplx>, Vec<Cplx>)>)
    requires
        tree_dim_ok(*tree, t.0@.len()),
        t.1@.len() == t.0@.len(),
    ensures
        z is Some <==> sigmas_ok(*tree, params.sigmin),
        z matches Some(p) ==> p.0@.len() == t.0@.len() && p.1@.len() == t.0@.len(),
        z matches Some(p) ==> sample_outcome(t.0@, t.1@, *tree, p.0@, p.1@),
    decreases *tree,
{
    match tree {
        LdlTree::Branch(ell, left, right) => {
            let n = t.0.len();
            proof {
                lemma_dim_pow2(*tree, n as nat);
            }
            let w = twiddle_table(n / 2);
            let bold_t1 = split_fft(&t.1, &w);
            let sub1 = ffsampling(&bold_t1, right, params, rng);
            match sub1 {
                None => None,
                Some(bold_z1) => {
                    let z1 = merge_fft(&bold_z1.0, &bold_z1.1, &w);
                    let t0_prime = correct_target(&t.0, &t.1, &z1, ell);
                    let bold_t0 = split_fft(&t0_prime, &w);
                    let sub0 = ffsampling(&bold_t0, left, params, rng);
                    match sub0 {
                        None => None,
                        Some(bold_z0) => {
                            let z0 = merge_fft(&bold_z0.0, &bold_z0.1, &w);
                            proof {
                                lemma_branch_outcome(
                                    t.0@, t.1@, *tree, ell@, **left, **right, w@,
                                    bold_z1.0@, bold_z1.1@, z1@, bold_z0.0@, bold_z0.1@, z0@,
                                );
                            }
                            Some((z0, z1))
                        }
                    }
                }
            }
        }
        LdlTree::Leaf(value, _second) => {
            let floored = r_max(value.re, params.sigmin);
            if finite(floored) {
                let z0 = normal_round(t.0[0].re, floored, rng);
                let z1 = normal_round(t.1[0].re, floored, rng);
                let p0 = Cplx { re: int_to_real(z0), im: 0 };
                let p1 = Cplx { re: int_to_real(z1), im: 0 };
                let mut v0: Vec<Cplx> = Vec::new();
                let mut v1: Vec<Cplx> = Vec::new();
                v0.push(p0);
                v1.push(p1);
                proof {
                    assert(v0@[0].re == real_of_int(z0));
                    assert(v1@[0].re == real_of_int(z1));
                }
                Some((v0, v1))
            } else {
                None
            }
        }
    }
}

/// Assemble the branch case of `sample_outcome` from the witnesses the
/// sampler's body produced.
proof fn lemma_branch_outcome(
    t0: Seq<Cplx>,
    t1: Seq<Cplx>,
    tree: LdlTree,
    ell: Seq<Cplx>,
    left: LdlTree,
    right: LdlTree,
    w: Seq<Cplx>,
    y0: Seq<Cplx>,
    y1: Seq<Cplx>,
    z1: Seq<Cplx>,
    x0: Seq<Cplx>,
    x1: Seq<Cplx>,
    z0: Seq<Cplx>,
)
    requires
        tree matches LdlTree::Branch(e, l, r) && e@ == ell && *l == left && *r == right,
        w.len() == t1.len() / 2,
        sample_outcome(split_lo(t1), split_hi(t1, w), right, y0, y1),
        z1 == merge_of(y0, y1, w),
        sample_outcome(
            split_lo(had_add(t0, had_mul(had_sub(t1, z1), ell))),
            split_hi(had_add(t0, had_mul(had_sub(t1, z1), ell)), w),
            left,
            x0,
            x1,
        ),
        z0 == merge_of(x0, x1, w),
    ensures
        sample_outcome(t0, t1, tree, z0, z1),
{
    assert(exists|p0: Seq<Cplx>, p1: Seq<Cplx>|
        sample_outcome(split_lo(t1), split_hi(t1, w), right, p0, p1)
        && z1 == merge_of(p0, p1, w)) by {
        assert(sample_outcome(split_lo(t1), split_hi(t1, w), right, y0, y1));
    }
    let tc = had_add(t0, had_mul(had_sub(t1, z1), ell));
    assert(exists|p0: Seq<Cplx>, p1: Seq<Cplx>|
        sample_outcome(split_lo(tc), split_hi(tc, w), left, p0, p1)
        && z0 == merge_of(p0, p1, w)) by {
        assert(sample_outcome(split_lo(tc), split_hi(tc, w), left, x0, x1));
    }
}

} // verus!
