//! The recursive sampler: determinism under a replayed random stream,
//! distributional behaviour, the right-before-left traversal order locked
//! by a golden trace, and a small end-to-end run with exact expected
//! integers.

use ffsampling::scalar::Cplx;
use ffsampling::tree::{Mat2, LdlTree, gram, ffldl, normalize_tree};
use ffsampling::sampling::{SamplerParams, correct_target, ffsampling};
use rand::SeedableRng;
use rand::rngs::StdRng;

fn cb(re: f64, im: f64) -> Cplx {
    Cplx { re: re.to_bits(), im: im.to_bits() }
}

fn const_poly(v: f64, n: usize) -> Vec<Cplx> {
    (0..n).map(|_| cb(v, 0.0)).collect()
}

fn re_of(x: Cplx) -> f64 {
    f64::from_bits(x.re)
}

/// The fixed small integer basis used by the deterministic tests: the Gram
/// matrix is [5, 1; 1, 1] in every slot, so the root coefficient 1/5 is
/// non-zero and the left target depends on the right result.
fn coupled_tree(n: usize, sigma: f64) -> LdlTree {
    let b = Mat2 {
        m00: const_poly(2.0, n),
        m01: const_poly(1.0, n),
        m10: const_poly(0.0, n),
        m11: const_poly(1.0, n),
    };
    let g = gram(&b);
    let mut t = ffldl(&g);
    normalize_tree(&mut t, sigma.to_bits());
    t
}

fn params() -> SamplerParams {
    SamplerParams { sigmin: 0.05f64.to_bits(), degree: 2 }
}

#[test]
fn sampler_is_deterministic_under_replay() {
    let tree = coupled_tree(4, 1.4);
    let t = (const_poly(2.75, 4), const_poly(-1.25, 4));
    let p = SamplerParams { sigmin: 0.05f64.to_bits(), degree: 4 };
    let mut rng1 = StdRng::seed_from_u64(1234);
    let mut rng2 = StdRng::seed_from_u64(1234);
    let z1 = ffsampling(&t, &tree, &p, &mut rng1).unwrap();
    let z2 = ffsampling(&t, &tree, &p, &mut rng2).unwrap();
    assert_eq!(z1.0, z2.0);
    assert_eq!(z1.1, z2.1);
}

#[test]
fn sampler_tracks_target_and_deviation() {
    // A diagonal basis: the Gram matrix is 4 in both diagonal slots, so
    // every leaf encodes the standard deviation 1.5 / sqrt(4) = 0.75, and
    // the first coefficient of each output is exactly the integer drawn
    // around the first target coefficient.
    let n = 2;
    let b = Mat2 {
        m00: const_poly(2.0, n),
        m01: const_poly(0.0, n),
        m10: const_poly(0.0, n),
        m11: const_poly(2.0, n),
    };
    let g = gram(&b);
    let mut tree = ffldl(&g);
    normalize_tree(&mut tree, 1.5f64.to_bits());
    let t = (const_poly(3.25, n), const_poly(-1.5, n));
    let p = params();
    let mut rng = StdRng::seed_from_u64(99);
    let trials = 2000;
    let mut sum = 0.0f64;
    let mut sum_sq = 0.0f64;
    for _ in 0..trials {
        let (z0, _z1) = ffsampling(&t, &tree, &p, &mut rng).unwrap();
        let v = re_of(z0[0]);
        assert_eq!(v.fract(), 0.0, "sampled coefficient must be an integer");
        sum += v;
        sum_sq += v * v;
    }
    let mean = sum / trials as f64;
    let var = sum_sq / trials as f64 - mean * mean;
    let std = var.sqrt();
    assert!((mean - 3.25).abs() < 0.2, "mean {mean} strays from the target");
    // Rounding to integers adds about 1/12 to the variance of 0.75^2.
    assert!(std > 0.55 && std < 1.05, "deviation {std} strays from 0.75");
}

#[test]
fn sampler_refuses_non_finite_deviation() {
    // A leaf whose first scalar is infinite marks an ill-conditioned
    // basis; sampling must refuse rather than hand back garbage.
    let tree = LdlTree::Leaf(Cplx { re: f64::INFINITY.to_bits(), im: 0 }, cb(0.0, 0.0));
    let t = (const_poly(0.5, 1), const_poly(0.5, 1));
    let mut rng = StdRng::seed_from_u64(5);
    assert!(ffsampling(&t, &tree, &params(), &mut rng).is_none());
}

#[test]
fn sampler_order_golden_trace() {
    // The right subtree is sampled strictly before the left one, so with a
    // coupled (non-zero) off-diagonal coefficient a fixed random stream
    // pins every output bit; swapping the traversal order would change
    // them. Golden values harvested from a reference run of this library.
    let tree = coupled_tree(2, 1.2);
    let t = (const_poly(4.5, 2), const_poly(-2.5, 2));
    let mut rng = StdRng::seed_from_u64(7);
    let (z0, z1) = ffsampling(&t, &tree, &params(), &mut rng).unwrap();
    let got = [
        re_of(z0[0]),
        f64::from_bits(z0[0].im),
        re_of(z1[0]),
        f64::from_bits(z1[0].im),
    ];
    let want = [4.0, 0.0, -4.0, -1.0];
    assert_eq!(got, want, "golden trace changed");
}

#[test]
fn end_to_end_small_dimension() {
    // Minimal dimension, fixed integer basis, fixed sigma, fixed seed:
    // the exact integer outputs are locked against a reference run.
    let tree = coupled_tree(2, 1.2);
    let t = (const_poly(4.5, 2), const_poly(-2.5, 2));
    let mut rng = StdRng::seed_from_u64(2024);
    let (z0, z1) = ffsampling(&t, &tree, &params(), &mut rng).unwrap();
    // z0 = (a + i b, a - i b) for the two left-leaf integers a, b; z1
    // likewise for the right leaf.
    let a0 = re_of(z0[0]);
    let b0 = f64::from_bits(z0[0].im);
    let a1 = re_of(z1[0]);
    let b1 = f64::from_bits(z1[0].im);
    assert_eq!(re_of(z0[1]), a0);
    assert_eq!(f64::from_bits(z0[1].im), -b0);
    assert_eq!(re_of(z1[1]), a1);
    assert_eq!(f64::from_bits(z1[1].im), -b1);
    let got = [a0, b0, a1, b1];
    let want = [4.0, 0.0, -1.0, 0.0];
    assert_eq!(got, want, "end-to-end outputs changed");
}

#[test]
fn target_correction_is_exact() {
    let t0 = vec![cb(1.0, 0.5)];
    let t1 = vec![cb(2.0, -1.0)];
    let z1 = vec![cb(5.0, 3.0)];
    let ell = vec![cb(0.5, 0.25)];
    let r = correct_target(&t0, &t1, &z1, &ell);
    // t0 + (t1 - z1) * ell with (t1 - z1) = (-3, -4).
    let want_re = 1.0 + (-3.0 * 0.5 - -4.0 * 0.25);
    let want_im = 0.5 + (-3.0 * 0.25 + -4.0 * 0.5);
    assert_eq!(re_of(r[0]), want_re);
    assert_eq!(f64::from_bits(r[0].im), want_im);
}
