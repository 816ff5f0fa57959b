//! Shape of the schedule tree and the normalization pass.

use ffsampling::scalar::Cplx;
use ffsampling::tree::{Mat2, LdlTree, gram, ffldl, normalize_tree};

fn cb(re: f64, im: f64) -> Cplx {
    Cplx { re: re.to_bits(), im: im.to_bits() }
}

fn const_poly(v: f64, n: usize) -> Vec<Cplx> {
    (0..n).map(|_| cb(v, 0.0)).collect()
}

fn diag_basis(v: f64, n: usize) -> Mat2 {
    Mat2 {
        m00: const_poly(v, n),
        m01: const_poly(0.0, n),
        m10: const_poly(0.0, n),
        m11: const_poly(v, n),
    }
}

fn levels(t: &LdlTree) -> usize {
    match t {
        LdlTree::Leaf(_, _) => 0,
        LdlTree::Branch(_, l, r) => 1 + levels(l).max(levels(r)),
    }
}

fn leaves(t: &LdlTree) -> Vec<(Cplx, Cplx)> {
    match t {
        LdlTree::Leaf(a, b) => vec![(*a, *b)],
        LdlTree::Branch(_, l, r) => {
            let mut v = leaves(l);
            v.extend(leaves(r));
            v
        }
    }
}

#[test]
fn tree_shape_matches_dimension() {
    for &n in [2usize, 4, 8, 16].iter() {
        let g = gram(&diag_basis(2.0, n));
        let t = ffldl(&g);
        let expect_levels = (n as f64).log2() as usize;
        assert_eq!(levels(&t), expect_levels);
        assert_eq!(leaves(&t).len(), n);
    }
    // The documented small case: a length-4 matrix gives exactly 2 branch
    // levels and 4 leaves.
    let g = gram(&diag_basis(2.0, 4));
    let t = ffldl(&g);
    assert_eq!(levels(&t), 2);
    assert_eq!(leaves(&t).len(), 4);
}

#[test]
fn normalization_rewrites_every_leaf() {
    let g = gram(&diag_basis(1.5, 8));
    let mut t = ffldl(&g);
    let before = leaves(&t);
    let sigma = 1.7f64;
    normalize_tree(&mut t, sigma.to_bits());
    let after = leaves(&t);
    assert_eq!(before.len(), after.len());
    for (raw, now) in before.iter().zip(after.iter()) {
        let raw_re = f64::from_bits(raw.0.re);
        let want = sigma / raw_re.sqrt();
        assert_eq!(f64::from_bits(now.0.re), want);
        assert_eq!(now.0.im, 0u64);
        assert_eq!((now.1.re, now.1.im), (0u64, 0u64));
    }
}

#[test]
fn ldltree_off_diagonal_at_root() {
    // A basis with correlated rows leaves a non-zero off-diagonal
    // coefficient at the root of the tree.
    let n = 2;
    let b = Mat2 {
        m00: const_poly(2.0, n),
        m01: const_poly(1.0, n),
        m10: const_poly(0.0, n),
        m11: const_poly(1.0, n),
    };
    let g = gram(&b);
    let t = ffldl(&g);
    match &t {
        LdlTree::Branch(ell, _, _) => {
            // G = [5, 1; 1, 1] per slot, so the coefficient is 1/5.
            for e in ell.iter() {
                assert_eq!(f64::from_bits(e.re), 0.2);
                assert_eq!(f64::from_bits(e.im), 0.0);
            }
        }
        LdlTree::Leaf(_, _) => panic!("expected a branch at the root"),
    }
}
