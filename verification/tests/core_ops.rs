//! Exactness tests for the scalar operations and the structural
//! split/merge round trip.

use ffsampling::scalar::{Cplx, c_add, c_sub, c_mul, c_div, c_conj, r_div, r_sqrt, r_max, int_to_real};
use ffsampling::fft::{twiddle_table, split_fft, merge_fft};
use rand::{thread_rng, Rng};

fn c(re: f64, im: f64) -> Cplx {
    Cplx { re: re.to_bits(), im: im.to_bits() }
}

fn re_of(x: Cplx) -> f64 {
    f64::from_bits(x.re)
}

fn im_of(x: Cplx) -> f64 {
    f64::from_bits(x.im)
}

#[test]
fn scalar_ops_match_ieee() {
    let a = c(1.5, -2.25);
    let b = c(0.375, 4.0);
    let s = c_add(a, b);
    assert_eq!((re_of(s), im_of(s)), (1.5 + 0.375, -2.25 + 4.0));
    let d = c_sub(a, b);
    assert_eq!((re_of(d), im_of(d)), (1.5 - 0.375, -2.25 - 4.0));
    let m = c_mul(a, b);
    assert_eq!(
        (re_of(m), im_of(m)),
        (1.5 * 0.375 - (-2.25) * 4.0, 1.5 * 4.0 + (-2.25) * 0.375),
    );
    let q = c_div(a, b);
    let norm = 0.375 * 0.375 + 4.0 * 4.0;
    assert_eq!(
        (re_of(q), im_of(q)),
        ((1.5 * 0.375 + (-2.25) * 4.0) / norm, ((-2.25) * 0.375 - 1.5 * 4.0) / norm),
    );
    let j = c_conj(a);
    assert_eq!((re_of(j), im_of(j)), (1.5, 2.25));
}

#[test]
fn real_ops_match_ieee() {
    assert_eq!(r_div(3.0f64.to_bits(), 8.0f64.to_bits()), (3.0f64 / 8.0).to_bits());
    assert_eq!(r_sqrt(2.0f64.to_bits()), 2.0f64.sqrt().to_bits());
    assert_eq!(r_max(0.25f64.to_bits(), 0.75f64.to_bits()), 0.75f64.to_bits());
    assert_eq!(r_max(1.25f64.to_bits(), 0.75f64.to_bits()), 1.25f64.to_bits());
    assert_eq!(int_to_real(-7), (-7.0f64).to_bits());
    assert_eq!(int_to_real(41), 41.0f64.to_bits());
}

#[test]
fn twiddle_base_is_imaginary_unit() {
    let w = twiddle_table(1);
    assert_eq!(w.len(), 1);
    assert_eq!((re_of(w[0]), im_of(w[0])), (0.0, 1.0));
    let w2 = twiddle_table(2);
    assert_eq!(w2.len(), 2);
    // The doubled table holds the principal square roots of i and of -i,
    // which lie on the unit circle at plus and minus one-eighth of a turn.
    let r = 0.5f64.sqrt();
    assert!((re_of(w2[0]) - r).abs() < 1e-12 && (im_of(w2[0]) - r).abs() < 1e-12);
    assert!((re_of(w2[1]) - r).abs() < 1e-12 && (im_of(w2[1]) + r).abs() < 1e-12);
}

#[test]
fn split_merge_round_trip() {
    let mut rng = thread_rng();
    for &n in [2usize, 4, 8, 16].iter() {
        let f: Vec<Cplx> = (0..n)
            .map(|_| c(rng.gen::<f64>() * 4.0 - 2.0, rng.gen::<f64>() * 4.0 - 2.0))
            .collect();
        let w = twiddle_table(n / 2);
        let (lo, hi) = split_fft(&f, &w);
        assert_eq!(lo.len(), n / 2);
        assert_eq!(hi.len(), n / 2);
        let back = merge_fft(&lo, &hi, &w);
        assert_eq!(back.len(), n);
        for i in 0..n {
            assert!((re_of(back[i]) - re_of(f[i])).abs() < 1e-12);
            assert!((im_of(back[i]) - im_of(f[i])).abs() < 1e-12);
        }
    }
}
