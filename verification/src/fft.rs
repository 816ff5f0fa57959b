//! The structural split and merge of frequency-domain polynomials: a
//! length-n evaluation vector decomposes into two length-n/2 vectors over
//! the half-degree sub-rings. The twiddle factors are the roots of unity at
//! the even evaluation points, derived by repeated principal square roots
//! from the length-one table `[i]`.

use vstd::prelude::*;
use crate::scalar::{
    Cplx, ONE_BITS, HALF_BITS, c_add, c_sub, c_mul, c_conj, c_neg, c_sqrt,
    spec_cadd, spec_csub, spec_cmul, spec_conj,
};

verus! {

/// Whether a number is a power of two.
pub open spec fn is_pow2(n: nat) -> bool
    decreases n,
{
    if n == 0 {
        false
    } else if n == 1 {
        true
    } else {
        n % 2 == 0 && is_pow2(n / 2)
    }
}

/// The number of halvings that take a power of two down to one.
pub open spec fn lg(n: nat) -> nat
    decreases n,
{
    if n <= 1 {
        0
    } else {
        1 + lg(n / 2)
    }
}

/// The complex scalar one half.
pub open spec fn half_c() -> Cplx {
    Cplx { re: HALF_BITS, im: 0 }
}

/// The lower half of a split: elementwise half the sum of each adjacent
/// pair.
pub open spec fn split_lo(f: Seq<Cplx>) -> Seq<Cplx> {
    Seq::new((f.len() / 2) as nat, |i: int| spec_cmul(spec_cadd(f[2 * i], f[2 * i + 1]), half_c()))
}

/// The upper half of a split: elementwise half the difference of each
/// adjacent pair, turned by the conjugate twiddle factor.
pub open spec fn split_hi(f: Seq<Cplx>, w: Seq<Cplx>) -> Seq<Cplx> {
    Seq::new(
        (f.len() / 2) as nat,
        |i: int| spec_cmul(spec_cmul(spec_csub(f[2 * i], f[2 * i + 1]), half_c()), spec_conj(w[i])),
    )
}

/// The merge of two halves: each adjacent pair is the sum and difference of
/// a lower entry and the turned upper entry.
pub open spec fn merge_of(a: Seq<Cplx>, b: Seq<Cplx>, w: Seq<Cplx>) -> Seq<Cplx> {
    Seq::new(
        (2 * a.len()) as nat,
        |i: int|
            if i % 2 == 0 {
                spec_cadd(a[i / 2], spec_cmul(w[i / 2], b[i / 2]))
            } else {
                spec_csub(a[i / 2], spec_cmul(w[i / 2], b[i / 2]))
            },
    )
}

/// The twiddle table of a given size: the table of size one holds the
/// imaginary unit, and each doubling replaces every root by its two square
/// roots, kept adjacent. Nothing is stated of the root bits themselves,
/// since the principal square root goes through the platform's
/// trigonometric routines.
pub fn twiddle_table(m: usize) -> (w: Vec<Cplx>)
    requires
        is_pow2(m as nat),
    ensures
        w@.len() == m,
        m == 1 ==> w@[0] == (Cplx { re: 0, im: ONE_BITS }),
    decreases m,
{
    if m == 1 {
        let mut w: Vec<Cplx> = Vec::new();
        w.push(Cplx { re: 0, im: ONE_BITS });
        w
    } else {
        let half = twiddle_table(m / 2);
        let mut w: Vec<Cplx> = Vec::new();
        let mut i: usize = 0;
        while i < m / 2
            invariant
                i <= m / 2,
                half@.len() == m / 2,
                w@.len() == 2 * i,
            decreases m / 2 - i,
        {
            w.push(c_sqrt(half[i]));
            w.push(c_sqrt(c_neg(half[i])));
            i += 1;
        }
        w
    }
}

/// Split a frequency-domain polynomial into its two half-length
/// projections, given the twiddle table of the half length.
pub fn split_fft(f: &Vec<Cplx>, w: &Vec<Cplx>) -> (r: (Vec<Cplx>, Vec<Cplx>))
    requires
        f@.len() == 2 * w@.len(),
        w@.len() >= 1,
    ensures
        r.0@ == split_lo(f@),
        r.1@ == split_hi(f@, w@),
        r.0@.len() == w@.len(),
        r.1@.len() == w@.len(),
{
    let m = w.len();
    let n = f.len();
    let mut lo: Vec<Cplx> = Vec::new();
    let mut hi: Vec<Cplx> = Vec::new();
    let mut i: usize = 0;
    let half = Cplx { re: HALF_BITS, im: 0 };
    while i < m
        invariant
            i <= m,
            n == 2 * m,
            f@.len() == 2 * m,
            w@.len() == m,
            lo@.len() == i,
            hi@.len() == i,
            half == half_c(),
            forall|j: int|
                0 <= j < i ==> lo@[j] == spec_cmul(spec_cadd(f@[2 * j], f@[2 * j + 1]), half_c()),
            forall|j: int|
                0 <= j < i ==> hi@[j] == spec_cmul(
                    spec_cmul(spec_csub(f@[2 * j], f@[2 * j + 1]), half_c()),
                    spec_conj(w@[j]),
                ),
        decreases m - i,
    {
        let even = f[2 * i];
        let odd = f[2 * i + 1];
        lo.push(c_mul(c_add(even, odd), half));
        hi.push(c_mul(c_mul(c_sub(even, odd), half), c_conj(w[i])));
        i += 1;
    }
    proof {
        assert(lo@ =~= split_lo(f@));
        assert(hi@ =~= split_hi(f@, w@));
    }
    (lo, hi)
}

/// Merge two half-length projections back into a full-length
/// frequency-domain polynomial, given the twiddle table of the half length.
pub fn merge_fft(a: &Vec<Cplx>, b: &Vec<Cplx>, w: &Vec<Cplx>) -> (r: Vec<Cplx>)
    requires
        a@.len() == b@.len(),
        a@.len() == w@.len(),
    ensures
        r@ == merge_of(a@, b@, w@),
        r@.len() == 2 * a@.len(),
{
    let m = a.len();
    let mut r: Vec<Cplx> = Vec::new();
    let mut i: usize = 0;
    while i < m
        invariant
            i <= m,
            a@.len() == m,
            b@.len() == m,
            w@.len() == m,
            r@.len() == 2 * i,
            forall|j: int|
                0 <= j < i ==> r@[2 * j] == spec_cadd(a@[j], spec_cmul(w@[j], b@[j])),
            forall|j: int|
                0 <= j < i ==> r@[2 * j + 1] == spec_csub(a@[j], spec_cmul(w@[j], b@[j])),
        decreases m - i,
    {
        let t = c_mul(w[i], b[i]);
        r.push(c_add(a[i], t));
        r.push(c_sub(a[i], t));
        i += 1;
    }
    proof {
        assert(r@ =~= merge_of(a@, b@, w@));
    }
    r
}

} // verus!
