//! Frequency-domain polynomials: ordered sequences of complex scalars on
//! which ring arithmetic is elementwise (Hadamard) arithmetic. Length is
//! invariant under every operation here.

use vstd::prelude::*;
use crate::scalar::{
    Cplx, ONE_BITS, c_add, c_sub, c_mul, c_div, c_conj,
    spec_cadd, spec_csub, spec_cmul, spec_cdiv, spec_conj,
};

verus! {

/// Elementwise sum of two equal-length sequences.
pub open spec fn had_add(a: Seq<Cplx>, b: Seq<Cplx>) -> Seq<Cplx> {
    Seq::new(a.len(), |i: int| spec_cadd(a[i], b[i]))
}

/// Elementwise difference of two equal-length sequences.
pub open spec fn had_sub(a: Seq<Cplx>, b: Seq<Cplx>) -> Seq<Cplx> {
    Seq::new(a.len(), |i: int| spec_csub(a[i], b[i]))
}

/// Elementwise product of two equal-length sequences.
pub open spec fn had_mul(a: Seq<Cplx>, b: Seq<Cplx>) -> Seq<Cplx> {
    Seq::new(a.len(), |i: int| spec_cmul(a[i], b[i]))
}

/// Elementwise quotient of two equal-length sequences.
pub open spec fn had_div(a: Seq<Cplx>, b: Seq<Cplx>) -> Seq<Cplx> {
    Seq::new(a.len(), |i: int| spec_cdiv(a[i], b[i]))
}

/// Elementwise complex conjugate.
pub open spec fn seq_conj(a: Seq<Cplx>) -> Seq<Cplx> {
    Seq::new(a.len(), |i: int| spec_conj(a[i]))
}

/// The all-zeros sequence of a given length.
pub open spec fn seq_zeros(n: nat) -> Seq<Cplx> {
    Seq::new(n, |i: int| Cplx { re: 0, im: 0 })
}

/// The all-ones sequence of a given length.
pub open spec fn seq_ones(n: nat) -> Seq<Cplx> {
    Seq::new(n, |i: int| Cplx { re: ONE_BITS, im: 0 })
}

/// Elementwise sum.
pub fn poly_add(a: &Vec<Cplx>, b: &Vec<Cplx>) -> (r: Vec<Cplx>)
    requires
        a@.len() == b@.len(),
    ensures
        r@ == had_add(a@, b@),
{
    let n = a.len();
    let mut r: Vec<Cplx> = Vec::new();
    let mut i: usize = 0;
    while i < n
        invariant
            i <= n,
            a@.len() == n,
            b@.len() == n,
            r@.len() == i,
            forall|j: int| 0 <= j < i ==> r@[j] == spec_cadd(a@[j], b@[j]),
        decreases n - i,
    {
        r.push(c_add(a[i], b[i]));
        i += 1;
    }
    proof {
        assert(r@ =~= had_add(a@, b@));
    }
    r
}

/// Elementwise difference.
pub fn poly_sub(a: &Vec<Cplx>, b: &Vec<Cplx>) -> (r: Vec<Cplx>)
    requires
        a@.len() == b@.len(),
    ensures
        r@ == had_sub(a@, b@),
{
    let n = a.len();
    let mut r: Vec<Cplx> = Vec::new();
    let mut i: usize = 0;
    while i < n
        invariant
            i <= n,
            a@.len() == n,
            b@.len() == n,
            r@.len() == i,
            forall|j: int| 0 <= j < i ==> r@[j] == spec_csub(a@[j], b@[j]),
        decreases n - i,
    {
        r.push(c_sub(a[i], b[i]));
        i += 1;
    }
    proof {
        assert(r@ =~= had_sub(a@, b@));
    }
    r
}

/// Elementwise (Hadamard) product.
pub fn poly_mul(a: &Vec<Cplx>, b: &Vec<Cplx>) -> (r: Vec<Cplx>)
    requires
        a@.len() == b@.len(),
    ensures
        r@ == had_mul(a@, b@),
{
    let n = a.len();
    let mut r: Vec<Cplx> = Vec::new();
    let mut i: usize = 0;
    while i < n
        invariant
            i <= n,
            a@.len() == n,
            b@.len() == n,
            r@.len() == i,
            forall|j: int| 0 <= j < i ==> r@[j] == spec_cmul(a@[j], b@[j]),
        decreases n - i,
    {
        r.push(c_mul(a[i], b[i]));
        i += 1;
    }
    proof {
        assert(r@ =~= had_mul(a@, b@));
    }
    r
}

/// Elementwise quotient.
pub fn poly_div(a: &Vec<Cplx>, b: &Vec<Cplx>) -> (r: Vec<Cplx>)
    requires
        a@.len() == b@.len(),
    ensures
        r@ == had_div(a@, b@),
{
    let n = a.len();
    let mut r: Vec<Cplx> = Vec::new();
    let mut i: usize = 0;
    while i < n
        invariant
            i <= n,
            a@.len() == n,
            b@.len() == n,
            r@.len() == i,
            forall|j: int| 0 <= j < i ==> r@[j] == spec_cdiv(a@[j], b@[j]),
        decreases n - i,
    {
        r.push(c_div(a[i], b[i]));
        i += 1;
    }
    proof {
        assert(r@ =~= had_div(a@, b@));
    }
    r
}

/// Elementwise complex conjugate.
pub fn poly_conj(a: &Vec<Cplx>) -> (r: Vec<Cplx>)
    ensures
        r@ == seq_conj(a@),
{
    let n = a.len();
    let mut r: Vec<Cplx> = Vec::new();
    let mut i: usize = 0;
    while i < n
        invariant
            i <= n,
            a@.len() == n,
            r@.len() == i,
            forall|j: int| 0 <= j < i ==> r@[j] == spec_conj(a@[j]),
        decreases n - i,
    {
        r.push(c_conj(a[i]));
        i += 1;
    }
    proof {
        assert(r@ =~= seq_conj(a@));
    }
    r
}

/// An elementwise copy of a polynomial.
pub fn poly_copy(a: &Vec<Cplx>) -> (r: Vec<Cplx>)
    ensures
        r@ == a@,
{
    let n = a.len();
    let mut r: Vec<Cplx> = Vec::new();
    let mut i: usize = 0;
    while i < n
        invariant
            i <= n,
            a@.len() == n,
            r@.len() == i,
            forall|j: int| 0 <= j < i ==> r@[j] == a@[j],
        decreases n - i,
    {
        r.push(a[i]);
        i += 1;
    }
    proof {
        assert(r@ =~= a@);
    }
    r
}

/// The zero polynomial of a given length.
pub fn poly_zeros(n: usize) -> (r: Vec<Cplx>)
    ensures
        r@ == seq_zeros(n as nat),
{
    let mut r: Vec<Cplx> = Vec::new();
    let mut i: usize = 0;
    while i < n
        invariant
            i <= n,
            r@.len() == i,
            forall|j: int| 0 <= j < i ==> r@[j] == (Cplx { re: 0, im: 0 }),
        decreases n - i,
    {
        r.push(Cplx { re: 0, im: 0 });
        i += 1;
    }
    proof {
        assert(r@ =~= seq_zeros(n as nat));
    }
    r
}

/// The all-ones polynomial of a given length.
pub fn poly_ones(n: usize) -> (r: Vec<Cplx>)
    ensures
        r@ == seq_ones(n as nat),
{
    let mut r: Vec<Cplx> = Vec::new();
    let mut i: usize = 0;
    while i < n
        invariant
            i <= n,
            r@.len() == i,
            forall|j: int| 0 <= j < i ==> r@[j] == (Cplx { re: ONE_BITS, im: 0 }),
        decreases n - i,
    {
        r.push(Cplx { re: ONE_BITS, im: 0 });
        i += 1;
    }
    proof {
        assert(r@ =~= seq_ones(n as nat));
    }
    r
}

} // verus!
