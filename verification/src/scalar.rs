//! Complex scalars in frequency-domain form, carried as IEEE-754 bit
//! patterns. All arithmetic is done by num_complex behind trusted wrappers;
//! the result of each operation is a function of the operand bit patterns
//! alone once NaN payloads are collapsed to one canonical pattern, and the
//! contracts speak of exactly that function.

use vstd::prelude::*;
use rand_distr::num_traits::FromBytes;

verus! {

/// A complex scalar: the IEEE-754 bit patterns of its two double-precision
/// components. Keeping the raw bits makes every value a plain pair of
/// integers that contracts can pin down exactly.
#[derive(Clone, Copy, PartialEq, Eq, Structural, Debug)]
pub struct Cplx {
    pub re: u64,
    pub im: u64,
}

/// Exponent field of a double-precision pattern.
pub const EXP_MASK: u64 = 0x7ff0000000000000;
/// Fraction field of a double-precision pattern.
pub const FRAC_MASK: u64 = 0x000fffffffffffff;
/// Sign bit of a double-precision pattern.
pub const SIGN_MASK: u64 = 0x8000000000000000;
/// The canonical quiet-NaN pattern.
pub const QNAN: u64 = 0x7ff8000000000000;
/// The pattern of 1.0.
pub const ONE_BITS: u64 = 0x3ff0000000000000;
/// The pattern of 0.5.
pub const HALF_BITS: u64 = 0x3fe0000000000000;

/// A pattern denotes NaN when its exponent field is all ones and its
/// fraction field is not zero.
pub open spec fn is_nan_bits(x: u64) -> bool {
    x & EXP_MASK == EXP_MASK && x & FRAC_MASK != 0
}

/// A pattern denotes a finite number when its exponent field is not all ones.
pub open spec fn is_finite_bits(x: u64) -> bool {
    x & EXP_MASK != EXP_MASK
}

/// Collapse every NaN pattern to the canonical one; other patterns pass
/// through unchanged.
pub open spec fn canon_bits(x: u64) -> u64 {
    if is_nan_bits(x) { QNAN } else { x }
}

/// Componentwise canonicalization of a complex scalar.
pub open spec fn canon_c(a: Cplx) -> Cplx {
    Cplx { re: canon_bits(a.re), im: canon_bits(a.im) }
}

/// The two zero patterns denote the same number; rewrite the negative one
/// to the positive one and leave every other pattern alone.
pub open spec fn unsign_zero(x: u64) -> u64 {
    if x == SIGN_MASK { 0 } else { x }
}

/// Executable canonicalization of one component's bit pattern.
pub fn canonize(x: u64) -> (r: u64)
    ensures
        r == canon_bits(x),
{
    if x & EXP_MASK == EXP_MASK && x & FRAC_MASK != 0 { QNAN } else { x }
}

/// The canonicalized bits of the IEEE sum of the two complex scalars with
/// the given component bits.
pub uninterp spec fn add_bits(ar: u64, ai: u64, br: u64, bi: u64) -> (u64, u64);

/// The canonicalized bits of the IEEE difference.
pub uninterp spec fn sub_bits(ar: u64, ai: u64, br: u64, bi: u64) -> (u64, u64);

/// The canonicalized bits of the IEEE product.
pub uninterp spec fn mul_bits(ar: u64, ai: u64, br: u64, bi: u64) -> (u64, u64);

/// The canonicalized bits of the IEEE quotient.
pub uninterp spec fn div_bits(ar: u64, ai: u64, br: u64, bi: u64) -> (u64, u64);

/// The canonicalized bits of the IEEE quotient of two real scalars.
pub uninterp spec fn rdiv_bits(a: u64, b: u64) -> u64;

/// The canonicalized bits of the IEEE square root of a real scalar.
pub uninterp spec fn rsqrt_bits(a: u64) -> u64;

/// The canonicalized bits of the IEEE maximum of two real scalars.
pub uninterp spec fn rmax_bits(a: u64, b: u64) -> u64;

/// The bits of the double nearest to the given integer.
pub uninterp spec fn real_of_int(z: i64) -> u64;

/// The sum of two complex scalars.
pub open spec fn spec_cadd(a: Cplx, b: Cplx) -> Cplx {
    let (r, i) = add_bits(a.re, a.im, b.re, b.im);
    Cplx { re: r, im: i }
}

/// The difference of two complex scalars.
pub open spec fn spec_csub(a: Cplx, b: Cplx) -> Cplx {
    let (r, i) = sub_bits(a.re, a.im, b.re, b.im);
    Cplx { re: r, im: i }
}

/// The product of two complex scalars.
pub open spec fn spec_cmul(a: Cplx, b: Cplx) -> Cplx {
    let (r, i) = mul_bits(a.re, a.im, b.re, b.im);
    Cplx { re: r, im: i }
}

/// The quotient of two complex scalars.
pub open spec fn spec_cdiv(a: Cplx, b: Cplx) -> Cplx {
    let (r, i) = div_bits(a.re, a.im, b.re, b.im);
    Cplx { re: r, im: i }
}

/// The complex conjugate: IEEE negation is exactly a flip of the sign bit,
/// so the conjugate is a plain bit operation and needs no outside call.
pub open spec fn spec_conj(a: Cplx) -> Cplx {
    Cplx { re: a.re, im: a.im ^ SIGN_MASK }
}

/// The complex negation, componentwise sign-bit flip.
pub open spec fn spec_cneg(a: Cplx) -> Cplx {
    Cplx { re: a.re ^ SIGN_MASK, im: a.im ^ SIGN_MASK }
}

/// Relies on num_complex's `Add` for `Complex<f64>`: componentwise IEEE
/// addition. Whether a component of the sum is NaN is determined by the
/// operands; only the NaN payload is platform chosen, so the canonicalized
/// result is a function of the operand bits alone.
#[verifier::external_body]
fn add_raw(a: Cplx, b: Cplx) -> (r: Cplx)
    ensures
        (canon_bits(r.re), canon_bits(r.im)) == add_bits(a.re, a.im, b.re, b.im),
{
    let x = num_complex::Complex64::new(
        FromBytes::from_be_bytes(&a.re.to_be_bytes()),
        FromBytes::from_be_bytes(&a.im.to_be_bytes()),
    );
    let y = num_complex::Complex64::new(
        FromBytes::from_be_bytes(&b.re.to_be_bytes()),
        FromBytes::from_be_bytes(&b.im.to_be_bytes()),
    );
    let z = x + y;
    Cplx { re: z.re.to_bits(), im: z.im.to_bits() }
}

/// Relies on num_complex's `Sub` for `Complex<f64>`: componentwise IEEE
/// subtraction; NaN payloads aside, the result is fixed by the operand bits.
#[verifier::external_body]
fn sub_raw(a: Cplx, b: Cplx) -> (r: Cplx)
    ensures
        (canon_bits(r.re), canon_bits(r.im)) == sub_bits(a.re, a.im, b.re, b.im),
{
    let x = num_complex::Complex64::new(
        FromBytes::from_be_bytes(&a.re.to_be_bytes()),
        FromBytes::from_be_bytes(&a.im.to_be_bytes()),
    );
    let y = num_complex::Complex64::new(
        FromBytes::from_be_bytes(&b.re.to_be_bytes()),
        FromBytes::from_be_bytes(&b.im.to_be_bytes()),
    );
    let z = x - y;
    Cplx { re: z.re.to_bits(), im: z.im.to_bits() }
}

/// Relies on num_complex's `Mul` for `Complex<f64>`: the product
/// `(ac - bd) + i (ad + bc)` in IEEE arithmetic; NaN payloads aside, the
/// result is fixed by the operand bits.
#[verifier::external_body]
fn mul_raw(a: Cplx, b: Cplx) -> (r: Cplx)
    ensures
        (canon_bits(r.re), canon_bits(r.im)) == mul_bits(a.re, a.im, b.re, b.im),
{
    let x = num_complex::Complex64::new(
        FromBytes::from_be_bytes(&a.re.to_be_bytes()),
        FromBytes::from_be_bytes(&a.im.to_be_bytes()),
    );
    let y = num_complex::Complex64::new(
        FromBytes::from_be_bytes(&b.re.to_be_bytes()),
        FromBytes::from_be_bytes(&b.im.to_be_bytes()),
    );
    let z = x * y;
    Cplx { re: z.re.to_bits(), im: z.im.to_bits() }
}

/// Relies on num_complex's `Div` for `Complex<f64>`: the quotient through
/// `norm_sqr` in IEEE arithmetic; NaN payloads aside, the result is fixed by
/// the operand bits.
#[verifier::external_body]
fn div_raw(a: Cplx, b: Cplx) -> (r: Cplx)
    ensures
        (canon_bits(r.re), canon_bits(r.im)) == div_bits(a.re, a.im, b.re, b.im),
{
    let x = num_complex::Complex64::new(
        FromBytes::from_be_bytes(&a.re.to_be_bytes()),
        FromBytes::from_be_bytes(&a.im.to_be_bytes()),
    );
    let y = num_complex::Complex64::new(
        FromBytes::from_be_bytes(&b.re.to_be_bytes()),
        FromBytes::from_be_bytes(&b.im.to_be_bytes()),
    );
    let z = x / y;
    Cplx { re: z.re.to_bits(), im: z.im.to_bits() }
}

/// Relies on num_complex's `sqrt` for `Complex<f64>`: the principal square
/// root. Its general branch goes through the platform's trigonometric
/// routines, so nothing is promised of the result bits.
#[verifier::external_body]
fn sqrt_raw(a: Cplx) -> Cplx {
    let x = num_complex::Complex64::new(
        FromBytes::from_be_bytes(&a.re.to_be_bytes()),
        FromBytes::from_be_bytes(&a.im.to_be_bytes()),
    );
    let z = x.sqrt();
    Cplx { re: z.re.to_bits(), im: z.im.to_bits() }
}

/// Relies on the division of Rust's double-precision floats, which follows
/// IEEE-754 exactly: NaN payloads aside, the quotient is fixed by the
/// operand bits. The operands are carried in as one complex value only to
/// recover their floating form from the bit patterns.
#[verifier::external_body]
fn rdiv_raw(a: u64, b: u64) -> (r: u64)
    ensures
        canon_bits(r) == rdiv_bits(a, b),
{
    let x = num_complex::Complex64::new(
        FromBytes::from_be_bytes(&a.to_be_bytes()),
        FromBytes::from_be_bytes(&b.to_be_bytes()),
    );
    (x.re / x.im).to_bits()
}

/// Relies on `f64::sqrt`, which IEEE-754 requires to be correctly rounded:
/// NaN payloads aside, the root is fixed by the operand bits. The operand
/// is carried in as one complex value only to recover its floating form.
#[verifier::external_body]
fn rsqrt_raw(a: u64) -> (r: u64)
    ensures
        canon_bits(r) == rsqrt_bits(a),
{
    let x = num_complex::Complex64::new(
        FromBytes::from_be_bytes(&a.to_be_bytes()),
        FromBytes::from_be_bytes(&a.to_be_bytes()),
    );
    x.re.sqrt().to_bits()
}

/// Relies on `f64::max`: returns the larger operand, or the other one when
/// one is NaN, so the result is one of the two operands; with both NaN the
/// platform picks a payload, hence the canonicalization. When the operands
/// compare equal, as the two zeros do, either may be returned; the
/// negative-zero pattern is therefore required out, and a tie is then only
/// ever between identical patterns, so the canonicalized result is a
/// function of the operand bits alone.
#[verifier::external_body]
fn rmax_raw(a: u64, b: u64) -> (r: u64)
    requires
        a != SIGN_MASK,
        b != SIGN_MASK,
    ensures
        canon_bits(r) == rmax_bits(a, b),
        canon_bits(r) == canon_bits(a) || canon_bits(r) == canon_bits(b),
        is_finite_bits(a) && is_finite_bits(b) ==> is_finite_bits(r),
{
    let x = num_complex::Complex64::new(
        FromBytes::from_be_bytes(&a.to_be_bytes()),
        FromBytes::from_be_bytes(&b.to_be_bytes()),
    );
    x.re.max(x.im).to_bits()
}

/// Relies on num_traits' `ToPrimitive::to_f64` for `i64`: the conversion to
/// the nearest double, defined for every `i64`, fixed by the argument alone.
#[verifier::external_body]
pub fn int_to_real(z: i64) -> (r: u64)
    ensures
        r == real_of_int(z),
{
    rand_distr::num_traits::ToPrimitive::to_f64(&z).unwrap().to_bits()
}

/// Complex addition with the canonical NaN pattern.
pub fn c_add(a: Cplx, b: Cplx) -> (r: Cplx)
    ensures
        r == spec_cadd(a, b),
{
    let z = add_raw(a, b);
    Cplx { re: canonize(z.re), im: canonize(z.im) }
}

/// Complex subtraction with the canonical NaN pattern.
pub fn c_sub(a: Cplx, b: Cplx) -> (r: Cplx)
    ensures
        r == spec_csub(a, b),
{
    let z = sub_raw(a, b);
    Cplx { re: canonize(z.re), im: canonize(z.im) }
}

/// Complex multiplication with the canonical NaN pattern.
pub fn c_mul(a: Cplx, b: Cplx) -> (r: Cplx)
    ensures
        r == spec_cmul(a, b),
{
    let z = mul_raw(a, b);
    Cplx { re: canonize(z.re), im: canonize(z.im) }
}

/// Complex division with the canonical NaN pattern.
pub fn c_div(a: Cplx, b: Cplx) -> (r: Cplx)
    ensures
        r == spec_cdiv(a, b),
{
    let z = div_raw(a, b);
    Cplx { re: canonize(z.re), im: canonize(z.im) }
}

/// The complex conjugate, an exact sign-bit flip of the imaginary part.
pub fn c_conj(a: Cplx) -> (r: Cplx)
    ensures
        r == spec_conj(a),
{
    Cplx { re: a.re, im: a.im ^ SIGN_MASK }
}

/// The complex negation, an exact sign-bit flip of both parts.
pub fn c_neg(a: Cplx) -> (r: Cplx)
    ensures
        r == spec_cneg(a),
{
    Cplx { re: a.re ^ SIGN_MASK, im: a.im ^ SIGN_MASK }
}

/// The principal complex square root; only used to derive the roots of
/// unity, of whose bits nothing is stated.
pub fn c_sqrt(a: Cplx) -> Cplx {
    sqrt_raw(a)
}

/// Real division with the canonical NaN pattern.
pub fn r_div(a: u64, b: u64) -> (r: u64)
    ensures
        r == rdiv_bits(a, b),
{
    canonize(rdiv_raw(a, b))
}

/// Real square root with the canonical NaN pattern.
pub fn r_sqrt(a: u64) -> (r: u64)
    ensures
        r == rsqrt_bits(a),
{
    canonize(rsqrt_raw(a))
}

/// Real maximum with the canonical NaN pattern. A negative-zero operand is
/// first rewritten to plus zero, the same number, so that the outcome is
/// fixed by the operand bits.
pub fn r_max(a: u64, b: u64) -> (r: u64)
    ensures
        r == rmax_bits(unsign_zero(a), unsign_zero(b)),
        is_finite_bits(a) && is_finite_bits(b) ==> is_finite_bits(r),
{
    proof {
        assert(0u64 & 0x7ff0000000000000u64 == 0u64) by (bit_vector);
    }
    let an = if a == SIGN_MASK { 0 } else { a };
    let bn = if b == SIGN_MASK { 0 } else { b };
    let z = rmax_raw(an, bn);
    canonize(z)
}

/// Whether the pattern denotes a finite number.
pub fn finite(x: u64) -> (r: bool)
    ensures
        r == is_finite_bits(x),
{
    x & EXP_MASK != EXP_MASK
}

} // verus!
