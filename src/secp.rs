//! The arithmetic of secp256k1, carried out by the `libsecp256k1` crate on
//! the plain values of `curve`.
use crate::bytes::be_val;
use crate::curve::{
    ec_add, ec_mul, field_prime, fp, fq, on_curve, fp_inv, generator, AffinePoint, FieldElement, Scalar,
};
use libsecp256k1::curve::{Affine, Field, Jacobian, Scalar as LibScalar};
use libsecp256k1::{ECMULT_CONTEXT, ECMULT_GEN_CONTEXT};
use vstd::prelude::*;

verus! {

/// Relies on `Field::mul` and `Field::normalize` of libsecp256k1: the
/// canonical product modulo the field prime.
#[verifier::external_body]
pub(crate) fn fe_mul(a: &FieldElement, b: &FieldElement) -> (r: FieldElement)
    requires
        a.wf(),
        b.wf(),
    ensures
        r.wf(),
        r.value() == fp((a.value() * b.value()) as int),
{
    let (mut x, mut y) = (Field::default(), Field::default());
    let _ = (x.set_b32(&a.bytes), y.set_b32(&b.bytes));
    let mut r = x * y;
    r.normalize();
    FieldElement { bytes: r.b32() }
}

/// Relies on `Field::add` and `Field::normalize` of libsecp256k1: the
/// canonical sum modulo the field prime.
#[verifier::external_body]
pub(crate) fn fe_add(a: &FieldElement, b: &FieldElement) -> (r: FieldElement)
    requires
        a.wf(),
        b.wf(),
    ensures
        r.wf(),
        r.value() == fp((a.value() + b.value()) as int),
{
    let (mut x, mut y) = (Field::default(), Field::default());
    let _ = (x.set_b32(&a.bytes), y.set_b32(&b.bytes));
    let mut r = x + y;
    r.normalize();
    FieldElement { bytes: r.b32() }
}

/// Relies on `Field::neg` (magnitude 1) and `Field::normalize` of
/// libsecp256k1: the canonical additive inverse.
#[verifier::external_body]
pub(crate) fn fe_neg(a: &FieldElement) -> (r: FieldElement)
    requires
        a.wf(),
    ensures
        r.wf(),
        r.value() == fp(-(a.value() as int)),
{
    let mut x = Field::default();
    let _ = x.set_b32(&a.bytes);
    let mut r = x.neg(1);
    r.normalize();
    FieldElement { bytes: r.b32() }
}

/// Relies on `Field::inv` and `Field::normalize` of libsecp256k1: the
/// power a^(p-2), which is the inverse of a non-zero a and zero for zero.
#[verifier::external_body]
pub(crate) fn fe_inv(a: &FieldElement) -> (r: FieldElement)
    requires
        a.wf(),
    ensures
        r.wf(),
        r.value() == fp_inv(a.value() as int),
{
    let mut x = Field::default();
    let _ = x.set_b32(&a.bytes);
    let mut r = x.inv();
    r.normalize();
    FieldElement { bytes: r.b32() }
}

/// Relies on `Field::sqrt` and `Field::normalize` of libsecp256k1: the flag
/// tells whether the result squares to `a`; when it does not, the result
/// squares to `-a`.
#[verifier::external_body]
pub(crate) fn fe_sqrt(a: &FieldElement) -> (r: (FieldElement, bool))
    requires
        a.wf(),
    ensures
        r.0.wf(),
        r.1 == (fp((r.0.value() * r.0.value()) as int) == a.value()),
        (exists|z: int| 0 <= z < field_prime() && #[trigger] fp(z * z) == a.value()) ==> r.1,
        !r.1 ==> fp((r.0.value() * r.0.value()) as int) == fp(-(a.value() as int)),
{
    let mut x = Field::default();
    let _ = x.set_b32(&a.bytes);
    let (mut r, ok) = x.sqrt();
    r.normalize();
    (FieldElement { bytes: r.b32() }, ok)
}

/// Relies on `Scalar::set_b32` of libsecp256k1: 32 big-endian bytes reduced
/// modulo the group order.
#[verifier::external_body]
pub(crate) fn scalar_from_bytes(b: &[u8; 32]) -> (r: Scalar)
    ensures
        r.wf(),
        r.value() == fq(be_val(b@) as int),
{
    let mut s = LibScalar::default();
    let _ = s.set_b32(b);
    Scalar { bytes: s.b32() }
}

/// Relies on `Scalar::mul` of libsecp256k1: the product modulo the group
/// order.
#[verifier::external_body]
pub(crate) fn scalar_mul(a: &Scalar, b: &Scalar) -> (r: Scalar)
    requires
        a.wf(),
        b.wf(),
    ensures
        r.wf(),
        r.value() == fq((a.value() * b.value()) as int),
{
    let (mut x, mut y) = (LibScalar::default(), LibScalar::default());
    let _ = (x.set_b32(&a.bytes), y.set_b32(&b.bytes));
    Scalar { bytes: (x * y).b32() }
}

/// Relies on `Scalar::add` of libsecp256k1: the sum modulo the group order.
#[verifier::external_body]
pub(crate) fn scalar_add(a: &Scalar, b: &Scalar) -> (r: Scalar)
    requires
        a.wf(),
        b.wf(),
    ensures
        r.wf(),
        r.value() == fq((a.value() + b.value()) as int),
{
    let (mut x, mut y) = (LibScalar::default(), LibScalar::default());
    let _ = (x.set_b32(&a.bytes), y.set_b32(&b.bytes));
    Scalar { bytes: (x + y).b32() }
}

/// Relies on `Scalar::neg` of libsecp256k1: the additive inverse modulo the
/// group order.
#[verifier::external_body]
pub(crate) fn scalar_neg(a: &Scalar) -> (r: Scalar)
    requires
        a.wf(),
    ensures
        r.wf(),
        r.value() == fq(-(a.value() as int)),
{
    let mut x = LibScalar::default();
    let _ = x.set_b32(&a.bytes);
    Scalar { bytes: (-x).b32() }
}

/// Relies on `ECMultContext::ecmult` of libsecp256k1 (through its static
/// context) and `Affine::from_gej`: `na·a + ng·G`, with canonical
/// coordinates unless the result is the point at infinity. The point `a`
/// must be finite: the precomputed table of its odd multiples assumes so.
#[verifier::external_body]
pub(crate) fn ecmult_double(a: &AffinePoint, na: &Scalar, ng: &Scalar) -> (r: AffinePoint)
    requires
        a.valid(),
        !a.infinity,
        na.wf(),
        ng.wf(),
    ensures
        r@ == ec_add(ec_mul(na.value(), a@), ec_mul(ng.value(), generator())),
        on_curve(r@),
        !r.infinity ==> r.x.wf() && r.y.wf(),
{
    let mut pa = Affine::default();
    let _ = (pa.x.set_b32(&a.x.bytes), pa.y.set_b32(&a.y.bytes));
    pa.infinity = a.infinity;
    let (mut sa, mut sg) = (LibScalar::default(), LibScalar::default());
    let _ = (sa.set_b32(&na.bytes), sg.set_b32(&ng.bytes));
    let mut rj = Jacobian::default();
    ECMULT_CONTEXT.ecmult(&mut rj, &Jacobian::from_ge(&pa), &sa, &sg);
    let mut ra = Affine::from_gej(&rj);
    ra.x.normalize();
    ra.y.normalize();
    AffinePoint { x: FieldElement { bytes: ra.x.b32() }, y: FieldElement { bytes: ra.y.b32() }, infinity: ra.infinity }
}

/// Relies on `ECMultGenContext::ecmult_gen` of libsecp256k1 (through its
/// static context) and `Affine::from_gej`: `k·G`, with canonical
/// coordinates unless the result is the point at infinity.
#[verifier::external_body]
pub(crate) fn ecmult_gen_raw(k: &Scalar) -> (r: AffinePoint)
    requires
        k.wf(),
    ensures
        r@ == ec_mul(k.value(), generator()),
        on_curve(r@),
        !r.infinity ==> r.x.wf() && r.y.wf(),
{
    let mut s = LibScalar::default();
    let _ = s.set_b32(&k.bytes);
    let mut rj = Jacobian::default();
    ECMULT_GEN_CONTEXT.ecmult_gen(&mut rj, &s);
    let mut ra = Affine::from_gej(&rj);
    ra.x.normalize();
    ra.y.normalize();
    AffinePoint { x: FieldElement { bytes: ra.x.b32() }, y: FieldElement { bytes: ra.y.b32() }, infinity: ra.infinity }
}

/// Relies on `Jacobian::add_ge_var` of libsecp256k1 (which admits the point
/// at infinity on either side) and `Affine::from_gej`: the sum `a + b`, with
/// canonical coordinates unless it is the point at infinity.
#[verifier::external_body]
pub(crate) fn point_add_raw(a: &AffinePoint, b: &AffinePoint) -> (r: AffinePoint)
    requires
        a.valid(),
        b.valid(),
    ensures
        r@ == ec_add(a@, b@),
        on_curve(r@),
        !r.infinity ==> r.x.wf() && r.y.wf(),
{
    let (mut pa, mut pb) = (Affine::default(), Affine::default());
    let _ = (pa.x.set_b32(&a.x.bytes), pa.y.set_b32(&a.y.bytes), pb.x.set_b32(&b.x.bytes), pb.y.set_b32(&b.y.bytes));
    (pa.infinity, pb.infinity) = (a.infinity, b.infinity);
    let rj = Jacobian::from_ge(&pa).add_ge_var(&pb, None);
    let mut ra = Affine::from_gej(&rj);
    ra.x.normalize();
    ra.y.normalize();
    AffinePoint { x: FieldElement { bytes: ra.x.b32() }, y: FieldElement { bytes: ra.y.b32() }, infinity: ra.infinity }
}

} // verus!
