//! Field elements, scalars and points of secp256k1 as plain values, their
//! mathematical meaning, and the arithmetic on them.
use crate::bytes::{be_bytes, be_val, lemma_be_bytes_of, lemma_be_injective, bytes_eq, bytes_gt, bytes_gte, lemma_be_parity, lemma_be_zeros};
use vstd::arithmetic::power::pow;
use vstd::arithmetic::power2::{lemma2_to64, lemma2_to64_rest, lemma_pow2_adds, pow2};
use vstd::prelude::*;

verus! {

/// The field prime p = 2^256 - 2^32 - 977.
pub open spec fn field_prime() -> nat {
    (pow2(256) - 0x1000003D1) as nat
}

/// The order n of the group generated by the base point.
pub open spec fn group_order() -> nat {
    (pow2(256) - pow2(128) - 0x4551231950B75FC4402DA1732FC9BEBF) as nat
}

/// Reduction modulo the field prime.
pub open spec fn fp(a: int) -> int {
    a % (field_prime() as int)
}

/// Reduction modulo the group order.
pub open spec fn fq(a: int) -> int {
    a % (group_order() as int)
}

/// The multiplicative inverse in the field, by Fermat (zero maps to zero).
pub open spec fn fp_inv(a: int) -> int {
    pow(fp(a), (field_prime() - 2) as nat) % (field_prime() as int)
}

/// A point of the curve y^2 = x^3 + 7 over the field, or the point at
/// infinity.
pub struct EcPoint {
    pub x: int,
    pub y: int,
    pub inf: bool,
}

pub open spec fn ec_infinity() -> EcPoint {
    EcPoint { x: 0, y: 0, inf: true }
}

/// Whether a point lies on the curve (the point at infinity does).
pub open spec fn on_curve(p: EcPoint) -> bool {
    p.inf || (0 <= p.x < field_prime() && 0 <= p.y < field_prime() && fp(p.y * p.y) == fp(
        p.x * p.x * p.x + 7,
    ))
}

/// The group law of the curve.
pub open spec fn ec_add(p: EcPoint, q: EcPoint) -> EcPoint {
    if p.inf {
        q
    } else if q.inf {
        p
    } else if p.x == q.x && fp(p.y + q.y) == 0 {
        ec_infinity()
    } else {
        let l = if p.x == q.x {
            fp(3 * p.x * p.x * fp_inv(2 * p.y))
        } else {
            fp((q.y - p.y) * fp_inv(q.x - p.x))
        };
        let x3 = fp(l * l - p.x - q.x);
        EcPoint { x: x3, y: fp(l * (p.x - x3) - p.y), inf: false }
    }
}

/// `k` times the point `p`.
pub open spec fn ec_mul(k: nat, p: EcPoint) -> EcPoint
    decreases k,
{
    if k == 0 {
        ec_infinity()
    } else {
        ec_add(ec_mul((k - 1) as nat, p), p)
    }
}

/// The base point G.
pub open spec fn generator() -> EcPoint {
    EcPoint {
        x: (0x79BE667EF9DCBBAC55A06295CE870B07 * pow2(128) + 0x029BFCDB2DCE28D959F2815B16F81798) as int,
        y: (0x483ADA7726A3C4655DA4FBFC0E1108A8 * pow2(128) + 0xFD17B448A68554199C47D08FFB10D4B8) as int,
        inf: false,
    }
}

/// The constants 2^128 and 2^256, for proofs about literal encodings.
pub proof fn lemma_pow2_256()
    ensures
        pow2(128) == 0x100000000000000000000000000000000,
        pow2(256) == pow2(128) * pow2(128),
{
    lemma2_to64();
    lemma2_to64_rest();
    lemma_pow2_adds(64, 64);
    lemma_pow2_adds(128, 128);
}

/// An element of the field, as its 32-byte big-endian encoding.
#[derive(Clone, Copy, Debug, PartialEq, Eq)]
pub struct FieldElement {
    pub bytes: [u8; 32],
}

impl FieldElement {
    pub open spec fn value(self) -> nat {
        be_val(self.bytes@)
    }

    /// The encoding is the canonical one: below the field prime.
    pub open spec fn wf(self) -> bool {
        self.value() < field_prime()
    }
}

/// An integer modulo the group order, as its 32-byte big-endian encoding.
#[derive(Clone, Copy, Debug, PartialEq, Eq)]
pub struct Scalar {
    pub bytes: [u8; 32],
}

impl Scalar {
    pub open spec fn value(self) -> nat {
        be_val(self.bytes@)
    }

    /// The encoding is reduced: below the group order.
    pub open spec fn wf(self) -> bool {
        self.value() < group_order()
    }
}

/// The field prime, as a scalar-width encoding.
pub fn field_size() -> (r: Scalar)
    ensures
        r.value() == field_prime(),
{
    let bytes: [u8; 32] = [
        0xFF, 0xFF, 0xFF, 0xFF, 0xFF, 0xFF, 0xFF, 0xFF, 0xFF, 0xFF, 0xFF, 0xFF, 0xFF, 0xFF, 0xFF, 0xFF,
        0xFF, 0xFF, 0xFF, 0xFF, 0xFF, 0xFF, 0xFF, 0xFF, 0xFF, 0xFF, 0xFF, 0xFE, 0xFF, 0xFF, 0xFC, 0x2F,
    ];
    proof {
        reveal_with_fuel(be_val, 33);
        lemma_pow2_256();
    }
    Scalar { bytes }
}

/// The group order, as a scalar-width encoding.
pub fn group_order_scalar() -> (r: Scalar)
    ensures
        r.value() == group_order(),
{
    let bytes: [u8; 32] = [
        0xFF, 0xFF, 0xFF, 0xFF, 0xFF, 0xFF, 0xFF, 0xFF, 0xFF, 0xFF, 0xFF, 0xFF, 0xFF, 0xFF, 0xFF, 0xFE,
        0xBA, 0xAE, 0xDC, 0xE6, 0xAF, 0x48, 0xA0, 0x3B, 0xBF, 0xD2, 0x5E, 0x8C, 0xD0, 0x36, 0x41, 0x41,
    ];
    proof {
        reveal_with_fuel(be_val, 33);
        lemma_pow2_256();
    }
    Scalar { bytes }
}

/// The group order lies below the field prime.
pub proof fn lemma_order_below_prime()
    ensures
        group_order() < field_prime(),
        0x1000 < group_order(),
{
    lemma_pow2_256();
}

/// The field prime is odd.
pub proof fn lemma_prime_odd()
    ensures
        field_prime() % 2 == 1,
        field_prime() > 7,
{
    lemma_pow2_256();
}

/// Whether `a` is greater than `b` as integers.
pub fn scalar_is_gt(a: &Scalar, b: &Scalar) -> (r: bool)
    ensures
        r == (a.value() > b.value()),
{
    bytes_gt(&a.bytes, &b.bytes)
}

/// Whether `a` is at least `b` as integers.
pub fn scalar_is_gte(a: &Scalar, b: &Scalar) -> (r: bool)
    ensures
        r == (a.value() >= b.value()),
{
    bytes_gte(&a.bytes, &b.bytes)
}

/// A point in affine coordinates; `infinity` marks the point at infinity.
#[derive(Clone, Copy, Debug, PartialEq, Eq)]
pub struct AffinePoint {
    pub x: FieldElement,
    pub y: FieldElement,
    pub infinity: bool,
}

impl View for AffinePoint {
    type V = EcPoint;

    open spec fn view(&self) -> EcPoint {
        if self.infinity {
            ec_infinity()
        } else {
            EcPoint { x: self.x.value() as int, y: self.y.value() as int, inf: false }
        }
    }
}

impl AffinePoint {
    /// Both coordinates are canonical, and the point at infinity carries
    /// zero coordinates.
    pub open spec fn wf(self) -> bool {
        &&& self.x.wf()
        &&& self.y.wf()
        &&& self.infinity ==> self.x.value() == 0 && self.y.value() == 0
    }

    /// A canonical encoding of a point of the curve.
    pub open spec fn valid(self) -> bool {
        self.wf() && on_curve(self@)
    }

    /// The 64 bytes that are hashed for the point: x, then y.
    /// For a valid point they are `point_bytes` of its view.
    pub open spec fn encoding(self) -> Seq<u8> {
        self.x.bytes@ + self.y.bytes@
    }
}

/// The 64-byte encoding of a point: x, then y, each in 32 big-endian
/// bytes (the point at infinity has zero coordinates).
pub open spec fn point_bytes(p: EcPoint) -> Seq<u8> {
    be_bytes(p.x as nat, 32) + be_bytes(p.y as nat, 32)
}

/// A valid point is hashed as the encoding of its view.
pub proof fn lemma_encoding(p: AffinePoint)
    requires
        p.wf(),
    ensures
        p.encoding() == point_bytes(p@),
{
    lemma_be_bytes_of(p.x.bytes@);
    lemma_be_bytes_of(p.y.bytes@);
}

/// A point in projective coordinates (X, Y, Z).
#[derive(Clone, Copy, Debug, PartialEq, Eq)]
pub struct JacobianPoint {
    pub x: FieldElement,
    pub y: FieldElement,
    pub z: FieldElement,
}

/// The field element zero.
pub fn fe_zero() -> (r: FieldElement)
    ensures
        r.value() == 0,
        r.wf(),
{
    let r = FieldElement { bytes: [0u8; 32] };
    proof {
        lemma_be_zeros(r.bytes@);
        lemma_pow2_256();
    }
    r
}

/// A small integer as a field element.
pub fn fe_from_u8(v: u8) -> (r: FieldElement)
    ensures
        r.value() == v,
        r.wf(),
{
    let mut bytes = [0u8; 32];
    bytes[31] = v;
    proof {
        lemma_be_zeros(bytes@.drop_last());
        lemma_pow2_256();
    }
    FieldElement { bytes }
}

/// A small integer as a scalar.
pub fn scalar_from_u8(v: u8) -> (r: Scalar)
    ensures
        r.value() == v,
        r.wf(),
{
    let f = fe_from_u8(v);
    proof {
        lemma_order_below_prime();
    }
    Scalar { bytes: f.bytes }
}

/// The point at infinity.
pub fn affine_infinity() -> (r: AffinePoint)
    ensures
        r@ == ec_infinity(),
        r.valid(),
{
    AffinePoint { x: fe_zero(), y: fe_zero(), infinity: true }
}

/// The base point G.
pub fn affine_g() -> (r: AffinePoint)
    ensures
        r@ == generator(),
        r.valid(),
{
    let x: [u8; 32] = [
        0x79, 0xBE, 0x66, 0x7E, 0xF9, 0xDC, 0xBB, 0xAC, 0x55, 0xA0, 0x62, 0x95, 0xCE, 0x87, 0x0B, 0x07,
        0x02, 0x9B, 0xFC, 0xDB, 0x2D, 0xCE, 0x28, 0xD9, 0x59, 0xF2, 0x81, 0x5B, 0x16, 0xF8, 0x17, 0x98,
    ];
    let y: [u8; 32] = [
        0x48, 0x3A, 0xDA, 0x77, 0x26, 0xA3, 0xC4, 0x65, 0x5D, 0xA4, 0xFB, 0xFC, 0x0E, 0x11, 0x08, 0xA8,
        0xFD, 0x17, 0xB4, 0x48, 0xA6, 0x85, 0x54, 0x19, 0x9C, 0x47, 0xD0, 0x8F, 0xFB, 0x10, 0xD4, 0xB8,
    ];
    proof {
        reveal_with_fuel(be_val, 33);
        lemma_pow2_256();
    }
    proof {
        lemma_generator_on_curve();
    }
    AffinePoint { x: FieldElement { bytes: x }, y: FieldElement { bytes: y }, infinity: false }
}

/// The base point lies on the curve.
pub proof fn lemma_generator_on_curve()
    ensures
        on_curve(generator()),
{
    lemma_pow2_256();
    let g = generator();
    assert(g.x == 0x79BE667EF9DCBBAC55A06295CE870B07029BFCDB2DCE28D959F2815B16F81798);
    assert(g.y == 0x483ADA7726A3C4655DA4FBFC0E1108A8FD17B448A68554199C47D08FFB10D4B8);
    assert(field_prime() == 0xFFFFFFFFFFFFFFFFFFFFFFFFFFFFFFFFFFFFFFFFFFFFFFFFFFFFFFFEFFFFFC2F);
    assert(fp(g.y * g.y) == fp(g.x * g.x * g.x + 7)) by (nonlinear_arith)
        requires
            g.x == 0x79BE667EF9DCBBAC55A06295CE870B07029BFCDB2DCE28D959F2815B16F81798,
            g.y == 0x483ADA7726A3C4655DA4FBFC0E1108A8FD17B448A68554199C47D08FFB10D4B8,
            field_prime() == 0xFFFFFFFFFFFFFFFFFFFFFFFFFFFFFFFFFFFFFFFFFFFFFFFFFFFFFFFEFFFFFC2F,
    ;
}

/// Whether two field elements are equal.
pub fn fe_eq(a: &FieldElement, b: &FieldElement) -> (r: bool)
    ensures
        r == (a.value() == b.value()),
        r == (a.bytes@ == b.bytes@),
{
    let r = bytes_eq(&a.bytes, &b.bytes);
    proof {
        if !r && a.value() == b.value() {
            crate::bytes::lemma_be_injective(a.bytes@, b.bytes@);
        }
    }
    r
}

/// Whether a canonical field element is odd.
pub fn fe_is_odd(a: &FieldElement) -> (r: bool)
    ensures
        r == (a.value() % 2 == 1),
{
    let b = a.bytes[31];
    proof {
        lemma_be_parity(a.bytes@);
        assert(b & 1 == b % 2) by (bit_vector);
    }
    b & 1 == 1
}

/// Whether a field element is canonical: below the field prime.
pub fn fe_canonical(f: &FieldElement) -> (r: bool)
    ensures
        r == f.wf(),
{
    let bound = field_size();
    !scalar_is_gte(&Scalar { bytes: f.bytes }, &bound)
}

/// Whether a scalar is reduced.
pub fn scalar_canonical(a: &Scalar) -> (r: bool)
    ensures
        r == a.wf(),
{
    let bound = group_order_scalar();
    !scalar_is_gte(a, &bound)
}

/// Whether two scalars have one encoding.
pub fn scalar_eq(a: &Scalar, b: &Scalar) -> (r: bool)
    ensures
        r == (a.value() == b.value()),
{
    let r = bytes_eq(&a.bytes, &b.bytes);
    proof {
        if !r && a.value() == b.value() {
            lemma_be_injective(a.bytes@, b.bytes@);
        }
    }
    r
}

} // verus!
