//! Decoding and encoding of fixed-width values: scalars, field elements and
//! points, rejecting truncated or out-of-range input.
use crate::bytes::be_val;
use crate::curve::{
    fe_canonical, field_prime, fp, group_order, scalar_canonical, AffinePoint, FieldElement, Scalar,
};
use crate::error::VrfError;
use crate::gadget::is_on_curve;
use vstd::prelude::*;

verus! {

/// Copies the 32 bytes that start at `start`.
fn take32(b: &[u8], start: usize) -> (r: [u8; 32])
    requires
        start + 32 <= b@.len(),
    ensures
        r@ == b@.subrange(start as int, start + 32),
{
    let mut r = [0u8; 32];
    let n = b.len();
    let mut i: usize = 0;
    while i < 32
        invariant
            0 <= i <= 32,
            n == b@.len(),
            start + 32 <= n,
            forall|j: int| 0 <= j < i ==> r@[j] == b@[start + j],
        decreases 32 - i,
    {
        r[i] = b[start + i];
        i = i + 1;
    }
    assert(r@ =~= b@.subrange(start as int, start + 32));
    r
}

/// Decodes a scalar from exactly 32 big-endian bytes below the group order.
pub fn bytes_to_scalar(b: &[u8]) -> (r: Result<Scalar, VrfError>)
    ensures
        (b@.len() == 32 && be_val(b@) < group_order()) <==> r is Ok,
        r is Ok ==> r->Ok_0.bytes@ == b@,
        r is Err ==> r->Err_0 == VrfError::MalformedEncoding,
{
    if b.len() != 32 {
        return Err(VrfError::MalformedEncoding);
    }
    let s = Scalar { bytes: take32(b, 0) };
    assert(b@.subrange(0, 32) =~= b@);
    if !scalar_canonical(&s) {
        return Err(VrfError::MalformedEncoding);
    }
    Ok(s)
}

/// The 32 big-endian bytes of a scalar.
pub fn scalar_to_vector32(s: &Scalar) -> (r: Vec<u8>)
    ensures
        r@ == s.bytes@,
{
    let mut r: Vec<u8> = Vec::new();
    crate::hashing::append32(&mut r, &s.bytes);
    assert(r@ =~= s.bytes@);
    r
}

/// Decodes a field element from exactly 32 big-endian bytes below the
/// field prime.
pub fn bytes_to_field(b: &[u8]) -> (r: Result<FieldElement, VrfError>)
    ensures
        (b@.len() == 32 && be_val(b@) < field_prime()) <==> r is Ok,
        r is Ok ==> r->Ok_0.bytes@ == b@,
        r is Err ==> r->Err_0 == VrfError::MalformedEncoding,
{
    if b.len() != 32 {
        return Err(VrfError::MalformedEncoding);
    }
    let f = FieldElement { bytes: take32(b, 0) };
    assert(b@.subrange(0, 32) =~= b@);
    if !fe_canonical(&f) {
        return Err(VrfError::MalformedEncoding);
    }
    Ok(f)
}

/// 64 bytes whose halves are both below the field prime.
pub open spec fn point_encoding_ok(b: Seq<u8>) -> bool {
    b.len() == 64 && be_val(b.subrange(0, 32)) < field_prime() && be_val(b.subrange(32, 64))
        < field_prime()
}

/// The coordinates satisfy y^2 = x^3 + 7.
pub open spec fn coords_on_curve(x: nat, y: nat) -> bool {
    fp((y * y) as int) == fp((x * x * x + 7) as int)
}

/// Decodes a point from 64 bytes, x then y. Wrong lengths and coordinates
/// not below the field prime are malformed; coordinates off the curve are
/// an invalid point.
pub fn bytes_to_point(b: &[u8]) -> (r: Result<AffinePoint, VrfError>)
    ensures
        !point_encoding_ok(b@) <==> r == Err::<AffinePoint, VrfError>(VrfError::MalformedEncoding),
        point_encoding_ok(b@) && !coords_on_curve(be_val(b@.subrange(0, 32)), be_val(b@.subrange(32, 64)))
            <==> r == Err::<AffinePoint, VrfError>(VrfError::InvalidPoint),
        r is Ok ==> r->Ok_0.valid() && !r->Ok_0.infinity && r->Ok_0.encoding() == b@,
{
    if b.len() != 64 {
        return Err(VrfError::MalformedEncoding);
    }
    let x = FieldElement { bytes: take32(b, 0) };
    let y = FieldElement { bytes: take32(b, 32) };
    if !(fe_canonical(&x) && fe_canonical(&y)) {
        return Err(VrfError::MalformedEncoding);
    }
    let p = AffinePoint { x, y, infinity: false };
    if !is_on_curve(&p) {
        return Err(VrfError::InvalidPoint);
    }
    assert(p.encoding() =~= b@);
    Ok(p)
}

} // verus!
