//! Keccak-256 based derivations: scalars and field elements from bytes and
//! from points, witness addresses, and hashing to the curve by
//! try-and-increment.
use crate::bytes::{be_val, lemma_be_split, lemma_be_zeros};
use crate::curve::{
    field_prime, field_size, fp, fq, group_order, lemma_order_below_prime, AffinePoint,
    FieldElement, Scalar,
};
use crate::curve::fe_is_odd;
use crate::gadget::{is_on_curve, y_squared};
use crate::secp::{fe_neg, fe_sqrt, scalar_from_bytes};
use tiny_keccak::Hasher;
use vstd::prelude::*;

verus! {

/// The Keccak-256 digest of a byte string.
pub uninterp spec fn keccak256_of(data: Seq<u8>) -> Seq<u8>;

/// Relies on tiny_keccak's `Keccak::v256` (update, then finalize): the
/// 32-byte Keccak-256 digest, a function of the input alone.
#[verifier::external_body]
pub(crate) fn keccak256(data: &[u8]) -> (r: [u8; 32])
    ensures
        r@ == keccak256_of(data@),
{
    let mut output = [0u8; 32];
    let mut hasher = tiny_keccak::Keccak::v256();
    hasher.update(data);
    hasher.finalize(&mut output);
    output
}

/// Appends 32 bytes to a buffer.
pub fn append32(buf: &mut Vec<u8>, b: &[u8; 32])
    ensures
        final(buf)@ == old(buf)@ + b@,
{
    let mut i: usize = 0;
    while i < 32
        invariant
            0 <= i <= 32,
            buf@ == old(buf)@ + b@.subrange(0, i as int),
        decreases 32 - i,
    {
        buf.push(b[i]);
        assert(b@.subrange(0, i + 1) =~= b@.subrange(0, i as int).push(b@[i as int]));
        i = i + 1;
    }
    assert(b@.subrange(0, 32) =~= b@);
}

/// The Keccak-256 digest of a point's encoding, x then y.
pub fn keccak256_affine(a: &AffinePoint) -> (r: [u8; 32])
    ensures
        r@ == keccak256_of(a.encoding()),
{
    let mut buf: Vec<u8> = Vec::new();
    append32(&mut buf, &a.x.bytes);
    append32(&mut buf, &a.y.bytes);
    keccak256(buf.as_slice())
}

/// The digest of a point's encoding read as a scalar.
pub fn keccak256_affine_scalar(a: &AffinePoint) -> (r: Scalar)
    ensures
        r.wf(),
        r.value() == fq(be_val(keccak256_of(a.encoding())) as int),
{
    scalar_from_bytes(&keccak256_affine(a))
}

/// The digest of a byte string read as a scalar.
pub fn keccak256_vec_scalar(a: &Vec<u8>) -> (r: Scalar)
    ensures
        r.wf(),
        r.value() == fq(be_val(keccak256_of(a@)) as int),
{
    scalar_from_bytes(&keccak256(a.as_slice()))
}

/// The address of a point: the last 20 bytes of the digest of its encoding.
pub open spec fn address_of(a: AffinePoint) -> Seq<u8> {
    keccak256_of(a.encoding()).subrange(12, 32)
}

/// The witness address of a point.
pub fn calculate_witness_address(witness: &AffinePoint) -> (r: [u8; 20])
    ensures
        r@ == address_of(*witness),
{
    let digest = keccak256_affine(witness);
    let mut r = [0u8; 20];
    let mut i: usize = 0;
    while i < 20
        invariant
            0 <= i <= 20,
            digest@ == keccak256_of(witness.encoding()),
            forall|j: int| 0 <= j < i ==> r@[j] == digest@[12 + j],
        decreases 20 - i,
    {
        r[i] = digest[12 + i];
        i = i + 1;
    }
    assert(r@ =~= address_of(*witness));
    r
}

/// The address of a public key.
pub fn get_address(pub_key: &AffinePoint) -> (r: [u8; 20])
    ensures
        r@ == address_of(*pub_key),
{
    calculate_witness_address(pub_key)
}

/// An address as a scalar: its 20 bytes left-padded with zeros.
pub fn address_to_scalar(witness_address: &[u8; 20]) -> (r: Scalar)
    ensures
        r.wf(),
        r.value() == fq(be_val(witness_address@) as int),
{
    let mut temp_bytes = [0u8; 32];
    let mut i: usize = 0;
    while i < 20
        invariant
            0 <= i <= 20,
            forall|j: int| 0 <= j < 12 ==> temp_bytes@[j] == 0,
            forall|j: int| 0 <= j < i ==> temp_bytes@[12 + j] == witness_address@[j],
        decreases 20 - i,
    {
        temp_bytes[12 + i] = witness_address[i];
        i = i + 1;
    }
    proof {
        lemma_be_split(temp_bytes@, 12);
        lemma_be_zeros(temp_bytes@.subrange(0, 12));
        assert(temp_bytes@.subrange(12, 32) =~= witness_address@);
    }
    scalar_from_bytes(&temp_bytes)
}

/// Upper bound on the rehashing rounds of `field_hash` and on the
/// candidates that `hash_to_curve_prefix` tries.
pub const MAX_TRIES: usize = 256;

/// The field element that `field_hash` derives from a byte string: the
/// digest reduced as a scalar.
pub open spec fn field_hash_of(b: Seq<u8>) -> nat {
    fq(be_val(keccak256_of(b)) as int) as nat
}

/// Hashes a byte string to a field element: the digest is read as a scalar
/// and re-hashed while that scalar is not below the field prime.
pub fn field_hash(b: &Vec<u8>) -> (r: FieldElement)
    ensures
        r.wf(),
        r.value() == field_hash_of(b@),
{
    let mut digest = keccak256(b.as_slice());
    let mut s = scalar_from_bytes(&digest);
    let bound = field_size();
    let mut rounds: usize = 0;
    proof {
        lemma_order_below_prime();
    }
    // A reduced scalar already lies below the group order, which is below
    // the field prime: the rehashing rule is kept, and never fires.
    while rounds < MAX_TRIES && crate::curve::scalar_is_gte(&s, &bound)
        invariant
            s.wf(),
            s.value() == field_hash_of(b@),
            bound.value() == field_prime(),
            group_order() < field_prime(),
        decreases MAX_TRIES - rounds,
    {
        digest = keccak256(&digest);
        s = scalar_from_bytes(&digest);
        rounds = rounds + 1;
    }
    FieldElement { bytes: s.bytes }
}

/// x^3 + 7 for the abscissa x.
pub open spec fn curve_rhs(x: int) -> int {
    fp(x * x * x + 7)
}

/// A candidate point from a byte string: x is `field_hash` of the bytes, y
/// the even square root of x^3 + 7, or of its negation when x^3 + 7 has none.
pub fn new_candidate_point(b: &Vec<u8>) -> (r: AffinePoint)
    ensures
        r.wf(),
        !r.infinity,
        r.x.value() == field_hash_of(b@),
        r.y.value() % 2 == 0,
        fp((r.y.value() * r.y.value()) as int) == curve_rhs(r.x.value() as int)
            || fp((r.y.value() * r.y.value()) as int) == fp(-curve_rhs(r.x.value() as int)),
        (exists|z: int| 0 <= z < field_prime() && #[trigger] fp(z * z) == curve_rhs(r.x.value() as int))
            ==> fp((r.y.value() * r.y.value()) as int) == curve_rhs(r.x.value() as int),
{
    let x = field_hash(b);
    let rhs = y_squared(&x);
    let (mut y, _) = fe_sqrt(&rhs);
    if fe_is_odd(&y) {
        let ghost y0 = y.value() as int;
        y = fe_neg(&y);
        proof {
            let p = field_prime() as int;
            crate::curve::lemma_prime_odd();
            vstd::arithmetic::div_mod::lemma_mul_mod_noop(-y0, -y0, p);
            assert((-y0) * (-y0) == y0 * y0) by (nonlinear_arith);
            assert(fp(-y0) == p - y0) by {
                vstd::arithmetic::div_mod::lemma_mod_add_multiples_vanish(-y0, p);
                vstd::arithmetic::div_mod::lemma_small_mod((p - y0) as nat, p as nat);
            }
        }
    }
    AffinePoint { x, y, infinity: false }
}

/// Whether `a` is a square in the field.
pub open spec fn has_square_root(a: int) -> bool {
    exists|z: int| 0 <= z < field_prime() && #[trigger] fp(z * z) == a
}

/// The 32-byte big-endian encoding of one, the domain prefix of hashing to
/// the curve.
pub open spec fn curve_prefix() -> Seq<u8> {
    Seq::new(31, |i: int| 0u8).push(1u8)
}

/// The bytes from which hashing to the curve starts: the prefix, the public
/// key's encoding, then alpha.
pub open spec fn curve_seed(alpha: Scalar, pk: AffinePoint) -> Seq<u8> {
    curve_prefix() + pk.encoding() + alpha.bytes@
}

/// `seeds` lists the byte strings tried from `first` on: each later one is
/// the 32-byte encoding of the abscissa derived from the one before, and
/// every abscissa but the last gives no point of the curve.
pub open spec fn is_try_chain(seeds: Seq<Seq<u8>>, first: Seq<u8>) -> bool {
    &&& seeds.len() > 0
    &&& seeds[0] == first
    &&& forall|i: int|
        0 <= i < seeds.len() - 1 ==> {
            &&& (#[trigger] seeds[i + 1]).len() == 32
            &&& be_val(seeds[i + 1]) == field_hash_of(seeds[i])
            &&& !has_square_root(curve_rhs(field_hash_of(seeds[i]) as int))
        }
}

/// `h` is the point that hashing alpha and pk to the curve gives: the
/// candidate of the first seed, within the retry bound, whose x^3 + 7 is a
/// square, with the even root as y.
pub open spec fn is_curve_hash(alpha: Scalar, pk: AffinePoint, h: AffinePoint) -> bool {
    &&& h.valid()
    &&& !h.infinity
    &&& h.y.value() % 2 == 0
    &&& exists|seeds: Seq<Seq<u8>>|
        is_try_chain(seeds, curve_seed(alpha, pk)) && seeds.len() <= MAX_TRIES + 1 && h.x.value()
            == field_hash_of(#[trigger] seeds.last()) && has_square_root(
            curve_rhs(h.x.value() as int),
        )
}

/// Every candidate within the retry bound fails to lie on the curve.
pub open spec fn curve_hash_exhausted(alpha: Scalar, pk: AffinePoint) -> bool {
    exists|seeds: Seq<Seq<u8>>|
        is_try_chain(seeds, curve_seed(alpha, pk)) && seeds.len() == MAX_TRIES + 1
            && !has_square_root(curve_rhs(field_hash_of(#[trigger] seeds.last()) as int))
}

/// Builds the bytes from which hashing to the curve starts.
fn curve_seed_bytes(alpha: &Scalar, pk: &AffinePoint) -> (r: Vec<u8>)
    ensures
        r@ == curve_seed(*alpha, *pk),
{
    let mut prefix = [0u8; 32];
    prefix[31] = 1;
    let mut buf: Vec<u8> = Vec::new();
    append32(&mut buf, &prefix);
    append32(&mut buf, &pk.x.bytes);
    append32(&mut buf, &pk.y.bytes);
    append32(&mut buf, &alpha.bytes);
    assert(prefix@ =~= curve_prefix());
    assert(buf@ =~= curve_seed(*alpha, *pk));
    buf
}

/// Copies 32 bytes into a fresh buffer.
fn to_vec32(b: &[u8; 32]) -> (r: Vec<u8>)
    ensures
        r@ == b@,
{
    let mut r: Vec<u8> = Vec::new();
    append32(&mut r, b);
    assert(r@ =~= b@);
    r
}

/// Hashes alpha and a public key to a point of the curve by
/// try-and-increment: candidates are tried from the prefixed seed on, each
/// next seed being the abscissa of the candidate before.
pub fn hash_to_curve_prefix(alpha: &Scalar, pk: &AffinePoint) -> (r: Result<AffinePoint, crate::error::VrfError>)
    ensures
        match r {
            Ok(h) => is_curve_hash(*alpha, *pk, h),
            Err(e) => e == crate::error::VrfError::HashToCurveExhausted && curve_hash_exhausted(
                *alpha,
                *pk,
            ),
        },
{
    let mut seed = curve_seed_bytes(alpha, pk);
    let mut candidate = new_candidate_point(&seed);
    let ghost mut seeds: Seq<Seq<u8>> = seq![seed@];
    let mut tries: usize = 0;
    while !is_on_curve(&candidate)
        invariant
            0 <= tries <= MAX_TRIES,
            is_try_chain(seeds, curve_seed(*alpha, *pk)),
            seeds.len() == tries + 1,
            seeds.last() == seed@,
            candidate.wf(),
            !candidate.infinity,
            candidate.x.value() == field_hash_of(seed@),
            candidate.y.value() % 2 == 0,
            (fp((candidate.y.value() * candidate.y.value()) as int) == curve_rhs(candidate.x.value() as int)
                || fp((candidate.y.value() * candidate.y.value()) as int) == fp(-curve_rhs(candidate.x.value() as int))),
            has_square_root(curve_rhs(candidate.x.value() as int))
                ==> fp((candidate.y.value() * candidate.y.value()) as int) == curve_rhs(candidate.x.value() as int),
        decreases MAX_TRIES - tries,
    {
        if tries == MAX_TRIES {
            return Err(crate::error::VrfError::HashToCurveExhausted);
        }
        let next = to_vec32(&candidate.x.bytes);
        let ghost old_seeds = seeds;
        proof {
            seeds = seeds.push(next@);
            assert forall|i: int| 0 <= i < seeds.len() - 1 implies {
                &&& (#[trigger] seeds[i + 1]).len() == 32
                &&& be_val(seeds[i + 1]) == field_hash_of(seeds[i])
                &&& !has_square_root(curve_rhs(field_hash_of(seeds[i]) as int))
            } by {
                if i < old_seeds.len() - 1 {
                    assert(seeds[i + 1] == old_seeds[i + 1]);
                    assert(seeds[i] == old_seeds[i]);
                }
            }
        }
        seed = next;
        candidate = new_candidate_point(&seed);
        tries = tries + 1;
    }
    proof {
        let yv = candidate.y.value() as int;
        assert(0 <= yv < field_prime() && fp(yv * yv) == curve_rhs(candidate.x.value() as int));
        crate::curve::lemma_prime_odd();
    }
    Ok(candidate)
}

/// Hashing is a function of the bytes hashed: equal inputs give equal
/// digests, and so equal scalars and field elements.
pub proof fn lemma_hashing_deterministic(a: Seq<u8>, b: Seq<u8>)
    requires
        a == b,
    ensures
        keccak256_of(a) == keccak256_of(b),
        field_hash_of(a) == field_hash_of(b),
        fq(be_val(keccak256_of(a)) as int) == fq(be_val(keccak256_of(b)) as int),
{
}

} // verus!
