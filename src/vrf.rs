//! The proof engine: proving and verifying VRF outputs, in the ordinary
//! form and in the form shaped for contract verifiers.
use crate::bytes::be_val;
use crate::curve::{
    affine_g, ec_add, ec_mul, fe_canonical, fq, generator, group_order, lemma_encoding, point_bytes,
    scalar_canonical, scalar_eq, AffinePoint, EcPoint, Scalar,
};
use crate::error::VrfError;
use crate::gadget::{ecmult, ecmult_combined, ecmult_gen, is_on_curve, point_add};
use crate::hashing::{append32, keccak256, keccak256_affine_scalar, keccak256_of};
use crate::secp::{scalar_add, scalar_from_bytes, scalar_mul, scalar_neg};
use vstd::arithmetic::div_mod::{lemma_add_mod_noop, lemma_mul_mod_noop_left, lemma_mod_twice};
use vstd::prelude::*;

verus! {

/// A proof of the ordinary form.
#[derive(Clone, Copy, Debug)]
pub struct ECVRFProof {
    pub gamma: AffinePoint,
    pub c: Scalar,
    pub s: Scalar,
    pub y: Scalar,
    pub pk: AffinePoint,
}

impl ECVRFProof {
    pub fn new(gamma: AffinePoint, c: Scalar, s: Scalar, y: Scalar, pk: AffinePoint) -> (r: Self)
        ensures
            r == (ECVRFProof { gamma, c, s, y, pk }),
    {
        Self { gamma, c, s, y, pk }
    }
}

/// The display form of a proof: each value as 64 lower-case hex digits.
#[derive(Debug)]
pub struct Proof {
    pub gamma: (String, String),
    pub c: String,
    pub s: String,
}

/// The point H of the ordinary form: alpha·G + pk.
pub open spec fn encode_point(alpha: nat, pk: EcPoint) -> EcPoint {
    ec_add(ec_mul(alpha, generator()), pk)
}

/// The bytes hashed for the challenge of the ordinary form.
pub open spec fn points_bytes(
    g: EcPoint,
    h: EcPoint,
    pk: EcPoint,
    gamma: EcPoint,
    u: EcPoint,
    v: EcPoint,
) -> Seq<u8> {
    point_bytes(g) + point_bytes(h) + point_bytes(pk) + point_bytes(gamma) + point_bytes(u)
        + point_bytes(v)
}

/// The challenge of the ordinary form: the digest of the six points read
/// as a scalar.
pub open spec fn challenge(
    g: EcPoint,
    h: EcPoint,
    pk: EcPoint,
    gamma: EcPoint,
    u: EcPoint,
    v: EcPoint,
) -> nat {
    fq(be_val(keccak256_of(points_bytes(g, h, pk, gamma, u, v))) as int) as nat
}

/// The VRF output of a point: the digest of its encoding read as a scalar.
pub open spec fn output_of(gamma: EcPoint) -> nat {
    fq(be_val(keccak256_of(point_bytes(gamma))) as int) as nat
}

/// Appends a point's encoding to a buffer.
pub(crate) fn append_point(buf: &mut Vec<u8>, p: &AffinePoint)
    requires
        p.wf(),
    ensures
        final(buf)@ == old(buf)@ + point_bytes(p@),
{
    append32(buf, &p.x.bytes);
    append32(buf, &p.y.bytes);
    proof {
        lemma_encoding(*p);
        assert(final(buf)@ =~= old(buf)@ + p.encoding());
    }
}

/// The output of a point: the digest of its encoding as a scalar.
pub(crate) fn output_scalar(gamma: &AffinePoint) -> (r: Scalar)
    requires
        gamma.wf(),
    ensures
        r.wf(),
        r.value() == output_of(gamma@),
{
    proof {
        lemma_encoding(*gamma);
    }
    keccak256_affine_scalar(gamma)
}

/// A prover and verifier for one key pair.
pub struct ECVRF {
    secret_key: Scalar,
    public_key: AffinePoint,
}

impl ECVRF {
    pub closed spec fn secret_scalar(&self) -> Scalar {
        self.secret_key
    }

    pub open spec fn secret_value(&self) -> nat {
        self.secret_scalar().value()
    }

    pub closed spec fn public_point(&self) -> AffinePoint {
        self.public_key
    }

    /// The secret key is a non-zero reduced scalar and the public key is
    /// its multiple of G.
    pub open spec fn wf(&self) -> bool {
        &&& self.secret_scalar().wf()
        &&& self.secret_value() > 0
        &&& self.public_point().valid()
        &&& self.public_point()@ == ec_mul(self.secret_value(), generator())
    }

    /// Builds the prover for a secret key; the public key is `sk·G`.
    pub fn new(secret_key: Scalar) -> (r: Self)
        requires
            secret_key.wf(),
            secret_key.value() > 0,
        ensures
            r.wf(),
            r.secret_value() == secret_key.value(),
    {
        let public_key = ecmult_gen(&secret_key);
        ECVRF { secret_key, public_key }
    }

    /// The secret key.
    pub(crate) fn secret_key_scalar(&self) -> (r: Scalar)
        ensures
            r == self.secret_scalar(),
    {
        self.secret_key
    }

    /// The public key.
    pub fn public_key(&self) -> (r: AffinePoint)
        ensures
            r == self.public_point(),
    {
        self.public_key
    }

    /// Encodes alpha to a point: alpha·G + y.
    pub fn encode(&self, alpha: &Scalar, y: AffinePoint) -> (r: AffinePoint)
        requires
            alpha.wf(),
            y.valid(),
        ensures
            r.valid(),
            r@ == encode_point(alpha.value(), y@),
    {
        let ag = ecmult_gen(alpha);
        point_add(&ag, &y)
    }

    /// The challenge scalar of six points.
    pub fn hash_points(
        &self,
        g: &AffinePoint,
        h: &AffinePoint,
        pk: &AffinePoint,
        gamma: &AffinePoint,
        kg: &AffinePoint,
        kh: &AffinePoint,
    ) -> (r: Scalar)
        requires
            g.wf(),
            h.wf(),
            pk.wf(),
            gamma.wf(),
            kg.wf(),
            kh.wf(),
        ensures
            r.wf(),
            r.value() == challenge(g@, h@, pk@, gamma@, kg@, kh@),
    {
        let mut buf: Vec<u8> = Vec::new();
        append_point(&mut buf, g);
        append_point(&mut buf, h);
        append_point(&mut buf, pk);
        append_point(&mut buf, gamma);
        append_point(&mut buf, kg);
        append_point(&mut buf, kh);
        assert(buf@ =~= points_bytes(g@, h@, pk@, gamma@, kg@, kh@));
        scalar_from_bytes(&keccak256(buf.as_slice()))
    }
}


/// `p` is the ordinary proof that the key of `vrf` gives for alpha under
/// the nonce k: gamma = sk·H, c the challenge of (G, H, pk, gamma, k·G,
/// k·H), s = k - c·sk and y the output of gamma.
#[verifier::opaque]
pub open spec fn is_proof_with_nonce(vrf: &ECVRF, alpha: nat, k: nat, p: ECVRFProof) -> bool {
    let pk = vrf.public_point()@;
    let h = encode_point(alpha, pk);
    &&& p.pk == vrf.public_point()
    &&& p.gamma.valid()
    &&& p.gamma@ == ec_mul(vrf.secret_value(), h)
    &&& p.c.wf()
    &&& p.c.value() == challenge(generator(), h, pk, p.gamma@, ec_mul(k, generator()), ec_mul(k, h))
    &&& p.s.wf()
    &&& p.s.value() == fq(k - p.c.value() * vrf.secret_value())
    &&& p.y.wf()
    &&& p.y.value() == output_of(p.gamma@)
}

/// `p` is an ordinary proof that the key of `vrf` gives for alpha under
/// some nonce k with 0 < k < n.
pub open spec fn is_proof(vrf: &ECVRF, alpha: nat, p: ECVRFProof) -> bool {
    exists|k: nat| 0 < k < group_order() && #[trigger] is_proof_with_nonce(vrf, alpha, k, p)
}

/// Whether an ordinary proof (gamma, c, s, y) checks out for alpha under
/// the public key pk: with H = alpha·G + pk, U = c·pk + s·G and
/// V = c·gamma + s·H, the challenge of (G, H, pk, gamma, U, V) is c and the
/// output of gamma is y.
pub open spec fn accepts(pk: EcPoint, alpha: nat, gamma: EcPoint, c: nat, s: nat, y: nat) -> bool {
    let h = encode_point(alpha, pk);
    let u = ec_add(ec_mul(c, pk), ec_mul(s, generator()));
    let v = ec_add(ec_mul(c, gamma), ec_mul(s, h));
    challenge(generator(), h, pk, gamma, u, v) == c && output_of(gamma) == y
}

/// An ordinary proof made under the nonce k is accepted wherever the two
/// curve identities c·pk + s·G = k·G and c·gamma + s·H = k·H hold for it
/// (they follow from gamma = sk·H, pk = sk·G and s = k - c·sk by the group
/// law): the verifier then rebuilds exactly the points the prover hashed.
pub proof fn lemma_completeness_from_identities(vrf: &ECVRF, alpha: nat, k: nat, p: ECVRFProof)
    requires
        is_proof_with_nonce(vrf, alpha, k, p),
        ec_add(ec_mul(p.c.value(), vrf.public_point()@), ec_mul(p.s.value(), generator()))
            == ec_mul(k, generator()),
        ec_add(
            ec_mul(p.c.value(), p.gamma@),
            ec_mul(p.s.value(), encode_point(alpha, vrf.public_point()@)),
        ) == ec_mul(k, encode_point(alpha, vrf.public_point()@)),
    ensures
        accepts(vrf.public_point()@, alpha, p.gamma@, p.c.value(), p.s.value(), p.y.value()),
{
    reveal(is_proof_with_nonce);
}

/// The fixed-width encodings of a proof are canonical: coordinates below
/// the field prime, scalars below the group order.
pub open spec fn proof_encodings_ok(p: ECVRFProof) -> bool {
    p.gamma.x.wf() && p.gamma.y.wf() && p.c.wf() && p.s.wf()
}

/// The coordinates of a point satisfy the curve equation and it is not
/// marked as the point at infinity.
pub open spec fn finite_on_curve(p: AffinePoint) -> bool {
    !p.infinity && crate::curve::fp((p.y.value() * p.y.value()) as int) == crate::curve::fp(
        (p.x.value() * p.x.value() * p.x.value() + 7) as int,
    )
}

/// Relies on `RngCore::fill_bytes` of rand's `thread_rng`: fills the
/// buffer with random bytes.
#[verifier::external_body]
pub fn random_bytes(buf: &mut [u8; 32]) {
    rand::RngCore::fill_bytes(&mut rand::thread_rng(), buf);
}

/// A random reduced scalar.
pub fn randomize() -> (r: Scalar)
    ensures
        r.wf(),
{
    let mut buf = [0u8; 32];
    random_bytes(&mut buf);
    scalar_from_bytes(&buf)
}

/// The nonce that 32 drawn bytes give: their integer when it lies strictly
/// between zero and the group order, and none otherwise (a redraw).
pub fn nonce_from_bytes(buf: &[u8; 32]) -> (r: Option<Scalar>)
    ensures
        r is Some <==> 0 < be_val(buf@) < group_order(),
        r is Some ==> r->Some_0.bytes@ == buf@ && r->Some_0.wf() && r->Some_0.value() > 0,
{
    let k = Scalar { bytes: *buf };
    let zero = crate::curve::scalar_from_u8(0);
    if scalar_canonical(&k) && crate::curve::scalar_is_gt(&k, &zero) {
        Some(k)
    } else {
        None
    }
}

/// Draws a nonce k with 0 < k < n, drawing again while the 32 random bytes
/// encode zero or a value not below the group order.
pub fn draw_nonce() -> (r: Result<Scalar, VrfError>)
    ensures
        match r {
            Ok(k) => k.wf() && k.value() > 0,
            Err(e) => e == VrfError::NonceRangeExhausted,
        },
{
    let mut tries: usize = 0;
    while tries < crate::hashing::MAX_TRIES
        decreases crate::hashing::MAX_TRIES - tries,
    {
        let mut buf = [0u8; 32];
        random_bytes(&mut buf);
        match nonce_from_bytes(&buf) {
            Some(k) => return Ok(k),
            None => {},
        }
        tries = tries + 1;
    }
    Err(VrfError::NonceRangeExhausted)
}

/// The lower-case hex digit of a nibble.
pub open spec fn hex_digit(v: int) -> char {
    seq!['0', '1', '2', '3', '4', '5', '6', '7', '8', '9', 'a', 'b', 'c', 'd', 'e', 'f'][v]
}

/// Lower-case hex of a byte string, two digits per byte, high nibble first.
pub open spec fn hex_of(b: Seq<u8>) -> Seq<char>
    decreases b.len(),
{
    if b.len() == 0 {
        Seq::empty()
    } else {
        hex_of(b.drop_last()).push(hex_digit(b.last() as int / 16)).push(hex_digit(b.last() as int % 16))
    }
}

/// Relies on `hex::encode`: two lower-case digits for each byte, high
/// nibble first.
#[verifier::external_body]
fn to_hex(b: &[u8; 32]) -> (r: String)
    ensures
        r@ == hex_of(b@),
{
    hex::encode(b)
}

impl ECVRF {
    /// The ordinary proof for alpha under the nonce k.
    pub fn prove_with_nonce(&self, alpha: &Scalar, k: &Scalar) -> (r: ECVRFProof)
        requires
            self.wf(),
            alpha.wf(),
            k.wf(),
            k.value() > 0,
        ensures
            is_proof_with_nonce(self, alpha.value(), k.value(), r),
    {
        let pub_affine = self.public_key;
        let h = self.encode(alpha, pub_affine);
        let gamma = ecmult(&h, &self.secret_key);
        let kg = ecmult_gen(k);
        let kh = ecmult(&h, k);
        let g = affine_g();
        proof {
            crate::curve::lemma_pow2_256();
        }
        let c = self.hash_points(&g, &h, &pub_affine, &gamma, &kg, &kh);
        let s = response(k, &c, &self.secret_key);
        let y = output_scalar(&gamma);
        let r = ECVRFProof::new(gamma, c, s, y, self.public_key);
        proof {
            reveal(is_proof_with_nonce);
        }
        r
    }

    /// The ordinary proof for alpha, under a fresh random nonce.
    pub fn prove(&self, alpha: &Scalar) -> (r: Result<ECVRFProof, VrfError>)
        requires
            self.wf(),
            alpha.wf(),
        ensures
            r is Ok ==> is_proof(self, alpha.value(), r->Ok_0),
            r is Err ==> r->Err_0 == VrfError::NonceRangeExhausted,
    {
        match draw_nonce() {
            Ok(k) => {
                let p = self.prove_with_nonce(alpha, &k);
                proof {
                    crate::curve::lemma_order_below_prime();
                }
                assert(is_proof_with_nonce(self, alpha.value(), k.value(), p));
                assert(is_proof(self, alpha.value(), p));
                Ok(p)
            },
            Err(_) => Err(VrfError::NonceRangeExhausted),
        }
    }

    /// The display form of a proof.
    pub fn display(&self, smart_contract_proof: ECVRFProof) -> (r: Proof)
        ensures
            r.gamma.0@ == hex_of(smart_contract_proof.gamma.x.bytes@),
            r.gamma.1@ == hex_of(smart_contract_proof.gamma.y.bytes@),
            r.c@ == hex_of(smart_contract_proof.c.bytes@),
            r.s@ == hex_of(smart_contract_proof.s.bytes@),
    {
        let gamma1 = to_hex(&smart_contract_proof.gamma.x.bytes);
        let gamma2 = to_hex(&smart_contract_proof.gamma.y.bytes);
        let c = to_hex(&smart_contract_proof.c.bytes);
        let s = to_hex(&smart_contract_proof.s.bytes);
        Proof { gamma: (gamma1, gamma2), c, s }
    }

    /// Verifies an ordinary proof for alpha under this key. Non-canonical
    /// encodings and a gamma off the curve are errors; otherwise the answer
    /// says whether the proof checks out.
    pub fn verify(&self, alpha: &Scalar, vrf_proof: &ECVRFProof) -> (r: Result<bool, VrfError>)
        requires
            self.wf(),
            alpha.wf(),
        ensures
            !proof_encodings_ok(*vrf_proof) <==> r == Err::<bool, VrfError>(VrfError::MalformedEncoding),
            proof_encodings_ok(*vrf_proof) && !finite_on_curve(vrf_proof.gamma) <==> r == Err::<bool, VrfError>(VrfError::InvalidPoint),
            r is Err ==> r->Err_0 == VrfError::MalformedEncoding || r->Err_0 == VrfError::InvalidPoint,
            r is Ok ==> r == Ok::<bool, VrfError>(accepts(
                self.public_point()@,
                alpha.value(),
                vrf_proof.gamma@,
                vrf_proof.c.value(),
                vrf_proof.s.value(),
                vrf_proof.y.value(),
            )),
    {
        if !(fe_canonical(&vrf_proof.gamma.x) && fe_canonical(&vrf_proof.gamma.y)
            && scalar_canonical(&vrf_proof.c) && scalar_canonical(&vrf_proof.s)) {
            return Err(VrfError::MalformedEncoding);
        }
        if vrf_proof.gamma.infinity || !is_on_curve(&vrf_proof.gamma) {
            return Err(VrfError::InvalidPoint);
        }
        let gamma = vrf_proof.gamma;
        let pub_affine = self.public_key;
        let h = self.encode(alpha, pub_affine);
        let u = ecmult_combined(&pub_affine, &vrf_proof.c, &vrf_proof.s);
        let witness_gamma = ecmult(&gamma, &vrf_proof.c);
        let witness_hash = ecmult(&h, &vrf_proof.s);
        let v = point_add(&witness_gamma, &witness_hash);
        let g = affine_g();
        proof {
            crate::curve::lemma_pow2_256();
        }
        let computed_c = self.hash_points(&g, &h, &pub_affine, &gamma, &u, &v);
        let computed_y = output_scalar(&gamma);
        Ok(scalar_eq(&computed_c, &vrf_proof.c) && scalar_eq(&computed_y, &vrf_proof.y))
    }
}

/// The response `k - c·sk` modulo the group order.
pub(crate) fn response(k: &Scalar, c: &Scalar, sk: &Scalar) -> (r: Scalar)
    requires
        k.wf(),
        c.wf(),
        sk.wf(),
    ensures
        r.wf(),
        r.value() == fq(k.value() - c.value() * sk.value()),
{
    let neg_c = scalar_neg(c);
    let t = scalar_mul(&neg_c, sk);
    let r = scalar_add(k, &t);
    proof {
        let n = crate::curve::group_order() as int;
        let (kv, cv, sv) = (k.value() as int, c.value() as int, sk.value() as int);
        lemma_mul_mod_noop_left(-cv, sv, n);
        assert((-cv) * sv == -(cv * sv)) by (nonlinear_arith);
        lemma_add_mod_noop(kv, -(cv * sv), n);
        lemma_mod_twice(-(cv * sv), n);
        crate::curve::lemma_order_below_prime();
        vstd::arithmetic::div_mod::lemma_small_mod(kv as nat, n as nat);
    }
    r
}

} // verus!
