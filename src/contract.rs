//! Proofs shaped for verification inside a contract virtual machine: the
//! nonce point travels as an address, H comes from try-and-increment, and
//! the inverse of a projective Z coordinate is precomputed.
use crate::bytes::be_val;
use crate::curve::{
    ec_add, ec_mul, fe_canonical, fp_inv, fq, generator, group_order, lemma_encoding, point_bytes,
    scalar_canonical, scalar_eq, AffinePoint, EcPoint, FieldElement, Scalar,
};
use crate::error::VrfError;
use crate::gadget::{ecmult, ecmult_combined, ecmult_gen, projective_ec_add, projective_sum};
use crate::hashing::{
    address_of, address_to_scalar, append32, calculate_witness_address, hash_to_curve_prefix,
    curve_hash_exhausted, is_curve_hash, keccak256, keccak256_of,
};
use crate::secp::{fe_inv, scalar_from_bytes};
use crate::vrf::{
    append_point, draw_nonce, finite_on_curve, output_of, output_scalar, response,
    ECVRF,
};
use vstd::prelude::*;

verus! {

/// A proof of the contract form: the ordinary fields, alpha, the witness
/// address of k·G as a scalar, the points c·gamma and s·H, and the inverse
/// of the Z coordinate of their projective sum.
#[derive(Clone, Copy, Debug)]
pub struct ContractProof {
    pub pk: AffinePoint,
    pub gamma: AffinePoint,
    pub c: Scalar,
    pub s: Scalar,
    pub y: Scalar,
    pub alpha: Scalar,
    pub witness_address: Scalar,
    pub witness_gamma: AffinePoint,
    pub witness_hash: AffinePoint,
    pub inverse_z: FieldElement,
}

/// The 32-byte big-endian encoding of two, the domain prefix of the
/// contract challenge.
pub open spec fn challenge_prefix() -> Seq<u8> {
    Seq::new(31, |i: int| 0u8).push(2u8)
}

/// The challenge of the contract form: the digest of the prefix, the
/// points H, pk, gamma and V, then the 20-byte witness address, read as a
/// scalar.
pub open spec fn contract_challenge(
    h: EcPoint,
    pk: EcPoint,
    gamma: EcPoint,
    address: Seq<u8>,
    v: EcPoint,
) -> nat {
    fq(
        be_val(
            keccak256_of(
                challenge_prefix() + point_bytes(h) + point_bytes(pk) + point_bytes(gamma)
                    + point_bytes(v) + address,
            ),
        ) as int,
    ) as nat
}

/// The challenge scalar of the contract form.
pub fn hash_points_prefix(
    hash: &AffinePoint,
    pk: &AffinePoint,
    gamma: &AffinePoint,
    witness_address: &[u8; 20],
    v: &AffinePoint,
) -> (r: Scalar)
    requires
        hash.wf(),
        pk.wf(),
        gamma.wf(),
        v.wf(),
    ensures
        r.wf(),
        r.value() == contract_challenge(hash@, pk@, gamma@, witness_address@, v@),
{
    let mut prefix = [0u8; 32];
    prefix[31] = 2;
    let mut buf: Vec<u8> = Vec::new();
    append32(&mut buf, &prefix);
    append_point(&mut buf, hash);
    append_point(&mut buf, pk);
    append_point(&mut buf, gamma);
    append_point(&mut buf, v);
    let mut i: usize = 0;
    let ghost before = buf@;
    while i < 20
        invariant
            0 <= i <= 20,
            buf@ == before + witness_address@.subrange(0, i as int),
        decreases 20 - i,
    {
        buf.push(witness_address[i]);
        assert(witness_address@.subrange(0, i + 1) =~= witness_address@.subrange(0, i as int).push(
            witness_address@[i as int],
        ));
        i = i + 1;
    }
    assert(prefix@ =~= challenge_prefix());
    assert(witness_address@.subrange(0, 20) =~= witness_address@);
    assert(buf@ =~= challenge_prefix() + point_bytes(hash@) + point_bytes(pk@) + point_bytes(gamma@)
        + point_bytes(v@) + witness_address@);
    scalar_from_bytes(&keccak256(buf.as_slice()))
}

/// `p` is the contract proof that the key of `vrf` gives for alpha under
/// the nonce k, with H the point that alpha and pk hash to.
#[verifier::opaque]
pub open spec fn is_contract_proof_with_nonce(
    vrf: &ECVRF,
    alpha: Scalar,
    k: nat,
    h: AffinePoint,
    p: ContractProof,
) -> bool {
    let pk = vrf.public_point();
    let u = ec_mul(k, generator());
    &&& is_curve_hash(alpha, pk, h)
    &&& p.pk == pk
    &&& p.alpha == alpha
    &&& p.gamma.valid()
    &&& p.gamma@ == ec_mul(vrf.secret_value(), h@)
    &&& exists|wu: AffinePoint|
        #![trigger address_of(wu)]
        wu.valid() && wu@ == u && p.c.value() == contract_challenge(
            h@,
            pk@,
            p.gamma@,
            address_of(wu),
            ec_mul(k, h@),
        ) && p.witness_address.value() == fq(be_val(address_of(wu)) as int)
    &&& p.c.wf()
    &&& p.s.wf()
    &&& p.s.value() == fq(k - p.c.value() * vrf.secret_value())
    &&& p.y.wf()
    &&& p.y.value() == output_of(p.gamma@)
    &&& p.witness_gamma.valid()
    &&& p.witness_gamma@ == ec_mul(p.c.value(), p.gamma@)
    &&& p.witness_hash.valid()
    &&& p.witness_hash@ == ec_mul(p.s.value(), h@)
    &&& p.inverse_z.wf()
    &&& p.inverse_z.value() == fp_inv(
        projective_sum(
            EcPoint { x: p.witness_gamma.x.value() as int, y: p.witness_gamma.y.value() as int, inf: false },
            EcPoint { x: p.witness_hash.x.value() as int, y: p.witness_hash.y.value() as int, inf: false },
        ).2,
    )
}

/// `p` is the contract proof for alpha under the nonce k.
pub open spec fn is_contract_proof_for_nonce(vrf: &ECVRF, alpha: Scalar, k: nat, p: ContractProof) -> bool {
    exists|h: AffinePoint| #[trigger] is_contract_proof_with_nonce(vrf, alpha, k, h, p)
}

/// `p` is a contract proof for alpha under some nonce 0 < k < n.
pub open spec fn is_contract_proof(vrf: &ECVRF, alpha: Scalar, p: ContractProof) -> bool {
    exists|k: nat| 0 < k < group_order() && #[trigger] is_contract_proof_for_nonce(vrf, alpha, k, p)
}

/// Whether a contract proof checks out for alpha under pk, with H the
/// point that alpha and pk hash to: with U = c·pk + s·G and
/// V = c·gamma + s·H, the witness address is U's, the contract challenge
/// of (H, pk, gamma, address of U, V) is c, and the output of gamma is y.
pub open spec fn contract_accepts(pk: AffinePoint, alpha: Scalar, h: AffinePoint, p: ContractProof) -> bool {
    let u = ec_add(ec_mul(p.c.value(), pk@), ec_mul(p.s.value(), generator()));
    let v = ec_add(ec_mul(p.c.value(), p.gamma@), ec_mul(p.s.value(), h@));
    exists|wu: AffinePoint|
        #![trigger address_of(wu)]
        wu.valid() && wu@ == u && {
            &&& p.witness_address.value() == fq(be_val(address_of(wu)) as int)
            &&& contract_challenge(h@, pk@, p.gamma@, address_of(wu), v) == p.c.value()
            &&& output_of(p.gamma@) == p.y.value()
        }
}

/// A contract proof made under the nonce k, with H the hashed point, is
/// accepted wherever the curve identities c·pk + s·G = k·G and
/// c·gamma + s·H = k·H hold for it: the verifier then rebuilds the witness
/// address and the points the prover hashed.
pub proof fn lemma_contract_completeness_from_identities(
    vrf: &ECVRF,
    alpha: Scalar,
    k: nat,
    h: AffinePoint,
    p: ContractProof,
)
    requires
        is_contract_proof_with_nonce(vrf, alpha, k, h, p),
        ec_add(ec_mul(p.c.value(), vrf.public_point()@), ec_mul(p.s.value(), generator()))
            == ec_mul(k, generator()),
        ec_add(ec_mul(p.c.value(), p.gamma@), ec_mul(p.s.value(), h@)) == ec_mul(k, h@),
    ensures
        is_curve_hash(alpha, vrf.public_point(), h),
        contract_accepts(vrf.public_point(), alpha, h, p),
{
    reveal(is_contract_proof_with_nonce);
}

/// The fixed-width encodings of a contract proof that verification reads
/// are canonical.
pub open spec fn contract_encodings_ok(p: ContractProof) -> bool {
    p.gamma.x.wf() && p.gamma.y.wf() && p.c.wf() && p.s.wf()
}

impl ECVRF {
    /// The contract proof for alpha under the nonce k; fails only when no
    /// hash-to-curve candidate within the bound lies on the curve.
    pub fn prove_contract_with_nonce(&self, alpha: &Scalar, k: &Scalar) -> (r: Result<ContractProof, VrfError>)
        requires
            self.wf(),
            alpha.wf(),
            k.wf(),
            k.value() > 0,
        ensures
            r is Ok ==> is_contract_proof_for_nonce(self, *alpha, k.value(), r->Ok_0),
            r is Err ==> r->Err_0 == VrfError::HashToCurveExhausted && curve_hash_exhausted(
                *alpha,
                self.public_point(),
            ),
    {
        let pub_affine = self.public_key();
        let h = match hash_to_curve_prefix(alpha, &pub_affine) {
            Ok(h) => h,
            Err(_) => return Err(VrfError::HashToCurveExhausted),
        };
        let sk = self.secret_key_scalar();
        let gamma = ecmult(&h, &sk);
        let kg = ecmult_gen(k);
        let kh = ecmult(&h, k);
        let address = calculate_witness_address(&kg);
        let c = hash_points_prefix(&h, &pub_affine, &gamma, &address, &kh);
        let s = response(k, &c, &sk);
        let y = output_scalar(&gamma);
        let witness_gamma = ecmult(&gamma, &c);
        let witness_hash = ecmult(&h, &s);
        let sum = projective_ec_add(&witness_gamma, &witness_hash);
        let inverse_z = fe_inv(&sum.z);
        let witness_address = address_to_scalar(&address);
        let p = ContractProof {
            pk: pub_affine,
            gamma,
            c,
            s,
            y,
            alpha: *alpha,
            witness_address,
            witness_gamma,
            witness_hash,
            inverse_z,
        };
        proof {
            reveal(is_contract_proof_with_nonce);
            assert(address_of(kg) == address@);
            assert(is_contract_proof_with_nonce(self, *alpha, k.value(), h, p));
        }
        Ok(p)
    }

    /// The contract proof for alpha, under a fresh random nonce.
    pub fn prove_contract(&self, alpha: &Scalar) -> (r: Result<ContractProof, VrfError>)
        requires
            self.wf(),
            alpha.wf(),
        ensures
            r is Ok ==> is_contract_proof(self, *alpha, r->Ok_0),
            r is Err ==> r->Err_0 == VrfError::NonceRangeExhausted || (r->Err_0
                == VrfError::HashToCurveExhausted && curve_hash_exhausted(*alpha, self.public_point())),
    {
        match draw_nonce() {
            Ok(k) => match self.prove_contract_with_nonce(alpha, &k) {
                Ok(p) => {
                    proof {
                        crate::curve::lemma_order_below_prime();
                    }
                    assert(is_contract_proof_for_nonce(self, *alpha, k.value(), p));
                    assert(is_contract_proof(self, *alpha, p));
                    Ok(p)
                },
                Err(e) => Err(e),
            },
            Err(e) => Err(e),
        }
    }

    /// Verifies a contract proof for alpha under this key. Non-canonical
    /// encodings, a gamma off the curve, and a failed hash to the curve are
    /// errors; otherwise the answer says whether the proof checks out.
    pub fn verify_contract(&self, alpha: &Scalar, proof: &ContractProof) -> (r: Result<bool, VrfError>)
        requires
            self.wf(),
            alpha.wf(),
        ensures
            !contract_encodings_ok(*proof) <==> r == Err::<bool, VrfError>(VrfError::MalformedEncoding),
            contract_encodings_ok(*proof) && !finite_on_curve(proof.gamma) <==> r == Err::<bool, VrfError>(VrfError::InvalidPoint),
            r == Err::<bool, VrfError>(VrfError::HashToCurveExhausted) ==> curve_hash_exhausted(*alpha, self.public_point()),
            r is Err ==> r->Err_0 == VrfError::MalformedEncoding || r->Err_0 == VrfError::InvalidPoint
                || r->Err_0 == VrfError::HashToCurveExhausted,
            r is Ok ==> exists|h: AffinePoint|
                #[trigger] is_curve_hash(*alpha, self.public_point(), h) && r->Ok_0 == contract_accepts(self.public_point(), *alpha, h, *proof),
    {
        if !(fe_canonical(&proof.gamma.x) && fe_canonical(&proof.gamma.y) && scalar_canonical(&proof.c)
            && scalar_canonical(&proof.s)) {
            return Err(VrfError::MalformedEncoding);
        }
        if proof.gamma.infinity || !crate::gadget::is_on_curve(&proof.gamma) {
            return Err(VrfError::InvalidPoint);
        }
        let pub_affine = self.public_key();
        let h = match hash_to_curve_prefix(alpha, &pub_affine) {
            Ok(h) => h,
            Err(_) => {
                return Err(VrfError::HashToCurveExhausted);
            },
        };
        let gamma = proof.gamma;
        let u = ecmult_combined(&pub_affine, &proof.c, &proof.s);
        let address = calculate_witness_address(&u);
        let witness_gamma = ecmult(&gamma, &proof.c);
        let witness_hash = ecmult(&h, &proof.s);
        let v = crate::gadget::point_add(&witness_gamma, &witness_hash);
        let computed_c = hash_points_prefix(&h, &pub_affine, &gamma, &address, &v);
        let computed_y = output_scalar(&gamma);
        let computed_address = address_to_scalar(&address);
        let ok = scalar_eq(&computed_address, &proof.witness_address) && scalar_eq(&computed_c, &proof.c)
            && scalar_eq(&computed_y, &proof.y);
        proof {
            assert(address_of(u) == address@);
            if ok {
                assert(contract_accepts(pub_affine, *alpha, h, *proof));
            } else {
                if contract_accepts(pub_affine, *alpha, h, *proof) {
                    let wu = choose|wu: AffinePoint| #![trigger address_of(wu)] wu.valid() && wu@ == u@ && {
                        &&& proof.witness_address.value() == fq(be_val(address_of(wu)) as int)
                        &&& contract_challenge(h@, pub_affine@, proof.gamma@, address_of(wu), v@) == proof.c.value()
                        &&& output_of(proof.gamma@) == proof.y.value()
                    };
                    lemma_encoding(wu);
                    lemma_encoding(u);
                }
            }
        }
        Ok(ok)
    }
}

} // verus!
