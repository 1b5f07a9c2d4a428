//! Key pairs: a secret scalar and its public point.
use crate::bytes::be_val;
use crate::curve::{
    ec_mul, generator, group_order, point_bytes, AffinePoint, Scalar,
};
use crate::gadget::ecmult_gen;
use vstd::prelude::*;

verus! {

/// A secret key and its public key.
#[derive(Clone, Copy, Debug)]
pub struct KeyPair {
    pub public_key: AffinePoint,
    pub secret_key: Scalar,
}

/// A key pair as bytes: the public key uncompressed (0x04, x, y) and the
/// secret key in 32 big-endian bytes.
#[derive(Clone, Copy, Debug)]
pub struct RawKeyPair {
    pub public_key: [u8; 65],
    pub secret_key: [u8; 32],
}

/// The uncompressed encoding of a point: 0x04, then x and y.
pub open spec fn uncompressed(p: crate::curve::EcPoint) -> Seq<u8> {
    seq![4u8] + point_bytes(p)
}

impl KeyPair {
    /// The secret key is a non-zero reduced scalar and the public key is
    /// its multiple of G.
    pub open spec fn wf(self) -> bool {
        &&& self.secret_key.wf()
        &&& self.secret_key.value() > 0
        &&& self.public_key.valid()
        &&& self.public_key@ == ec_mul(self.secret_key.value(), generator())
    }
}

/// The key pair of a secret key.
pub fn keypair_from_secret(secret_key: &Scalar) -> (r: KeyPair)
    requires
        secret_key.wf(),
        secret_key.value() > 0,
    ensures
        r.wf(),
        r.secret_key == *secret_key,
{
    KeyPair { public_key: ecmult_gen(secret_key), secret_key: *secret_key }
}

/// Relies on libsecp256k1's `SecretKey::random` (with rand's
/// `thread_rng`) and `SecretKey::serialize`: the key is redrawn until its
/// 32 big-endian bytes are non-zero and below the group order.
#[verifier::external_body]
fn random_secret_key() -> (r: [u8; 32])
    ensures
        0 < be_val(r@) < group_order(),
{
    libsecp256k1::SecretKey::random(&mut rand::thread_rng()).serialize()
}

/// A fresh random key pair.
pub fn generate_keypair() -> (r: KeyPair)
    ensures
        r.wf(),
{
    keypair_from_secret(&Scalar { bytes: random_secret_key() })
}

/// The byte form of the key pair of a secret key.
pub fn recover_raw_keypair(secret_key: &[u8; 32]) -> (r: RawKeyPair)
    requires
        0 < be_val(secret_key@) < group_order(),
    ensures
        r.secret_key == *secret_key,
        r.public_key@ == uncompressed(ec_mul(be_val(secret_key@), generator())),
{
    let pair = keypair_from_secret(&Scalar { bytes: *secret_key });
    let (x, y) = (pair.public_key.x.bytes, pair.public_key.y.bytes);
    let mut public_key = [0u8; 65];
    public_key[0] = 4;
    let mut i: usize = 0;
    while i < 32
        invariant
            0 <= i <= 32,
            public_key@[0] == 4,
            forall|j: int| 0 <= j < i ==> public_key@[1 + j] == x@[j] && public_key@[33 + j] == y@[j],
        decreases 32 - i,
    {
        public_key[1 + i] = x[i];
        public_key[33 + i] = y[i];
        i = i + 1;
    }
    proof {
        crate::curve::lemma_encoding(pair.public_key);
        assert(public_key@ =~= uncompressed(pair.public_key@));
    }
    RawKeyPair { public_key, secret_key: *secret_key }
}

/// A fresh random key pair in byte form.
pub fn generate_raw_keypair() -> (r: RawKeyPair)
    ensures
        0 < be_val(r.secret_key@) < group_order(),
        r.public_key@ == uncompressed(ec_mul(be_val(r.secret_key@), generator())),
{
    recover_raw_keypair(&random_secret_key())
}

} // verus!
