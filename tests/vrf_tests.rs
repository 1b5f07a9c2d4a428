use ecvrf::combine::combine;
use ecvrf::contract::ContractProof;
use ecvrf::curve::{affine_g, field_size, group_order_scalar, scalar_is_gt, scalar_is_gte, AffinePoint, FieldElement, Scalar};
use ecvrf::encoding::{bytes_to_field, bytes_to_point, bytes_to_scalar, scalar_to_vector32};
use ecvrf::error::VrfError;
use ecvrf::gadget::{ecmult_gen, is_on_curve, point_add, projective_ec_add, projective_to_affine};
use ecvrf::hashing::{
    address_to_scalar, calculate_witness_address, field_hash, get_address, hash_to_curve_prefix,
    keccak256_affine_scalar, keccak256_vec_scalar,
};
use ecvrf::keypair::{generate_keypair, recover_raw_keypair};
use ecvrf::vrf::{draw_nonce, nonce_from_bytes, ECVRFProof, ECVRF};

fn b32(h: &str) -> [u8; 32] {
    let v = hex::decode(h).unwrap();
    let mut r = [0u8; 32];
    r.copy_from_slice(&v);
    r
}

fn sc(h: &str) -> Scalar {
    Scalar { bytes: b32(h) }
}

fn small(v: u8) -> Scalar {
    let mut bytes = [0u8; 32];
    bytes[31] = v;
    Scalar { bytes }
}

fn alpha() -> Scalar {
    let mut bytes = [0u8; 32];
    for i in 0..32 {
        bytes[i] = (i + 1) as u8;
    }
    Scalar { bytes }
}

fn nonce() -> Scalar {
    Scalar { bytes: [0xa5u8; 32] }
}

fn point(x: &str, y: &str) -> AffinePoint {
    AffinePoint { x: FieldElement { bytes: b32(x) }, y: FieldElement { bytes: b32(y) }, infinity: false }
}

#[test]
fn end_to_end_secret_key_one() {
    let vrf = ECVRF::new(small(1));
    let proof = vrf.prove_with_nonce(&alpha(), &nonce());
    let shown = vrf.display(proof);
    assert_eq!(shown.gamma.0, "613d823d9a2bc709361b0a8626558510023d93846265b37fa828ec2532eca0c1");
    assert_eq!(shown.gamma.1, "3e84dae9d5bd7bab7cc705b21ad90db1083c392ee3b2482871206bb08334044d");
    assert_eq!(shown.c, "47298080f2ec3c0c38768e375340bb6dc45732103e3d4562de1e4c57552c23c1");
    assert_eq!(shown.s, "5e7c2524b2b969996d2f176e5264ea37e14e739567686042c787594e507981e4");
    assert_eq!(hex::encode(proof.y.bytes), "64cbc1e0e3e1472b80c49e81b642dd67d06bfe5713a57729ffb4232e9f45f2ff");
    assert_eq!(proof.pk, affine_g());
    assert_eq!(vrf.verify(&alpha(), &proof), Ok(true));
}

#[test]
fn completeness_with_random_keys() {
    for i in 0..4u8 {
        let pair = generate_keypair();
        let vrf = ECVRF::new(pair.secret_key);
        assert_eq!(vrf.public_key(), pair.public_key);
        let a = small(i);
        let proof = vrf.prove(&a).unwrap();
        assert_eq!(vrf.verify(&a, &proof), Ok(true));
        assert_eq!(vrf.verify(&small(i + 1), &proof), Ok(false));
    }
}

#[test]
fn single_bit_flips_are_rejected() {
    let vrf = ECVRF::new(small(1));
    let proof = vrf.prove_with_nonce(&alpha(), &nonce());
    for bit in (0..256).step_by(5) {
        let (byte, mask) = (bit / 8, 1u8 << (bit % 8));
        let mut p = proof;
        p.c.bytes[byte] ^= mask;
        assert_ne!(vrf.verify(&alpha(), &p), Ok(true));
        let mut p = proof;
        p.s.bytes[byte] ^= mask;
        assert_ne!(vrf.verify(&alpha(), &p), Ok(true));
        let mut p = proof;
        p.gamma.x.bytes[byte] ^= mask;
        assert_ne!(vrf.verify(&alpha(), &p), Ok(true));
        let mut p = proof;
        p.gamma.y.bytes[byte] ^= mask;
        assert_ne!(vrf.verify(&alpha(), &p), Ok(true));
    }
}

#[test]
fn hashing_is_deterministic() {
    let data = b"deterministic".to_vec();
    assert_eq!(field_hash(&data), field_hash(&data));
    assert_eq!(keccak256_vec_scalar(&data), keccak256_vec_scalar(&data));
    let g = affine_g();
    assert_eq!(keccak256_affine_scalar(&g), keccak256_affine_scalar(&g));
    let vrf = ECVRF::new(small(3));
    let h = vrf.encode(&alpha(), g);
    assert_eq!(vrf.hash_points(&g, &h, &g, &h, &g, &h), vrf.hash_points(&g, &h, &g, &h, &g, &h));
}

#[test]
fn field_hash_values_and_range() {
    let abc = field_hash(&b"abc".to_vec());
    assert_eq!(hex::encode(abc.bytes), "4e03657aea45a94fc7d47ba826c8d667c0d1e6e33a64a036ec44f58fa12d6c45");
    let empty = field_hash(&Vec::new());
    assert_eq!(hex::encode(empty.bytes), "c5d2460186f7233c927e7db2dcc703c0e500b653ca82273b7bfad8045d85a470");
    let bound = field_size();
    for i in 0..64u8 {
        let f = field_hash(&vec![i; i as usize]);
        assert!(scalar_is_gt(&bound, &Scalar { bytes: f.bytes }));
    }
    assert_eq!(keccak256_vec_scalar(&b"abc".to_vec()).bytes, abc.bytes);
}

#[test]
fn hash_to_curve_lands_on_curve() {
    let g = affine_g();
    let h = hash_to_curve_prefix(&alpha(), &g).unwrap();
    assert_eq!(hex::encode(h.x.bytes), "d9cf8e2855180f4847dafedbcb28e71d4ce1bbfb36cf032419a913cae039432d");
    assert_eq!(hex::encode(h.y.bytes), "4acc0f987b07f0b631cf4d9df699b39f958243c11c5211c23c3c2c3ef6b18296");
    for i in 0..32u8 {
        let h = hash_to_curve_prefix(&small(i), &g).unwrap();
        assert!(is_on_curve(&h));
        assert_eq!(h.y.bytes[31] & 1, 0);
    }
}

#[test]
fn witness_address_of_generator() {
    let g = affine_g();
    let addr = calculate_witness_address(&g);
    assert_eq!(hex::encode(addr), "7e5f4552091a69125d5dfcb7b8c2659029395bdf");
    assert_eq!(get_address(&g), addr);
    let s = address_to_scalar(&addr);
    assert_eq!(hex::encode(s.bytes), "0000000000000000000000007e5f4552091a69125d5dfcb7b8c2659029395bdf");
}

#[test]
fn nonces_are_in_range() {
    let order = group_order_scalar();
    let zero = small(0);
    for _ in 0..64 {
        let k = draw_nonce().unwrap();
        assert!(scalar_is_gt(&k, &zero));
        assert!(scalar_is_gt(&order, &k));
    }
}

#[test]
fn combine_is_the_weighted_sum() {
    let g1 = point(
        "2f8bde4d1a07209355b4a7250a5c5128e88b84bddc619ab7cba8d569b240efe4",
        "d8ac222636e5e3d6d4dba9dda6c9c426f788271bab0d6840dca87d3aa6ac62d6",
    );
    let g2 = point(
        "5cbdf0646e5db4eaa398f365f2ea7a0e3d419b7e0330e39ce92bddedcac4f9bc",
        "6aebca40ba255960a3178d6d861a54dba813d0b813fde7b5a5082628087264da",
    );
    assert_eq!(g1, ecmult_gen(&small(5)));
    let cases = [
        (3u8, 5u8, "93f5cc8e5283effc6161af705ae58d2bc5145bff0c1bec0f32bfc2d079bc66ed"),
        (1, 0, "9206f7a6f3a7022a07f08066e1ab8145f7e55dc933d51a18c793f901a3a0b276"),
        (0, 1, "73f2a22d0902cd8d5c90937dd41c057fd1c78805aac12b0a94a405c0461a6fbb"),
        (1, 1, "447bc2095bfabca0f603bbd7dbc23ae43a150ff8884b02cea117b22d1c3b9796"),
    ];
    for (w1, w2, expected) in cases {
        let out = combine(&vec![(g1, small(w1)), (g2, small(w2))]).unwrap();
        assert_eq!(hex::encode(out.bytes), expected);
    }
    let sum = point_add(&g1, &g2);
    assert_eq!(combine(&vec![(g1, small(1)), (g2, small(1))]), Ok(keccak256_affine_scalar(&sum)));
}

#[test]
fn combine_rejects_bad_shares() {
    let g = affine_g();
    let mut off = g;
    off.y.bytes[31] ^= 1;
    assert_eq!(combine(&vec![(g, small(1)), (off, small(1))]), Err(VrfError::InvalidPoint));
    let too_big = Scalar { bytes: [0xffu8; 32] };
    assert_eq!(combine(&vec![(off, small(1)), (g, too_big)]), Err(VrfError::MalformedEncoding));
}

#[test]
fn verify_reports_bad_inputs() {
    let vrf = ECVRF::new(small(1));
    let proof = vrf.prove_with_nonce(&alpha(), &nonce());
    let mut p = proof;
    p.c = Scalar { bytes: [0xffu8; 32] };
    assert_eq!(vrf.verify(&alpha(), &p), Err(VrfError::MalformedEncoding));
    let mut p = proof;
    p.gamma.y.bytes[0] ^= 0x80;
    assert_eq!(vrf.verify(&alpha(), &p), Err(VrfError::InvalidPoint));
    let p = ECVRFProof::new(proof.gamma, proof.c, proof.s, small(9), proof.pk);
    assert_eq!(vrf.verify(&alpha(), &p), Ok(false));
}

#[test]
fn contract_proof_scenario() {
    let vrf = ECVRF::new(small(1));
    let proof = vrf.prove_contract_with_nonce(&alpha(), &nonce()).unwrap();
    assert_eq!(hex::encode(proof.c.bytes), "968e9ec90613552362bbc4b7564573695ace80a167494062f346c4f1f05b8254");
    assert_eq!(hex::encode(proof.s.bytes), "0f1706dc9f92508242e9e0ee4f60323c4ad725043e5c6542b25ee0b3b54a2351");
    assert_eq!(hex::encode(proof.y.bytes), "215f44c31a12c1340eefefe6481c74d3441b3f9e07eea4115602096daa6501be");
    assert_eq!(hex::encode(proof.witness_address.bytes), "000000000000000000000000f5b33dc66fe037088eb8e569b826658ae751cb30");
    assert_eq!(hex::encode(proof.inverse_z.bytes), "03e047a6413b1b39e11b1b7071313b3ad6dae0980481ec6289856651c238cb35");
    assert_eq!(hex::encode(proof.witness_gamma.x.bytes), "b75423c6ba1df57384f48145d430899f72d0db238278f889f8b9652f207b6507");
    assert_eq!(vrf.verify_contract(&alpha(), &proof), Ok(true));
    let fresh = vrf.prove_contract(&alpha()).unwrap();
    assert_eq!(vrf.verify_contract(&alpha(), &fresh), Ok(true));
    let mut bad = proof;
    bad.witness_address.bytes[31] ^= 1;
    assert_eq!(vrf.verify_contract(&alpha(), &bad), Ok(false));
}

#[test]
fn projective_sum_matches_affine_sum() {
    let vrf = ECVRF::new(small(1));
    let proof = vrf.prove_contract_with_nonce(&alpha(), &nonce()).unwrap();
    let j = projective_ec_add(&proof.witness_gamma, &proof.witness_hash);
    let v = point_add(&proof.witness_gamma, &proof.witness_hash);
    assert_eq!(projective_to_affine(&j, &proof.inverse_z), v);
}

#[test]
fn variants_do_not_interoperate() {
    let vrf = ECVRF::new(small(1));
    let ordinary = vrf.prove_with_nonce(&alpha(), &nonce());
    let contract = vrf.prove_contract_with_nonce(&alpha(), &nonce()).unwrap();
    let as_contract = ContractProof {
        pk: ordinary.pk,
        gamma: ordinary.gamma,
        c: ordinary.c,
        s: ordinary.s,
        y: ordinary.y,
        alpha: alpha(),
        witness_address: address_to_scalar(&calculate_witness_address(&ecmult_gen(&nonce()))),
        witness_gamma: contract.witness_gamma,
        witness_hash: contract.witness_hash,
        inverse_z: contract.inverse_z,
    };
    assert_eq!(vrf.verify_contract(&alpha(), &as_contract), Ok(false));
    let as_ordinary = ECVRFProof::new(contract.gamma, contract.c, contract.s, contract.y, contract.pk);
    assert_eq!(vrf.verify(&alpha(), &as_ordinary), Ok(false));
}

#[test]
fn raw_keypair_of_secret_one() {
    let raw = recover_raw_keypair(&small(1).bytes);
    assert_eq!(
        hex::encode(&raw.public_key),
        "0479be667ef9dcbbac55a06295ce870b07029bfcdb2dce28d959f2815b16f81798483ada7726a3c4655da4fbfc0e1108a8fd17b448a68554199c47d08ffb10d4b8"
    );
    assert_eq!(raw.secret_key, small(1).bytes);
}

#[test]
fn scalar_comparisons() {
    let a = sc("00000000000000000000000000000000000000000000000000000000000000ff");
    let b = sc("0000000000000000000000000000000000000000000000000000000000000100");
    assert!(scalar_is_gt(&b, &a));
    assert!(!scalar_is_gt(&a, &b));
    assert!(!scalar_is_gt(&a, &a));
    assert!(scalar_is_gte(&a, &a));
    assert!(!scalar_is_gte(&a, &b));
}

#[test]
fn fixed_width_decoding() {
    assert_eq!(bytes_to_scalar(&[1u8; 31]), Err(VrfError::MalformedEncoding));
    assert_eq!(bytes_to_scalar(&group_order_scalar().bytes), Err(VrfError::MalformedEncoding));
    let s = bytes_to_scalar(&alpha().bytes).unwrap();
    assert_eq!(s, alpha());
    assert_eq!(scalar_to_vector32(&s), alpha().bytes.to_vec());
    assert_eq!(bytes_to_field(&field_size().bytes), Err(VrfError::MalformedEncoding));
    assert_eq!(bytes_to_field(&[7u8; 33]), Err(VrfError::MalformedEncoding));
    let g = affine_g();
    let mut enc = g.x.bytes.to_vec();
    enc.extend_from_slice(&g.y.bytes);
    assert_eq!(bytes_to_point(&enc), Ok(g));
    let mut off = enc.clone();
    off[63] ^= 1;
    assert_eq!(bytes_to_point(&off), Err(VrfError::InvalidPoint));
    let mut big = enc.clone();
    big[..32].copy_from_slice(&field_size().bytes);
    assert_eq!(bytes_to_point(&big), Err(VrfError::MalformedEncoding));
    assert_eq!(bytes_to_point(&enc[..63]), Err(VrfError::MalformedEncoding));
}

#[test]
fn nonce_bytes_are_resampled_out_of_range() {
    assert_eq!(nonce_from_bytes(&[0u8; 32]), None);
    let order = group_order_scalar();
    assert_eq!(nonce_from_bytes(&order.bytes), None);
    assert_eq!(nonce_from_bytes(&[0xffu8; 32]), None);
    let mut below = order.bytes;
    below[31] -= 1;
    assert_eq!(nonce_from_bytes(&below), Some(Scalar { bytes: below }));
    assert_eq!(nonce_from_bytes(&small(1).bytes), Some(small(1)));
}

#[test]
fn end_to_end_nonce_one_accepts() {
    let vrf = ECVRF::new(small(1));
    let proof = vrf.prove_with_nonce(&small(1), &small(1));
    assert_eq!(vrf.verify(&small(1), &proof), Ok(true));
    assert_eq!(vrf.verify_contract(&small(1), &vrf.prove_contract_with_nonce(&small(1), &small(1)).unwrap()), Ok(true));
}
