use ark_bls12_381::{Fr, G1Affine, G2Affine};
use ark_ec::{AffineCurve, ProjectiveCurve};
use ark_ff::{Field, PrimeField, UniformRand};
use ark_serialize::CanonicalSerialize;
use ark_std::rand::rngs::StdRng;
use ark_std::rand::SeedableRng;
use ferveo::combine::{prepare_combine_fast, prepare_combine_simple, share_combine_fast, share_combine_simple};
use ferveo::context::{
    BlindedKeyShare, Ciphertext, DecryptionShareFast, PrivateDecryptionContextFast,
    PrivateDecryptionContextSimple, PrivateKeyShare, PublicDecryptionContextFast, PublicKeyShare,
    SetupParams,
};
use ferveo::field::Scalar;
use ferveo::group::{G1, G2};

fn sc(f: Fr) -> Scalar {
    Scalar::from_limbs(f.into_repr().0).unwrap()
}

fn g1_of(p: G1Affine) -> G1 {
    let mut b = Vec::new();
    p.serialize(&mut b).unwrap();
    G1::from_bytes(&b).unwrap()
}

fn g2_of(p: G2Affine) -> G2 {
    let mut b = Vec::new();
    p.serialize(&mut b).unwrap();
    G2::from_bytes(&b).unwrap()
}

fn setup_params(b: Fr) -> SetupParams {
    let g = G1Affine::prime_subgroup_generator();
    let h = G2Affine::prime_subgroup_generator();
    SetupParams {
        b: sc(b),
        b_inv: sc(b.inverse().unwrap()),
        g: g1_of(g),
        g_inv: g1_of(-g),
        h_inv: g2_of(-h),
        h: g2_of(h),
    }
}

/// Three decrypters holding `Z_k = [phi(x_k)] h` for a random polynomial
/// `phi` of degree 2, with `phi(0) = s`.
struct Keys {
    secret: Fr,
    xs: Vec<Fr>,
    zs: Vec<Fr>,
    bs: Vec<Fr>,
}

fn keys(rng: &mut StdRng) -> Keys {
    let coeffs: Vec<Fr> = (0..3).map(|_| Fr::rand(rng)).collect();
    let xs: Vec<Fr> = (0..3).map(|_| Fr::rand(rng)).collect();
    let zs = xs.iter().map(|x| coeffs[0] + coeffs[1] * x + coeffs[2] * x * x).collect();
    let bs = (0..3).map(|_| Fr::rand(rng)).collect();
    Keys { secret: coeffs[0], xs, zs, bs }
}

fn public_contexts(k: &Keys) -> Vec<PublicDecryptionContextFast> {
    let h = G2Affine::prime_subgroup_generator();
    let g = G1Affine::prime_subgroup_generator();
    (0..3)
        .map(|i| PublicDecryptionContextFast {
            domain: sc(k.xs[i]),
            public_key_share: PublicKeyShare { public_key_share: g1_of(g.mul(k.zs[i]).into_affine()) },
            blinded_key_share: BlindedKeyShare {
                blinding_key: g2_of(h.mul(k.bs[i]).into_affine()),
                blinded_key_share: g2_of(h.mul(k.zs[i] * k.bs[i]).into_affine()),
            },
            lagrange_n_0: Scalar::one(),
        })
        .collect()
}

fn fast_context(k: &Keys, i: usize) -> PrivateDecryptionContextFast {
    let h = G2Affine::prime_subgroup_generator();
    PrivateDecryptionContextFast {
        index: i,
        setup_params: setup_params(k.bs[i]),
        private_key_share: PrivateKeyShare { private_key_share: g2_of(h.mul(k.zs[i]).into_affine()) },
        public_decryption_contexts: public_contexts(k),
        scalar_bits: 255,
    }
}

fn simple_context(k: &Keys, i: usize) -> PrivateDecryptionContextSimple {
    let h = G2Affine::prime_subgroup_generator();
    PrivateDecryptionContextSimple {
        index: i,
        setup_params: setup_params(k.bs[i]),
        private_key_share: PrivateKeyShare { private_key_share: g2_of(h.mul(k.zs[i]).into_affine()) },
        public_decryption_contexts: vec![],
    }
}

fn ciphertext(r: Fr) -> Ciphertext {
    Ciphertext {
        commitment: g1_of(G1Affine::prime_subgroup_generator().mul(r).into_affine()),
        ciphertext: vec![1, 2, 3],
    }
}

#[test]
fn fast_share_is_scaled_commitment() {
    let rng = &mut StdRng::seed_from_u64(11);
    let k = keys(rng);
    let r = Fr::rand(rng);
    let share = fast_context(&k, 1).create_share(&ciphertext(r));
    assert_eq!(share.decrypter_index, 1);
    let expected = G1Affine::prime_subgroup_generator().mul(r * k.bs[1].inverse().unwrap()).into_affine();
    assert_eq!(share.decryption_share.to_bytes(), g1_of(expected).to_bytes());
    assert_ne!(share.decryption_share.to_bytes(), ciphertext(r).commitment.to_bytes());
}

#[test]
fn fast_and_simple_combine_agree() {
    let rng = &mut StdRng::seed_from_u64(12);
    let k = keys(rng);
    let ct = ciphertext(Fr::rand(rng));
    let simple: Vec<_> = (0..3).map(|i| simple_context(&k, i).create_share(&ct)).collect();
    let lambda = prepare_combine_simple(&k.xs.iter().map(|x| sc(*x)).collect::<Vec<_>>());
    let key_simple = share_combine_simple(&simple, &lambda);
    let fast: Vec<_> = (0..3).map(|i| fast_context(&k, i).create_share(&ct)).collect();
    let prepared = prepare_combine_fast(&public_contexts(&k), &fast);
    let key_fast = share_combine_fast(&fast, &prepared);
    assert_eq!(key_simple.to_bytes(), key_fast.to_bytes());
    assert!(key_simple.equals(&key_fast));
}

#[test]
fn simple_combine_recovers_pairing_with_secret() {
    let rng = &mut StdRng::seed_from_u64(13);
    let k = keys(rng);
    let r = Fr::rand(rng);
    let ct = ciphertext(r);
    let simple: Vec<_> = (0..3).map(|i| simple_context(&k, i).create_share(&ct)).collect();
    let lambda = prepare_combine_simple(&k.xs.iter().map(|x| sc(*x)).collect::<Vec<_>>());
    let key = share_combine_simple(&simple, &lambda);
    let expected = simple_context(&k, 0).create_share(&ciphertext(r * k.secret * (k.zs[0].inverse().unwrap())));
    assert!(key.equals(&expected.decryption_share));
}

#[test]
fn batch_verify_accepts_valid_and_rejects_bad_share() {
    let rng = &mut StdRng::seed_from_u64(14);
    let k = keys(rng);
    let cts: Vec<_> = (0..2).map(|_| ciphertext(Fr::rand(rng))).collect();
    let shares: Vec<Vec<DecryptionShareFast>> = cts
        .iter()
        .map(|ct| (0..3).map(|i| fast_context(&k, i).create_share(ct)).collect())
        .collect();
    let alphas: Vec<Vec<Scalar>> = (0..2).map(|_| (0..3).map(|_| sc(Fr::rand(rng))).collect()).collect();
    let ctx = fast_context(&k, 0);
    assert!(ctx.batch_verify_decryption_shares(&cts, &shares, &alphas));
    let mut bad = shares.clone();
    bad[1][2].decryption_share = shares[1][1].decryption_share.clone();
    assert!(!ctx.batch_verify_decryption_shares(&cts, &bad, &alphas));
}

#[test]
fn combine_empty_is_unit() {
    let key = share_combine_simple(&[], &[]);
    let mut expected = vec![0u8; 576];
    expected[0] = 1;
    assert_eq!(key.to_bytes(), expected);
}
