use ark_bls12_381::{Bls12_381, Fr, G1Affine, G2Affine};
use ark_ec::{AffineCurve, PairingEngine, ProjectiveCurve};
use ark_ff::{Field, PrimeField, UniformRand};
use ark_poly::{EvaluationDomain as _, Radix2EvaluationDomain};
use ark_serialize::{CanonicalDeserialize, CanonicalSerialize};
use ark_std::rand::rngs::StdRng;
use ark_std::rand::SeedableRng;
use ferveo::combine::{prepare_combine_simple, share_combine_simple};
use ferveo::context::{
    Ciphertext, PrivateDecryptionContextSimple, PrivateKeyShare, SetupParams,
};
use ferveo::field::Scalar;
use ferveo::group::{EvaluationDomain, G1, G2};
use ferveo::partition::{partition_domain, Params, TendermintValidator, ValidatorSet};
use ferveo::pvss::{PubliclyVerifiableDkg, PubliclyVerifiableParams, PubliclyVerifiableSS, PvssError};

fn sc(f: Fr) -> Scalar {
    Scalar::from_limbs(f.into_repr().0).unwrap()
}

fn g1_of(p: G1Affine) -> G1 {
    let mut b = Vec::new();
    p.serialize(&mut b).unwrap();
    G1::from_bytes(&b).unwrap()
}

fn g2_of(p: G2Affine) -> G2 {
    let mut b = Vec::new();
    p.serialize(&mut b).unwrap();
    G2::from_bytes(&b).unwrap()
}

fn g2_ark(q: &G2) -> G2Affine {
    G2Affine::deserialize(&q.to_bytes()[..]).unwrap()
}

struct Session {
    dkg: PubliclyVerifiableDkg,
    sks: Vec<Fr>,
    omegas: Vec<Fr>,
}

/// Four validators of equal power, total weight 8, threshold 2.
fn session(rng: &mut StdRng) -> Session {
    let sks: Vec<Fr> = (0..4).map(|_| Fr::rand(rng)).collect();
    let h = G2Affine::prime_subgroup_generator();
    let set = ValidatorSet {
        validators: (0..4)
            .map(|i| TendermintValidator {
                power: 10,
                address: format!("validator_{}", i),
                public_key: g2_of(h.mul(sks[i]).into_affine()),
            })
            .collect(),
    };
    let params = Params { tau: 1, total_weight: 8, security_threshold: 2, retry_after: 0 };
    let validators = partition_domain(&params, set).unwrap();
    let dkg = PubliclyVerifiableDkg {
        params,
        pvss_params: PubliclyVerifiableParams { g: G1::generator(), h: G2::generator() },
        validators,
        vss: vec![],
        domain: EvaluationDomain::new(8).unwrap(),
    };
    let omegas = Radix2EvaluationDomain::<Fr>::new(8).unwrap().elements().collect();
    Session { dkg, sks, omegas }
}

fn deal(dkg: &PubliclyVerifiableDkg, s: Fr, rng: &mut StdRng) -> PubliclyVerifiableSS {
    let phi: Vec<Scalar> = (0..3).map(|_| sc(Fr::rand(rng))).collect();
    PubliclyVerifiableSS::new(&sc(s), dkg, &phi)
}

fn alpha(rng: &mut StdRng) -> Scalar {
    sc(Fr::rand(rng))
}

/// The private key share `[phi(w_k)] h` of domain point `k`, decrypted with
/// its validator's key.
fn decrypt_share(s: &Session, pvss: &PubliclyVerifiableSS, k: usize) -> G2 {
    let i = k / 2;
    let share = g2_ark(&pvss.shares[i][k - s.dkg.validators[i].share_start]);
    g2_of(share.mul(s.sks[i].inverse().unwrap()).into_affine())
}

fn setup_params() -> SetupParams {
    let g = G1Affine::prime_subgroup_generator();
    let h = G2Affine::prime_subgroup_generator();
    SetupParams {
        b: Scalar::one(),
        b_inv: Scalar::one(),
        g: g1_of(g),
        g_inv: g1_of(-g),
        h_inv: g2_of(-h),
        h: g2_of(h),
    }
}

#[test]
fn test_pvss() {
    let rng = &mut StdRng::seed_from_u64(1);
    let weight = 128 / 4;
    let set = ValidatorSet {
        validators: (0..4)
            .map(|i| TendermintValidator {
                power: 1,
                address: format!("validator_{}", i),
                public_key: G2::generator(),
            })
            .collect(),
    };
    let params = Params { tau: 1, total_weight: 128, security_threshold: 2 * 128 / 3, retry_after: 0 };
    let validators = partition_domain(&params, set).unwrap();
    let dkg = PubliclyVerifiableDkg {
        params,
        pvss_params: PubliclyVerifiableParams { g: G1::generator(), h: G2::generator() },
        validators,
        vss: vec![],
        domain: EvaluationDomain::new(8192).expect("unable to construct domain"),
    };
    let phi: Vec<Scalar> = (0..=2 * 128 / 3).map(|_| sc(Fr::rand(rng))).collect();
    let pvss = PubliclyVerifiableSS::new(&sc(Fr::rand(rng)), &dkg, &phi);
    assert_eq!(pvss.coeffs.len(), 86);
    assert_eq!(pvss.shares.len(), 4);
    for (participant, shares) in pvss.shares.iter().enumerate() {
        assert_eq!(shares.len(), weight);
        assert_eq!(dkg.validators[participant].share_start, participant * weight);
    }
    assert!(pvss.commitment.is_empty());
}

#[test]
fn empty_session_aggregates_to_identity() {
    let rng = &mut StdRng::seed_from_u64(9);
    let s = session(rng);
    let d = deal(&s.dkg, Fr::rand(rng), rng);
    assert_eq!(d.verify_aggregation(&s.dkg), Err(PvssError::AggregateMismatch));
    let mut identity = d.clone();
    identity.coeffs[0] = g1_of(G1Affine::prime_subgroup_generator().mul(Fr::from(0u64)).into_affine());
    assert_eq!(identity.verify_aggregation(&s.dkg), Ok(0));
}

#[test]
fn non_canonical_encodings_rejected() {
    let g = G1::generator().to_bytes();
    let mut longer = g.clone();
    longer.push(0);
    assert!(G1::from_bytes(&g).is_some());
    assert!(G1::from_bytes(&longer).is_none());
    let h = G2::generator().to_bytes();
    let mut longer = h.clone();
    longer.push(7);
    assert!(G2::from_bytes(&h).is_some());
    assert!(G2::from_bytes(&longer).is_none());
    assert!(G1::from_bytes(&g[..g.len() - 1]).is_none());
}

#[test]
fn dealing_verifies() {
    for seed in 0..3u64 {
        let rng = &mut StdRng::seed_from_u64(seed);
        let s = session(rng);
        let pvss = deal(&s.dkg, Fr::rand(rng), rng);
        assert!(pvss.verify(&s.dkg, &alpha(rng)));
    }
}

#[test]
fn dealing_commits_to_secret() {
    let rng = &mut StdRng::seed_from_u64(2);
    let s = session(rng);
    let secret = Fr::rand(rng);
    let pvss = deal(&s.dkg, secret, rng);
    let g = G1Affine::prime_subgroup_generator();
    let h = G2Affine::prime_subgroup_generator();
    assert_eq!(pvss.coeffs[0].to_bytes(), g1_of(g.mul(secret).into_affine()).to_bytes());
    assert_eq!(pvss.sigma.to_bytes(), g2_of(h.mul(secret).into_affine()).to_bytes());
}

#[test]
fn pvss_round_trip_recovers_secret() {
    let rng = &mut StdRng::seed_from_u64(3);
    let s = session(rng);
    let secret = Fr::rand(rng);
    let pvss = deal(&s.dkg, secret, rng);
    assert!(pvss.verify(&s.dkg, &alpha(rng)));
    let ct = Ciphertext { commitment: G1::generator(), ciphertext: vec![] };
    let points = [0usize, 3, 6];
    let shares: Vec<_> = points
        .iter()
        .map(|&k| {
            PrivateDecryptionContextSimple {
                index: k,
                setup_params: setup_params(),
                private_key_share: PrivateKeyShare { private_key_share: decrypt_share(&s, &pvss, k) },
                public_decryption_contexts: vec![],
            }
            .create_share(&ct)
        })
        .collect();
    let domain: Vec<Scalar> = points.iter().map(|&k| sc(s.omegas[k])).collect();
    let lambda = prepare_combine_simple(&domain);
    let key = share_combine_simple(&shares, &lambda);
    let expected = Bls12_381::pairing(G1Affine::prime_subgroup_generator(), G2Affine::prime_subgroup_generator())
        .pow(secret.into_repr());
    let mut bytes = Vec::new();
    expected.serialize(&mut bytes).unwrap();
    assert_eq!(key.to_bytes(), bytes);
}

#[test]
fn aggregate_equals_sum() {
    let rng = &mut StdRng::seed_from_u64(4);
    let mut s = session(rng);
    let (s1, s2) = (Fr::rand(rng), Fr::rand(rng));
    let d1 = deal(&s.dkg, s1, rng);
    let d2 = deal(&s.dkg, s2, rng);
    let vss = vec![(0u32, d1), (1u32, d2)];
    let agg = PubliclyVerifiableSS::aggregate(&s.dkg, &vss);
    let g = G1Affine::prime_subgroup_generator();
    assert_eq!(agg.coeffs[0].to_bytes(), g1_of(g.mul(s1 + s2).into_affine()).to_bytes());
    assert_eq!(agg.commitment.len(), 8);
    s.dkg.vss = vss;
    assert_eq!(agg.verify_aggregation(&s.dkg), Ok(4));
}

#[test]
fn aggregate_mismatch_detected() {
    let rng = &mut StdRng::seed_from_u64(5);
    let mut s = session(rng);
    let d1 = deal(&s.dkg, Fr::rand(rng), rng);
    let d2 = deal(&s.dkg, Fr::rand(rng), rng);
    let agg = PubliclyVerifiableSS::aggregate(&s.dkg, &[(0u32, d1.clone())]);
    s.dkg.vss = vec![(0u32, d1), (1u32, d2)];
    assert_eq!(agg.verify_aggregation(&s.dkg), Err(PvssError::AggregateMismatch));
}

#[test]
fn aggregate_bad_sigma_detected() {
    let rng = &mut StdRng::seed_from_u64(6);
    let mut s = session(rng);
    let d1 = deal(&s.dkg, Fr::rand(rng), rng);
    let mut d2 = deal(&s.dkg, Fr::rand(rng), rng);
    d2.sigma = d1.sigma.clone();
    let vss = vec![(0u32, d1), (1u32, d2)];
    let agg = PubliclyVerifiableSS::aggregate(&s.dkg, &vss);
    s.dkg.vss = vss;
    assert_eq!(agg.verify_aggregation(&s.dkg), Err(PvssError::InvalidSigma));
}

#[test]
fn aggregate_order_independent() {
    let rng = &mut StdRng::seed_from_u64(7);
    let s = session(rng);
    let d1 = deal(&s.dkg, Fr::rand(rng), rng);
    let d2 = deal(&s.dkg, Fr::rand(rng), rng);
    let a = PubliclyVerifiableSS::aggregate(&s.dkg, &[(0u32, d1.clone()), (1u32, d2.clone())]);
    let b = PubliclyVerifiableSS::aggregate(&s.dkg, &[(0u32, d2), (1u32, d1)]);
    let bytes1 = |v: &Vec<G1>| v.iter().map(|p| p.to_bytes()).collect::<Vec<_>>();
    assert_eq!(bytes1(&a.coeffs), bytes1(&b.coeffs));
    assert_eq!(bytes1(&a.commitment), bytes1(&b.commitment));
    for (x, y) in a.shares.iter().zip(b.shares.iter()) {
        let bx: Vec<_> = x.iter().map(|q| q.to_bytes()).collect();
        let by: Vec<_> = y.iter().map(|q| q.to_bytes()).collect();
        assert_eq!(bx, by);
    }
    assert_eq!(a.sigma.to_bytes(), b.sigma.to_bytes());
}

fn flip(bytes: &[u8], bit: usize) -> Vec<u8> {
    let mut b = bytes.to_vec();
    b[bit / 8] ^= 1 << (bit % 8);
    b
}

#[test]
fn bad_share_rejected() {
    for seed in 0..4u64 {
        let rng = &mut StdRng::seed_from_u64(100 + seed);
        let s = session(rng);
        let pvss = deal(&s.dkg, Fr::rand(rng), rng);
        let i = (seed as usize) % 4;
        let j = (seed as usize) % 2;
        let bytes = flip(&pvss.shares[i][j].to_bytes(), 8 * (seed as usize) + 3);
        match G2::from_bytes(&bytes) {
            None => {}
            Some(q) => {
                let mut bad = pvss.clone();
                bad.shares[i][j] = q;
                assert!(!bad.verify(&s.dkg, &alpha(rng)));
            }
        }
        // A valid point in the wrong place is rejected too.
        let mut bad = pvss.clone();
        bad.shares[i][j] = bad.shares[i][1 - j].clone();
        assert!(!bad.verify(&s.dkg, &alpha(rng)));
    }
}

#[test]
fn bad_coeffs_or_sigma_rejected() {
    let rng = &mut StdRng::seed_from_u64(8);
    let s = session(rng);
    let pvss = deal(&s.dkg, Fr::rand(rng), rng);
    let mut bad = pvss.clone();
    bad.sigma = G2::generator();
    assert!(!bad.verify(&s.dkg, &alpha(rng)));
    let mut bad = pvss.clone();
    bad.coeffs[1] = bad.coeffs[2].clone();
    assert!(!bad.verify(&s.dkg, &alpha(rng)));
    let mut bad = pvss.clone();
    bad.shares.pop();
    assert!(!bad.verify(&s.dkg, &alpha(rng)));
    assert!(pvss.verify(&s.dkg, &alpha(rng)));
}
