use ark_bls12_381::Fr;
use ark_ff::PrimeField;
use ark_poly::EvaluationDomain as _;
use ferveo::combine::{lagrange_basis_at, prepare_combine_simple};
use ferveo::group::EvaluationDomain;
use ferveo::field::Scalar;

fn limbs_of(s: &Scalar) -> [u64; 4] {
    s.limbs()
}

// Order of the scalar field minus one, i.e. -1.
const MINUS_ONE: [u64; 4] =
    [0xffffffff00000000, 0x53bda402fffe5bfe, 0x3339d80809a1d805, 0x73eda753299d7d48];

#[test]
fn lagrange_at_zero_of_small_points() {
    // Points 1, 2, 3 evaluated at zero: coefficients 3, -3, 1.
    let xs = vec![Scalar::from_u64(1), Scalar::from_u64(2), Scalar::from_u64(3)];
    let l = prepare_combine_simple(&xs);
    assert_eq!(l.len(), 3);
    assert_eq!(l[0], Scalar::from_u64(3));
    let minus_three = Scalar::from_limbs([MINUS_ONE[0] - 2, MINUS_ONE[1], MINUS_ONE[2], MINUS_ONE[3]]).unwrap();
    assert_eq!(l[1], minus_three);
    assert_eq!(l[2], Scalar::one());
}

#[test]
fn lagrange_coefficients_sum_to_one() {
    let domain = ark_poly::Radix2EvaluationDomain::<Fr>::new(500).unwrap();
    let points: Vec<Scalar> = domain
        .elements()
        .take(40)
        .map(|w| Scalar::from_limbs(w.into_repr().0).unwrap())
        .collect();
    let l = prepare_combine_simple(&points);
    let mut sum = Fr::from(0u64);
    for c in &l {
        sum += Fr::from_repr(ark_ff::BigInteger256(c.limbs())).unwrap();
    }
    assert_eq!(sum, Fr::from(1u64));
}

#[test]
fn evaluation_domain_rounds_up_to_power_of_two() {
    assert_eq!(EvaluationDomain::new(500).unwrap().size(), 512);
    assert_eq!(EvaluationDomain::new(8).unwrap().size(), 8);
    assert_eq!(EvaluationDomain::new(1).unwrap().size(), 1);
    assert!(EvaluationDomain::new((1usize << 32) + 1).is_none());
}

#[test]
fn lagrange_at_a_node_is_a_unit_vector() {
    let xs: Vec<Scalar> = (1..=5).map(Scalar::from_u64).collect();
    let l = lagrange_basis_at(&xs, &Scalar::from_u64(4));
    for (j, c) in l.iter().enumerate() {
        if j == 3 {
            assert_eq!(*c, Scalar::one());
        } else {
            assert_eq!(*c, Scalar::zero());
        }
    }
}

#[test]
fn lagrange_single_point_is_one() {
    let l = prepare_combine_simple(&[Scalar::from_u64(9)]);
    assert_eq!(l, vec![Scalar::one()]);
    assert!(prepare_combine_simple(&[]).is_empty());
}

#[test]
fn lagrange_two_points_exact() {
    // Points 2 and 4 at zero: 4/(4-2) = 2 and 2/(2-4) = -1.
    let l = prepare_combine_simple(&[Scalar::from_u64(2), Scalar::from_u64(4)]);
    assert_eq!(l[0], Scalar::from_u64(2));
    assert_eq!(limbs_of(&l[1]), MINUS_ONE);
}

#[test]
fn scalar_limbs_above_modulus_rejected() {
    let mut m = MINUS_ONE;
    m[0] += 1;
    assert!(Scalar::from_limbs(m).is_none());
    assert!(Scalar::from_limbs(MINUS_ONE).is_some());
}
