//! Elements of the pairing groups G1, G2 and GT of BLS12-381, held as their
//! canonical compressed encodings. Every value of these types decodes to a
//! group element.
use vstd::prelude::*;
use ark_bls12_381::{Bls12_381, Fq12, Fr, G1Affine, G1Projective, G2Affine};
use ark_ec::{AffineCurve, PairingEngine, ProjectiveCurve};
use ark_ff::{BigInteger256, One, PrimeField};
use ark_poly::{EvaluationDomain as ArkDomain, Radix2EvaluationDomain};
use ark_serialize::{CanonicalDeserialize, CanonicalSerialize};
use crate::field::Scalar;
use crate::combine::scalar_vals;

verus! {

/// Whether `CanonicalDeserialize` decodes bytes to a point of G1's prime-order subgroup.
pub uninterp spec fn g1_valid(b: Seq<u8>) -> bool;

/// Whether `CanonicalDeserialize` decodes bytes to a point of G2's prime-order subgroup.
pub uninterp spec fn g2_valid(b: Seq<u8>) -> bool;

/// Whether `CanonicalDeserialize` decodes bytes to an element of the target field.
pub uninterp spec fn gt_valid(b: Seq<u8>) -> bool;

/// The encoding of `[k] P` for the point of G1 encoded by `p`.
pub uninterp spec fn g1_mul_of(p: Seq<u8>, k: int) -> Seq<u8>;

/// The encoding of `P + P'` in G1.
pub uninterp spec fn g1_add_of(p: Seq<u8>, q: Seq<u8>) -> Seq<u8>;

/// The encoding of `Q + Q'` in G2.
pub uninterp spec fn g2_add_of(p: Seq<u8>, q: Seq<u8>) -> Seq<u8>;

/// The evaluations, over the radix-2 domain of size `n`, of the polynomial
/// with coefficients `coeffs` (the FFT of the coefficients).
pub uninterp spec fn fr_fft_of(coeffs: Seq<int>, n: int) -> Seq<int>;

/// The FFT over the radix-2 domain of size `n` of a vector of G1 points.
pub uninterp spec fn g1_fft_of(ps: Seq<Seq<u8>>, n: int) -> Seq<Seq<u8>>;

/// The encoding of `[k] Q` for the point of G2 encoded by `q`.
pub uninterp spec fn g2_mul_of(q: Seq<u8>, k: int) -> Seq<u8>;

/// The encoding of `e(P, Q)`.
pub uninterp spec fn pairing_of(p: Seq<u8>, q: Seq<u8>) -> Seq<u8>;

/// The encoding of `prod_i e(P_i, Q_i)`.
pub uninterp spec fn pairing_product_of(ps: Seq<Seq<u8>>, qs: Seq<Seq<u8>>) -> Seq<u8>;

/// The encoding of `c^k` in the target field.
pub uninterp spec fn gt_pow_of(c: Seq<u8>, k: int) -> Seq<u8>;

/// The encoding of the product `a * b` in the target field.
pub uninterp spec fn gt_mul_of(a: Seq<u8>, b: Seq<u8>) -> Seq<u8>;

/// The encoding of the unit of the target field: twelve base field
/// coordinates of 48 little-endian bytes, the first one and the rest zero.
pub open spec fn gt_one_encoding() -> Seq<u8> {
    Seq::new(576, |i: int| if i == 0 { 1u8 } else { 0u8 })
}

/// A point of G1.
#[derive(Debug)]
pub struct G1 {
    bytes: Vec<u8>,
}

/// A point of G2.
#[derive(Debug)]
pub struct G2 {
    bytes: Vec<u8>,
}

/// An element of the target group GT.
#[derive(Debug)]
pub struct Gt {
    bytes: Vec<u8>,
}

impl View for G1 {
    type V = Seq<u8>;

    closed spec fn view(&self) -> Seq<u8> {
        self.bytes@
    }
}

impl View for G2 {
    type V = Seq<u8>;

    closed spec fn view(&self) -> Seq<u8> {
        self.bytes@
    }
}

impl View for Gt {
    type V = Seq<u8>;

    closed spec fn view(&self) -> Seq<u8> {
        self.bytes@
    }
}

impl Clone for G1 {
    fn clone(&self) -> (r: G1)
        ensures
            r@ == self@,
    {
        proof {
            use_type_invariant(self);
        }
        let bytes = self.bytes.clone();
        assert(bytes@ =~= self.bytes@);
        G1 { bytes }
    }
}

impl Clone for G2 {
    fn clone(&self) -> (r: G2)
        ensures
            r@ == self@,
    {
        proof {
            use_type_invariant(self);
        }
        let bytes = self.bytes.clone();
        assert(bytes@ =~= self.bytes@);
        G2 { bytes }
    }
}

impl Clone for Gt {
    fn clone(&self) -> (r: Gt)
        ensures
            r@ == self@,
    {
        proof {
            use_type_invariant(self);
        }
        let bytes = self.bytes.clone();
        assert(bytes@ =~= self.bytes@);
        Gt { bytes }
    }
}

pub open spec fn g1_views(s: Seq<G1>) -> Seq<Seq<u8>> {
    s.map_values(|p: G1| p@)
}

pub open spec fn g2_views(s: Seq<G2>) -> Seq<Seq<u8>> {
    s.map_values(|q: G2| q@)
}

impl G1 {
    #[verifier::type_invariant]
    closed spec fn inv(self) -> bool {
        g1_valid(self.bytes@)
    }

    /// Decodes a point, where the bytes are its canonical encoding: they
    /// decode, and encoding the point again gives the same bytes.
    pub fn from_bytes(b: &[u8]) -> (r: Option<G1>)
        ensures
            r is Some <==> g1_valid(b@) && g1_mul_of(b@, 1) == b@,
            r is Some ==> r->0@ == b@,
    {
        match g1_decode(b) {
            None => None,
            Some(p) => {
                // Re-encoding the value gives its canonical encoding.
                let one = Scalar::one();
                let q = g1_mul(&p, &one);
                if q.equals(&p) {
                    Some(p)
                } else {
                    None
                }
            },
        }
    }

    pub fn to_bytes(&self) -> (r: Vec<u8>)
        ensures
            r@ == self@,
    {
        let r = self.bytes.clone();
        assert(r@ =~= self.bytes@);
        r
    }

    /// The generator of G1, in its canonical encoding.
    pub fn generator() -> (r: G1)
        ensures
            g1_mul_of(r@, 1) == r@,
    {
        g1_generator()
    }

    /// Whether two points are equal; encodings are canonical.
    pub fn equals(&self, other: &G1) -> (r: bool)
        ensures
            r == (self@ == other@),
    {
        bytes_equal(&self.bytes, &other.bytes)
    }
}

impl G2 {
    #[verifier::type_invariant]
    closed spec fn inv(self) -> bool {
        g2_valid(self.bytes@)
    }

    /// Decodes a point, where the bytes are its canonical encoding: they
    /// decode, and encoding the point again gives the same bytes.
    pub fn from_bytes(b: &[u8]) -> (r: Option<G2>)
        ensures
            r is Some <==> g2_valid(b@) && g2_mul_of(b@, 1) == b@,
            r is Some ==> r->0@ == b@,
    {
        match g2_decode(b) {
            None => None,
            Some(p) => {
                // Re-encoding the value gives its canonical encoding.
                let one = Scalar::one();
                let q = g2_mul(&p, &one);
                if bytes_equal(&q.bytes, &p.bytes) {
                    Some(p)
                } else {
                    None
                }
            },
        }
    }

    pub fn to_bytes(&self) -> (r: Vec<u8>)
        ensures
            r@ == self@,
    {
        let r = self.bytes.clone();
        assert(r@ =~= self.bytes@);
        r
    }

    /// The generator of G2, in its canonical encoding.
    pub fn generator() -> (r: G2)
        ensures
            g2_mul_of(r@, 1) == r@,
    {
        g2_generator()
    }
}

impl Gt {
    #[verifier::type_invariant]
    closed spec fn inv(self) -> bool {
        gt_valid(self.bytes@)
    }

    /// Decodes an element, where the bytes are its canonical encoding: they
    /// decode, and encoding the element again gives the same bytes.
    pub fn from_bytes(b: &[u8]) -> (r: Option<Gt>)
        ensures
            r is Some <==> gt_valid(b@) && gt_pow_of(b@, 1) == b@,
            r is Some ==> r->0@ == b@,
    {
        match gt_decode(b) {
            None => None,
            Some(p) => {
                // Re-encoding the value gives its canonical encoding.
                let one = Scalar::one();
                let q = gt_pow(&p, &one);
                if q.equals(&p) {
                    Some(p)
                } else {
                    None
                }
            },
        }
    }

    pub fn to_bytes(&self) -> (r: Vec<u8>)
        ensures
            r@ == self@,
    {
        let r = self.bytes.clone();
        assert(r@ =~= self.bytes@);
        r
    }

    /// Whether two elements are equal; encodings are canonical.
    pub fn equals(&self, other: &Gt) -> (r: bool)
        ensures
            r == (self@ == other@),
    {
        bytes_equal(&self.bytes, &other.bytes)
    }
}

fn bytes_equal(a: &Vec<u8>, b: &Vec<u8>) -> (r: bool)
    ensures
        r == (a@ == b@),
{
    let n = a.len();
    if n != b.len() {
        return false;
    }
    let mut i: usize = 0;
    while i < n
        invariant
            n == a.len(),
            n == b.len(),
            i <= n,
            forall|k: int| 0 <= k < i ==> a@[k] == b@[k],
        decreases n - i,
    {
        if a[i] != b[i] {
            return false;
        }
        i = i + 1;
    }
    assert(a@ =~= b@);
    true
}

/// Relies on `CanonicalDeserialize::deserialize` for `G1Affine`: it accepts
/// bytes that start with the encoding of a subgroup point (it ignores bytes
/// after it and the x of a point flagged at infinity).
#[verifier::external_body]
fn g1_decode(b: &[u8]) -> (r: Option<G1>)
    ensures
        r is Some <==> g1_valid(b@),
        r is Some ==> r->0@ == b@,
{
    match G1Affine::deserialize(b) {
        Ok(_) => Some(G1 { bytes: b.to_vec() }),
        Err(_) => None,
    }
}

/// Relies on `CanonicalDeserialize::deserialize` for `G2Affine`: it accepts
/// bytes that start with the encoding of a subgroup point (it ignores bytes
/// after it and the x of a point flagged at infinity).
#[verifier::external_body]
fn g2_decode(b: &[u8]) -> (r: Option<G2>)
    ensures
        r is Some <==> g2_valid(b@),
        r is Some ==> r->0@ == b@,
{
    match G2Affine::deserialize(b) {
        Ok(_) => Some(G2 { bytes: b.to_vec() }),
        Err(_) => None,
    }
}

/// Relies on `CanonicalDeserialize::deserialize` for `Fq12`: it accepts bytes
/// that start with twelve encoded base field coordinates.
#[verifier::external_body]
fn gt_decode(b: &[u8]) -> (r: Option<Gt>)
    ensures
        r is Some <==> gt_valid(b@),
        r is Some ==> r->0@ == b@,
{
    match Fq12::deserialize(b) {
        Ok(_) => Some(Gt { bytes: b.to_vec() }),
        Err(_) => None,
    }
}

/// Relies on `AffineCurve::prime_subgroup_generator` for `G1Affine`: an
/// affine point, which serialises to the same bytes after scaling by one.
#[verifier::external_body]
fn g1_generator() -> (r: G1)
    ensures
        g1_mul_of(r@, 1) == r@,
{
    let mut bytes = Vec::new();
    G1Affine::prime_subgroup_generator().serialize(&mut bytes).unwrap();
    G1 { bytes }
}

/// Relies on `AffineCurve::prime_subgroup_generator` for `G2Affine`: an
/// affine point, which serialises to the same bytes after scaling by one.
#[verifier::external_body]
fn g2_generator() -> (r: G2)
    ensures
        g2_mul_of(r@, 1) == r@,
{
    let mut bytes = Vec::new();
    G2Affine::prime_subgroup_generator().serialize(&mut bytes).unwrap();
    G2 { bytes }
}

/// Relies on `AffineCurve::mul` for `G1Affine`: scalar multiplication by the
/// integer the limbs spell.
#[verifier::external_body]
pub(crate) fn g1_mul(p: &G1, k: &Scalar) -> (r: G1)
    ensures
        r@ == g1_mul_of(p@, k.val()),
{
    let a = G1Affine::deserialize(&p.bytes[..]).unwrap();
    let mut bytes = Vec::new();
    a.mul(BigInteger256([k.l0, k.l1, k.l2, k.l3])).into_affine().serialize(&mut bytes).unwrap();
    G1 { bytes }
}

/// Relies on `AffineCurve::mul` for `G2Affine`: scalar multiplication by the
/// integer the limbs spell.
#[verifier::external_body]
pub(crate) fn g2_mul(q: &G2, k: &Scalar) -> (r: G2)
    ensures
        r@ == g2_mul_of(q@, k.val()),
{
    let a = G2Affine::deserialize(&q.bytes[..]).unwrap();
    let mut bytes = Vec::new();
    a.mul(BigInteger256([k.l0, k.l1, k.l2, k.l3])).into_affine().serialize(&mut bytes).unwrap();
    G2 { bytes }
}

/// Relies on `PairingEngine::pairing` for `Bls12_381`.
#[verifier::external_body]
pub(crate) fn pairing(p: &G1, q: &G2) -> (r: Gt)
    ensures
        r@ == pairing_of(p@, q@),
{
    let a = G1Affine::deserialize(&p.bytes[..]).unwrap();
    let b = G2Affine::deserialize(&q.bytes[..]).unwrap();
    let mut bytes = Vec::new();
    Bls12_381::pairing(a, b).serialize(&mut bytes).unwrap();
    Gt { bytes }
}

/// Relies on `PairingEngine::product_of_pairings` for `Bls12_381`.
#[verifier::external_body]
pub(crate) fn pairing_product(ps: &[G1], qs: &[G2]) -> (r: Gt)
    requires
        ps.len() == qs.len(),
    ensures
        r@ == pairing_product_of(g1_views(ps@), g2_views(qs@)),
{
    let pairs: Vec<_> = ps.iter().zip(qs.iter()).map(|(p, q)| (
        G1Affine::deserialize(&p.bytes[..]).unwrap().into(),
        G2Affine::deserialize(&q.bytes[..]).unwrap().into(),
    )).collect();
    let mut bytes = Vec::new();
    Bls12_381::product_of_pairings(&pairs).serialize(&mut bytes).unwrap();
    Gt { bytes }
}

/// Relies on `Field::pow` for `Fq12`: exponentiation by the integer the
/// limbs spell.
#[verifier::external_body]
pub(crate) fn gt_pow(c: &Gt, k: &Scalar) -> (r: Gt)
    ensures
        r@ == gt_pow_of(c@, k.val()),
{
    let a = Fq12::deserialize(&c.bytes[..]).unwrap();
    let mut bytes = Vec::new();
    ark_ff::Field::pow(&a, [k.l0, k.l1, k.l2, k.l3]).serialize(&mut bytes).unwrap();
    Gt { bytes }
}

/// Relies on `Mul` for `Fq12`.
#[verifier::external_body]
pub(crate) fn gt_mul(a: &Gt, b: &Gt) -> (r: Gt)
    ensures
        r@ == gt_mul_of(a@, b@),
{
    let x = Fq12::deserialize(&a.bytes[..]).unwrap();
    let y = Fq12::deserialize(&b.bytes[..]).unwrap();
    let mut bytes = Vec::new();
    (x * y).serialize(&mut bytes).unwrap();
    Gt { bytes }
}

/// Relies on `One::one` for `Fq12` and on its serialization: the coordinates
/// in order, each as 48 little-endian bytes.
#[verifier::external_body]
pub(crate) fn gt_one() -> (r: Gt)
    ensures
        r@ == gt_one_encoding(),
{
    let mut bytes = Vec::new();
    Fq12::one().serialize(&mut bytes).unwrap();
    Gt { bytes }
}

/// Relies on `Add` for `G1Projective`, with the sum normalised to affine form.
#[verifier::external_body]
pub(crate) fn g1_add(p: &G1, q: &G1) -> (r: G1)
    ensures
        r@ == g1_add_of(p@, q@),
{
    let a = G1Affine::deserialize(&p.bytes[..]).unwrap();
    let b = G1Affine::deserialize(&q.bytes[..]).unwrap();
    let mut bytes = Vec::new();
    (a.into_projective() + b.into_projective()).into_affine().serialize(&mut bytes).unwrap();
    G1 { bytes }
}

/// Relies on `Add` for `G2Projective`, with the sum normalised to affine form.
#[verifier::external_body]
pub(crate) fn g2_add(p: &G2, q: &G2) -> (r: G2)
    ensures
        r@ == g2_add_of(p@, q@),
{
    let a = G2Affine::deserialize(&p.bytes[..]).unwrap();
    let b = G2Affine::deserialize(&q.bytes[..]).unwrap();
    let mut bytes = Vec::new();
    (a.into_projective() + b.into_projective()).into_affine().serialize(&mut bytes).unwrap();
    G2 { bytes }
}

/// Whether `n` is a power of two no larger than `2^32`, the largest radix-2
/// domain of the scalar field.
pub open spec fn radix2_size(n: int) -> bool
    decreases n,
{
    if n <= 1 {
        n == 1
    } else {
        n <= 0x1_0000_0000 && n % 2 == 0 && radix2_size(n / 2)
    }
}

/// A radix-2 evaluation domain of the scalar field, given by its size.
#[derive(Debug)]
pub struct EvaluationDomain {
    size: usize,
}

impl EvaluationDomain {
    #[verifier::type_invariant]
    closed spec fn inv(self) -> bool {
        radix2_size(self.size as int)
    }

    pub closed spec fn spec_size(self) -> int {
        self.size as int
    }

    /// The smallest domain with at least `num_coeffs` points: its size is the
    /// next power of two, up to `2^32`.
    pub fn new(num_coeffs: usize) -> (r: Option<EvaluationDomain>)
        ensures
            r is Some <==> num_coeffs <= 0x1_0000_0000,
            r is Some ==> r->0.spec_size() >= num_coeffs,
            r is Some ==> r->0.spec_size() == 1 || r->0.spec_size() < 2 * num_coeffs,
    {
        if num_coeffs as u64 > 0x1_0000_0000u64 {
            return None;
        }
        match radix2_domain_size(num_coeffs) {
            Some(size) => Some(EvaluationDomain { size }),
            None => None,
        }
    }

    pub fn size(&self) -> (r: usize)
        ensures
            r == self.spec_size(),
    {
        self.size
    }
}

/// Relies on `Radix2EvaluationDomain::new` for `Fr`: its size is the next
/// power of two of `num_coeffs` (1 for 0), and it succeeds up to the field's
/// two-adicity of 32.
#[verifier::external_body]
fn radix2_domain_size(num_coeffs: usize) -> (r: Option<usize>)
    requires
        num_coeffs <= 0x1_0000_0000,
    ensures
        r is Some,
        radix2_size(r->0 as int),
        r->0 >= num_coeffs,
        r->0 == 1 || r->0 < 2 * num_coeffs,
{
    Radix2EvaluationDomain::<Fr>::new(num_coeffs).map(|d| d.size())
}

/// Relies on `EvaluationDomain::fft` of `Radix2EvaluationDomain<Fr>`: the
/// coefficients are padded or cut to the domain size and transformed.
#[verifier::external_body]
pub(crate) fn fr_fft(domain: &EvaluationDomain, coeffs: &[Scalar]) -> (r: Vec<Scalar>)
    requires
        forall|i: int| 0 <= i < coeffs.len() ==> (#[trigger] coeffs@[i]).wf(),
    ensures
        r.len() == domain.spec_size(),
        forall|i: int| 0 <= i < r.len() ==> (#[trigger] r[i]).wf(),
        scalar_vals(r@) == fr_fft_of(scalar_vals(coeffs@), domain.spec_size()),
{
    let d = Radix2EvaluationDomain::<Fr>::new(domain.size).unwrap();
    let c: Vec<Fr> = coeffs.iter().map(|k| Fr::from_repr(BigInteger256([k.l0, k.l1, k.l2, k.l3])).unwrap()).collect();
    d.fft(&c).iter().map(|f| {
        let z = f.into_repr().0;
        Scalar { l0: z[0], l1: z[1], l2: z[2], l3: z[3] }
    }).collect()
}

/// Relies on `EvaluationDomain::fft_in_place` of `Radix2EvaluationDomain<Fr>`
/// on G1 points, with the results normalised to affine form.
#[verifier::external_body]
pub(crate) fn g1_fft(domain: &EvaluationDomain, ps: &[G1]) -> (r: Vec<G1>)
    ensures
        r.len() == domain.spec_size(),
        g1_views(r@) == g1_fft_of(g1_views(ps@), domain.spec_size()),
{
    let d = Radix2EvaluationDomain::<Fr>::new(domain.size).unwrap();
    let mut v: Vec<G1Projective> = ps.iter().map(|p| G1Affine::deserialize(&p.bytes[..]).unwrap().into_projective()).collect();
    d.fft_in_place(&mut v);
    G1Projective::batch_normalization_into_affine(&v).iter().map(|a| {
        let mut bytes = Vec::new();
        a.serialize(&mut bytes).unwrap();
        G1 { bytes }
    }).collect()
}

} // verus!
