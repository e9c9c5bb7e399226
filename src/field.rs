//! Elements of the BLS12-381 scalar field, held as four little-endian limbs
//! and modelled as integers modulo the field order.
use vstd::prelude::*;
use ark_bls12_381::Fr;
use ark_ff::{BigInteger256, PrimeField};

verus! {

/// 2^64, the base of one limb.
pub open spec fn limb_base() -> int {
    0x1_0000_0000_0000_0000
}

/// The order of the scalar field.
pub open spec fn modulus() -> int {
    0xffffffff00000001int
        + 0x53bda402fffe5bfeint * limb_base()
        + 0x3339d80809a1d805int * limb_base() * limb_base()
        + 0x73eda753299d7d48int * limb_base() * limb_base() * limb_base()
}

pub open spec fn fadd(a: int, b: int) -> int {
    (a + b) % modulus()
}

pub open spec fn fsub(a: int, b: int) -> int {
    (a - b) % modulus()
}

pub open spec fn fmul(a: int, b: int) -> int {
    (a * b) % modulus()
}

/// The multiplicative inverse, by Fermat's little theorem (the order is prime).
pub open spec fn finv(a: int) -> int {
    vstd::arithmetic::power::pow(a, (modulus() - 2) as nat) % modulus()
}

pub open spec fn fdiv(a: int, b: int) -> int {
    fmul(a, finv(b))
}

/// A scalar field element in canonical form: the limbs, read little-endian,
/// give a value below the field order.
#[derive(Clone, Copy, Debug, PartialEq, Eq, Structural)]
pub struct Scalar {
    pub l0: u64,
    pub l1: u64,
    pub l2: u64,
    pub l3: u64,
}

impl Scalar {
    pub open spec fn val(self) -> int {
        self.l0 as int
            + self.l1 as int * limb_base()
            + self.l2 as int * limb_base() * limb_base()
            + self.l3 as int * limb_base() * limb_base() * limb_base()
    }

    pub open spec fn wf(self) -> bool {
        0 <= self.val() < modulus()
    }

    pub open spec fn spec_zero() -> Scalar {
        Scalar { l0: 0, l1: 0, l2: 0, l3: 0 }
    }

    pub fn zero() -> (r: Scalar)
        ensures
            r.wf(),
            r.val() == 0,
            r == Scalar::spec_zero(),
    {
        Scalar { l0: 0, l1: 0, l2: 0, l3: 0 }
    }

    pub fn one() -> (r: Scalar)
        ensures
            r.wf(),
            r.val() == 1,
    {
        Scalar { l0: 1, l1: 0, l2: 0, l3: 0 }
    }

    pub fn from_u64(x: u64) -> (r: Scalar)
        ensures
            r.wf(),
            r.val() == x as int,
    {
        Scalar { l0: x, l1: 0, l2: 0, l3: 0 }
    }

    /// The element with the given little-endian limbs, where they are below
    /// the field order.
    pub fn from_limbs(limbs: [u64; 4]) -> (r: Option<Scalar>)
        ensures
            r is Some <==> (Scalar { l0: limbs[0], l1: limbs[1], l2: limbs[2], l3: limbs[3] }).wf(),
            r is Some ==> r->0 == (Scalar { l0: limbs[0], l1: limbs[1], l2: limbs[2], l3: limbs[3] }),
    {
        fr_from_limbs(limbs)
    }

    pub fn limbs(&self) -> (r: [u64; 4])
        ensures
            r@ == seq![self.l0, self.l1, self.l2, self.l3],
    {
        [self.l0, self.l1, self.l2, self.l3]
    }
}

/// Relies on ark_ff's `PrimeField::from_repr` for `Fr`: it accepts a
/// representation exactly when it is below the modulus, and `into_repr` gives
/// the same limbs back.
#[verifier::external_body]
fn fr_from_limbs(limbs: [u64; 4]) -> (r: Option<Scalar>)
    ensures
        r is Some <==> (Scalar { l0: limbs[0], l1: limbs[1], l2: limbs[2], l3: limbs[3] }).wf(),
        r is Some ==> r->0 == (Scalar { l0: limbs[0], l1: limbs[1], l2: limbs[2], l3: limbs[3] }),
{
    Fr::from_repr(BigInteger256(limbs)).map(|f| {
        let b = f.into_repr().0;
        Scalar { l0: b[0], l1: b[1], l2: b[2], l3: b[3] }
    })
}

/// Two canonical elements with the same value have the same limbs.
pub proof fn lemma_val_injective(a: Scalar, b: Scalar)
    requires
        a.val() == b.val(),
    ensures
        a == b,
{
    let bb = limb_base();
    let ha = a.l1 as int + bb * (a.l2 as int + bb * a.l3 as int);
    let hb = b.l1 as int + bb * (b.l2 as int + bb * b.l3 as int);
    assert(a.val() == ha * bb + a.l0) by (nonlinear_arith)
        requires ha == a.l1 as int + bb * (a.l2 as int + bb * a.l3 as int),
            a.val() == a.l0 as int + a.l1 as int * bb + a.l2 as int * bb * bb + a.l3 as int * bb * bb * bb;
    assert(b.val() == hb * bb + b.l0) by (nonlinear_arith)
        requires hb == b.l1 as int + bb * (b.l2 as int + bb * b.l3 as int),
            b.val() == b.l0 as int + b.l1 as int * bb + b.l2 as int * bb * bb + b.l3 as int * bb * bb * bb;
    vstd::arithmetic::div_mod::lemma_fundamental_div_mod_converse(a.val(), bb, ha, a.l0 as int);
    vstd::arithmetic::div_mod::lemma_fundamental_div_mod_converse(b.val(), bb, hb, b.l0 as int);
    let ma = a.l2 as int + bb * a.l3 as int;
    let mb = b.l2 as int + bb * b.l3 as int;
    assert(ha == ma * bb + a.l1) by (nonlinear_arith) requires ha == a.l1 as int + bb * ma;
    assert(hb == mb * bb + b.l1) by (nonlinear_arith) requires hb == b.l1 as int + bb * mb;
    vstd::arithmetic::div_mod::lemma_fundamental_div_mod_converse(ha, bb, ma, a.l1 as int);
    vstd::arithmetic::div_mod::lemma_fundamental_div_mod_converse(hb, bb, mb, b.l1 as int);
    assert(ma == a.l3 as int * bb + a.l2) by (nonlinear_arith) requires ma == a.l2 as int + bb * a.l3 as int;
    assert(mb == b.l3 as int * bb + b.l2) by (nonlinear_arith) requires mb == b.l2 as int + bb * b.l3 as int;
    vstd::arithmetic::div_mod::lemma_fundamental_div_mod_converse(ma, bb, a.l3 as int, a.l2 as int);
    vstd::arithmetic::div_mod::lemma_fundamental_div_mod_converse(mb, bb, b.l3 as int, b.l2 as int);
}

/// The difference of two distinct canonical elements is not zero.
pub proof fn lemma_fsub_nonzero(a: Scalar, b: Scalar)
    requires
        a.wf(),
        b.wf(),
        a != b,
    ensures
        fsub(a.val(), b.val()) != 0,
{
    if a.val() == b.val() {
        lemma_val_injective(a, b);
    }
    let d = a.val() - b.val();
    let m = modulus();
    if d > 0 {
        vstd::arithmetic::div_mod::lemma_small_mod(d as nat, m as nat);
    } else {
        vstd::arithmetic::div_mod::lemma_fundamental_div_mod_converse(d, m, -1, d + m);
    }
}

/// Relies on ark_ff's `Add` for `Fr`: addition modulo the field order.
#[verifier::external_body]
pub(crate) fn fr_add(a: &Scalar, b: &Scalar) -> (r: Scalar)
    requires
        a.wf(),
        b.wf(),
    ensures
        r.wf(),
        r.val() == fadd(a.val(), b.val()),
{
    let x = Fr::from_repr(BigInteger256([a.l0, a.l1, a.l2, a.l3])).unwrap();
    let y = Fr::from_repr(BigInteger256([b.l0, b.l1, b.l2, b.l3])).unwrap();
    let z = (x + y).into_repr().0;
    Scalar { l0: z[0], l1: z[1], l2: z[2], l3: z[3] }
}

/// Relies on ark_ff's `Sub` for `Fr`: subtraction modulo the field order.
#[verifier::external_body]
pub(crate) fn fr_sub(a: &Scalar, b: &Scalar) -> (r: Scalar)
    requires
        a.wf(),
        b.wf(),
    ensures
        r.wf(),
        r.val() == fsub(a.val(), b.val()),
{
    let x = Fr::from_repr(BigInteger256([a.l0, a.l1, a.l2, a.l3])).unwrap();
    let y = Fr::from_repr(BigInteger256([b.l0, b.l1, b.l2, b.l3])).unwrap();
    let z = (x - y).into_repr().0;
    Scalar { l0: z[0], l1: z[1], l2: z[2], l3: z[3] }
}

/// Relies on ark_ff's `Mul` for `Fr`: multiplication modulo the field order.
#[verifier::external_body]
pub(crate) fn fr_mul(a: &Scalar, b: &Scalar) -> (r: Scalar)
    requires
        a.wf(),
        b.wf(),
    ensures
        r.wf(),
        r.val() == fmul(a.val(), b.val()),
{
    let x = Fr::from_repr(BigInteger256([a.l0, a.l1, a.l2, a.l3])).unwrap();
    let y = Fr::from_repr(BigInteger256([b.l0, b.l1, b.l2, b.l3])).unwrap();
    let z = (x * y).into_repr().0;
    Scalar { l0: z[0], l1: z[1], l2: z[2], l3: z[3] }
}

/// Relies on ark_ff's `Div` for `Fr`: multiplication by the inverse of a
/// nonzero divisor (it panics on zero).
#[verifier::external_body]
pub(crate) fn fr_div(a: &Scalar, b: &Scalar) -> (r: Scalar)
    requires
        a.wf(),
        b.wf(),
        b.val() != 0,
    ensures
        r.wf(),
        r.val() == fdiv(a.val(), b.val()),
{
    let x = Fr::from_repr(BigInteger256([a.l0, a.l1, a.l2, a.l3])).unwrap();
    let y = Fr::from_repr(BigInteger256([b.l0, b.l1, b.l2, b.l3])).unwrap();
    let z = (x / y).into_repr().0;
    Scalar { l0: z[0], l1: z[1], l2: z[2], l3: z[3] }
}

} // verus!
