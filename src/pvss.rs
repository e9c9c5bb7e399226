//! Publicly verifiable secret sharing: dealing, verification and aggregation
//! of encrypted polynomial shares.
use vstd::prelude::*;
use crate::partition::{Params, Validator};
use crate::field::{fmul, fr_mul, Scalar};
use crate::combine::{all_wf, scalar_vals};
use crate::context::g1_lin_comb;
use crate::group::{
    pairing, pairing_of, fr_fft, fr_fft_of, g1_mul, g1_mul_of, g1_add, g1_add_of, g1_fft, g1_fft_of, g1_views, g2_add, g2_add_of, g2_mul, g2_mul_of, g2_views,
    EvaluationDomain, G1, G2,
};

verus! {

/// A dealer's transcript, posted publicly to start the sharing.
#[derive(Clone, Debug)]
pub struct PubliclyVerifiableSS {
    /// Feldman commitment to the polynomial's coefficients, `F_k = [phi_k] g`.
    pub coeffs: Vec<G1>,
    /// For each validator, `[phi(w_j)] ek` for each point `j` of its segment.
    pub shares: Vec<Vec<G2>>,
    /// Proof of knowledge of the secret, `[s] h`.
    pub sigma: G2,
    /// The coefficients' commitment evaluated over the domain; empty until
    /// aggregation.
    pub commitment: Vec<G1>,
}

/// The generators `g` of G1 and `h` of G2.
#[derive(Clone, Debug)]
pub struct PubliclyVerifiableParams {
    pub g: G1,
    pub h: G2,
}

/// What a participant knows of a key generation session: its parameters, the
/// partitioned validators (whose public keys are encryption keys), the
/// transcripts received, keyed by dealer index in ascending order, and the
/// evaluation domain.
#[derive(Debug)]
pub struct PubliclyVerifiableDkg {
    pub params: Params,
    pub pvss_params: PubliclyVerifiableParams,
    pub validators: Vec<Validator<G2>>,
    pub vss: Vec<(u32, PubliclyVerifiableSS)>,
    pub domain: EvaluationDomain,
}

#[derive(Clone, Copy, Debug, PartialEq, Eq, Structural)]
pub enum PvssError {
    /// A dealer's proof of knowledge does not check.
    InvalidSigma,
    /// The aggregate's constant term is not the sum of the dealers' ones.
    AggregateMismatch,
}

/// `P_0 + ... + P_{n-1}` for `n >= 1`, summed in order from the first.
pub open spec fn g1_sum(ps: Seq<Seq<u8>>, n: nat) -> Seq<u8>
    decreases n,
{
    if n <= 1 {
        ps[0]
    } else {
        g1_add_of(g1_sum(ps, (n - 1) as nat), ps[n - 1])
    }
}

/// `Q_0 + ... + Q_{n-1}` for `n >= 1`, summed in order from the first.
pub open spec fn g2_sum(qs: Seq<Seq<u8>>, n: nat) -> Seq<u8>
    decreases n,
{
    if n <= 1 {
        qs[0]
    } else {
        g2_add_of(g2_sum(qs, (n - 1) as nat), qs[n - 1])
    }
}

/// The `k`-th coefficient commitment of every transcript.
pub open spec fn coeff_column(vss: Seq<(u32, PubliclyVerifiableSS)>, k: int) -> Seq<Seq<u8>> {
    Seq::new(vss.len(), |d: int| vss[d].1.coeffs@[k]@)
}

/// Share `j` of validator `i` in every transcript.
pub open spec fn share_column(vss: Seq<(u32, PubliclyVerifiableSS)>, i: int, j: int) -> Seq<Seq<u8>> {
    Seq::new(vss.len(), |d: int| vss[d].1.shares@[i]@[j]@)
}

/// Transcripts of one shape: as many coefficients, validators and shares per
/// validator as the first.
pub open spec fn same_shape(vss: Seq<(u32, PubliclyVerifiableSS)>) -> bool {
    &&& vss.len() >= 1
    &&& forall|d: int| 0 <= d < vss.len() ==> (#[trigger] vss[d].1).coeffs.len() == vss[0].1.coeffs.len()
    &&& forall|d: int| 0 <= d < vss.len() ==> (#[trigger] vss[d].1).shares.len() == vss[0].1.shares.len()
    &&& forall|d: int, i: int|
        0 <= d < vss.len() && 0 <= i < vss[0].1.shares.len() ==> (#[trigger] vss[d].1.shares@[i]).len()
            == vss[0].1.shares@[i].len()
}

/// `agg` is the aggregate of `vss` in domain `domain`: coefficients and shares
/// summed component-wise, the proof of knowledge `[0] h`, and the
/// coefficients transformed over the domain.
pub open spec fn is_aggregate_of(
    agg: PubliclyVerifiableSS,
    vss: Seq<(u32, PubliclyVerifiableSS)>,
    h: Seq<u8>,
    domain: EvaluationDomain,
) -> bool {
    &&& agg.coeffs.len() == vss[0].1.coeffs.len()
    &&& forall|k: int|
        0 <= k < agg.coeffs.len() ==> (#[trigger] agg.coeffs@[k])@ == g1_sum(coeff_column(vss, k), vss.len())
    &&& agg.shares.len() == vss[0].1.shares.len()
    &&& forall|i: int| 0 <= i < agg.shares.len() ==> (#[trigger] agg.shares@[i]).len() == vss[0].1.shares@[i].len()
    &&& forall|i: int, j: int|
        0 <= i < agg.shares.len() && 0 <= j < agg.shares@[i].len() ==> (#[trigger] agg.shares@[i]@[j])@
            == g2_sum(share_column(vss, i, j), vss.len())
    &&& agg.sigma@ == g2_mul_of(h, 0)
    &&& agg.commitment.len() == domain.spec_size()
    &&& g1_views(agg.commitment@) == g1_fft_of(g1_views(agg.coeffs@), domain.spec_size())
}

/// The proof of knowledge of a transcript checks: `e(F_0, h) == e(g, sigma)`.
pub open spec fn pok_ok(pvss: PubliclyVerifiableSS, g: Seq<u8>, h: Seq<u8>) -> bool {
    pairing_of(pvss.coeffs@[0]@, h) == pairing_of(g, pvss.sigma@)
}

pub open spec fn all_pok_ok(dkg: PubliclyVerifiableDkg) -> bool {
    forall|d: int| 0 <= d < dkg.vss@.len() ==> pok_ok(#[trigger] dkg.vss@[d].1, dkg.pvss_params.g@, dkg.pvss_params.h@)
}

/// The weight of the dealers of the first `n` transcripts, summed.
pub open spec fn dealer_weight(dkg: PubliclyVerifiableDkg, n: nat) -> int
    decreases n,
{
    if n == 0 {
        0
    } else {
        dealer_weight(dkg, (n - 1) as nat) + dkg.validators@[dkg.vss@[n - 1].0 as int].weight as int
    }
}

/// What the session needs for its transcripts to be checked against an
/// aggregate: each transcript has a constant term and a known dealer, and the
/// total dealer weight fits in `u32`.
pub open spec fn aggregation_inputs_ok(dkg: PubliclyVerifiableDkg) -> bool {
    &&& forall|d: int| 0 <= d < dkg.vss@.len() ==> (#[trigger] dkg.vss@[d]).1.coeffs.len() >= 1
    &&& forall|d: int| 0 <= d < dkg.vss@.len() ==> (#[trigger] dkg.vss@[d]).0 < dkg.validators.len()
    &&& dealer_weight(dkg, dkg.vss@.len()) <= u32::MAX
}

/// The sum of the constant terms of the session's transcripts; the identity
/// `[0] g` where there are none.
pub open spec fn received_constant(dkg: PubliclyVerifiableDkg) -> Seq<u8> {
    if dkg.vss@.len() == 0 {
        g1_mul_of(dkg.pvss_params.g@, 0)
    } else {
        g1_sum(coeff_column(dkg.vss@, 0), dkg.vss@.len())
    }
}

/// The result of checking `agg` as the aggregate of the session's transcripts.
pub open spec fn aggregation_result(agg: PubliclyVerifiableSS, dkg: PubliclyVerifiableDkg) -> Result<u32, PvssError> {
    if !all_pok_ok(dkg) {
        Err(PvssError::InvalidSigma)
    } else if received_constant(dkg) == agg.coeffs@[0]@ {
        Ok(dealer_weight(dkg, dkg.vss@.len()) as u32)
    } else {
        Err(PvssError::AggregateMismatch)
    }
}

proof fn lemma_dealer_weight_mono(dkg: PubliclyVerifiableDkg, a: nat, b: nat)
    requires
        a <= b <= dkg.vss@.len(),
    ensures
        0 <= dealer_weight(dkg, a) <= dealer_weight(dkg, b),
    decreases b,
{
    if b > 0 {
        if a < b {
            lemma_dealer_weight_mono(dkg, a, (b - 1) as nat);
        } else {
            lemma_dealer_weight_mono(dkg, (b - 1) as nat, (b - 1) as nat);
        }
    }
}

/// Aggregating the session's transcripts and checking the aggregate against
/// them gives the total weight of their dealers, where every dealer's proof of
/// knowledge checks.
pub proof fn lemma_aggregate_verifies(dkg: PubliclyVerifiableDkg, agg: PubliclyVerifiableSS)
    requires
        same_shape(dkg.vss@),
        dkg.vss@[0].1.coeffs.len() >= 1,
        is_aggregate_of(agg, dkg.vss@, dkg.pvss_params.h@, dkg.domain),
        all_pok_ok(dkg),
    ensures
        aggregation_result(agg, dkg) == Ok::<u32, PvssError>(dealer_weight(dkg, dkg.vss@.len()) as u32),
{
    assert(agg.coeffs@[0]@ == g1_sum(coeff_column(dkg.vss@, 0), dkg.vss@.len()));
    assert(received_constant(dkg) == agg.coeffs@[0]@);
}

/// The dealt polynomial: the random coefficients with the secret as constant term.
pub open spec fn dealt_poly(s: Scalar, phi: Seq<Scalar>) -> Seq<Scalar> {
    phi.update(0, s)
}

/// Each validator's segment `[share_start, share_end)` has its weight as
/// length and lies in the evaluation domain.
pub open spec fn segments_in_domain(dkg: PubliclyVerifiableDkg) -> bool {
    forall|i: int|
        0 <= i < dkg.validators@.len() ==> {
            &&& (#[trigger] dkg.validators@[i]).share_end == dkg.validators@[i].share_start + dkg.validators@[i].weight
            &&& dkg.validators@[i].share_end <= dkg.domain.spec_size()
        }
}

/// `[k_0] Q_0 + ... + [k_{n-1}] Q_{n-1}` for `n >= 1`, summed in order from
/// the first term.
pub open spec fn g2_lin_comb(qs: Seq<Seq<u8>>, ks: Seq<int>, n: nat) -> Seq<u8>
    decreases n,
{
    if n <= 1 {
        g2_mul_of(qs[0], ks[0])
    } else {
        g2_add_of(g2_lin_comb(qs, ks, (n - 1) as nat), g2_mul_of(qs[n - 1], ks[n - 1]))
    }
}

/// `a^j` in the field.
pub open spec fn alpha_power(a: int, j: nat) -> int
    decreases j,
{
    if j == 0 {
        1
    } else {
        fmul(alpha_power(a, (j - 1) as nat), a)
    }
}

pub open spec fn alpha_powers(a: int, n: nat) -> Seq<int> {
    Seq::new(n, |j: int| alpha_power(a, j as nat))
}

/// The commitment over the domain that shares are checked against: the
/// transcript's own, or the FFT of its coefficients where it has none.
pub open spec fn commitment_of(pvss: PubliclyVerifiableSS, dkg: PubliclyVerifiableDkg) -> Seq<Seq<u8>> {
    if pvss.commitment.len() == 0 {
        g1_fft_of(g1_views(pvss.coeffs@), dkg.domain.spec_size())
    } else {
        g1_views(pvss.commitment@)
    }
}

/// The shares of validator `i` check against the commitment: there are as
/// many as its weight, its segment lies in the commitment, and
/// `e(g, sum_j a^j Y_j) == e(sum_j a^j A_j, ek_i)` over its segment.
pub open spec fn shares_ok(
    pvss: PubliclyVerifiableSS,
    dkg: PubliclyVerifiableDkg,
    commitment: Seq<Seq<u8>>,
    a: int,
    i: int,
) -> bool {
    let v = dkg.validators@[i];
    let w = v.weight as nat;
    let ys = g2_views(pvss.shares@[i]@);
    &&& pvss.shares@[i].len() == w
    &&& v.share_end <= commitment.len()
    &&& (w == 0 || pairing_of(dkg.pvss_params.g@, g2_lin_comb(ys, alpha_powers(a, w), w))
        == pairing_of(
        g1_lin_comb(commitment.subrange(v.share_start as int, v.share_end as int), alpha_powers(a, w), w),
        v.validator.public_key@,
    ))
}

/// A transcript checks: one share vector per validator, a constant term whose
/// proof of knowledge checks, and every validator's shares checking.
pub open spec fn verify_result(pvss: PubliclyVerifiableSS, dkg: PubliclyVerifiableDkg, a: int) -> bool {
    &&& pvss.shares.len() == dkg.validators.len()
    &&& pvss.coeffs.len() >= 1
    &&& pok_ok(pvss, dkg.pvss_params.g@, dkg.pvss_params.h@)
    &&& forall|i: int| 0 <= i < dkg.validators.len() ==> #[trigger] shares_ok(pvss, dkg, commitment_of(pvss, dkg), a, i)
}

impl PubliclyVerifiableSS {
    /// Checks the transcript against the session: the proof of knowledge, and
    /// for each validator, its encrypted shares against the commitment over
    /// the domain, batched with powers of the random challenge `alpha`.
    pub fn verify(&self, dkg: &PubliclyVerifiableDkg, alpha: &Scalar) -> (r: bool)
        requires
            alpha.wf(),
            segments_in_domain(*dkg),
        ensures
            r == verify_result(*self, *dkg, alpha.val()),
    {
        if self.shares.len() != dkg.validators.len() || self.coeffs.len() == 0 {
            return false;
        }
        let left = pairing(&self.coeffs[0], &dkg.pvss_params.h);
        let right = pairing(&dkg.pvss_params.g, &self.sigma);
        if !left.equals(&right) {
            return false;
        }
        let ok = if self.commitment.len() == 0 {
            let commitment = g1_fft(&dkg.domain, self.coeffs.as_slice());
            assert(g1_views(commitment@) == commitment_of(*self, *dkg));
            self.check_encryptions(dkg, commitment.as_slice(), alpha)
        } else {
            assert(g1_views(self.commitment@) == commitment_of(*self, *dkg));
            self.check_encryptions(dkg, self.commitment.as_slice(), alpha)
        };
        assert(pok_ok(*self, dkg.pvss_params.g@, dkg.pvss_params.h@));
        ok
    }

    fn check_encryptions(&self, dkg: &PubliclyVerifiableDkg, commitment: &[G1], alpha: &Scalar) -> (r: bool)
        requires
            alpha.wf(),
            segments_in_domain(*dkg),
            self.shares.len() == dkg.validators.len(),
        ensures
            r == forall|i: int|
                0 <= i < dkg.validators.len() ==> #[trigger] shares_ok(
                    *self,
                    *dkg,
                    g1_views(commitment@),
                    alpha.val(),
                    i,
                ),
    {
        let n = dkg.validators.len();
        let mut i: usize = 0;
        while i < n
            invariant
                alpha.wf(),
                segments_in_domain(*dkg),
                self.shares.len() == dkg.validators.len(),
                n == dkg.validators.len(),
                i <= n,
                forall|k: int| 0 <= k < i ==> #[trigger] shares_ok(*self, *dkg, g1_views(commitment@), alpha.val(), k),
            decreases n - i,
        {
            if !self.check_validator(dkg, commitment, alpha, i) {
                return false;
            }
            i = i + 1;
        }
        true
    }

    fn check_validator(&self, dkg: &PubliclyVerifiableDkg, commitment: &[G1], alpha: &Scalar, i: usize) -> (r: bool)
        requires
            alpha.wf(),
            segments_in_domain(*dkg),
            self.shares.len() == dkg.validators.len(),
            i < dkg.validators.len(),
        ensures
            r == shares_ok(*self, *dkg, g1_views(commitment@), alpha.val(), i as int),
    {
        let v = &dkg.validators[i];
        let w = v.weight as usize;
        let sh = &self.shares[i];
        let start = v.share_start;
        let end = v.share_end;
        if sh.len() != w || end > commitment.len() {
            return false;
        }
        if w == 0 {
            return true;
        }
        let ghost ys = g2_views(sh@);
        let ghost cs = g1_views(commitment@).subrange(start as int, end as int);
        let ghost ks = alpha_powers(alpha.val(), w as nat);
        let mut pw = Scalar::one();
        let mut y = g2_mul(&sh[0], &pw);
        let mut a = g1_mul(&commitment[start], &pw);
        pw = fr_mul(&pw, alpha);
        assert(alpha_power(alpha.val(), 0) == 1);
        assert(ks[0] == 1);
        let mut j: usize = 1;
        while j < w
            invariant
                alpha.wf(),
                end == start + w,
                end <= commitment.len(),
                sh.len() == w,
                ys == g2_views(sh@),
                cs == g1_views(commitment@).subrange(start as int, end as int),
                ks == alpha_powers(alpha.val(), w as nat),
                1 <= j <= w,
                pw.wf(),
                pw.val() == alpha_power(alpha.val(), j as nat),
                y@ == g2_lin_comb(ys, ks, j as nat),
                a@ == g1_lin_comb(cs, ks, j as nat),
            decreases w - j,
        {
            let ty = g2_mul(&sh[j], &pw);
            y = g2_add(&y, &ty);
            let ta = g1_mul(&commitment[start + j], &pw);
            a = g1_add(&a, &ta);
            pw = fr_mul(&pw, alpha);
            j = j + 1;
        }
        let left = pairing(&dkg.pvss_params.g, &y);
        let right = pairing(&a, &v.validator.public_key);
        left.equals(&right)
    }

    /// Deals the secret `s`: `phi` holds the random coefficients of the
    /// sharing polynomial, whose constant term becomes `s`. Commits to the
    /// coefficients, encrypts each validator's evaluations under its key, and
    /// proves knowledge of `s` with `[s] h`.
    pub fn new(s: &Scalar, dkg: &PubliclyVerifiableDkg, phi: &[Scalar]) -> (r: Self)
        requires
            s.wf(),
            all_wf(phi@),
            phi.len() == dkg.params.security_threshold as int + 1,
            segments_in_domain(*dkg),
        ensures
            r.coeffs.len() == phi.len(),
            forall|k: int|
                0 <= k < phi.len() ==> (#[trigger] r.coeffs@[k])@ == g1_mul_of(
                    dkg.pvss_params.g@,
                    dealt_poly(*s, phi@)[k].val(),
                ),
            r.shares.len() == dkg.validators.len(),
            forall|i: int|
                0 <= i < dkg.validators.len() ==> (#[trigger] r.shares@[i]).len()
                    == dkg.validators@[i].weight,
            forall|i: int, j: int|
                0 <= i < dkg.validators.len() && 0 <= j < r.shares@[i].len() ==> (#[trigger] r.shares@[i]@[j])@
                    == g2_mul_of(
                    dkg.validators@[i].validator.public_key@,
                    fr_fft_of(scalar_vals(dealt_poly(*s, phi@)), dkg.domain.spec_size())[dkg.validators@[i].share_start + j],
                ),
            r.sigma@ == g2_mul_of(dkg.pvss_params.h@, s.val()),
            r.commitment.len() == 0,
    {
        let n = phi.len();
        let mut poly: Vec<Scalar> = Vec::new();
        poly.push(*s);
        let mut k: usize = 1;
        while k < n
            invariant
                n == phi.len(),
                n >= 1,
                1 <= k <= n,
                poly@ == dealt_poly(*s, phi@).subrange(0, k as int),
            decreases n - k,
        {
            poly.push(phi[k]);
            k = k + 1;
            assert(poly@ =~= dealt_poly(*s, phi@).subrange(0, k as int));
        }
        assert(poly@ =~= dealt_poly(*s, phi@));
        assert(all_wf(poly@));

        let evals = fr_fft(&dkg.domain, poly.as_slice());

        let mut coeffs: Vec<G1> = Vec::new();
        let mut k: usize = 0;
        while k < n
            invariant
                n == poly.len(),
                poly@ == dealt_poly(*s, phi@),
                k <= n,
                coeffs.len() == k,
                forall|c: int| 0 <= c < k ==> (#[trigger] coeffs@[c])@ == g1_mul_of(
                    dkg.pvss_params.g@,
                    poly@[c].val(),
                ),
            decreases n - k,
        {
            coeffs.push(g1_mul(&dkg.pvss_params.g, &poly[k]));
            k = k + 1;
        }

        let ghost evs = fr_fft_of(scalar_vals(poly@), dkg.domain.spec_size());
        let num_validators = dkg.validators.len();
        let mut shares: Vec<Vec<G2>> = Vec::new();
        let mut i: usize = 0;
        while i < num_validators
            invariant
                num_validators == dkg.validators.len(),
                segments_in_domain(*dkg),
                evals.len() == dkg.domain.spec_size(),
                scalar_vals(evals@) == evs,
                i <= num_validators,
                shares.len() == i,
                forall|v: int| 0 <= v < i ==> (#[trigger] shares@[v]).len() == dkg.validators@[v].weight,
                forall|v: int, j: int|
                    0 <= v < i && 0 <= j < shares@[v].len() ==> (#[trigger] shares@[v]@[j])@ == g2_mul_of(
                        dkg.validators@[v].validator.public_key@,
                        evs[dkg.validators@[v].share_start + j],
                    ),
            decreases num_validators - i,
        {
            let validator = &dkg.validators[i];
            let start = validator.share_start;
            let end = validator.share_end;
            let mut row: Vec<G2> = Vec::new();
            let mut j: usize = start;
            while j < end
                invariant
                    validator == dkg.validators@[i as int],
                    start == validator.share_start,
                    end == validator.share_end,
                    end <= evals.len(),
                    scalar_vals(evals@) == evs,
                    start <= j <= end,
                    row.len() == j - start,
                    forall|c: int| 0 <= c < j - start ==> (#[trigger] row@[c])@ == g2_mul_of(
                        validator.validator.public_key@,
                        evs[start + c],
                    ),
                decreases end - j,
            {
                row.push(g2_mul(&validator.validator.public_key, &evals[j]));
                j = j + 1;
            }
            let ghost old_shares = shares@;
            shares.push(row);
            assert forall|v: int, c: int|
                0 <= v <= i && 0 <= c < shares@[v].len() implies (#[trigger] shares@[v]@[c])@ == g2_mul_of(
                dkg.validators@[v].validator.public_key@,
                evs[dkg.validators@[v].share_start + c],
            ) by {
                if v < i {
                    assert(shares@[v] == old_shares[v]);
                }
            }
            assert forall|v: int| 0 <= v <= i implies (#[trigger] shares@[v]).len() == dkg.validators@[v].weight by {
                if v < i {
                    assert(shares@[v] == old_shares[v]);
                }
            }
            i = i + 1;
        }

        let sigma = g2_mul(&dkg.pvss_params.h, s);
        PubliclyVerifiableSS { coeffs, shares, sigma, commitment: Vec::new() }
    }

    /// Checks that `self` aggregates the transcripts the session received:
    /// every dealer's proof of knowledge checks and the constant terms sum to
    /// this one. Returns the total weight of the dealers.
    pub fn verify_aggregation(&self, dkg: &PubliclyVerifiableDkg) -> (r: Result<u32, PvssError>)
        requires
            aggregation_inputs_ok(*dkg),
            self.coeffs.len() >= 1,
        ensures
            r == aggregation_result(*self, *dkg),
    {
        let m = dkg.vss.len();
        let mut y = if m == 0 {
            let zero = Scalar::zero();
            g1_mul(&dkg.pvss_params.g, &zero)
        } else {
            dkg.vss[0].1.coeffs[0].clone()
        };
        let mut weight: u32 = 0;
        let mut d: usize = 0;
        while d < m
            invariant
                aggregation_inputs_ok(*dkg),
                m == dkg.vss@.len(),
                d <= m,
                forall|e: int| 0 <= e < d ==> pok_ok(#[trigger] dkg.vss@[e].1, dkg.pvss_params.g@, dkg.pvss_params.h@),
                weight == dealer_weight(*dkg, d as nat),
                d == 0 && m == 0 ==> y@ == g1_mul_of(dkg.pvss_params.g@, 0),
                d == 0 && m > 0 ==> y@ == dkg.vss@[0].1.coeffs@[0]@,
                d >= 1 ==> y@ == g1_sum(coeff_column(dkg.vss@, 0), d as nat),
            decreases m - d,
        {
            let pvss = &dkg.vss[d].1;
            assert(pvss.coeffs.len() >= 1);
            let left = pairing(&pvss.coeffs[0], &dkg.pvss_params.h);
            let right = pairing(&dkg.pvss_params.g, &pvss.sigma);
            if !left.equals(&right) {
                return Err(PvssError::InvalidSigma);
            }
            if d > 0 {
                y = g1_add(&y, &pvss.coeffs[0]);
            }
            let dealer = dkg.vss[d].0;
            assert(dealer < dkg.validators.len());
            proof {
                lemma_dealer_weight_mono(*dkg, (d + 1) as nat, m as nat);
            }
            weight = weight + dkg.validators[dealer as usize].weight;
            d = d + 1;
        }
        if y.equals(&self.coeffs[0]) {
            Ok(weight)
        } else {
            Err(PvssError::AggregateMismatch)
        }
    }

    /// Aggregates the transcripts `pvss`, keyed by dealer index, into one,
    /// summing in the order given (ascending dealer index in a session).
    pub fn aggregate(dkg: &PubliclyVerifiableDkg, pvss: &[(u32, PubliclyVerifiableSS)]) -> (r: Self)
        requires
            same_shape(pvss@),
        ensures
            is_aggregate_of(r, pvss@, dkg.pvss_params.h@, dkg.domain),
    {
        let m = pvss.len();
        let num_coeffs = pvss[0].1.coeffs.len();
        let mut coeffs: Vec<G1> = Vec::new();
        let mut k: usize = 0;
        while k < num_coeffs
            invariant
                same_shape(pvss@),
                m == pvss.len(),
                num_coeffs == pvss@[0].1.coeffs.len(),
                k <= num_coeffs,
                coeffs.len() == k,
                forall|c: int| 0 <= c < k ==> (#[trigger] coeffs@[c])@ == g1_sum(coeff_column(pvss@, c), m as nat),
            decreases num_coeffs - k,
        {
            let mut acc = pvss[0].1.coeffs[k].clone();
            let mut d: usize = 1;
            while d < m
                invariant
                    same_shape(pvss@),
                    m == pvss.len(),
                    num_coeffs == pvss@[0].1.coeffs.len(),
                    k < num_coeffs,
                    1 <= d <= m,
                    acc@ == g1_sum(coeff_column(pvss@, k as int), d as nat),
                decreases m - d,
            {
                assert(pvss@[d as int].1.coeffs.len() == num_coeffs);
                acc = g1_add(&acc, &pvss[d].1.coeffs[k]);
                d = d + 1;
            }
            let ghost old_coeffs = coeffs@;
            coeffs.push(acc);
            assert forall|c: int| 0 <= c <= k implies (#[trigger] coeffs@[c])@ == g1_sum(
                coeff_column(pvss@, c),
                m as nat,
            ) by {
                if c < k {
                    assert(coeffs@[c] == old_coeffs[c]);
                }
            }
            k = k + 1;
        }

        let num_validators = pvss[0].1.shares.len();
        let mut shares: Vec<Vec<G2>> = Vec::new();
        let mut i: usize = 0;
        while i < num_validators
            invariant
                same_shape(pvss@),
                m == pvss.len(),
                num_validators == pvss@[0].1.shares.len(),
                i <= num_validators,
                shares.len() == i,
                forall|v: int| 0 <= v < i ==> (#[trigger] shares@[v]).len() == pvss@[0].1.shares@[v].len(),
                forall|v: int, j: int|
                    0 <= v < i && 0 <= j < shares@[v].len() ==> (#[trigger] shares@[v]@[j])@ == g2_sum(
                        share_column(pvss@, v, j),
                        m as nat,
                    ),
            decreases num_validators - i,
        {
            let len = pvss[0].1.shares[i].len();
            let mut row: Vec<G2> = Vec::new();
            let mut j: usize = 0;
            while j < len
                invariant
                    same_shape(pvss@),
                    m == pvss.len(),
                    num_validators == pvss@[0].1.shares.len(),
                    i < num_validators,
                    len == pvss@[0].1.shares@[i as int].len(),
                    j <= len,
                    row.len() == j,
                    forall|c: int| 0 <= c < j ==> (#[trigger] row@[c])@ == g2_sum(
                        share_column(pvss@, i as int, c),
                        m as nat,
                    ),
                decreases len - j,
            {
                let mut acc = pvss[0].1.shares[i][j].clone();
                let mut d: usize = 1;
                while d < m
                    invariant
                        same_shape(pvss@),
                        m == pvss.len(),
                        num_validators == pvss@[0].1.shares.len(),
                        i < num_validators,
                        len == pvss@[0].1.shares@[i as int].len(),
                        j < len,
                        1 <= d <= m,
                        acc@ == g2_sum(share_column(pvss@, i as int, j as int), d as nat),
                    decreases m - d,
                {
                    assert(pvss@[d as int].1.shares.len() == num_validators);
                    assert(pvss@[d as int].1.shares@[i as int].len() == len);
                    acc = g2_add(&acc, &pvss[d].1.shares[i][j]);
                    d = d + 1;
                }
                let ghost old_row = row@;
                row.push(acc);
                assert forall|c: int| 0 <= c <= j implies (#[trigger] row@[c])@ == g2_sum(
                    share_column(pvss@, i as int, c),
                    m as nat,
                ) by {
                    if c < j {
                        assert(row@[c] == old_row[c]);
                    }
                }
                j = j + 1;
            }
            let ghost old_shares = shares@;
            shares.push(row);
            assert forall|v: int, c: int|
                0 <= v <= i && 0 <= c < shares@[v].len() implies (#[trigger] shares@[v]@[c])@ == g2_sum(
                share_column(pvss@, v, c),
                m as nat,
            ) by {
                if v < i {
                    assert(shares@[v] == old_shares[v]);
                }
            }
            assert forall|v: int| 0 <= v <= i implies (#[trigger] shares@[v]).len()
                == pvss@[0].1.shares@[v].len() by {
                if v < i {
                    assert(shares@[v] == old_shares[v]);
                }
            }
            i = i + 1;
        }

        let zero = crate::field::Scalar::zero();
        let sigma = g2_mul(&dkg.pvss_params.h, &zero);
        let commitment = g1_fft(&dkg.domain, coeffs.as_slice());
        PubliclyVerifiableSS { coeffs, shares, sigma, commitment }
    }
}

} // verus!
