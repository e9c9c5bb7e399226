//! Lagrange coefficients and the combination of decryption shares.
use vstd::prelude::*;
use crate::context::{DecryptionShareFast, DecryptionShareSimple, PublicDecryptionContextFast};
use crate::field::{fdiv, fmul, fsub, fr_div, fr_mul, fr_sub, lemma_fsub_nonzero, Scalar};
use crate::group::{
    g1_views, g2_mul, g2_mul_of, g2_views, gt_mul, gt_mul_of, gt_one, gt_one_encoding, gt_pow,
    gt_pow_of, pairing_product, pairing_product_of, G1, G2, Gt,
};

verus! {

/// The product, over the first `k` points `x_m` that differ from point `j`,
/// of `(x_m - x) / (x_m - x_j)`.
pub open spec fn lagrange_prefix(xs: Seq<Scalar>, x: Scalar, j: int, k: nat) -> int
    decreases k,
{
    if k == 0 {
        1
    } else {
        let p = lagrange_prefix(xs, x, j, (k - 1) as nat);
        let xm = xs[k - 1];
        if xm != xs[j] {
            fmul(p, fdiv(fsub(xm.val(), x.val()), fsub(xm.val(), xs[j].val())))
        } else {
            p
        }
    }
}

/// The Lagrange basis polynomial of point `j` over the points `xs`,
/// evaluated at `x`.
pub open spec fn lagrange_coeff(xs: Seq<Scalar>, x: Scalar, j: int) -> int {
    lagrange_prefix(xs, x, j, xs.len())
}

pub open spec fn all_wf(xs: Seq<Scalar>) -> bool {
    forall|i: int| 0 <= i < xs.len() ==> #[trigger] xs[i].wf()
}

/// The Lagrange coefficients of the points `shares_x`, evaluated at `x_i`.
pub fn lagrange_basis_at(shares_x: &[Scalar], x_i: &Scalar) -> (r: Vec<Scalar>)
    requires
        all_wf(shares_x@),
        x_i.wf(),
    ensures
        r.len() == shares_x.len(),
        forall|j: int|
            0 <= j < r.len() ==> #[trigger] r[j].wf() && r[j].val() == lagrange_coeff(
                shares_x@,
                *x_i,
                j,
            ),
{
    let mut lagrange_coeffs: Vec<Scalar> = Vec::new();
    let n = shares_x.len();
    let mut j: usize = 0;
    while j < n
        invariant
            n == shares_x.len(),
            j <= n,
            all_wf(shares_x@),
            x_i.wf(),
            lagrange_coeffs.len() == j,
            forall|k: int|
                0 <= k < j ==> #[trigger] lagrange_coeffs[k].wf() && lagrange_coeffs[k].val()
                    == lagrange_coeff(shares_x@, *x_i, k),
        decreases n - j,
    {
        let x_j = shares_x[j];
        let mut prod = Scalar::one();
        let mut m: usize = 0;
        while m < n
            invariant
                n == shares_x.len(),
                j < n,
                m <= n,
                all_wf(shares_x@),
                x_i.wf(),
                x_j == shares_x@[j as int],
                prod.wf(),
                prod.val() == lagrange_prefix(shares_x@, *x_i, j as int, m as nat),
            decreases n - m,
        {
            let x_m = shares_x[m];
            assert(x_m.wf());
            if x_j != x_m {
                proof {
                    lemma_fsub_nonzero(x_m, x_j);
                }
                let num = fr_sub(&x_m, x_i);
                let den = fr_sub(&x_m, &x_j);
                let q = fr_div(&num, &den);
                prod = fr_mul(&prod, &q);
            }
            m = m + 1;
        }
        let ghost old_coeffs = lagrange_coeffs@;
        lagrange_coeffs.push(prod);
        assert forall|k: int| 0 <= k <= j implies #[trigger] lagrange_coeffs[k].wf()
            && lagrange_coeffs[k].val() == lagrange_coeff(shares_x@, *x_i, k) by {
            if k < j {
                assert(lagrange_coeffs[k] == old_coeffs[k]);
            }
        }
        j = j + 1;
    }
    lagrange_coeffs
}

/// The Lagrange coefficients at zero of the domain points of the shares.
pub fn prepare_combine_simple(domain: &[Scalar]) -> (r: Vec<Scalar>)
    requires
        all_wf(domain@),
    ensures
        r.len() == domain.len(),
        forall|j: int|
            0 <= j < r.len() ==> #[trigger] r[j].wf() && r[j].val() == lagrange_coeff(
                domain@,
                Scalar::spec_zero(),
                j,
            ),
{
    let zero = Scalar::zero();
    lagrange_basis_at(domain, &zero)
}

/// The points of the domain that the shares come from, in the order of the shares.
pub open spec fn share_domain(
    contexts: Seq<PublicDecryptionContextFast>,
    shares: Seq<DecryptionShareFast>,
) -> Seq<Scalar> {
    Seq::new(shares.len(), |i: int| contexts[shares[i].decrypter_index as int].domain)
}

pub open spec fn indices_in_range(
    contexts: Seq<PublicDecryptionContextFast>,
    shares: Seq<DecryptionShareFast>,
) -> bool {
    forall|i: int| 0 <= i < shares.len() ==> (#[trigger] shares[i]).decrypter_index < contexts.len()
}

pub open spec fn domains_wf(contexts: Seq<PublicDecryptionContextFast>) -> bool {
    forall|i: int| 0 <= i < contexts.len() ==> (#[trigger] contexts[i]).domain.wf()
}

/// For each share, the blinded key share of its decrypter scaled by the
/// share's Lagrange coefficient at zero over the points of all the shares.
pub fn prepare_combine_fast(
    public_decryption_contexts: &[PublicDecryptionContextFast],
    shares: &[DecryptionShareFast],
) -> (r: Vec<G2>)
    requires
        indices_in_range(public_decryption_contexts@, shares@),
        domains_wf(public_decryption_contexts@),
    ensures
        r.len() == shares.len(),
        forall|i: int|
            0 <= i < r.len() ==> (#[trigger] r[i])@ == g2_mul_of(
                public_decryption_contexts@[shares@[i].decrypter_index as int].blinded_key_share.blinded_key_share@,
                lagrange_coeff(share_domain(public_decryption_contexts@, shares@), Scalar::spec_zero(), i),
            ),
{
    let ghost ctxs = public_decryption_contexts@;
    let n = shares.len();
    let mut domain: Vec<Scalar> = Vec::new();
    let mut i: usize = 0;
    while i < n
        invariant
            n == shares.len(),
            i <= n,
            ctxs == public_decryption_contexts@,
            indices_in_range(ctxs, shares@),
            domains_wf(ctxs),
            domain.len() == i,
            forall|k: int| 0 <= k < i ==> #[trigger] domain[k] == share_domain(ctxs, shares@)[k],
        decreases n - i,
    {
        let d = shares[i].decrypter_index;
        assert(d < ctxs.len());
        domain.push(public_decryption_contexts[d].domain);
        i = i + 1;
    }
    assert(domain@ =~= share_domain(ctxs, shares@));
    let zero = Scalar::zero();
    let lagrange = lagrange_basis_at(domain.as_slice(), &zero);
    assert forall|j: int| 0 <= j < n implies #[trigger] lagrange[j].val() == lagrange_coeff(
        share_domain(ctxs, shares@),
        Scalar::spec_zero(),
        j,
    ) by {
        assert(lagrange[j].wf());
    }
    let mut prepared: Vec<G2> = Vec::new();
    let mut i: usize = 0;
    while i < n
        invariant
            n == shares.len(),
            i <= n,
            ctxs == public_decryption_contexts@,
            indices_in_range(ctxs, shares@),
            lagrange.len() == n,
            forall|j: int|
                0 <= j < n ==> #[trigger] lagrange[j].val() == lagrange_coeff(
                    share_domain(ctxs, shares@),
                    Scalar::spec_zero(),
                    j,
                ),
            prepared.len() == i,
            forall|k: int|
                0 <= k < i ==> (#[trigger] prepared[k])@ == g2_mul_of(
                    ctxs[shares@[k].decrypter_index as int].blinded_key_share.blinded_key_share@,
                    lagrange_coeff(share_domain(ctxs, shares@), Scalar::spec_zero(), k),
                ),
        decreases n - i,
    {
        let d = shares[i].decrypter_index;
        assert(d < ctxs.len());
        let p = g2_mul(&public_decryption_contexts[d].blinded_key_share.blinded_key_share, &lagrange[i]);
        prepared.push(p);
        i = i + 1;
    }
    prepared
}

/// The encodings of the shares' points.
pub open spec fn fast_share_views(shares: Seq<DecryptionShareFast>) -> Seq<Seq<u8>> {
    shares.map_values(|d: DecryptionShareFast| d.decryption_share@)
}

/// Combines fast decryption shares `D_i` with the prepared key shares `P_i`,
/// one for one, into `prod_i e(D_i, P_i)`.
pub fn share_combine_fast(shares: &[DecryptionShareFast], prepared_key_shares: &[G2]) -> (r: Gt)
    requires
        shares.len() == prepared_key_shares.len(),
    ensures
        r@ == pairing_product_of(fast_share_views(shares@), g2_views(prepared_key_shares@)),
{
    let n = shares.len();
    let mut left: Vec<G1> = Vec::new();
    let mut right: Vec<G2> = Vec::new();
    let mut i: usize = 0;
    while i < n
        invariant
            n == shares.len(),
            n == prepared_key_shares.len(),
            i <= n,
            left.len() == i,
            right.len() == i,
            forall|k: int| 0 <= k < i ==> (#[trigger] left[k])@ == shares@[k].decryption_share@,
            forall|k: int| 0 <= k < i ==> (#[trigger] right[k])@ == prepared_key_shares@[k]@,
        decreases n - i,
    {
        left.push(shares[i].decryption_share.clone());
        right.push(prepared_key_shares[i].clone());
        i = i + 1;
    }
    assert(g1_views(left@) =~= fast_share_views(shares@));
    assert(g2_views(right@) =~= g2_views(prepared_key_shares@));
    pairing_product(left.as_slice(), right.as_slice())
}

/// `prod_{i < k} c_i ^ l_i` in the target group, multiplied in order from the unit.
pub open spec fn combine_simple_prefix(cs: Seq<Seq<u8>>, ls: Seq<int>, k: nat) -> Seq<u8>
    decreases k,
{
    if k == 0 {
        gt_one_encoding()
    } else {
        gt_mul_of(
            combine_simple_prefix(cs, ls, (k - 1) as nat),
            gt_pow_of(cs[k - 1], ls[k - 1]),
        )
    }
}

pub open spec fn simple_share_views(shares: Seq<DecryptionShareSimple>) -> Seq<Seq<u8>> {
    shares.map_values(|d: DecryptionShareSimple| d.decryption_share@)
}

pub open spec fn scalar_vals(ls: Seq<Scalar>) -> Seq<int> {
    ls.map_values(|l: Scalar| l.val())
}

/// Combines simple decryption shares `C_i` with the Lagrange coefficients
/// `l_i`, one for one, into `prod_i C_i ^ l_i`.
pub fn share_combine_simple(shares: &[DecryptionShareSimple], lagrange_coeffs: &[Scalar]) -> (r: Gt)
    requires
        shares.len() == lagrange_coeffs.len(),
    ensures
        r@ == combine_simple_prefix(
            simple_share_views(shares@),
            scalar_vals(lagrange_coeffs@),
            shares.len() as nat,
        ),
{
    let n = shares.len();
    let mut product_of_shares = gt_one();
    let mut i: usize = 0;
    while i < n
        invariant
            n <= shares.len(),
            n <= lagrange_coeffs.len(),
            i <= n,
            product_of_shares@ == combine_simple_prefix(
                simple_share_views(shares@),
                scalar_vals(lagrange_coeffs@),
                i as nat,
            ),
        decreases n - i,
    {
        let ss = gt_pow(&shares[i].decryption_share, &lagrange_coeffs[i]);
        product_of_shares = gt_mul(&product_of_shares, &ss);
        i = i + 1;
    }
    product_of_shares
}

} // verus!
