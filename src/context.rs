//! Decryption contexts of the validators and the decryption shares they emit.
use vstd::prelude::*;
use crate::field::{fadd, fr_add, Scalar};
use crate::group::{
    g1_add, g1_add_of, g1_mul, g1_mul_of, g1_views, g2_views, gt_one, gt_one_encoding, pairing,
    pairing_of, pairing_product, pairing_product_of, G1, G2, Gt,
};

verus! {

/// A ciphertext; only its commitment `U` takes part in decryption.
#[derive(Clone, Debug)]
pub struct Ciphertext {
    pub commitment: G1,
    pub ciphertext: Vec<u8>,
}

/// A share of a decryption in the fast variant: `[b^-1] U`.
#[derive(Clone, Debug)]
pub struct DecryptionShareFast {
    pub decrypter_index: usize,
    pub decryption_share: G1,
}

/// A share of a decryption in the simple variant: `e(U, Z_i)`.
#[derive(Clone, Debug)]
pub struct DecryptionShareSimple {
    pub decrypter_index: usize,
    pub decryption_share: Gt,
}

#[derive(Clone, Debug)]
pub struct PublicKeyShare {
    pub public_key_share: G1,
}

/// A key share blinded by the validator's secret `b`: the blinding key
/// `[b] H` and the blinded share `[b] Z_i`.
#[derive(Clone, Debug)]
pub struct BlindedKeyShare {
    pub blinding_key: G2,
    pub blinded_key_share: G2,
}

#[derive(Clone, Debug)]
pub struct PrivateKeyShare {
    pub private_key_share: G2,
}

#[derive(Clone, Debug)]
pub struct PublicDecryptionContextFast {
    pub domain: Scalar,
    pub public_key_share: PublicKeyShare,
    pub blinded_key_share: BlindedKeyShare,
    /// This decrypter's contribution to `N(0)`.
    pub lagrange_n_0: Scalar,
}

#[derive(Clone, Debug)]
pub struct PublicDecryptionContextSimple {
    pub domain: Scalar,
    pub public_key_share: PublicKeyShare,
    pub blinded_key_share: BlindedKeyShare,
}

/// The blinding scalar `b` and its inverse, the generators `g` and `h`, and
/// their negations.
#[derive(Clone, Debug)]
pub struct SetupParams {
    pub b: Scalar,
    pub b_inv: Scalar,
    pub g: G1,
    pub g_inv: G1,
    pub h_inv: G2,
    pub h: G2,
}

#[derive(Clone, Debug)]
pub struct PrivateDecryptionContextFast {
    pub index: usize,
    pub setup_params: SetupParams,
    pub private_key_share: PrivateKeyShare,
    pub public_decryption_contexts: Vec<PublicDecryptionContextFast>,
    pub scalar_bits: usize,
}

#[derive(Clone, Debug)]
pub struct PrivateDecryptionContextSimple {
    pub index: usize,
    pub setup_params: SetupParams,
    pub private_key_share: PrivateKeyShare,
    pub public_decryption_contexts: Vec<PublicDecryptionContextSimple>,
}

/// `[k_0] P_0 + ... + [k_{n-1}] P_{n-1}` for `n >= 1`, summed in order from
/// the first term.
pub open spec fn g1_lin_comb(ps: Seq<Seq<u8>>, ks: Seq<int>, n: nat) -> Seq<u8>
    decreases n,
{
    if n <= 1 {
        g1_mul_of(ps[0], ks[0])
    } else {
        g1_add_of(g1_lin_comb(ps, ks, (n - 1) as nat), g1_mul_of(ps[n - 1], ks[n - 1]))
    }
}

/// The sum of the first `k` scalars of a row, in the field.
pub open spec fn row_sum(row: Seq<Scalar>, k: nat) -> int
    decreases k,
{
    if k == 0 {
        0
    } else {
        fadd(row_sum(row, (k - 1) as nat), row[k - 1].val())
    }
}

pub open spec fn alpha_sums(alpha_ij: Seq<Vec<Scalar>>) -> Seq<int> {
    Seq::new(alpha_ij.len(), |i: int| row_sum(alpha_ij[i]@, alpha_ij[i]@.len()))
}

pub open spec fn commitments(ciphertexts: Seq<Ciphertext>) -> Seq<Seq<u8>> {
    ciphertexts.map_values(|c: Ciphertext| c.commitment@)
}

pub open spec fn share_column(shares: Seq<Vec<DecryptionShareFast>>, j: int) -> Seq<Seq<u8>> {
    Seq::new(shares.len(), |i: int| shares[i]@[j].decryption_share@)
}

pub open spec fn alpha_column(alpha_ij: Seq<Vec<Scalar>>, j: int) -> Seq<int> {
    Seq::new(alpha_ij.len(), |i: int| alpha_ij[i]@[j].val())
}

/// The left operands of the batch check: `U* = sum_i (sum_j a_ij) U_i`, then
/// `D*_j = sum_i a_ij D_ij` for each decrypter `j`.
pub open spec fn batch_left(
    ciphertexts: Seq<Ciphertext>,
    shares: Seq<Vec<DecryptionShareFast>>,
    alpha_ij: Seq<Vec<Scalar>>,
) -> Seq<Seq<u8>> {
    seq![g1_lin_comb(commitments(ciphertexts), alpha_sums(alpha_ij), ciphertexts.len())] + Seq::new(
        shares[0]@.len(),
        |j: int| g1_lin_comb(share_column(shares, j), alpha_column(alpha_ij, j), shares.len()),
    )
}

/// The right operands of the batch check: `-H`, then the blinding key
/// `[b_j] H` of each decrypter `j`.
pub open spec fn batch_right(
    ctx: PrivateDecryptionContextFast,
    shares: Seq<Vec<DecryptionShareFast>>,
) -> Seq<Seq<u8>> {
    seq![ctx.setup_params.h_inv@] + Seq::new(
        shares[0]@.len(),
        |j: int|
            ctx.public_decryption_contexts@[shares[0]@[j].decrypter_index as int].blinded_key_share.blinding_key@,
    )
}

/// The shapes that the batch check needs: one row of shares and one row of
/// challenges per ciphertext, all rows as long as the first, and decrypters
/// that this context knows.
pub open spec fn batch_shapes_ok(
    ctx: PrivateDecryptionContextFast,
    ciphertexts: Seq<Ciphertext>,
    shares: Seq<Vec<DecryptionShareFast>>,
    alpha_ij: Seq<Vec<Scalar>>,
) -> bool {
    &&& ciphertexts.len() >= 1
    &&& shares.len() == ciphertexts.len()
    &&& alpha_ij.len() == ciphertexts.len()
    &&& forall|i: int| 0 <= i < shares.len() ==> (#[trigger] shares[i]@).len() == shares[0]@.len()
    &&& forall|i: int| 0 <= i < alpha_ij.len() ==> (#[trigger] alpha_ij[i]@).len() == shares[0]@.len()
    &&& forall|i: int, j: int|
        0 <= i < alpha_ij.len() && 0 <= j < shares[0]@.len() ==> (#[trigger] alpha_ij[i]@[j]).wf()
    &&& forall|j: int|
        0 <= j < shares[0]@.len() ==> (#[trigger] shares[0]@[j]).decrypter_index
            < ctx.public_decryption_contexts@.len()
}

impl PrivateDecryptionContextFast {
    /// This validator's share of the decryption of `ciphertext`: its
    /// commitment scaled by `b^-1`.
    pub fn create_share(&self, ciphertext: &Ciphertext) -> (r: DecryptionShareFast)
        ensures
            r.decrypter_index == self.index,
            r.decryption_share@ == g1_mul_of(
                ciphertext.commitment@,
                self.setup_params.b_inv.val(),
            ),
    {
        let decryption_share = g1_mul(&ciphertext.commitment, &self.setup_params.b_inv);
        DecryptionShareFast { decrypter_index: self.index, decryption_share }
    }

    /// Checks many fast shares at once: share `(i, j)` is decrypter `j`'s
    /// share of ciphertext `i`, and `alpha_ij[i][j]` is its random challenge.
    /// True exactly when `e(U*, -H) * prod_j e(D*_j, [b_j] H)` is the unit.
    pub fn batch_verify_decryption_shares(
        &self,
        ciphertexts: &[Ciphertext],
        shares: &[Vec<DecryptionShareFast>],
        alpha_ij: &[Vec<Scalar>],
    ) -> (r: bool)
        requires
            batch_shapes_ok(*self, ciphertexts@, shares@, alpha_ij@),
        ensures
            r == (pairing_product_of(
                batch_left(ciphertexts@, shares@, alpha_ij@),
                batch_right(*self, shares@),
            ) == gt_one_encoding()),
    {
        let num_ciphertexts = ciphertexts.len();
        let num_shares = shares[0].len();

        // The right operands: -H, then [b_j] H for each decrypter.
        let mut right: Vec<G2> = Vec::new();
        right.push(self.setup_params.h_inv.clone());
        let mut j: usize = 0;
        while j < num_shares
            invariant
                batch_shapes_ok(*self, ciphertexts@, shares@, alpha_ij@),
                num_shares == shares@[0]@.len(),
                j <= num_shares,
                right.len() == j + 1,
                forall|k: int| 0 <= k <= j ==> (#[trigger] right[k])@ == batch_right(*self, shares@)[k],
            decreases num_shares - j,
        {
            let d = shares[0][j].decrypter_index;
            assert(d < self.public_decryption_contexts@.len());
            right.push(self.public_decryption_contexts[d].blinded_key_share.blinding_key.clone());
            j = j + 1;
        }

        // sigma_i = sum_j alpha_ij for each ciphertext.
        let mut sum_alpha_i: Vec<Scalar> = Vec::new();
        let mut i: usize = 0;
        while i < num_ciphertexts
            invariant
                batch_shapes_ok(*self, ciphertexts@, shares@, alpha_ij@),
                num_ciphertexts == ciphertexts.len(),
                num_shares == shares@[0]@.len(),
                i <= num_ciphertexts,
                sum_alpha_i.len() == i,
                forall|k: int| 0 <= k < i ==> (#[trigger] sum_alpha_i[k]).wf()
                    && sum_alpha_i[k].val() == alpha_sums(alpha_ij@)[k],
            decreases num_ciphertexts - i,
        {
            let row = &alpha_ij[i];
            assert(row@.len() == num_shares);
            let mut acc = Scalar::zero();
            let mut j: usize = 0;
            while j < num_shares
                invariant
                    batch_shapes_ok(*self, ciphertexts@, shares@, alpha_ij@),
                    i < num_ciphertexts,
                    num_ciphertexts == ciphertexts.len(),
                    num_shares == shares@[0]@.len(),
                    row@ == alpha_ij@[i as int]@,
                    row@.len() == num_shares,
                    j <= num_shares,
                    acc.wf(),
                    acc.val() == row_sum(row@, j as nat),
                decreases num_shares - j,
            {
                assert(alpha_ij@[i as int]@[j as int].wf());
                acc = fr_add(&acc, &row[j]);
                j = j + 1;
            }
            sum_alpha_i.push(acc);
            i = i + 1;
        }

        // U* = sum_i sigma_i U_i.
        let mut left: Vec<G1> = Vec::new();
        let mut sum_u = g1_mul(&ciphertexts[0].commitment, &sum_alpha_i[0]);
        let mut i: usize = 1;
        while i < num_ciphertexts
            invariant
                num_ciphertexts == ciphertexts.len(),
                sum_alpha_i.len() == num_ciphertexts,
                forall|k: int| 0 <= k < num_ciphertexts ==> (#[trigger] sum_alpha_i[k]).val()
                    == alpha_sums(alpha_ij@)[k],
                1 <= i <= num_ciphertexts,
                sum_u@ == g1_lin_comb(commitments(ciphertexts@), alpha_sums(alpha_ij@), i as nat),
            decreases num_ciphertexts - i,
        {
            let t = g1_mul(&ciphertexts[i].commitment, &sum_alpha_i[i]);
            sum_u = g1_add(&sum_u, &t);
            i = i + 1;
        }
        left.push(sum_u);

        // D*_j = sum_i alpha_ij D_ij for each decrypter.
        let mut j: usize = 0;
        while j < num_shares
            invariant
                batch_shapes_ok(*self, ciphertexts@, shares@, alpha_ij@),
                num_ciphertexts == ciphertexts.len(),
                num_shares == shares@[0]@.len(),
                j <= num_shares,
                left.len() == j + 1,
                forall|k: int| 0 <= k <= j ==> (#[trigger] left[k])@ == batch_left(
                    ciphertexts@,
                    shares@,
                    alpha_ij@,
                )[k],
            decreases num_shares - j,
        {
            assert(shares@[0]@.len() == num_shares);
            assert(alpha_ij@[0]@.len() == num_shares);
            let mut acc = g1_mul(&shares[0][j].decryption_share, &alpha_ij[0][j]);
            let mut i: usize = 1;
            while i < num_ciphertexts
                invariant
                    batch_shapes_ok(*self, ciphertexts@, shares@, alpha_ij@),
                    num_ciphertexts == ciphertexts.len(),
                    num_shares == shares@[0]@.len(),
                    j < num_shares,
                    1 <= i <= num_ciphertexts,
                    acc@ == g1_lin_comb(share_column(shares@, j as int), alpha_column(alpha_ij@, j as int), i as nat),
                decreases num_ciphertexts - i,
            {
                assert(shares@[i as int]@.len() == num_shares);
                assert(alpha_ij@[i as int]@.len() == num_shares);
                let t = g1_mul(&shares[i][j].decryption_share, &alpha_ij[i][j]);
                acc = g1_add(&acc, &t);
                i = i + 1;
            }
            let ghost old_left = left@;
            left.push(acc);
            assert forall|k: int| 0 <= k <= j + 1 implies (#[trigger] left[k])@ == batch_left(
                ciphertexts@,
                shares@,
                alpha_ij@,
            )[k] by {
                if k <= j {
                    assert(left[k] == old_left[k]);
                }
            }
            j = j + 1;
        }

        proof {
            assert(g1_views(left@) =~= batch_left(ciphertexts@, shares@, alpha_ij@));
            assert(g2_views(right@) =~= batch_right(*self, shares@));
        }
        let product = pairing_product(left.as_slice(), right.as_slice());
        let one = gt_one();
        product.equals(&one)
    }
}

impl PrivateDecryptionContextSimple {
    /// This validator's share of the decryption of `ciphertext`: the pairing
    /// of its commitment with the private key share.
    pub fn create_share(&self, ciphertext: &Ciphertext) -> (r: DecryptionShareSimple)
        ensures
            r.decrypter_index == self.index,
            r.decryption_share@ == pairing_of(
                ciphertext.commitment@,
                self.private_key_share.private_key_share@,
            ),
    {
        let c_i = pairing(&ciphertext.commitment, &self.private_key_share.private_key_share);
        DecryptionShareSimple { decrypter_index: self.index, decryption_share: c_i }
    }
}

} // verus!
