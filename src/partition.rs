//! Partitioning of the share domain among validators in proportion to their
//! voting power.
use vstd::prelude::*;

verus! {

/// The parameters of one key generation session.
#[derive(Clone, Copy, Debug, PartialEq, Eq, Structural)]
pub struct Params {
    /// Session identifier.
    pub tau: u64,
    /// Number of shares in the domain, split among the validators.
    pub total_weight: u32,
    /// Degree of the sharing polynomial.
    pub security_threshold: u32,
    pub retry_after: u32,
}

/// A validator as announced by consensus: its voting power, address and
/// public encryption key.
#[derive(Clone, Debug)]
pub struct TendermintValidator<K> {
    pub power: u64,
    pub address: String,
    pub public_key: K,
}

/// The validators of a session, stable-sorted by descending voting power and
/// then by address.
#[derive(Clone, Debug)]
pub struct ValidatorSet<K> {
    pub validators: Vec<TendermintValidator<K>>,
}

/// A validator together with its segment `[share_start, share_end)` of the
/// share domain.
#[derive(Clone, Debug)]
pub struct Validator<K> {
    pub validator: TendermintValidator<K>,
    pub weight: u32,
    pub share_start: usize,
    pub share_end: usize,
}

#[derive(Clone, Copy, Debug, PartialEq, Eq, Structural)]
pub enum PartitionError {
    /// The rounded-down weights exceed the total weight.
    NegativeAdjustment,
    /// A segment boundary does not fit in `usize`.
    Overflow,
}

pub open spec fn powers<K>(vs: Seq<TendermintValidator<K>>) -> Seq<u64> {
    vs.map_values(|v: TendermintValidator<K>| v.power)
}

/// The voting power of the first `k` validators.
pub open spec fn power_sum(ps: Seq<u64>, k: nat) -> int
    decreases k,
{
    if k == 0 {
        0
    } else {
        power_sum(ps, (k - 1) as nat) + ps[k - 1] as int
    }
}

/// `p * (w / total)`, rounded down.
pub open spec fn floor_weight(p: int, w: int, total: int) -> int {
    p * w / total
}

/// The rounded-down weights of the first `k` validators, summed.
pub open spec fn floor_sum(ps: Seq<u64>, w: int, total: int, k: nat) -> int
    decreases k,
{
    if k == 0 {
        0
    } else {
        floor_sum(ps, w, total, (k - 1) as nat) + floor_weight(ps[k - 1] as int, w, total)
    }
}

/// The weight left over after rounding down; it goes, one each, to the first
/// validators.
pub open spec fn top_up(ps: Seq<u64>, w: int) -> int {
    w - floor_sum(ps, w, power_sum(ps, ps.len()), ps.len())
}

/// The weight given to validator `i`.
pub open spec fn partition_weight(ps: Seq<u64>, w: int, i: int) -> int {
    floor_weight(ps[i] as int, w, power_sum(ps, ps.len())) + if i < top_up(ps, w) {
        1int
    } else {
        0int
    }
}

/// Where the segment of validator `k` starts: the weights before it, summed.
pub open spec fn partition_start(ps: Seq<u64>, w: int, k: nat) -> int
    decreases k,
{
    if k == 0 {
        0
    } else {
        partition_start(ps, w, (k - 1) as nat) + partition_weight(ps, w, k - 1)
    }
}

proof fn lemma_power_sum_bounds(ps: Seq<u64>, k: nat)
    requires
        k <= ps.len(),
    ensures
        0 <= power_sum(ps, k) <= k * 0xffff_ffff_ffff_ffff,
        forall|i: int| 0 <= i < k ==> ps[i] <= power_sum(ps, k),
    decreases k,
{
    if k > 0 {
        lemma_power_sum_bounds(ps, (k - 1) as nat);
    }
}

/// Rounding down loses less than one unit of weight per validator.
proof fn lemma_floor_sum_bounds(ps: Seq<u64>, w: int, t: int, k: nat)
    requires
        k <= ps.len(),
        w >= 0,
        t > 0,
    ensures
        0 <= w * power_sum(ps, k) - t * floor_sum(ps, w, t, k) <= k * (t - 1),
        0 <= floor_sum(ps, w, t, k),
        forall|i: int| 0 <= i < k ==> 0 <= #[trigger] floor_weight(ps[i] as int, w, t) <= floor_sum(ps, w, t, k),
    decreases k,
{
    if k > 0 {
        let k1 = (k - 1) as nat;
        lemma_floor_sum_bounds(ps, w, t, k1);
        let p = ps[k1 as int] as int;
        let f = floor_weight(p, w, t);
        vstd::arithmetic::div_mod::lemma_fundamental_div_mod(p * w, t);
        vstd::arithmetic::div_mod::lemma_mod_bound(p * w, t);
        assert(p * w >= 0) by (nonlinear_arith)
            requires p >= 0, w >= 0;
        assert(f >= 0) by (nonlinear_arith)
            requires p * w >= 0, t > 0, f == p * w / t;
        let ps1 = power_sum(ps, k1);
        let fs1 = floor_sum(ps, w, t, k1);
        assert(w * (ps1 + p) - t * (fs1 + f) == (w * ps1 - t * fs1) + (p * w - t * f))
            by (nonlinear_arith);
        assert(k * (t - 1) == k1 * (t - 1) + (t - 1)) by (nonlinear_arith)
            requires k == k1 + 1;
    }
}

proof fn lemma_sums_mono(ps: Seq<u64>, w: int, t: int, i: nat, k: nat)
    requires
        i <= k <= ps.len(),
        w >= 0,
        t > 0,
    ensures
        power_sum(ps, i) <= power_sum(ps, k),
        floor_sum(ps, w, t, i) <= floor_sum(ps, w, t, k),
    decreases k - i,
{
    if i < k {
        lemma_sums_mono(ps, w, t, i, (k - 1) as nat);
        lemma_floor_sum_bounds(ps, w, t, k);
    }
}

/// The segment starts are the rounded-down sums plus the top-ups handed out so far.
proof fn lemma_partition_start(ps: Seq<u64>, w: int, k: nat)
    requires
        k <= ps.len(),
    ensures
        partition_start(ps, w, k) == floor_sum(ps, w, power_sum(ps, ps.len()), k) + if k
            < top_up(ps, w) {
            k as int
        } else {
            if top_up(ps, w) < 0 {
                0
            } else {
                top_up(ps, w)
            }
        },
    decreases k,
{
    if k > 0 {
        lemma_partition_start(ps, w, (k - 1) as nat);
    }
}

/// Partitioning conserves weight: for any voting powers with a positive sum,
/// the weight lost to rounding down is less than one unit per validator, and
/// the segments laid end to end from zero cover exactly `[0, total_weight)`.
pub proof fn lemma_partition_conserves_weight(ps: Seq<u64>, w: u32)
    requires
        power_sum(ps, ps.len()) > 0,
    ensures
        0 <= top_up(ps, w as int) < ps.len(),
        partition_start(ps, w as int, ps.len()) == w,
{
    let n = ps.len();
    let t = power_sum(ps, n);
    let wi = w as int;
    lemma_power_sum_bounds(ps, n);
    lemma_floor_sum_bounds(ps, wi, t, n);
    let fs = floor_sum(ps, wi, t, n);
    assert(t * fs <= wi * t) by (nonlinear_arith)
        requires 0 <= wi * t - t * fs;
    assert(fs <= wi) by (nonlinear_arith)
        requires t * fs <= wi * t, t > 0;
    let a = wi - fs;
    assert(t * a == wi * t - t * fs) by (nonlinear_arith)
        requires a == wi - fs;
    assert(n > 0);
    assert(n * (t - 1) == n * t - n) by (nonlinear_arith);
    if a >= n {
        vstd::arithmetic::mul::lemma_mul_inequality(n as int, a, t);
        assert(n * t == t * n) by (nonlinear_arith);
        assert(a * t == t * a) by (nonlinear_arith);
    }
    lemma_partition_start(ps, wi, n);
}

/// Splits `[0, total_weight)` into one segment per validator, in the order of
/// the set: validator `i` gets its voting power times
/// `total_weight / total voting power`, rounded down, plus one for each of the
/// first validators until the weights sum to `total_weight`.
pub fn partition_domain<K>(params: &Params, validator_set: ValidatorSet<K>) -> (r: Result<
    Vec<Validator<K>>,
    PartitionError,
>)
    requires
        power_sum(powers(validator_set.validators@), validator_set.validators@.len()) > 0,
    ensures
        ({
            let vs = validator_set.validators@;
            let ps = powers(vs);
            let w = params.total_weight as int;
            &&& r is Ok
            &&& r->Ok_0.len() == vs.len()
            &&& forall|i: int|
                0 <= i < vs.len() ==> {
                    &&& (#[trigger] r->Ok_0[i]).validator == vs[i]
                    &&& r->Ok_0[i].weight == partition_weight(ps, w, i)
                    &&& r->Ok_0[i].share_start == partition_start(ps, w, i as nat)
                    &&& r->Ok_0[i].share_end == r->Ok_0[i].share_start + r->Ok_0[i].weight
                }
            &&& partition_start(ps, w, vs.len()) == w
            &&& vs.len() > 0 ==> r->Ok_0[0].share_start == 0
            &&& forall|i: int|
                0 <= i < vs.len() - 1 ==> #[trigger] r->Ok_0[i + 1].share_start
                    == r->Ok_0[i].share_end
            &&& vs.len() > 0 ==> r->Ok_0[vs.len() - 1].share_end == w
        }),
{
    let ghost vs = validator_set.validators@;
    let ghost ps = powers(vs);
    let ghost w = params.total_weight as int;
    let mut validators = validator_set.validators;
    let n = validators.len();
    proof {
        lemma_power_sum_bounds(ps, n as nat);
    }

    // Total voting power.
    let mut total_voting_power: u128 = 0;
    let mut i: usize = 0;
    while i < n
        invariant
            n == validators.len(),
            validators@ == vs,
            ps == powers(vs),
            i <= n,
            total_voting_power == power_sum(ps, i as nat),
            total_voting_power <= i * 0xffff_ffff_ffff_ffffu128,
            n * 0xffff_ffff_ffff_ffffu128 <= u128::MAX,
        decreases n - i,
    {
        total_voting_power = total_voting_power + validators[i].power as u128;
        i = i + 1;
    }
    let ghost t = total_voting_power as int;
    let total_weight = params.total_weight;
    proof {
        lemma_floor_sum_bounds(ps, w, t, n as nat);
        assert(t * floor_sum(ps, w, t, n as nat) <= w * t) by (nonlinear_arith)
            requires
                0 <= w * t - t * floor_sum(ps, w, t, n as nat);
        assert(floor_sum(ps, w, t, n as nat) <= w) by (nonlinear_arith)
            requires t * floor_sum(ps, w, t, n as nat) <= w * t, t > 0;
    }

    // Rounded-down weights.
    let mut weights: Vec<u32> = Vec::new();
    let mut floor_total: u64 = 0;
    let mut i: usize = 0;
    while i < n
        invariant
            n == validators.len(),
            validators@ == vs,
            ps == powers(vs),
            i <= n,
            t == total_voting_power,
            t == power_sum(ps, n as nat),
            t > 0,
            w == total_weight,
            weights.len() == i,
            forall|k: int| 0 <= k < i ==> #[trigger] weights[k] == floor_weight(ps[k] as int, w, t),
            floor_total == floor_sum(ps, w, t, i as nat),
            floor_total <= w,
            forall|k: int| 0 <= k < n ==> 0 <= #[trigger] floor_weight(ps[k] as int, w, t) <= floor_sum(ps, w, t, n as nat),
            floor_sum(ps, w, t, n as nat) <= w,
        decreases n - i,
    {
        let p = validators[i].power;
        assert((p as int) * (total_weight as int) <= 0xffff_ffff_ffff_ffff * 0xffff_ffff)
            by (nonlinear_arith)
            requires p <= 0xffff_ffff_ffff_ffffu64, total_weight <= 0xffff_ffffu32;
        let f = (p as u128 * total_weight as u128) / total_voting_power;
        proof {
            assert(ps[i as int] == p);
            assert(f == floor_weight(p as int, w, t));
            lemma_floor_sum_bounds(ps, w, t, (i + 1) as nat);
            lemma_sums_mono(ps, w, t, (i + 1) as nat, n as nat);
            assert(t * floor_sum(ps, w, t, (i + 1) as nat) <= w * t) by (nonlinear_arith)
                requires
                    0 <= w * power_sum(ps, (i + 1) as nat) - t * floor_sum(ps, w, t, (i + 1) as nat),
                    power_sum(ps, (i + 1) as nat) <= t,
                    w >= 0;
            assert(floor_sum(ps, w, t, (i + 1) as nat) <= w) by (nonlinear_arith)
                requires t * floor_sum(ps, w, t, (i + 1) as nat) <= w * t, t > 0;
        }
        weights.push(f as u32);
        floor_total = floor_total + f as u64;
        i = i + 1;
    }

    // Hand the weight lost to rounding to the first validators.
    if floor_total > total_weight as u64 {
        return Err(PartitionError::NegativeAdjustment);
    }
    let adjust_weight = (total_weight as u64 - floor_total) as usize;
    proof {
        assert(w * t - t * floor_sum(ps, w, t, n as nat) <= n * (t - 1));
        lemma_partition_conserves_weight(ps, total_weight);
        assert(top_up(ps, w) == adjust_weight);
        lemma_partition_start(ps, w, n as nat);
    }

    let mut allocated_weight: usize = 0;
    let mut participants: Vec<Validator<K>> = Vec::new();
    let mut i: usize = 0;
    while i < n
        invariant
            n == vs.len(),
            validators@ == vs.subrange(i as int, n as int),
            ps == powers(vs),
            i <= n,
            t == power_sum(ps, n as nat),
            t > 0,
            w == total_weight,
            weights.len() == n,
            forall|k: int| 0 <= k < n ==> #[trigger] weights[k] == floor_weight(ps[k] as int, w, t),
            forall|k: int| 0 <= k < n ==> 0 <= #[trigger] floor_weight(ps[k] as int, w, t) <= floor_sum(ps, w, t, n as nat),
            adjust_weight == top_up(ps, w),
            adjust_weight == w - floor_sum(ps, w, t, n as nat),
            adjust_weight < n,
            allocated_weight == partition_start(ps, w, i as nat),
            participants.len() == i,
            forall|k: int|
                0 <= k < i ==> {
                    &&& (#[trigger] participants[k]).validator == vs[k]
                    &&& participants[k].weight == partition_weight(ps, w, k)
                    &&& participants[k].share_start == partition_start(ps, w, k as nat)
                    &&& participants[k].share_end == participants[k].share_start + participants[k].weight
                },
        decreases n - i,
    {
        let validator = validators.remove(0);
        proof {
            assert(validator == vs[i as int]);
            lemma_partition_start(ps, w, i as nat);
            lemma_partition_start(ps, w, (i + 1) as nat);
            lemma_floor_sum_bounds(ps, w, t, (i + 1) as nat);
            lemma_floor_sum_bounds(ps, w, t, n as nat);
            lemma_sums_mono(ps, w, t, (i + 1) as nat, n as nat);
            assert(partition_start(ps, w, (i + 1) as nat) <= w);
        }
        let weight: u32 = if i < adjust_weight {
            weights[i] + 1
        } else {
            weights[i]
        };
        let share_start = allocated_weight;
        let share_end = match allocated_weight.checked_add(weight as usize) {
            Some(e) => e,
            None => return Err(PartitionError::Overflow),
        };
        let ghost old_participants = participants@;
        participants.push(Validator { validator, weight, share_start, share_end });
        proof {
            assert forall|k: int| 0 <= k <= i implies {
                &&& (#[trigger] participants[k]).validator == vs[k]
                &&& participants[k].weight == partition_weight(ps, w, k)
                &&& participants[k].share_start == partition_start(ps, w, k as nat)
                &&& participants[k].share_end == participants[k].share_start + participants[k].weight
            } by {
                if k < i {
                    assert(participants[k] == old_participants[k]);
                }
            }
            assert(validators@ =~= vs.subrange(i + 1, n as int));
        }
        allocated_weight = share_end;
        i = i + 1;
    }
    Ok(participants)
}

} // verus!
