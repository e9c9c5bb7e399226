use ferveo::partition::{partition_domain, Params, TendermintValidator, ValidatorSet};

fn set(powers: &[u64]) -> ValidatorSet<()> {
    ValidatorSet {
        validators: powers
            .iter()
            .enumerate()
            .map(|(i, p)| TendermintValidator {
                power: *p,
                address: format!("validator_{}", i),
                public_key: (),
            })
            .collect(),
    }
}

fn params(total_weight: u32, security_threshold: u32) -> Params {
    Params { tau: 1, total_weight, security_threshold, retry_after: 0 }
}

fn segments(powers: &[u64], total_weight: u32) -> Vec<(u32, usize, usize)> {
    partition_domain(&params(total_weight, 1), set(powers))
        .unwrap()
        .iter()
        .map(|v| (v.weight, v.share_start, v.share_end))
        .collect()
}

#[test]
fn test_partition_domain() {
    let validator_set = set(&[50, 50]);
    let params = params(100, 50);
    let participants = partition_domain(&params, validator_set).unwrap();
    assert_eq!(participants.len(), 2);
    assert_eq!(participants[0].weight, 50);
    assert_eq!(participants[0].share_start, 0);
    assert_eq!(participants[0].share_end, 50);
    assert_eq!(participants[1].weight, 50);
    assert_eq!(participants[1].share_start, 50);
    assert_eq!(participants[1].share_end, 100);
    assert_eq!(participants[0].validator.address, "validator_0");
    assert_eq!(participants[1].validator.address, "validator_1");
}

#[test]
fn partition_unequal_with_rounding() {
    assert_eq!(segments(&[70, 20, 10], 10), vec![(7, 0, 7), (2, 7, 9), (1, 9, 10)]);
}

#[test]
fn partition_top_up_goes_first() {
    assert_eq!(segments(&[1, 1, 1], 10), vec![(4, 0, 4), (3, 4, 7), (3, 7, 10)]);
}

#[test]
fn partition_conserves_weight_and_is_contiguous() {
    let powers = [1000u64, 333, 333, 7, 1, 0];
    for total in [1u32, 5, 64, 100, 8192] {
        let segs = segments(&powers, total);
        assert_eq!(segs.len(), powers.len());
        assert_eq!(segs.iter().map(|s| s.0 as u64).sum::<u64>(), total as u64);
        assert_eq!(segs[0].1, 0);
        for i in 0..segs.len() - 1 {
            assert_eq!(segs[i].2, segs[i + 1].1);
        }
        assert_eq!(segs[segs.len() - 1].2, total as usize);
    }
}

#[test]
fn partition_single_validator_takes_all() {
    assert_eq!(segments(&[5], 7), vec![(7, 0, 7)]);
}

#[test]
fn partition_largest_power_and_weight() {
    let segs = segments(&[u64::MAX, u64::MAX], u32::MAX);
    assert_eq!(segs, vec![(2147483648, 0, 2147483648), (2147483647, 2147483648, 4294967295)]);
}
