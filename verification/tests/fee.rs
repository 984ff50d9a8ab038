use ore_hq_server::double::nearest_double_trunc;
use ore_hq_server::fee::{adjust_fee, fee_in_range, surcharge_unit};

/// One unit of the surcharge, computed in floating point.
fn float_unit(difficulty: u32, tip: u64) -> u64 {
    (tip as f64 * (difficulty as f64 - 20f64) / 20f64) as u64
}

/// The fee, computed in floating point, with checked integer arithmetic around it.
fn float_fee(difficulty: u32, tip: u64) -> Option<u64> {
    if difficulty > 25 {
        let raised = tip.checked_add(float_unit(difficulty, tip).checked_mul(6)?)?;
        Some(raised.min(tip.checked_mul(5)?))
    } else if difficulty > 20 {
        let raised = tip.checked_add(float_unit(difficulty, tip).checked_mul(4)?)?;
        Some(raised.min(tip.checked_mul(3)?))
    } else {
        Some(tip)
    }
}

fn scramble(seed: &mut u64) -> u64 {
    *seed ^= *seed << 13;
    *seed ^= *seed >> 7;
    *seed ^= *seed << 17;
    *seed
}

#[test]
fn fee_is_the_tip_up_to_difficulty_20() {
    assert_eq!(adjust_fee(0, 5_000), 5_000);
    assert_eq!(adjust_fee(20, 5_000), 5_000);
    assert_eq!(adjust_fee(20, u64::MAX), u64::MAX);
}

#[test]
fn fee_grows_by_a_fifth_of_the_tip_up_to_difficulty_25() {
    assert_eq!(adjust_fee(21, 5_000), 6_000);
    assert_eq!(adjust_fee(22, 5_000), 7_000);
    assert_eq!(adjust_fee(25, 5_000), 10_000);
    assert_eq!(adjust_fee(21, 19), 19);
    assert_eq!(adjust_fee(21, 20), 24);
}

#[test]
fn fee_grows_faster_above_difficulty_25_up_to_five_tips() {
    assert_eq!(adjust_fee(26, 5_000), 14_000);
    assert_eq!(adjust_fee(33, 5_000), 24_500);
    assert_eq!(adjust_fee(34, 5_000), 25_000);
    assert_eq!(adjust_fee(256, 5_000), 25_000);
    assert_eq!(adjust_fee(26, 1), 1);
    assert_eq!(adjust_fee(40, 1), 5);
    assert_eq!(adjust_fee(40, 0), 0);
}

#[test]
fn fee_out_of_range_is_told() {
    assert!(fee_in_range(20, u64::MAX));
    assert!(!fee_in_range(21, u64::MAX));
    assert!(!fee_in_range(26, u64::MAX / 4));
    assert!(fee_in_range(26, u64::MAX / 6));
    assert!(fee_in_range(25, u64::MAX / 3));
    assert!(!fee_in_range(25, u64::MAX / 3 + 1));
}

#[test]
fn surcharge_agrees_with_floating_point() {
    let mut seed: u64 = 0x9e37_79b9_7f4a_7c15;
    for i in 0..200_000u64 {
        let bits = scramble(&mut seed);
        let tip = scramble(&mut seed) >> (bits % 64);
        let difficulty = if i % 4 == 0 {
            21 + (scramble(&mut seed) >> (32 + bits / 64 % 32)) as u32 % (u32::MAX - 21)
        } else {
            21 + (scramble(&mut seed) % 236) as u32
        };
        assert_eq!(
            surcharge_unit(difficulty, tip),
            float_unit(difficulty, tip),
            "difficulty {difficulty}, tip {tip}"
        );
    }
}

#[test]
fn surcharge_agrees_with_floating_point_at_the_edges() {
    let mut tips = vec![0, 1, 2, 3, 19, 20, 21, u64::MAX, u64::MAX - 1];
    for shift in 45..64 {
        for delta in 0..40u64 {
            tips.push((1u64 << shift) + delta);
            tips.push((1u64 << shift) - delta);
        }
    }
    for tip in tips {
        for difficulty in (21..60).chain([256, 1 << 20, u32::MAX]) {
            assert_eq!(surcharge_unit(difficulty, tip), float_unit(difficulty, tip));
        }
    }
}

#[test]
fn fee_agrees_with_floating_point() {
    let mut seed: u64 = 42;
    for _ in 0..100_000 {
        let bits = scramble(&mut seed);
        let tip = scramble(&mut seed) >> (bits % 64);
        let difficulty = (bits >> 32) as u32 % 257;
        match float_fee(difficulty, tip) {
            Some(fee) => {
                assert!(fee_in_range(difficulty, tip));
                assert_eq!(adjust_fee(difficulty, tip), fee);
            }
            None => assert!(!fee_in_range(difficulty, tip)),
        }
    }
}

#[test]
fn fee_never_falls_with_the_difficulty_or_the_tip() {
    for tip in [1, 7, 999, 1_000_000, 123_456_789_012_345] {
        let mut last = 0;
        for difficulty in 0..200 {
            let fee = adjust_fee(difficulty, tip);
            assert!(fee >= last && fee >= tip && fee <= 5 * tip);
            assert!(fee <= adjust_fee(difficulty, tip + 1));
            last = fee;
        }
    }
}

#[test]
fn surcharge_is_the_integer_quotient_for_common_tips() {
    for tip in [1u64, 5_000, 1_000_000, 38_000_000_000_000] {
        for difficulty in 21..=256u32 {
            assert_eq!(surcharge_unit(difficulty, tip), tip * (difficulty as u64 - 20) / 20);
        }
    }
}

#[test]
fn quotients_round_to_the_nearest_double() {
    let p = 1u128 << 53;
    assert_eq!(nearest_double_trunc(p + 1, 1), p);
    assert_eq!(nearest_double_trunc(p + 3, 1), p + 4);
    assert_eq!(nearest_double_trunc(0, 7), 0);
    assert_eq!(nearest_double_trunc(7, 2), 3);
    // 2^52 - 1/20 is nearer to 2^52 than to the double below it.
    assert_eq!(nearest_double_trunc((1u128 << 52) * 20 - 1, 20), 1u128 << 52);
}

#[test]
fn surcharge_is_exact_up_to_the_precision_of_a_double() {
    let tip = 1u64 << 53;
    assert_eq!(surcharge_unit(21, tip), tip / 20);
    assert_eq!(surcharge_unit(20 + (1 << 10), 1 << 43), tip / 20);
}

#[test]
fn common_tips_are_in_range() {
    for difficulty in 0..=256 {
        assert!(fee_in_range(difficulty, u64::MAX / 100));
    }
}
