use parimutuel::calc::{
    early_exit_refund, fee_split, locked_quote, losing_pool_split, policy_fees, policy_is_valid,
    proportional_payout, seed_outcome_totals, share_of, winner_payout, FeeSchedule, FeeSplit,
    PayoutPolicy,
    BPS_DENOMINATOR, EARLY_EXIT_REFUND_PERCENT, LOCKED_FEE_PERCENT, LOCKED_PAYOUT_PERCENT,
};
use parimutuel::errors::CalcError;

#[test]
fn constants_have_their_values() {
    assert_eq!(BPS_DENOMINATOR, 10_000);
    assert_eq!(EARLY_EXIT_REFUND_PERCENT, 90);
    assert_eq!(LOCKED_PAYOUT_PERCENT, 90);
    assert_eq!(LOCKED_FEE_PERCENT, 11);
}

#[test]
fn fee_schedule_split_example() {
    let fees = FeeSchedule { creator_fee_bps: 500, dev_fee_bps: 200, burn_fee_bps: 300 };
    let split = fee_split(1000, &fees);
    assert_eq!(
        split,
        FeeSplit { creator_fee: 50, dev_fee: 20, burn_amount: 30, distributable: 900 }
    );
}

#[test]
fn winners_are_paid_from_the_distributable_pool() {
    let fees = FeeSchedule { creator_fee_bps: 500, dev_fee_bps: 200, burn_fee_bps: 300 };
    let policy = PayoutPolicy::FullPoolSplit { fees };
    let totals = [300, 700, 0, 0, 0, 0, 0, 0];
    // 100 * 900 / 300, not 100 * 1000 / 300
    assert_eq!(winner_payout(&policy, &totals, 1000, 0, 100), Ok(300));
    assert_eq!(winner_payout(&policy, &totals, 1000, 0, 300), Ok(900));
    assert_eq!(winner_payout(&policy, &totals, 1000, 1, 700), Ok(900));
    assert_eq!(winner_payout(&policy, &totals, 1000, 1, 1), Ok(1));
}

#[test]
fn fee_split_rounds_every_part_down() {
    let fees = FeeSchedule { creator_fee_bps: 500, dev_fee_bps: 200, burn_fee_bps: 300 };
    let split = fee_split(201, &fees);
    assert_eq!(split, FeeSplit { creator_fee: 10, dev_fee: 4, burn_amount: 6, distributable: 180 });
    let split = fee_split(1, &fees);
    assert_eq!(split, FeeSplit { creator_fee: 0, dev_fee: 0, burn_amount: 0, distributable: 0 });
    let split = fee_split(0, &fees);
    assert_eq!(split, FeeSplit { creator_fee: 0, dev_fee: 0, burn_amount: 0, distributable: 0 });
}

#[test]
fn fee_split_of_the_largest_pool() {
    let fees = FeeSchedule { creator_fee_bps: 0, dev_fee_bps: 0, burn_fee_bps: 0 };
    let split = fee_split(u64::MAX, &fees);
    assert_eq!(split.distributable, u64::MAX);
    let all = FeeSchedule { creator_fee_bps: 10_000, dev_fee_bps: 0, burn_fee_bps: 0 };
    let split = fee_split(u64::MAX, &all);
    assert_eq!(split.creator_fee, u64::MAX);
    assert_eq!(split.distributable, 0);
}

#[test]
fn fee_schedule_validity() {
    assert!(FeeSchedule { creator_fee_bps: 500, dev_fee_bps: 200, burn_fee_bps: 300 }.is_valid());
    assert!(FeeSchedule { creator_fee_bps: 10_000, dev_fee_bps: 0, burn_fee_bps: 0 }.is_valid());
    assert!(FeeSchedule { creator_fee_bps: 3_334, dev_fee_bps: 3_333, burn_fee_bps: 3_333 }.is_valid());
    assert!(!FeeSchedule { creator_fee_bps: 3_334, dev_fee_bps: 3_334, burn_fee_bps: 3_333 }.is_valid());
    assert!(!FeeSchedule { creator_fee_bps: 65_535, dev_fee_bps: 65_535, burn_fee_bps: 65_535 }.is_valid());
}

#[test]
fn share_rounds_down() {
    assert_eq!(share_of(50, 8500), 42);
    assert_eq!(share_of(1000, 500), 50);
    assert_eq!(share_of(9999, 1), 0);
    assert_eq!(share_of(10_000, 1), 1);
    assert_eq!(share_of(12345, 0), 0);
    assert_eq!(share_of(u64::MAX, 10_000), u64::MAX);
    assert_eq!(share_of(u64::MAX, 5_000), u64::MAX / 2);
}

#[test]
fn losing_pool_split_example() {
    // Alice 100 on A, Bob 50 on B, Carol 50 on A; A wins.
    let totals = [150, 50, 0, 0, 0, 0, 0, 0];
    let winner_pool = share_of(50, 8500);
    assert_eq!(winner_pool, 42);
    let alice = losing_pool_split(&totals, 0, 100, 8500);
    let carol = losing_pool_split(&totals, 0, 50, 8500);
    assert_eq!(alice, Ok(127));
    assert_eq!(carol, Ok(63));
    let winnings = (127 - 100) + (63 - 50);
    assert_eq!(winnings, 40);
    assert!(winnings <= winner_pool);
}

#[test]
fn losing_pool_split_at_nine_thousand_bps() {
    let totals = [150, 50, 0, 0, 0, 0, 0, 0];
    // winner pool 45; Alice's share 6666 bps -> 45 * 6666 / 10000 = 29
    assert_eq!(losing_pool_split(&totals, 0, 100, 9000), Ok(129));
    // Carol's share 3333 bps -> 45 * 3333 / 10000 = 14
    assert_eq!(losing_pool_split(&totals, 0, 50, 9000), Ok(64));
}

#[test]
fn losing_pool_split_sums_all_losing_outcomes() {
    let totals = [10, 20, 30, 40, 50, 60, 70, 80];
    // losing total 360 - 40 = 320; sole winner holds all of outcome 3
    assert_eq!(losing_pool_split(&totals, 3, 40, 10_000), Ok(40 + 320));
    assert_eq!(losing_pool_split(&totals, 3, 40, 0), Ok(40));
    assert_eq!(losing_pool_split(&totals, 3, 0, 10_000), Ok(0));
    // half of the winning total: share 5000 bps of 272
    assert_eq!(losing_pool_split(&totals, 3, 20, 8500), Ok(20 + 136));
}

#[test]
fn losing_pool_split_guards_an_empty_winning_pool() {
    let totals = [0, 50, 0, 0, 0, 0, 0, 0];
    assert_eq!(losing_pool_split(&totals, 0, 10, 8500), Err(CalcError::NoWinningStake));
    let policy = PayoutPolicy::LosingPoolSplit { payout_bps: 8500 };
    assert_eq!(winner_payout(&policy, &totals, 50, 0, 10), Err(CalcError::NoWinningStake));
}

#[test]
fn losing_pool_split_reports_overflow() {
    let totals = [1, u64::MAX, u64::MAX, 0, 0, 0, 0, 0];
    assert_eq!(losing_pool_split(&totals, 0, u64::MAX, 10_000), Err(CalcError::Overflow));
    // the stake alone fits, the winnings push it over
    let totals = [u64::MAX, u64::MAX, 0, 0, 0, 0, 0, 0];
    assert_eq!(losing_pool_split(&totals, 0, u64::MAX, 10_000), Err(CalcError::Overflow));
    assert_eq!(losing_pool_split(&totals, 0, u64::MAX, 0), Ok(u64::MAX));
}

#[test]
fn winner_payout_follows_the_policy() {
    let totals = [150, 50, 0, 0, 0, 0, 0, 0];
    let split = PayoutPolicy::LosingPoolSplit { payout_bps: 8500 };
    assert_eq!(winner_payout(&split, &totals, 200, 0, 100), Ok(127));
    let fees = FeeSchedule { creator_fee_bps: 500, dev_fee_bps: 200, burn_fee_bps: 300 };
    let full = PayoutPolicy::FullPoolSplit { fees };
    assert_eq!(winner_payout(&full, &totals, 200, 0, 100), Ok(120));
    assert_eq!(winner_payout(&full, &totals, 200, 0, 50), Ok(60));
}

#[test]
fn proportional_payout_values() {
    assert_eq!(proportional_payout(7, 10, 3), Ok(23));
    assert_eq!(proportional_payout(100, 180, 151), Ok(119));
    assert_eq!(proportional_payout(51, 180, 151), Ok(60));
    assert_eq!(proportional_payout(0, 180, 151), Ok(0));
    assert_eq!(proportional_payout(151, 180, 151), Ok(180));
    assert_eq!(proportional_payout(u64::MAX, u64::MAX, u64::MAX), Ok(u64::MAX));
}

#[test]
fn proportional_payout_errors() {
    assert_eq!(proportional_payout(7, 10, 0), Err(CalcError::NoWinningStake));
    assert_eq!(proportional_payout(0, 0, 0), Err(CalcError::NoWinningStake));
    assert_eq!(proportional_payout(u64::MAX, u64::MAX, 1), Err(CalcError::Overflow));
    assert_eq!(proportional_payout(u64::MAX, 2, 1), Err(CalcError::Overflow));
    assert_eq!(proportional_payout(u64::MAX, 1, 1), Ok(u64::MAX));
}

#[test]
fn early_exit_refund_example() {
    assert_eq!(early_exit_refund(100), 90);
}

#[test]
fn early_exit_refund_rounds_down() {
    assert_eq!(early_exit_refund(0), 0);
    assert_eq!(early_exit_refund(1), 0);
    assert_eq!(early_exit_refund(9), 8);
    assert_eq!(early_exit_refund(10), 9);
    assert_eq!(early_exit_refund(11), 9);
    assert_eq!(early_exit_refund(u64::MAX), 16_602_069_666_338_596_453);
}

#[test]
fn locked_quote_values() {
    // 100 * 90 * 1000 / 100 / 1
    assert_eq!(locked_quote(100, 1000, 1), Ok((90_000, 9_900)));
    // 100 * 90 * 1000 / 100 / 500
    assert_eq!(locked_quote(100, 1000, 500), Ok((180, 19)));
    // 7 * 90 * 10 = 6300 -> 63 -> 63 / 4 = 15; fee 15 * 11 / 100 = 1
    assert_eq!(locked_quote(7, 10, 4), Ok((15, 1)));
    assert_eq!(locked_quote(0, 1000, 500), Ok((0, 0)));
}

#[test]
fn locked_quote_on_an_empty_outcome_is_the_stake() {
    assert_eq!(locked_quote(100, 1000, 0), Ok((100, 11)));
    assert_eq!(locked_quote(100, 0, 0), Ok((100, 11)));
    assert_eq!(locked_quote(u64::MAX, u64::MAX, 0), Ok((u64::MAX, 2_029_141_848_108_050_677)));
}

#[test]
fn locked_quote_reports_overflow() {
    // the payout itself does not fit 64 bits
    assert_eq!(locked_quote(u64::MAX, 1_000_000, 1), Err(CalcError::Overflow));
    // the product does not fit 128 bits, though the payout would fit 64
    let amount = 1u64 << 62;
    let pot = 1u64 << 63;
    assert_eq!(locked_quote(amount, pot, 1u64 << 62), Err(CalcError::Overflow));
    // just below: 2^60 * 90 * 2^61 fits
    assert_eq!(
        locked_quote(1u64 << 60, 1u64 << 61, 1u64 << 62),
        Ok((518_814_677_073_081_139, 57_069_614_478_038_925))
    );
}

#[test]
fn seeds_follow_the_weights() {
    assert_eq!(
        seed_outcome_totals(1000, &[1, 1, 0, 0, 0, 0, 0, 0], 2),
        Ok([500, 500, 0, 0, 0, 0, 0, 0])
    );
    assert_eq!(
        seed_outcome_totals(100, &[1, 2, 0, 0, 0, 0, 0, 0], 2),
        Ok([33, 66, 0, 0, 0, 0, 0, 0])
    );
    assert_eq!(
        seed_outcome_totals(1000, &[1, 999, 0, 0, 0, 0, 0, 0], 2),
        Ok([1, 999, 0, 0, 0, 0, 0, 0])
    );
    assert_eq!(
        seed_outcome_totals(80, &[1, 1, 1, 1, 1, 1, 1, 1], 8),
        Ok([10, 10, 10, 10, 10, 10, 10, 10])
    );
}

#[test]
fn seeds_ignore_weights_past_the_count() {
    assert_eq!(
        seed_outcome_totals(1000, &[1, 5, 7, 0, 0, 0, 0, 9], 1),
        Ok([1000, 0, 0, 0, 0, 0, 0, 0])
    );
    assert_eq!(
        seed_outcome_totals(1000, &[1, 5, 7, 0, 0, 0, 0, 9], 0),
        Ok([0, 0, 0, 0, 0, 0, 0, 0])
    );
    assert_eq!(
        seed_outcome_totals(1000, &[u32::MAX, u32::MAX, 0, 0, 0, 0, 0, 0], 1),
        Ok([1000, 0, 0, 0, 0, 0, 0, 0])
    );
}

#[test]
fn seeds_of_zero_weights_are_empty() {
    assert_eq!(
        seed_outcome_totals(1000, &[0, 0, 0, 0, 0, 0, 0, 0], 4),
        Ok([0, 0, 0, 0, 0, 0, 0, 0])
    );
}

#[test]
fn seeds_report_overflowing_weights() {
    assert_eq!(
        seed_outcome_totals(1000, &[u32::MAX, 1, 0, 0, 0, 0, 0, 0], 2),
        Err(CalcError::Overflow)
    );
    assert_eq!(
        seed_outcome_totals(1000, &[u32::MAX, 0, 0, 0, 0, 0, 0, 0], 2),
        Ok([1000, 0, 0, 0, 0, 0, 0, 0])
    );
}

#[test]
fn seeds_of_the_largest_liquidity() {
    assert_eq!(
        seed_outcome_totals(u64::MAX, &[u32::MAX, 0, 0, 0, 0, 0, 0, 0], 2),
        Ok([u64::MAX, 0, 0, 0, 0, 0, 0, 0])
    );
    let halves = seed_outcome_totals(u64::MAX, &[1, 1, 0, 0, 0, 0, 0, 0], 2);
    assert_eq!(halves, Ok([u64::MAX / 2, u64::MAX / 2, 0, 0, 0, 0, 0, 0]));
}

#[test]
fn payouts_never_exceed_the_pool() {
    // three winners of an outcome that holds 151 of 201
    let fees = FeeSchedule { creator_fee_bps: 500, dev_fee_bps: 200, burn_fee_bps: 300 };
    let totals = [151, 50, 0, 0, 0, 0, 0, 0];
    let split = fee_split(201, &fees);
    let full = PayoutPolicy::FullPoolSplit { fees };
    let mut paid: u64 = 0;
    for stake in [100u64, 50, 1] {
        paid += winner_payout(&full, &totals, 201, 0, stake).unwrap();
    }
    assert_eq!(paid, 119 + 59 + 1);
    assert!(paid <= split.distributable);
    assert!(paid + split.creator_fee + split.dev_fee + split.burn_amount <= 201);

    let losing = PayoutPolicy::LosingPoolSplit { payout_bps: 8500 };
    let mut paid: u64 = 0;
    for stake in [100u64, 50, 1] {
        paid += winner_payout(&losing, &totals, 201, 0, stake).unwrap();
    }
    // winner pool 42: shares 6622, 3311 and 66 bps
    assert_eq!(paid, (100 + 27) + (50 + 13) + (1 + 0));
    assert!(paid <= 201);
}

#[test]
fn fees_of_a_policy() {
    let fees = FeeSchedule { creator_fee_bps: 500, dev_fee_bps: 200, burn_fee_bps: 300 };
    let full = PayoutPolicy::FullPoolSplit { fees };
    assert_eq!(policy_fees(&full, 1000), (50, 20, 30));
    assert_eq!(policy_fees(&full, 201), (10, 4, 6));
    let losing = PayoutPolicy::LosingPoolSplit { payout_bps: 8500 };
    assert_eq!(policy_fees(&losing, 1000), (0, 0, 0));
}

#[test]
fn policy_validity() {
    let fees = FeeSchedule { creator_fee_bps: 500, dev_fee_bps: 200, burn_fee_bps: 300 };
    assert!(policy_is_valid(&PayoutPolicy::FullPoolSplit { fees }));
    let fees = FeeSchedule { creator_fee_bps: 9_000, dev_fee_bps: 1_000, burn_fee_bps: 1 };
    assert!(!policy_is_valid(&PayoutPolicy::FullPoolSplit { fees }));
    assert!(policy_is_valid(&PayoutPolicy::LosingPoolSplit { payout_bps: 0 }));
    assert!(policy_is_valid(&PayoutPolicy::LosingPoolSplit { payout_bps: 10_000 }));
    assert!(!policy_is_valid(&PayoutPolicy::LosingPoolSplit { payout_bps: 10_001 }));
}
