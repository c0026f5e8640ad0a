//! The payout and fee calculator.
//!
//! Pure arithmetic, no state. Every ratio is formed in 128 bits and divided
//! only after all multiplications, so that a quotient is always the floor of
//! the exact rational value: the protocol rounds in its own favour, and what
//! rounding drops stays in custody as dust.

use vstd::prelude::*;
use crate::errors::CalcError;

verus! {

/// Fee units per whole: one basis point is a ten-thousandth.
pub const BPS_DENOMINATOR: u64 = 10_000;

/// Percentage of the stake that a voluntary exit before resolution returns.
pub const EARLY_EXIT_REFUND_PERCENT: u64 = 90;

/// Percentage of the pot ratio that a payout locked at bet time receives.
pub const LOCKED_PAYOUT_PERCENT: u64 = 90;

/// Percentage of a locked payout that is set aside as the protocol fee.
pub const LOCKED_FEE_PERCENT: u64 = 11;

/// `amount * bps / 10000`, rounded down.
pub open spec fn bps_share(amount: int, bps: int) -> int {
    amount * bps / 10_000
}

/// `stake * pool / winning_total`, rounded down: the part of `pool` that a
/// stake earns when `winning_total` is staked on the winning outcome.
pub open spec fn pro_rata(stake: int, pool: int, winning_total: int) -> int {
    stake * pool / winning_total
}

/// What `outcome_totals` hold apart from slot `winner`.
pub open spec fn losing_total(totals: Seq<u64>, winner: int) -> int
    recommends
        totals.len() == 8,
        0 <= winner < 8,
{
    pool_sum(totals) - totals[winner]
}

/// The sum of the eight outcome slots.
pub open spec fn pool_sum(totals: Seq<u64>) -> int
    recommends
        totals.len() == 8,
{
    totals[0] + totals[1] + totals[2] + totals[3] + totals[4] + totals[5] + totals[6] + totals[7]
}

/// The payout of the losing-pool split: the stake itself, plus the stake's
/// share, in whole basis points, of `payout_bps` of the losing pools.
pub open spec fn losing_pool_payout(
    totals: Seq<u64>,
    winner: int,
    stake: int,
    payout_bps: int,
) -> int
    recommends
        totals.len() == 8,
        0 <= winner < 8,
        totals[winner] > 0,
{
    let winner_pool = bps_share(losing_total(totals, winner), payout_bps);
    let user_share_bps = stake * 10_000 / (totals[winner] as int);
    stake + bps_share(winner_pool, user_share_bps)
}

/// The payout fixed at bet time: 90% of the stake's claim on the whole pot at
/// the ratio that the chosen outcome has before the bet is added, or the
/// bare stake when nothing is staked on that outcome yet.
pub open spec fn locked_payout(amount: int, total_pot: int, outcome_total: int) -> int {
    if outcome_total > 0 {
        amount * 90 * total_pot / 100 / outcome_total
    } else {
        amount
    }
}

/// The protocol fee that goes with a payout fixed at bet time.
pub open spec fn locked_fee(payout: int) -> int {
    payout * 11 / 100
}

/// What a voluntary exit before resolution returns.
pub open spec fn exit_refund(amount: int) -> int {
    amount * 90 / 100
}

/// The share of `liquidity` that seeds an outcome of the given weight.
pub open spec fn seed_share(liquidity: int, weight: int, total_weight: int) -> int {
    if total_weight > 0 {
        liquidity * weight / total_weight
    } else {
        0
    }
}

/// Named basis-point fees taken from the whole pool at settlement.
#[derive(Clone, Copy, Debug, PartialEq, Eq, Structural)]
pub struct FeeSchedule {
    pub creator_fee_bps: u16,
    pub dev_fee_bps: u16,
    pub burn_fee_bps: u16,
}

/// The amounts that a fee schedule yields on a pool.
#[derive(Clone, Copy, Debug, PartialEq, Eq, Structural)]
pub struct FeeSplit {
    pub creator_fee: u64,
    pub dev_fee: u64,
    pub burn_amount: u64,
    /// What is left for the winners.
    pub distributable: u64,
}

/// How winners are paid.
#[derive(Clone, Copy, Debug, PartialEq, Eq, Structural)]
pub enum PayoutPolicy {
    /// Winners split the whole pool, net of the scheduled fees, in proportion
    /// to their stakes.
    FullPoolSplit { fees: FeeSchedule },
    /// Winners get their stake back and split `payout_bps` of the losing
    /// pools.
    LosingPoolSplit { payout_bps: u16 },
}

impl FeeSchedule {
    /// The sum of the three fees, in basis points.
    pub open spec fn total_bps(self) -> int {
        self.creator_fee_bps + self.dev_fee_bps + self.burn_fee_bps
    }

    /// The fees together take no more than the whole.
    pub open spec fn wf(self) -> bool {
        self.total_bps() <= 10_000
    }

    /// The amounts this schedule yields on `total_pool`.
    pub open spec fn split(self, total_pool: int) -> (int, int, int, int) {
        (
            bps_share(total_pool, self.creator_fee_bps as int),
            bps_share(total_pool, self.dev_fee_bps as int),
            bps_share(total_pool, self.burn_fee_bps as int),
            bps_share(total_pool, 10_000 - self.total_bps()),
        )
    }

    /// Whether the fees together take no more than the whole.
    pub fn is_valid(&self) -> (ok: bool)
        ensures
            ok == self.wf(),
    {
        self.creator_fee_bps as u32 + self.dev_fee_bps as u32 + self.burn_fee_bps as u32 <= 10_000
    }
}

impl FeeSplit {
    /// Everything the split hands out.
    pub open spec fn total(self) -> int {
        self.creator_fee + self.dev_fee + self.burn_amount + self.distributable
    }
}

impl PayoutPolicy {
    /// The policy's parameters are in range.
    pub open spec fn wf(self) -> bool {
        match self {
            PayoutPolicy::FullPoolSplit { fees } => fees.wf(),
            PayoutPolicy::LosingPoolSplit { payout_bps } => payout_bps <= 10_000,
        }
    }

    /// What a winning stake is paid under this policy.
    pub open spec fn payout(self, totals: Seq<u64>, total_pool: int, winner: int, stake: int) -> int
        recommends
            totals.len() == 8,
            0 <= winner < 8,
            totals[winner] > 0,
    {
        match self {
            PayoutPolicy::FullPoolSplit { fees } => pro_rata(
                stake,
                fees.split(total_pool).3,
                totals[winner] as int,
            ),
            PayoutPolicy::LosingPoolSplit { payout_bps } => losing_pool_payout(
                totals,
                winner,
                stake,
                payout_bps as int,
            ),
        }
    }
}

/// A floored share never exceeds what it is a share of.
pub proof fn lemma_bps_share_bounds(amount: int, bps: int)
    requires
        0 <= amount,
        0 <= bps <= 10_000,
    ensures
        0 <= bps_share(amount, bps) <= amount,
{
    assert(0 <= amount * bps <= amount * 10_000) by (nonlinear_arith)
        requires
            0 <= amount,
            0 <= bps <= 10_000,
    ;
}

/// A floored pro-rata share of a pool never exceeds the pool, as long as the
/// stake is part of the winning total.
pub proof fn lemma_pro_rata_bounds(stake: int, pool: int, winning_total: int)
    requires
        0 <= stake <= winning_total,
        0 < winning_total,
        0 <= pool,
    ensures
        0 <= pro_rata(stake, pool, winning_total) <= pool,
        pro_rata(stake, pool, winning_total) * winning_total <= stake * pool,
{
    assert(0 <= stake * pool <= winning_total * pool) by (nonlinear_arith)
        requires
            0 <= stake <= winning_total,
            0 <= pool,
    ;
    lemma_floor_div(stake * pool, winning_total);
    assert(pro_rata(stake, pool, winning_total) <= pool) by (nonlinear_arith)
        requires
            pro_rata(stake, pool, winning_total) * winning_total <= winning_total * pool,
            0 < winning_total,
    ;
}

/// What defines the floored quotient of a non-negative number: it is the
/// largest multiple of the divisor that fits.
pub proof fn lemma_floor_div(x: int, d: int)
    requires
        0 <= x,
        0 < d,
    ensures
        0 <= x / d,
        (x / d) * d <= x < (x / d) * d + d,
{
    vstd::arithmetic::div_mod::lemma_fundamental_div_mod(x, d);
    vstd::arithmetic::div_mod::lemma_mod_bound(x, d);
    vstd::arithmetic::div_mod::lemma_div_pos_is_pos(x, d);
    assert(d * (x / d) == (x / d) * d) by (nonlinear_arith);
}

/// The three fees and the distributable rest never add up to more than the
/// pool they are taken from.
pub proof fn lemma_fee_split_within_pool(fees: FeeSchedule, total_pool: int)
    requires
        fees.wf(),
        0 <= total_pool,
    ensures
        ({
            let (creator, dev, burn, rest) = fees.split(total_pool);
            &&& 0 <= creator <= total_pool
            &&& 0 <= dev <= total_pool
            &&& 0 <= burn <= total_pool
            &&& 0 <= rest <= total_pool
            &&& creator + dev + burn + rest <= total_pool
        }),
{
    let c = fees.creator_fee_bps as int;
    let d = fees.dev_fee_bps as int;
    let b = fees.burn_fee_bps as int;
    let r = 10_000 - fees.total_bps();
    lemma_bps_share_bounds(total_pool, c);
    lemma_bps_share_bounds(total_pool, d);
    lemma_bps_share_bounds(total_pool, b);
    lemma_bps_share_bounds(total_pool, r);
    assert(total_pool * c + total_pool * d + total_pool * b + total_pool * r == total_pool
        * 10_000) by (nonlinear_arith)
        requires
            c + d + b + r == 10_000,
    ;
    assert(0 <= total_pool * c && 0 <= total_pool * d && 0 <= total_pool * b && 0 <= total_pool
        * r) by (nonlinear_arith)
        requires
            0 <= total_pool,
            0 <= c,
            0 <= d,
            0 <= b,
            0 <= r,
    ;
}

/// `amount * bps / 10000`, rounded down.
pub fn share_of(amount: u64, bps: u16) -> (share: u64)
    requires
        bps <= 10_000,
    ensures
        share == bps_share(amount as int, bps as int),
        share <= amount,
{
    proof {
        lemma_bps_share_bounds(amount as int, bps as int);
    }
    let whole: u128 = BPS_DENOMINATOR as u128;
    assert(whole == 10_000);
    let wide: u128 = (amount as u128) * (bps as u128) / whole;
    wide as u64
}

/// The fees that `fees` takes from `total_pool`, and what is left for the
/// winners.
pub fn fee_split(total_pool: u64, fees: &FeeSchedule) -> (split: FeeSplit)
    requires
        fees.wf(),
    ensures
        (split.creator_fee as int, split.dev_fee as int, split.burn_amount as int, split.distributable as int)
            == fees.split(total_pool as int),
        split.total() <= total_pool,
{
    proof {
        lemma_fee_split_within_pool(*fees, total_pool as int);
    }
    let rest_bps: u16 = 10_000 - fees.creator_fee_bps - fees.dev_fee_bps - fees.burn_fee_bps;
    FeeSplit {
        creator_fee: share_of(total_pool, fees.creator_fee_bps),
        dev_fee: share_of(total_pool, fees.dev_fee_bps),
        burn_amount: share_of(total_pool, fees.burn_fee_bps),
        distributable: share_of(total_pool, rest_bps),
    }
}

/// The part of `pool` that `stake` earns when `winning_total` is staked on
/// the winning outcome.
///
/// Fails with `NoWinningStake` when `winning_total` is zero, and with
/// `Overflow` when the share does not fit 64 bits, which can only happen to
/// a stake larger than the winning total.
pub fn proportional_payout(stake: u64, pool: u64, winning_total: u64) -> (r: Result<u64, CalcError>)
    ensures
        winning_total == 0 ==> r == Err::<u64, CalcError>(CalcError::NoWinningStake),
        winning_total > 0 && pro_rata(stake as int, pool as int, winning_total as int) > u64::MAX
            ==> r == Err::<u64, CalcError>(CalcError::Overflow),
        winning_total > 0 && pro_rata(stake as int, pool as int, winning_total as int) <= u64::MAX
            ==> r == Ok::<u64, CalcError>(
            pro_rata(stake as int, pool as int, winning_total as int) as u64,
        ),
        winning_total > 0 && stake <= winning_total ==> r is Ok && r->Ok_0 <= pool,
{
    if winning_total == 0 {
        return Err(CalcError::NoWinningStake);
    }
    proof {
        assert(0 <= stake * pool <= 0xffff_ffff_ffff_ffff * 0xffff_ffff_ffff_ffff)
            by (nonlinear_arith)
            requires
                0 <= stake <= 0xffff_ffff_ffff_ffff,
                0 <= pool <= 0xffff_ffff_ffff_ffff,
        ;
        lemma_floor_div(stake * pool, winning_total as int);
        if stake <= winning_total {
            lemma_pro_rata_bounds(stake as int, pool as int, winning_total as int);
        }
    }
    let wide: u128 = (stake as u128) * (pool as u128) / (winning_total as u128);
    if wide > u64::MAX as u128 {
        Err(CalcError::Overflow)
    } else {
        Ok(wide as u64)
    }
}

/// What a winning stake is paid under the losing-pool split: the stake itself
/// plus its share, in whole basis points, of `payout_bps` of everything that
/// was staked on the other outcomes.
///
/// Fails with `NoWinningStake` when nothing is staked on `winner`, and with
/// `Overflow` when the payout does not fit 64 bits.
pub fn losing_pool_split(totals: &[u64; 8], winner: u8, stake: u64, payout_bps: u16) -> (r: Result<
    u64,
    CalcError,
>)
    requires
        winner < 8,
        payout_bps <= 10_000,
    ensures
        totals@[winner as int] == 0 ==> r == Err::<u64, CalcError>(CalcError::NoWinningStake),
        totals@[winner as int] > 0 && losing_pool_payout(
            totals@,
            winner as int,
            stake as int,
            payout_bps as int,
        ) > u64::MAX ==> r == Err::<u64, CalcError>(CalcError::Overflow),
        totals@[winner as int] > 0 && losing_pool_payout(
            totals@,
            winner as int,
            stake as int,
            payout_bps as int,
        ) <= u64::MAX ==> r == Ok::<u64, CalcError>(
            losing_pool_payout(totals@, winner as int, stake as int, payout_bps as int) as u64,
        ),
{
    let winning_total: u64 = totals[winner as usize];
    if winning_total == 0 {
        return Err(CalcError::NoWinningStake);
    }
    let all: u128 = totals[0] as u128 + totals[1] as u128 + totals[2] as u128 + totals[3] as u128
        + totals[4] as u128 + totals[5] as u128 + totals[6] as u128 + totals[7] as u128;
    let losing: u128 = all - winning_total as u128;
    assert(losing == losing_total(totals@, winner as int));
    proof {
        assert(0 <= losing * payout_bps <= losing * 10_000) by (nonlinear_arith)
            requires
                0 <= losing,
                0 <= payout_bps <= 10_000,
        ;
        assert(0 <= stake * 10_000);
        lemma_floor_div(stake * 10_000, winning_total as int);
    }
    let whole: u128 = BPS_DENOMINATOR as u128;
    assert(whole == 10_000);
    let winner_pool: u128 = losing * (payout_bps as u128) / whole;
    let user_share_bps: u128 = (stake as u128) * whole / (winning_total as u128);
    proof {
        assert(0 <= winner_pool * user_share_bps) by (nonlinear_arith)
            requires
                0 <= winner_pool,
                0 <= user_share_bps,
        ;
    }
    match winner_pool.checked_mul(user_share_bps) {
        None => Err(CalcError::Overflow),
        Some(scaled) => {
            let payout: u128 = stake as u128 + scaled / whole;
            if payout > u64::MAX as u128 {
                Err(CalcError::Overflow)
            } else {
                Ok(payout as u64)
            }
        },
    }
}

/// What a winning stake is paid under `policy`.
///
/// `totals` are the amounts staked per outcome, `total_pool` is the base that
/// scheduled fees are taken from. Fails with `NoWinningStake` when nothing is
/// staked on `winner`, and with `Overflow` when the payout does not fit 64
/// bits.
pub fn winner_payout(
    policy: &PayoutPolicy,
    totals: &[u64; 8],
    total_pool: u64,
    winner: u8,
    stake: u64,
) -> (r: Result<u64, CalcError>)
    requires
        winner < 8,
        policy.wf(),
    ensures
        totals@[winner as int] == 0 ==> r == Err::<u64, CalcError>(CalcError::NoWinningStake),
        totals@[winner as int] > 0 && policy.payout(
            totals@,
            total_pool as int,
            winner as int,
            stake as int,
        ) > u64::MAX ==> r == Err::<u64, CalcError>(CalcError::Overflow),
        totals@[winner as int] > 0 && policy.payout(
            totals@,
            total_pool as int,
            winner as int,
            stake as int,
        ) <= u64::MAX ==> r == Ok::<u64, CalcError>(
            policy.payout(totals@, total_pool as int, winner as int, stake as int) as u64,
        ),
{
    match policy {
        PayoutPolicy::FullPoolSplit { fees } => {
            let split = fee_split(total_pool, fees);
            proportional_payout(stake, split.distributable, totals[winner as usize])
        },
        PayoutPolicy::LosingPoolSplit { payout_bps } => losing_pool_split(
            totals,
            winner,
            stake,
            *payout_bps,
        ),
    }
}

/// Whether a payout can be fixed at bet time: the product that forms the
/// ratio fits 128 bits and the payout fits 64.
pub open spec fn locked_quote_fits(amount: int, total_pot: int, outcome_total: int) -> bool {
    &&& outcome_total > 0 ==> amount * 90 * total_pot <= u128::MAX
    &&& locked_payout(amount, total_pot, outcome_total) <= u64::MAX
}

/// The payout fixed at bet time and the protocol fee that goes with it.
///
/// `total_pot` and `outcome_total` are the market's figures before the bet is
/// added. Fails with `Overflow` when the ratio cannot be formed in 128 bits or
/// the payout does not fit 64.
pub fn locked_quote(amount: u64, total_pot: u64, outcome_total: u64) -> (r: Result<
    (u64, u64),
    CalcError,
>)
    ensures
        !locked_quote_fits(amount as int, total_pot as int, outcome_total as int) ==> r == Err::<
            (u64, u64),
            CalcError,
        >(CalcError::Overflow),
        locked_quote_fits(amount as int, total_pot as int, outcome_total as int) ==> r == Ok::<
            (u64, u64),
            CalcError,
        >(
            (
                locked_payout(amount as int, total_pot as int, outcome_total as int) as u64,
                locked_fee(
                    locked_payout(amount as int, total_pot as int, outcome_total as int),
                ) as u64,
            ),
        ),
{
    let payout: u64 = if outcome_total > 0 {
        let percent: u128 = LOCKED_PAYOUT_PERCENT as u128;
        assert(percent == 90);
        let scaled: u128 = (amount as u128) * percent;
        match scaled.checked_mul(total_pot as u128) {
            None => {
                return Err(CalcError::Overflow);
            },
            Some(product) => {
                proof {
                    assert(scaled * total_pot == amount * 90 * total_pot);
                    lemma_floor_div(product as int, 100);
                    lemma_floor_div(product as int / 100, outcome_total as int);
                }
                let wide: u128 = product / 100 / (outcome_total as u128);
                if wide > u64::MAX as u128 {
                    return Err(CalcError::Overflow);
                }
                wide as u64
            },
        }
    } else {
        amount
    };
    let fee_percent: u128 = LOCKED_FEE_PERCENT as u128;
    assert(fee_percent == 11);
    let fee: u128 = (payout as u128) * fee_percent / 100;
    Ok((payout, fee as u64))
}

/// What a voluntary exit before resolution returns of `amount`: 90%, rounded
/// down.
pub fn early_exit_refund(amount: u64) -> (refund: u64)
    ensures
        refund == exit_refund(amount as int),
        refund <= amount,
{
    let percent: u128 = EARLY_EXIT_REFUND_PERCENT as u128;
    assert(percent == 90);
    let wide: u128 = (amount as u128) * percent / 100;
    wide as u64
}

/// The sum of the first `count` weights.
pub open spec fn weight_sum(weights: Seq<u32>, count: int) -> int
    decreases count,
{
    if count <= 0 {
        0
    } else {
        weight_sum(weights, count - 1) + weights[count - 1]
    }
}

/// The seeded total of outcome `i`: its weighted share of `liquidity` when
/// it is one of the first `count` outcomes, nothing otherwise.
pub open spec fn seeded_total(liquidity: int, weights: Seq<u32>, count: int, i: int) -> int {
    if 0 <= i < count {
        seed_share(liquidity, weights[i] as int, weight_sum(weights, count))
    } else {
        0
    }
}

/// A weight among the first `count` is at most their sum.
pub proof fn lemma_weight_within_sum(weights: Seq<u32>, count: int, i: int)
    requires
        0 <= i < count <= weights.len(),
    ensures
        0 <= weights[i] <= weight_sum(weights, count),
        0 <= weight_sum(weights, i) <= weight_sum(weights, count),
    decreases count,
{
    if i < count - 1 {
        lemma_weight_within_sum(weights, count - 1, i);
    } else {
        lemma_weight_sum_nonneg(weights, count - 1);
    }
}

/// A sum of weights is never negative.
pub proof fn lemma_weight_sum_nonneg(weights: Seq<u32>, count: int)
    ensures
        0 <= weight_sum(weights, count),
    decreases count,
{
    if count > 0 {
        lemma_weight_sum_nonneg(weights, count - 1);
    }
}

/// Spreads virtual `liquidity` over the first `count` outcomes in proportion
/// to their weights, rounding each share down. With all weights zero nothing
/// is seeded.
///
/// Fails with `Overflow` when the weights of the first `count` outcomes do
/// not add up within 32 bits.
pub fn seed_outcome_totals(liquidity: u64, weights: &[u32; 8], count: u8) -> (r: Result<
    [u64; 8],
    CalcError,
>)
    requires
        count <= 8,
    ensures
        weight_sum(weights@, count as int) > u32::MAX ==> r == Err::<[u64; 8], CalcError>(
            CalcError::Overflow,
        ),
        weight_sum(weights@, count as int) <= u32::MAX ==> r is Ok && forall|i: int|
            0 <= i < 8 ==> #[trigger] r->Ok_0@[i] == seeded_total(
                liquidity as int,
                weights@,
                count as int,
                i,
            ),
        r is Ok ==> pool_sum(r->Ok_0@) <= liquidity,
{
    let mut total_weight: u32 = 0;
    let mut i: usize = 0;
    while i < count as usize
        invariant
            i <= count <= 8,
            total_weight == weight_sum(weights@, i as int),
        decreases count - i,
    {
        match total_weight.checked_add(weights[i]) {
            None => {
                proof {
                    if (i as int) < count - 1 {
                        lemma_weight_within_sum(weights@, count as int, i as int + 1);
                    }
                }
                return Err(CalcError::Overflow);
            },
            Some(next) => {
                total_weight = next;
            },
        }
        i = i + 1;
    }
    let mut totals: [u64; 8] = [0u64;8];
    let mut k: usize = 0;
    while k < count as usize
        invariant
            k <= count <= 8,
            total_weight == weight_sum(weights@, count as int),
            forall|j: int|
                0 <= j < k ==> #[trigger] totals@[j] == seeded_total(
                    liquidity as int,
                    weights@,
                    count as int,
                    j,
                ),
            forall|j: int| k <= j < 8 ==> #[trigger] totals@[j] == 0,
        decreases count - k,
    {
        if total_weight > 0 {
            proof {
                lemma_weight_within_sum(weights@, count as int, k as int);
                assert(0 <= liquidity * weights@[k as int] <= liquidity * total_weight)
                    by (nonlinear_arith)
                    requires
                        0 <= liquidity,
                        0 <= weights@[k as int] <= total_weight,
                ;
                assert(liquidity * total_weight <= 0xffff_ffff_ffff_ffff * 0xffff_ffff)
                    by (nonlinear_arith)
                    requires
                        0 <= liquidity <= 0xffff_ffff_ffff_ffff,
                        0 <= total_weight <= 0xffff_ffff,
                ;
                lemma_floor_div(liquidity * weights@[k as int], total_weight as int);
                assert(liquidity * weights@[k as int] / (total_weight as int) <= liquidity)
                    by (nonlinear_arith)
                    requires
                        (liquidity * weights@[k as int] / (total_weight as int)) * total_weight
                            <= liquidity * total_weight,
                        0 < total_weight,
                ;
            }
            let share: u128 = (liquidity as u128) * (weights[k] as u128) / (total_weight as u128);
            totals[k] = share as u64;
        }
        k = k + 1;
    }
    proof {
        lemma_seeds_within_liquidity(liquidity as int, weights@, count as int, totals@);
    }
    Ok(totals)
}

/// The sum of the seeded totals of outcomes below `n`.
pub open spec fn seeded_sum(liquidity: int, weights: Seq<u32>, count: int, n: int) -> int
    decreases n,
{
    if n <= 0 {
        0
    } else {
        seeded_sum(liquidity, weights, count, n - 1) + seeded_total(liquidity, weights, count, n - 1)
    }
}

/// Seeded shares are rounded down, so the first `n` of them, scaled by the
/// total weight, never exceed the liquidity scaled by the weights they stand
/// for.
pub proof fn lemma_seeded_sum_bound(liquidity: int, weights: Seq<u32>, count: int, n: int)
    requires
        0 <= liquidity,
        0 <= n,
        0 <= count <= weights.len(),
        weight_sum(weights, count) > 0,
    ensures
        0 <= seeded_sum(liquidity, weights, count, n),
        seeded_sum(liquidity, weights, count, n) * weight_sum(weights, count) <= liquidity
            * weight_sum(weights, if n <= count { n } else { count }),
    decreases n,
{
    let total = weight_sum(weights, count);
    if n > 0 {
        lemma_seeded_sum_bound(liquidity, weights, count, n - 1);
        if n <= count {
            let w = weights[n - 1] as int;
            let share = seeded_total(liquidity, weights, count, n - 1);
            let before = seeded_sum(liquidity, weights, count, n - 1);
            assert(0 <= liquidity * w) by (nonlinear_arith)
                requires
                    0 <= liquidity,
                    0 <= w,
            ;
            lemma_floor_div(liquidity * w, total);
            assert((before + share) * total <= liquidity * (weight_sum(weights, n - 1) + w))
                by (nonlinear_arith)
                requires
                    before * total <= liquidity * weight_sum(weights, n - 1),
                    share * total <= liquidity * w,
            ;
        }
    } else {
        assert(liquidity * 0 == 0);
    }
}

/// The eight seeded outcome totals together never exceed the liquidity.
pub proof fn lemma_seeds_within_liquidity(
    liquidity: int,
    weights: Seq<u32>,
    count: int,
    totals: Seq<u64>,
)
    requires
        0 <= liquidity,
        0 <= count <= 8,
        weights.len() == 8,
        totals.len() == 8,
        forall|i: int|
            0 <= i < 8 ==> #[trigger] totals[i] == seeded_total(liquidity, weights, count, i),
    ensures
        pool_sum(totals) <= liquidity,
{
    let total = weight_sum(weights, count);
    assert(pool_sum(totals) == seeded_sum(liquidity, weights, count, 8)) by {
        reveal_with_fuel(seeded_sum, 9);
        assert(totals[0] == seeded_total(liquidity, weights, count, 0));
        assert(totals[1] == seeded_total(liquidity, weights, count, 1));
        assert(totals[2] == seeded_total(liquidity, weights, count, 2));
        assert(totals[3] == seeded_total(liquidity, weights, count, 3));
        assert(totals[4] == seeded_total(liquidity, weights, count, 4));
        assert(totals[5] == seeded_total(liquidity, weights, count, 5));
        assert(totals[6] == seeded_total(liquidity, weights, count, 6));
        assert(totals[7] == seeded_total(liquidity, weights, count, 7));
    }
    if total > 0 {
        lemma_seeded_sum_bound(liquidity, weights, count, 8);
        assert(pool_sum(totals) <= liquidity) by (nonlinear_arith)
            requires
                pool_sum(totals) * total <= liquidity * total,
                0 < total,
        ;
    } else {
        lemma_weight_sum_nonneg(weights, count);
    }
}

/// The sum of `stakes`.
pub open spec fn stake_sum(stakes: Seq<u64>) -> int
    decreases stakes.len(),
{
    if stakes.len() == 0 {
        0
    } else {
        stake_sum(stakes.drop_last()) + stakes.last()
    }
}

/// What `policy` pays to the holders of `stakes` on the winning outcome,
/// taken together.
pub open spec fn payout_sum(
    policy: PayoutPolicy,
    totals: Seq<u64>,
    total_pool: int,
    winner: int,
    stakes: Seq<u64>,
) -> int
    decreases stakes.len(),
{
    if stakes.len() == 0 {
        0
    } else {
        payout_sum(policy, totals, total_pool, winner, stakes.drop_last()) + policy.payout(
            totals,
            total_pool,
            winner,
            stakes.last() as int,
        )
    }
}

impl PayoutPolicy {
    /// What the policy sets aside for the winners as a whole: the pool net
    /// of fees, or the winning stakes themselves plus the winners' part of
    /// the losing pools.
    pub open spec fn budget(self, totals: Seq<u64>, total_pool: int, winner: int) -> int
        recommends
            totals.len() == 8,
            0 <= winner < 8,
    {
        match self {
            PayoutPolicy::FullPoolSplit { fees } => fees.split(total_pool).3,
            PayoutPolicy::LosingPoolSplit { payout_bps } => totals[winner] + bps_share(
                losing_total(totals, winner),
                payout_bps as int,
            ),
        }
    }

    /// What the policy takes out of the pool before the winners: the
    /// scheduled fees, or nothing.
    pub open spec fn fees_taken(self, total_pool: int) -> int {
        match self {
            PayoutPolicy::FullPoolSplit { fees } => fees.split(total_pool).0 + fees.split(
                total_pool,
            ).1 + fees.split(total_pool).2,
            PayoutPolicy::LosingPoolSplit { payout_bps } => 0,
        }
    }
}

/// The winnings that the losing-pool split adds to a stake, scaled by the
/// winning total, never exceed the stake's claim on the winners' pool.
proof fn lemma_losing_pool_winnings(winner_pool: int, stake: int, winning_total: int)
    requires
        0 <= winner_pool,
        0 <= stake,
        0 < winning_total,
    ensures
        0 <= bps_share(winner_pool, stake * 10_000 / winning_total),
        bps_share(winner_pool, stake * 10_000 / winning_total) * winning_total <= winner_pool
            * stake,
{
    let share = stake * 10_000 / winning_total;
    lemma_floor_div(stake * 10_000, winning_total);
    assert(0 <= winner_pool * share) by (nonlinear_arith)
        requires
            0 <= winner_pool,
            0 <= share,
    ;
    lemma_floor_div(winner_pool * share, 10_000);
    let winnings = bps_share(winner_pool, share);
    assert(winnings * winning_total <= winner_pool * stake) by (nonlinear_arith)
        requires
            winnings * 10_000 <= winner_pool * share,
            share * winning_total <= stake * 10_000,
            0 <= winner_pool,
            0 <= winnings,
            0 < winning_total,
    ;
}

/// Scaled by the winning total, what a policy pays on top of what it hands
/// back never exceeds the stakes' claim on what it sets aside for winnings.
proof fn lemma_payouts_scaled(
    policy: PayoutPolicy,
    totals: Seq<u64>,
    total_pool: int,
    winner: int,
    stakes: Seq<u64>,
)
    requires
        policy.wf(),
        totals.len() == 8,
        0 <= winner < 8,
        totals[winner] > 0,
        0 <= total_pool,
    ensures
        0 <= stake_sum(stakes),
        0 <= payout_sum(policy, totals, total_pool, winner, stakes),
        policy matches PayoutPolicy::FullPoolSplit { fees } ==> payout_sum(
            policy,
            totals,
            total_pool,
            winner,
            stakes,
        ) * totals[winner] <= fees.split(total_pool).3 * stake_sum(stakes),
        policy matches PayoutPolicy::LosingPoolSplit { payout_bps } ==> (payout_sum(
            policy,
            totals,
            total_pool,
            winner,
            stakes,
        ) - stake_sum(stakes)) * totals[winner] <= bps_share(
            losing_total(totals, winner),
            payout_bps as int,
        ) * stake_sum(stakes),
    decreases stakes.len(),
{
    if stakes.len() > 0 {
        let rest = stakes.drop_last();
        let stake = stakes.last() as int;
        let total = totals[winner] as int;
        lemma_payouts_scaled(policy, totals, total_pool, winner, rest);
        let paid_before = payout_sum(policy, totals, total_pool, winner, rest);
        let staked_before = stake_sum(rest);
        match policy {
            PayoutPolicy::FullPoolSplit { fees } => {
                let pool = fees.split(total_pool).3;
                lemma_fee_split_within_pool(fees, total_pool);
                assert(0 <= stake * pool) by (nonlinear_arith)
                    requires
                        0 <= stake,
                        0 <= pool,
                ;
                lemma_floor_div(stake * pool, total);
                let paid = pro_rata(stake, pool, total);
                assert((paid_before + paid) * total <= pool * (staked_before + stake))
                    by (nonlinear_arith)
                    requires
                        paid_before * total <= pool * staked_before,
                        paid * total <= stake * pool,
                ;
            },
            PayoutPolicy::LosingPoolSplit { payout_bps } => {
                let losing = losing_total(totals, winner);
                lemma_bps_share_bounds(losing, payout_bps as int);
                let winner_pool = bps_share(losing, payout_bps as int);
                lemma_losing_pool_winnings(winner_pool, stake, total);
                let winnings = bps_share(winner_pool, stake * 10_000 / total);
                assert((paid_before + stake + winnings - (staked_before + stake)) * total
                    <= winner_pool * (staked_before + stake)) by (nonlinear_arith)
                    requires
                        (paid_before - staked_before) * total <= winner_pool * staked_before,
                        winnings * total <= winner_pool * stake,
                ;
            },
        }
    } else {
        assert(0 * totals[winner] == 0);
    }
}

/// Solvency of a payout policy. When the stakes of the winners add up to no
/// more than the winning total, what the policy pays them in all stays within
/// what it sets aside for them, and that, together with the fees it takes,
/// stays within the pool. Rounding only ever leaves dust behind.
pub proof fn lemma_payouts_within_pool(
    policy: PayoutPolicy,
    totals: Seq<u64>,
    total_pool: int,
    winner: int,
    stakes: Seq<u64>,
)
    requires
        policy.wf(),
        totals.len() == 8,
        0 <= winner < 8,
        totals[winner] > 0,
        pool_sum(totals) == total_pool,
        stake_sum(stakes) <= totals[winner],
    ensures
        0 <= payout_sum(policy, totals, total_pool, winner, stakes) <= policy.budget(
            totals,
            total_pool,
            winner,
        ),
        0 <= policy.fees_taken(total_pool),
        policy.fees_taken(total_pool) + policy.budget(totals, total_pool, winner) <= total_pool,
{
    let total = totals[winner] as int;
    let staked = stake_sum(stakes);
    let paid = payout_sum(policy, totals, total_pool, winner, stakes);
    lemma_payouts_scaled(policy, totals, total_pool, winner, stakes);
    match policy {
        PayoutPolicy::FullPoolSplit { fees } => {
            let pool = fees.split(total_pool).3;
            lemma_fee_split_within_pool(fees, total_pool);
            assert(paid <= pool) by (nonlinear_arith)
                requires
                    paid * total <= pool * staked,
                    0 <= staked <= total,
                    0 < total,
                    0 <= pool,
            ;
        },
        PayoutPolicy::LosingPoolSplit { payout_bps } => {
            let losing = losing_total(totals, winner);
            lemma_bps_share_bounds(losing, payout_bps as int);
            let winner_pool = bps_share(losing, payout_bps as int);
            assert(paid - staked <= winner_pool) by (nonlinear_arith)
                requires
                    (paid - staked) * total <= winner_pool * staked,
                    0 <= staked <= total,
                    0 < total,
                    0 <= winner_pool,
            ;
        },
    }
}

impl PayoutPolicy {
    /// The fees the policy takes from `total_pool` before the winners: for
    /// the creator, for the developers, and to burn. The losing-pool split
    /// takes none; what it keeps from the winners stays in custody.
    pub open spec fn fees(self, total_pool: int) -> (int, int, int) {
        match self {
            PayoutPolicy::FullPoolSplit { fees } => (
                fees.split(total_pool).0,
                fees.split(total_pool).1,
                fees.split(total_pool).2,
            ),
            PayoutPolicy::LosingPoolSplit { payout_bps } => (0, 0, 0),
        }
    }

    /// Whether a winner gets the stake back before any winnings.
    pub open spec fn returns_stake(self) -> bool {
        self is LosingPoolSplit
    }

    /// The pool that the winners' winnings are shares of.
    pub open spec fn winnings_pool(self, totals: Seq<u64>, total_pool: int, winner: int) -> int
        recommends
            totals.len() == 8,
            0 <= winner < 8,
    {
        match self {
            PayoutPolicy::FullPoolSplit { fees } => fees.split(total_pool).3,
            PayoutPolicy::LosingPoolSplit { payout_bps } => bps_share(
                losing_total(totals, winner),
                payout_bps as int,
            ),
        }
    }

    /// What a payout holds beyond the stake that the policy hands back.
    pub open spec fn winnings(self, totals: Seq<u64>, total_pool: int, winner: int, stake: int) -> int
        recommends
            totals.len() == 8,
            0 <= winner < 8,
            totals[winner] > 0,
    {
        self.payout(totals, total_pool, winner, stake) - if self.returns_stake() {
            stake
        } else {
            0
        }
    }
}

/// The winnings of one stake, scaled by the winning total, never exceed the
/// stake's claim on the winnings pool.
pub proof fn lemma_winnings_scaled(
    policy: PayoutPolicy,
    totals: Seq<u64>,
    total_pool: int,
    winner: int,
    stake: int,
)
    requires
        policy.wf(),
        totals.len() == 8,
        0 <= winner < 8,
        totals[winner] > 0,
        0 <= total_pool,
        0 <= stake,
    ensures
        0 <= policy.winnings_pool(totals, total_pool, winner),
        0 <= policy.winnings(totals, total_pool, winner, stake),
        policy.winnings(totals, total_pool, winner, stake) * totals[winner]
            <= policy.winnings_pool(totals, total_pool, winner) * stake,
{
    let total = totals[winner] as int;
    match policy {
        PayoutPolicy::FullPoolSplit { fees } => {
            let pool = fees.split(total_pool).3;
            lemma_fee_split_within_pool(fees, total_pool);
            assert(0 <= stake * pool) by (nonlinear_arith)
                requires
                    0 <= stake,
                    0 <= pool,
            ;
            lemma_floor_div(stake * pool, total);
            assert(pool * stake == stake * pool) by (nonlinear_arith);
        },
        PayoutPolicy::LosingPoolSplit { payout_bps } => {
            let losing = losing_total(totals, winner);
            lemma_bps_share_bounds(losing, payout_bps as int);
            lemma_losing_pool_winnings(bps_share(losing, payout_bps as int), stake, total);
        },
    }
}

/// The fees a policy takes and what it sets aside for the winners stay
/// within the pool.
pub proof fn lemma_budget_within_pool(
    policy: PayoutPolicy,
    totals: Seq<u64>,
    total_pool: int,
    winner: int,
)
    requires
        policy.wf(),
        totals.len() == 8,
        0 <= winner < 8,
        pool_sum(totals) == total_pool,
    ensures
        0 <= policy.fees(total_pool).0 <= total_pool,
        0 <= policy.fees(total_pool).1 <= total_pool,
        0 <= policy.fees(total_pool).2 <= total_pool,
        policy.fees_taken(total_pool) == policy.fees(total_pool).0 + policy.fees(total_pool).1
            + policy.fees(total_pool).2,
        policy.budget(totals, total_pool, winner) == policy.winnings_pool(
            totals,
            total_pool,
            winner,
        ) + if policy.returns_stake() {
            totals[winner] as int
        } else {
            0
        },
        0 <= policy.winnings_pool(totals, total_pool, winner),
        policy.fees_taken(total_pool) + policy.budget(totals, total_pool, winner) <= total_pool,
{
    match policy {
        PayoutPolicy::FullPoolSplit { fees } => {
            lemma_fee_split_within_pool(fees, total_pool);
        },
        PayoutPolicy::LosingPoolSplit { payout_bps } => {
            lemma_bps_share_bounds(losing_total(totals, winner), payout_bps as int);
        },
    }
}

/// The fees that `policy` takes from `total_pool`: for the creator, for the
/// developers, and to burn.
pub fn policy_fees(policy: &PayoutPolicy, total_pool: u64) -> (fees: (u64, u64, u64))
    requires
        policy.wf(),
    ensures
        (fees.0 as int, fees.1 as int, fees.2 as int) == policy.fees(total_pool as int),
        fees.0 + fees.1 + fees.2 <= total_pool,
{
    match policy {
        PayoutPolicy::FullPoolSplit { fees } => {
            let split = fee_split(total_pool, fees);
            (split.creator_fee, split.dev_fee, split.burn_amount)
        },
        PayoutPolicy::LosingPoolSplit { payout_bps } => (0, 0, 0),
    }
}

/// Whether the policy's parameters are in range.
pub fn policy_is_valid(policy: &PayoutPolicy) -> (ok: bool)
    ensures
        ok == policy.wf(),
{
    match policy {
        PayoutPolicy::FullPoolSplit { fees } => fees.is_valid(),
        PayoutPolicy::LosingPoolSplit { payout_bps } => *payout_bps <= 10_000,
    }
}

} // verus!
