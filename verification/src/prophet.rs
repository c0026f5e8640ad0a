//! The per-market-vault engine.
//!
//! Each market keeps its stakes in a vault of its own and carries the payout
//! policy that was chosen when it was created. Winners are paid at claim
//! time: once the market is resolved the fees of the policy are taken, and
//! every winning stake receives what the policy gives it. A cancelled market
//! refunds every stake in full; before resolution a bettor may leave early
//! against a penalty. After a cooldown the authority may sweep what the vault
//! holds beyond what is still owed.
//!
//! A handler changes the records it is given and returns what the caller has
//! to move between custody accounts. It either succeeds as a whole or returns
//! an error and leaves every record as it was.

use vstd::prelude::*;
use crate::calc::{
    early_exit_refund, exit_refund, policy_fees, policy_is_valid, pool_sum, winner_payout,
    FeeSchedule, PayoutPolicy,
};
use crate::errors::MarketError;
use crate::identity::Identity;

verus! {

/// Seconds that must pass after a market's end before its vault is swept.
pub const SWEEP_COOLDOWN_SECONDS: i64 = 2_592_000;

/// The protocol-wide settings: who administers them, where fees go, which
/// asset is staked, and the fee schedule of the standard payout policy.
#[derive(Clone, Copy, Debug, PartialEq, Eq)]
pub struct GlobalConfig {
    pub authority: Identity,
    pub dev_vault: Identity,
    pub polybet_token_mint: Identity,
    pub burn_fee_bps: u16,
    pub dev_fee_bps: u16,
    pub creator_fee_bps: u16,
    pub bump: u8,
}

/// One market: its description, per-outcome stakes, settlement flags and
/// payout policy.
#[derive(Clone, Debug, PartialEq, Eq)]
pub struct Market {
    pub authority: Identity,
    pub market_id: u64,
    pub end_time: i64,
    pub question: String,
    pub resolved: bool,
    pub winning_outcome: Option<u8>,
    pub totals: [u64; 8],
    pub outcome_count: u8,
    pub total_liquidity: u64,
    pub fees_distributed: bool,
    pub paused: bool,
    pub cancelled: bool,
    pub outcome_names: [String; 8],
    pub oracle_key: Option<Identity>,
    pub min_bet: u64,
    pub max_bet: u64,
    pub metadata_url: String,
    pub polymarket_id: String,
    pub bump: u8,
    /// How winners are paid, chosen when the market is created.
    pub policy: PayoutPolicy,
}

/// What one user has staked in one market.
#[derive(Clone, Copy, Debug, PartialEq, Eq)]
pub struct VoteRecord {
    pub user: Identity,
    pub market: Identity,
    pub outcome_index: u8,
    pub amount: u64,
    pub claimed: bool,
}

/// The two sides of a yes/no market, as outcome names.
#[derive(Clone, Copy, Debug, PartialEq, Eq, Structural)]
pub enum VoteSide {
    Yes,
    No,
}

/// Where a market stands in its life. Pausing is a separate switch.
#[derive(Clone, Copy, Debug, PartialEq, Eq, Structural)]
pub enum Lifecycle {
    /// Bets are taken until the end time.
    Open,
    /// A winning outcome is set; fees are still to be taken.
    Resolved,
    /// The market was called off; every stake is refunded.
    Cancelled,
    /// Fees were taken; winners are being paid.
    FeesDistributed,
}

/// A stake was taken: `amount` moves from the user into the market's vault.
#[derive(Clone, Copy, Debug, PartialEq, Eq)]
pub struct VotePlacedEvent {
    pub user: Identity,
    pub market: Identity,
    pub outcome_index: u8,
    pub amount: u64,
}

/// A market was resolved.
#[derive(Clone, Copy, Debug, PartialEq, Eq)]
pub struct MarketResolvedEvent {
    pub market: Identity,
    pub winning_outcome: u8,
}

/// Fees were taken: `creator_fee` moves from the vault to the creator,
/// `burn_amount` is burnt from the vault, `dev_fee` moves to the developers.
#[derive(Clone, Copy, Debug, PartialEq, Eq)]
pub struct FeesDistributedEvent {
    pub market: Identity,
    pub creator_fee: u64,
    pub burn_amount: u64,
    pub dev_fee: u64,
}

/// What a successful claim asks the caller to move.
#[derive(Clone, Copy, Debug, PartialEq, Eq)]
pub struct ClaimReceipt {
    /// Set when this claim was the first step after resolution and took the
    /// fees itself; the fee transfers come before the payout.
    pub fees: Option<FeesDistributedEvent>,
    /// What moves from the vault to the user.
    pub payout: u64,
    /// Whether the payout is the refund of a cancelled market.
    pub refund: bool,
}

impl GlobalConfig {
    /// The fee schedule held in the settings.
    pub open spec fn fees(self) -> FeeSchedule {
        FeeSchedule {
            creator_fee_bps: self.creator_fee_bps,
            dev_fee_bps: self.dev_fee_bps,
            burn_fee_bps: self.burn_fee_bps,
        }
    }

    /// The fees together take no more than the whole pool.
    pub open spec fn wf(self) -> bool {
        self.fees().wf()
    }

    /// The settings after an update in which every absent argument keeps
    /// what is there.
    pub open spec fn updated(
        self,
        dev_vault: Option<Identity>,
        polybet_token_mint: Option<Identity>,
        burn_fee_bps: Option<u16>,
        dev_fee_bps: Option<u16>,
        creator_fee_bps: Option<u16>,
    ) -> GlobalConfig {
        GlobalConfig {
            authority: self.authority,
            dev_vault: if let Some(v) = dev_vault { v } else { self.dev_vault },
            polybet_token_mint: if let Some(v) = polybet_token_mint {
                v
            } else {
                self.polybet_token_mint
            },
            burn_fee_bps: if let Some(v) = burn_fee_bps { v } else { self.burn_fee_bps },
            dev_fee_bps: if let Some(v) = dev_fee_bps { v } else { self.dev_fee_bps },
            creator_fee_bps: if let Some(v) = creator_fee_bps {
                v
            } else {
                self.creator_fee_bps
            },
            bump: self.bump,
        }
    }

    /// The fee schedule held in the settings.
    pub fn fee_schedule(&self) -> (fees: FeeSchedule)
        ensures
            fees == self.fees(),
    {
        FeeSchedule {
            creator_fee_bps: self.creator_fee_bps,
            dev_fee_bps: self.dev_fee_bps,
            burn_fee_bps: self.burn_fee_bps,
        }
    }

    /// Whether the fees together take no more than the whole pool.
    pub fn is_valid(&self) -> (ok: bool)
        ensures
            ok == self.wf(),
    {
        self.fee_schedule().is_valid()
    }

    /// The protocol's standard payout policy: the whole pool, net of the
    /// fee schedule that the settings hold right now. A market keeps the
    /// policy it was created with; a later change of the settings reaches new
    /// markets only.
    pub fn payout_policy(&self) -> (policy: PayoutPolicy)
        ensures
            policy == (PayoutPolicy::FullPoolSplit { fees: self.fees() }),
    {
        PayoutPolicy::FullPoolSplit { fees: self.fee_schedule() }
    }
}

/// Creates the protocol settings with the standard schedule: 3% burn, 2%
/// developer fee, 5% creator fee.
pub fn initialize_config(
    authority: Identity,
    dev_vault: Identity,
    polybet_token_mint: Identity,
    bump: u8,
) -> (config: GlobalConfig)
    ensures
        config == (GlobalConfig {
            authority,
            dev_vault,
            polybet_token_mint,
            burn_fee_bps: 300,
            dev_fee_bps: 200,
            creator_fee_bps: 500,
            bump,
        }),
        config.wf(),
{
    GlobalConfig {
        authority,
        dev_vault,
        polybet_token_mint,
        burn_fee_bps: 300,
        dev_fee_bps: 200,
        creator_fee_bps: 500,
        bump,
    }
}

/// Changes the protocol settings; an absent argument keeps what is there.
///
/// Only the authority may do this, and the fees must still take no more than
/// the whole pool afterwards.
pub fn update_config(
    config: &mut GlobalConfig,
    signer: &Identity,
    dev_vault: Option<Identity>,
    polybet_token_mint: Option<Identity>,
    burn_fee_bps: Option<u16>,
    dev_fee_bps: Option<u16>,
    creator_fee_bps: Option<u16>,
) -> (r: Result<(), MarketError>)
    ensures
        *signer != old(config).authority ==> r == Err::<(), MarketError>(
            MarketError::Unauthorized,
        ),
        *signer == old(config).authority && !old(config).updated(
            dev_vault,
            polybet_token_mint,
            burn_fee_bps,
            dev_fee_bps,
            creator_fee_bps,
        ).wf() ==> r == Err::<(), MarketError>(MarketError::InvalidFeeSchedule),
        *signer == old(config).authority && old(config).updated(
            dev_vault,
            polybet_token_mint,
            burn_fee_bps,
            dev_fee_bps,
            creator_fee_bps,
        ).wf() ==> r is Ok,
        r is Ok ==> *final(config) == old(config).updated(
            dev_vault,
            polybet_token_mint,
            burn_fee_bps,
            dev_fee_bps,
            creator_fee_bps,
        ),
        r is Err ==> *final(config) == *old(config),
{
    if !signer.same(&config.authority) {
        return Err(MarketError::Unauthorized);
    }
    let next = GlobalConfig {
        authority: config.authority,
        dev_vault: match dev_vault {
            Some(v) => v,
            None => config.dev_vault,
        },
        polybet_token_mint: match polybet_token_mint {
            Some(v) => v,
            None => config.polybet_token_mint,
        },
        burn_fee_bps: match burn_fee_bps {
            Some(v) => v,
            None => config.burn_fee_bps,
        },
        dev_fee_bps: match dev_fee_bps {
            Some(v) => v,
            None => config.dev_fee_bps,
        },
        creator_fee_bps: match creator_fee_bps {
            Some(v) => v,
            None => config.creator_fee_bps,
        },
        bump: config.bump,
    };
    if !next.is_valid() {
        return Err(MarketError::InvalidFeeSchedule);
    }
    *config = next;
    Ok(())
}

impl Market {
    /// The market's invariant: a plausible outcome count, a payout policy in
    /// range, a pool that is the sum of what is staked per outcome, nothing
    /// staked on outcomes the market does not have, and settlement flags that
    /// fit together.
    pub open spec fn wf(self) -> bool {
        &&& 1 <= self.outcome_count <= 8
        &&& self.policy.wf()
        &&& pool_sum(self.totals@) == self.total_liquidity
        &&& forall|i: int| self.outcome_count <= i < 8 ==> self.totals@[i] == 0
        &&& self.cancelled ==> self.resolved && self.winning_outcome is None
        &&& !self.cancelled ==> (self.resolved <==> self.winning_outcome is Some)
        &&& self.fees_distributed ==> self.resolved && !self.cancelled
        &&& self.winning_outcome matches Some(w) ==> w < self.outcome_count
    }

    /// Where the market stands in its life.
    pub open spec fn lifecycle(self) -> Lifecycle {
        if self.cancelled {
            Lifecycle::Cancelled
        } else if self.fees_distributed {
            Lifecycle::FeesDistributed
        } else if self.resolved {
            Lifecycle::Resolved
        } else {
            Lifecycle::Open
        }
    }

    /// Where the market stands in its life.
    pub fn phase(&self) -> (phase: Lifecycle)
        ensures
            phase == self.lifecycle(),
    {
        if self.cancelled {
            Lifecycle::Cancelled
        } else if self.fees_distributed {
            Lifecycle::FeesDistributed
        } else if self.resolved {
            Lifecycle::Resolved
        } else {
            Lifecycle::Open
        }
    }

    /// Whether the market's invariant holds, for records that come from
    /// storage.
    pub fn is_valid(&self) -> (ok: bool)
        ensures
            ok == self.wf(),
    {
        if self.outcome_count < 1 || self.outcome_count > 8 {
            return false;
        }
        if !policy_is_valid(&self.policy) {
            return false;
        }
        let sum: u128 = self.totals[0] as u128 + self.totals[1] as u128 + self.totals[2] as u128
            + self.totals[3] as u128 + self.totals[4] as u128 + self.totals[5] as u128
            + self.totals[6] as u128 + self.totals[7] as u128;
        if sum != self.total_liquidity as u128 {
            return false;
        }
        let mut i: usize = self.outcome_count as usize;
        while i < 8
            invariant
                self.outcome_count <= i <= 8,
                forall|j: int| self.outcome_count <= j < i ==> self.totals@[j] == 0,
            decreases 8 - i,
        {
            if self.totals[i] != 0 {
                return false;
            }
            i = i + 1;
        }
        let flags_fit: bool = if self.cancelled {
            self.resolved && self.winning_outcome.is_none() && !self.fees_distributed
        } else {
            self.resolved == self.winning_outcome.is_some() && (!self.fees_distributed
                || self.resolved)
        };
        let winner_fits: bool = match self.winning_outcome {
            Some(w) => w < self.outcome_count,
            None => true,
        };
        flags_fit && winner_fits
    }
}

/// Creates a market with `outcome_count` outcomes, empty pools and the
/// payout policy that settles it.
///
/// The count must lie between 1 and 8, `mint` must be the asset that the
/// protocol settings name, and the policy's parameters must be in range.
pub fn initialize_market(
    authority: Identity,
    config: &GlobalConfig,
    mint: &Identity,
    market_id: u64,
    end_time: i64,
    question: String,
    outcome_count: u8,
    outcome_names: [String; 8],
    oracle_key: Option<Identity>,
    min_bet: u64,
    max_bet: u64,
    metadata_url: String,
    polymarket_id: String,
    policy: PayoutPolicy,
    bump: u8,
) -> (r: Result<Market, MarketError>)
    ensures
        !(1 <= outcome_count <= 8) ==> r == Err::<Market, MarketError>(
            MarketError::InvalidOutcomeCount,
        ),
        1 <= outcome_count <= 8 && *mint != config.polybet_token_mint ==> r == Err::<
            Market,
            MarketError,
        >(MarketError::InvalidMint),
        1 <= outcome_count <= 8 && *mint == config.polybet_token_mint && !policy.wf() ==> r
            == Err::<Market, MarketError>(MarketError::InvalidFeeSchedule),
        1 <= outcome_count <= 8 && *mint == config.polybet_token_mint && policy.wf() ==> r is Ok,
        r matches Ok(m) ==> {
            &&& m.wf()
            &&& m.lifecycle() == Lifecycle::Open
            &&& m.authority == authority
            &&& m.market_id == market_id
            &&& m.end_time == end_time
            &&& m.question == question
            &&& !m.resolved
            &&& m.winning_outcome is None
            &&& forall|i: int| 0 <= i < 8 ==> m.totals@[i] == 0
            &&& m.outcome_count == outcome_count
            &&& m.total_liquidity == 0
            &&& !m.fees_distributed
            &&& !m.paused
            &&& !m.cancelled
            &&& m.outcome_names == outcome_names
            &&& m.oracle_key == oracle_key
            &&& m.min_bet == min_bet
            &&& m.max_bet == max_bet
            &&& m.metadata_url == metadata_url
            &&& m.polymarket_id == polymarket_id
            &&& m.bump == bump
            &&& m.policy == policy
        },
{
    if !(outcome_count > 0 && outcome_count <= 8) {
        return Err(MarketError::InvalidOutcomeCount);
    }
    if !mint.same(&config.polybet_token_mint) {
        return Err(MarketError::InvalidMint);
    }
    if !policy_is_valid(&policy) {
        return Err(MarketError::InvalidFeeSchedule);
    }
    Ok(
        Market {
            authority,
            market_id,
            end_time,
            question,
            resolved: false,
            winning_outcome: None,
            totals: [0u64;8],
            outcome_count,
            total_liquidity: 0,
            fees_distributed: false,
            paused: false,
            cancelled: false,
            outcome_names,
            oracle_key,
            min_bet,
            max_bet,
            metadata_url,
            polymarket_id,
            bump,
            policy,
        },
    )
}

impl VoteRecord {
    /// A record that holds no stake and was never settled: what a user has
    /// before the first bet.
    pub open spec fn is_vacant(self) -> bool {
        self.amount == 0 && !self.claimed
    }

    /// Whether the record is that of `user` in `market`.
    pub open spec fn belongs_to(self, user: Identity, market: Identity) -> bool {
        self.user == user && self.market == market
    }

    /// The record after a bet of `amount` on `outcome_index` by `user` in
    /// `market`: the stake grows, the rest is set anew.
    pub open spec fn topped_up(
        self,
        user: Identity,
        market: Identity,
        outcome_index: u8,
        amount: u64,
    ) -> VoteRecord {
        VoteRecord {
            user,
            market,
            outcome_index,
            amount: (self.amount + amount) as u64,
            claimed: false,
        }
    }

    /// The record after an early exit: emptied and settled.
    pub open spec fn exited(self) -> VoteRecord {
        VoteRecord { amount: 0, claimed: true, ..self }
    }

    /// The record after a claim: settled, the stake left as a trace.
    pub open spec fn settled(self) -> VoteRecord {
        VoteRecord { claimed: true, ..self }
    }

    /// A record without stake, as a user has it before the first bet.
    pub fn vacant(user: Identity, market: Identity) -> (vote: VoteRecord)
        ensures
            vote == (VoteRecord { user, market, outcome_index: 0, amount: 0, claimed: false }),
            vote.is_vacant(),
            vote.belongs_to(user, market),
    {
        VoteRecord { user, market, outcome_index: 0, amount: 0, claimed: false }
    }

    /// Whether the record is that of `user` in `market`.
    pub fn is_owned_by(&self, user: &Identity, market: &Identity) -> (ok: bool)
        ensures
            ok == self.belongs_to(*user, *market),
    {
        self.user.same(user) && self.market.same(market)
    }
}

impl Market {
    /// The market with `amount` more staked on `outcome_index`.
    pub open spec fn with_stake(self, outcome_index: u8, amount: u64) -> Market {
        Market {
            totals: vstd::array::spec_array_update(
                self.totals,
                outcome_index as int,
                (self.totals@[outcome_index as int] + amount) as u64,
            ),
            total_liquidity: (self.total_liquidity + amount) as u64,
            ..self
        }
    }

    /// The market with `amount` less staked on `outcome_index`, as if the
    /// bet had never been placed.
    pub open spec fn without_stake(self, outcome_index: u8, amount: u64) -> Market {
        Market {
            totals: vstd::array::spec_array_update(
                self.totals,
                outcome_index as int,
                (self.totals@[outcome_index as int] - amount) as u64,
            ),
            total_liquidity: (self.total_liquidity - amount) as u64,
            ..self
        }
    }

    /// The market once it is resolved to `outcome_index`.
    pub open spec fn resolved_to(self, outcome_index: u8) -> Market {
        Market { resolved: true, winning_outcome: Some(outcome_index), ..self }
    }

    /// The market once it is called off.
    pub open spec fn called_off(self) -> Market {
        Market { cancelled: true, resolved: true, ..self }
    }

    /// The market with its pause switch set to `pause`.
    pub open spec fn with_pause(self, pause: bool) -> Market {
        Market { paused: pause, ..self }
    }

    /// The market once its fees are taken.
    pub open spec fn with_fees_taken(self) -> Market {
        Market { fees_distributed: true, ..self }
    }

    /// The market after a claim: unless it was called off, its fees are
    /// taken by now.
    pub open spec fn after_claim(self) -> Market {
        Market { fees_distributed: !self.cancelled, ..self }
    }

    /// The fees that the market's policy takes from its pool.
    pub open spec fn fees_due(self, market_key: Identity) -> FeesDistributedEvent {
        let fees = self.policy.fees(self.total_liquidity as int);
        FeesDistributedEvent {
            market: market_key,
            creator_fee: fees.0 as u64,
            burn_amount: fees.2 as u64,
            dev_fee: fees.1 as u64,
        }
    }

    /// What the holder of a winning `stake` is paid from this market under
    /// its policy.
    pub open spec fn winner_share(self, winner: u8, stake: u64) -> int {
        self.policy.payout(
            self.totals@,
            self.total_liquidity as int,
            winner as int,
            stake as int,
        )
    }

    /// The fees that a resolved market has still to pay out.
    pub open spec fn pending_fees(self) -> int {
        if self.resolved && !self.cancelled && !self.fees_distributed {
            self.policy.fees_taken(self.total_liquidity as int)
        } else {
            0
        }
    }
}

/// Why a bet is refused, if it is. The checks come in this order; the first
/// that fails decides.
pub open spec fn place_vote_failure(
    market: Market,
    vote: VoteRecord,
    user: Identity,
    market_key: Identity,
    now: i64,
    amount: u64,
    outcome_index: u8,
) -> Option<MarketError> {
    if market.paused {
        Some(MarketError::MarketPaused)
    } else if market.resolved {
        Some(MarketError::AlreadyResolved)
    } else if now >= market.end_time {
        Some(MarketError::MarketClosed)
    } else if outcome_index >= market.outcome_count {
        Some(MarketError::InvalidOutcomeIndex)
    } else if amount < market.min_bet {
        Some(MarketError::BetTooSmall)
    } else if market.max_bet > 0 && amount > market.max_bet {
        Some(MarketError::BetTooLarge)
    } else if vote.claimed {
        Some(MarketError::AlreadyClaimed)
    } else if vote.amount > 0 && !vote.belongs_to(user, market_key) {
        Some(MarketError::Unauthorized)
    } else if vote.amount > 0 && vote.outcome_index != outcome_index {
        Some(MarketError::MultipleOutcomesNotSupported)
    } else if market.total_liquidity + amount > u64::MAX || vote.amount + amount > u64::MAX {
        Some(MarketError::MathOverflow)
    } else {
        None
    }
}

/// Takes a bet of `amount` on `outcome_index`, or a top-up of an earlier bet
/// on the same outcome.
///
/// `vote_record` is the user's record in this market, vacant before the
/// first bet. On success the stake is added to the outcome's total, to the
/// pool and to the record, and the caller moves `amount` from the user into
/// the vault.
pub fn place_vote(
    market: &mut Market,
    vote_record: &mut VoteRecord,
    user: Identity,
    market_key: Identity,
    now: i64,
    amount: u64,
    outcome_index: u8,
) -> (r: Result<VotePlacedEvent, MarketError>)
    requires
        old(market).wf(),
    ensures
        place_vote_failure(
            *old(market),
            *old(vote_record),
            user,
            market_key,
            now,
            amount,
            outcome_index,
        ) matches Some(e) ==> r == Err::<VotePlacedEvent, MarketError>(e),
        place_vote_failure(
            *old(market),
            *old(vote_record),
            user,
            market_key,
            now,
            amount,
            outcome_index,
        ) is None ==> r == Ok::<VotePlacedEvent, MarketError>(
            (VotePlacedEvent { user, market: market_key, outcome_index, amount }),
        ),
        r is Ok ==> *final(market) == old(market).with_stake(outcome_index, amount),
        r is Ok ==> *final(vote_record) == old(vote_record).topped_up(
            user,
            market_key,
            outcome_index,
            amount,
        ),
        r is Err ==> *final(market) == *old(market) && *final(vote_record) == *old(vote_record),
        final(market).wf(),
{
    if market.paused {
        return Err(MarketError::MarketPaused);
    }
    if market.resolved {
        return Err(MarketError::AlreadyResolved);
    }
    if now >= market.end_time {
        return Err(MarketError::MarketClosed);
    }
    if outcome_index >= market.outcome_count {
        return Err(MarketError::InvalidOutcomeIndex);
    }
    if amount < market.min_bet {
        return Err(MarketError::BetTooSmall);
    }
    if market.max_bet > 0 && amount > market.max_bet {
        return Err(MarketError::BetTooLarge);
    }
    if vote_record.claimed {
        return Err(MarketError::AlreadyClaimed);
    }
    if vote_record.amount > 0 && !vote_record.is_owned_by(&user, &market_key) {
        return Err(MarketError::Unauthorized);
    }
    if vote_record.amount > 0 && vote_record.outcome_index != outcome_index {
        return Err(MarketError::MultipleOutcomesNotSupported);
    }
    let pool: u64 = match market.total_liquidity.checked_add(amount) {
        Some(v) => v,
        None => {
            return Err(MarketError::MathOverflow);
        },
    };
    let staked: u64 = match vote_record.amount.checked_add(amount) {
        Some(v) => v,
        None => {
            return Err(MarketError::MathOverflow);
        },
    };
    let mut totals: [u64; 8] = market.totals;
    totals[outcome_index as usize] = totals[outcome_index as usize] + amount;
    market.totals = totals;
    market.total_liquidity = pool;
    *vote_record = VoteRecord {
        user,
        market: market_key,
        outcome_index,
        amount: staked,
        claimed: false,
    };
    Ok(VotePlacedEvent { user, market: market_key, outcome_index, amount })
}

/// Why the authority's resolution is refused, if it is.
pub open spec fn resolve_failure(market: Market, signer: Identity, outcome_index: u8) -> Option<
    MarketError,
> {
    if signer != market.authority {
        Some(MarketError::Unauthorized)
    } else if market.resolved {
        Some(MarketError::AlreadyResolved)
    } else if outcome_index >= market.outcome_count {
        Some(MarketError::InvalidOutcomeIndex)
    } else {
        None
    }
}

/// Resolves the market to `outcome_index` on the word of its authority. A
/// paused market can be resolved.
///
/// A market is resolved once: on a resolved or cancelled market this fails
/// and leaves the winning outcome as it is.
pub fn resolve_market(
    market: &mut Market,
    market_key: Identity,
    signer: &Identity,
    outcome_index: u8,
) -> (r: Result<MarketResolvedEvent, MarketError>)
    requires
        old(market).wf(),
    ensures
        resolve_failure(*old(market), *signer, outcome_index) matches Some(e) ==> r == Err::<
            MarketResolvedEvent,
            MarketError,
        >(e),
        resolve_failure(*old(market), *signer, outcome_index) is None ==> r == Ok::<
            MarketResolvedEvent,
            MarketError,
        >((MarketResolvedEvent { market: market_key, winning_outcome: outcome_index })),
        r is Ok ==> *final(market) == old(market).resolved_to(outcome_index),
        r is Err ==> *final(market) == *old(market),
        old(market).resolved ==> r is Err && final(market).winning_outcome == old(
            market,
        ).winning_outcome,
        final(market).wf(),
{
    if !signer.same(&market.authority) {
        return Err(MarketError::Unauthorized);
    }
    if market.resolved {
        return Err(MarketError::AlreadyResolved);
    }
    if outcome_index >= market.outcome_count {
        return Err(MarketError::InvalidOutcomeIndex);
    }
    market.resolved = true;
    market.winning_outcome = Some(outcome_index);
    Ok(MarketResolvedEvent { market: market_key, winning_outcome: outcome_index })
}

/// Why the oracle's resolution is refused, if it is.
pub open spec fn oracle_resolve_failure(market: Market, oracle: Identity, outcome_index: u8) -> Option<
    MarketError,
> {
    if market.oracle_key != Some(oracle) {
        Some(MarketError::Unauthorized)
    } else if market.resolved {
        Some(MarketError::AlreadyResolved)
    } else if outcome_index >= market.outcome_count {
        Some(MarketError::InvalidOutcomeIndex)
    } else {
        None
    }
}

/// Resolves the market to `outcome_index` on the word of its oracle. A
/// paused market can be resolved this way.
///
/// A market is resolved once: on a resolved or cancelled market this fails
/// and leaves the winning outcome as it is.
pub fn resolve_via_oracle(
    market: &mut Market,
    market_key: Identity,
    oracle: &Identity,
    outcome_index: u8,
) -> (r: Result<MarketResolvedEvent, MarketError>)
    requires
        old(market).wf(),
    ensures
        oracle_resolve_failure(*old(market), *oracle, outcome_index) matches Some(e) ==> r
            == Err::<MarketResolvedEvent, MarketError>(e),
        oracle_resolve_failure(*old(market), *oracle, outcome_index) is None ==> r == Ok::<
            MarketResolvedEvent,
            MarketError,
        >((MarketResolvedEvent { market: market_key, winning_outcome: outcome_index })),
        r is Ok ==> *final(market) == old(market).resolved_to(outcome_index),
        r is Err ==> *final(market) == *old(market),
        old(market).resolved ==> r is Err && final(market).winning_outcome == old(
            market,
        ).winning_outcome,
        final(market).wf(),
{
    let is_oracle: bool = match &market.oracle_key {
        Some(key) => key.same(oracle),
        None => false,
    };
    if !is_oracle {
        return Err(MarketError::Unauthorized);
    }
    if market.resolved {
        return Err(MarketError::AlreadyResolved);
    }
    if outcome_index >= market.outcome_count {
        return Err(MarketError::InvalidOutcomeIndex);
    }
    market.resolved = true;
    market.winning_outcome = Some(outcome_index);
    Ok(MarketResolvedEvent { market: market_key, winning_outcome: outcome_index })
}

/// Pauses or unpauses the market. Only its authority may do this.
pub fn pause_market(market: &mut Market, signer: &Identity, pause: bool) -> (r: Result<
    (),
    MarketError,
>)
    requires
        old(market).wf(),
    ensures
        *signer != old(market).authority ==> r == Err::<(), MarketError>(
            MarketError::Unauthorized,
        ),
        *signer == old(market).authority ==> r is Ok,
        r is Ok ==> *final(market) == old(market).with_pause(pause),
        r is Err ==> *final(market) == *old(market),
        final(market).wf(),
{
    if !signer.same(&market.authority) {
        return Err(MarketError::Unauthorized);
    }
    market.paused = pause;
    Ok(())
}

/// Calls the market off, which opens the refund of every stake. Only the
/// authority may do this, and only before the market is resolved.
pub fn cancel_market(market: &mut Market, signer: &Identity) -> (r: Result<(), MarketError>)
    requires
        old(market).wf(),
    ensures
        *signer != old(market).authority ==> r == Err::<(), MarketError>(
            MarketError::Unauthorized,
        ),
        *signer == old(market).authority && old(market).resolved ==> r == Err::<
            (),
            MarketError,
        >(MarketError::AlreadyResolved),
        *signer == old(market).authority && !old(market).resolved ==> r is Ok,
        r is Ok ==> *final(market) == old(market).called_off(),
        r is Err ==> *final(market) == *old(market),
        final(market).wf(),
{
    if !signer.same(&market.authority) {
        return Err(MarketError::Unauthorized);
    }
    if market.resolved {
        return Err(MarketError::AlreadyResolved);
    }
    market.cancelled = true;
    market.resolved = true;
    Ok(())
}

/// Why an early exit is refused, if it is.
pub open spec fn early_exit_failure(
    market: Market,
    vote: VoteRecord,
    user: Identity,
    market_key: Identity,
) -> Option<MarketError> {
    if market.resolved {
        Some(MarketError::AlreadyResolved)
    } else if market.paused {
        Some(MarketError::MarketPaused)
    } else if vote.amount == 0 {
        Some(MarketError::NoActiveBet)
    } else if vote.claimed {
        Some(MarketError::AlreadyClaimed)
    } else if !vote.belongs_to(user, market_key) {
        Some(MarketError::Unauthorized)
    } else if vote.outcome_index >= market.outcome_count {
        Some(MarketError::InvalidOutcomeIndex)
    } else if market.totals@[vote.outcome_index as int] < vote.amount {
        Some(MarketError::MathOverflow)
    } else {
        None
    }
}

/// Lets a bettor leave before resolution against a penalty.
///
/// On success the pools shrink by the whole stake, as if the bet had never
/// been placed, the record is emptied and marked as settled, and the caller
/// moves the returned refund, 90% of the stake rounded down, from the vault
/// to the user. The penalty stays in the vault.
pub fn early_exit(
    market: &mut Market,
    vote_record: &mut VoteRecord,
    user: &Identity,
    market_key: &Identity,
) -> (r: Result<u64, MarketError>)
    requires
        old(market).wf(),
    ensures
        early_exit_failure(*old(market), *old(vote_record), *user, *market_key) matches Some(e)
            ==> r == Err::<u64, MarketError>(e),
        early_exit_failure(*old(market), *old(vote_record), *user, *market_key) is None ==> r
            == Ok::<u64, MarketError>(exit_refund(old(vote_record).amount as int) as u64),
        r is Ok ==> *final(market) == old(market).without_stake(
            old(vote_record).outcome_index,
            old(vote_record).amount,
        ),
        r is Ok ==> *final(vote_record) == old(vote_record).exited(),
        r is Err ==> *final(market) == *old(market) && *final(vote_record) == *old(vote_record),
        final(market).wf(),
{
    if market.resolved {
        return Err(MarketError::AlreadyResolved);
    }
    if market.paused {
        return Err(MarketError::MarketPaused);
    }
    if vote_record.amount == 0 {
        return Err(MarketError::NoActiveBet);
    }
    if vote_record.claimed {
        return Err(MarketError::AlreadyClaimed);
    }
    if !vote_record.is_owned_by(user, market_key) {
        return Err(MarketError::Unauthorized);
    }
    if vote_record.outcome_index >= market.outcome_count {
        return Err(MarketError::InvalidOutcomeIndex);
    }
    let slot: usize = vote_record.outcome_index as usize;
    let stake: u64 = vote_record.amount;
    if market.totals[slot] < stake {
        return Err(MarketError::MathOverflow);
    }
    let refund: u64 = early_exit_refund(stake);
    let mut totals: [u64; 8] = market.totals;
    totals[slot] = totals[slot] - stake;
    market.totals = totals;
    market.total_liquidity = market.total_liquidity - stake;
    vote_record.amount = 0;
    vote_record.claimed = true;
    Ok(refund)
}

/// Why a distribution of fees is refused, if it is.
pub open spec fn distribute_fees_failure(market: Market, signer: Identity) -> Option<MarketError> {
    if signer != market.authority {
        Some(MarketError::Unauthorized)
    } else if !market.resolved {
        Some(MarketError::NotResolved)
    } else if market.cancelled {
        Some(MarketError::MarketCancelled)
    } else if market.fees_distributed {
        Some(MarketError::FeesAlreadyDistributed)
    } else {
        None
    }
}

/// Takes the fees from a resolved market, once.
///
/// The fees are those of the market's policy: under the full-pool split each
/// is its share, in basis points, of the whole pool, rounded down; the
/// losing-pool split takes none. `fee_movements` lists what the caller has
/// to move. A second call fails.
pub fn distribute_fees(market: &mut Market, market_key: Identity, signer: &Identity) -> (r: Result<
    FeesDistributedEvent,
    MarketError,
>)
    requires
        old(market).wf(),
    ensures
        distribute_fees_failure(*old(market), *signer) matches Some(e) ==> r == Err::<
            FeesDistributedEvent,
            MarketError,
        >(e),
        distribute_fees_failure(*old(market), *signer) is None ==> r == Ok::<
            FeesDistributedEvent,
            MarketError,
        >(old(market).fees_due(market_key)),
        r is Ok ==> *final(market) == old(market).with_fees_taken(),
        r is Err ==> *final(market) == *old(market),
        final(market).wf(),
{
    if !signer.same(&market.authority) {
        return Err(MarketError::Unauthorized);
    }
    if !market.resolved {
        return Err(MarketError::NotResolved);
    }
    if market.cancelled {
        return Err(MarketError::MarketCancelled);
    }
    if market.fees_distributed {
        return Err(MarketError::FeesAlreadyDistributed);
    }
    let policy = market.policy;
    let (creator_fee, dev_fee, burn_amount): (u64, u64, u64) = policy_fees(
        &policy,
        market.total_liquidity,
    );
    market.fees_distributed = true;
    Ok(FeesDistributedEvent { market: market_key, creator_fee, burn_amount, dev_fee })
}

/// One movement out of a market's vault.
#[derive(Clone, Copy, Debug, PartialEq, Eq, Structural)]
pub enum Movement {
    /// A transfer to the creator's account.
    ToCreator { amount: u64 },
    /// A burn out of the vault.
    Burn { amount: u64 },
    /// A transfer to the developers' account.
    ToDevelopers { amount: u64 },
}

/// The movements that carry out a distribution of fees: the creator fee,
/// the burn, the developer fee, in this order, without those of amount zero.
pub open spec fn fee_movements_of(fees: FeesDistributedEvent) -> Seq<Movement> {
    (if fees.creator_fee > 0 {
        seq![Movement::ToCreator { amount: fees.creator_fee }]
    } else {
        Seq::<Movement>::empty()
    }) + (if fees.burn_amount > 0 {
        seq![Movement::Burn { amount: fees.burn_amount }]
    } else {
        Seq::<Movement>::empty()
    }) + (if fees.dev_fee > 0 {
        seq![Movement::ToDevelopers { amount: fees.dev_fee }]
    } else {
        Seq::<Movement>::empty()
    })
}

/// The movements that carry out a distribution of fees, in the order in
/// which the caller issues them.
pub fn fee_movements(fees: &FeesDistributedEvent) -> (moves: Vec<Movement>)
    ensures
        moves@ == fee_movements_of(*fees),
{
    let mut moves: Vec<Movement> = Vec::new();
    if fees.creator_fee > 0 {
        moves.push(Movement::ToCreator { amount: fees.creator_fee });
    }
    if fees.burn_amount > 0 {
        moves.push(Movement::Burn { amount: fees.burn_amount });
    }
    if fees.dev_fee > 0 {
        moves.push(Movement::ToDevelopers { amount: fees.dev_fee });
    }
    moves
}

/// Why a claim is refused, if it is. A paused market still settles.
pub open spec fn claim_failure(market: Market, vote: VoteRecord, user: Identity, market_key: Identity) -> Option<
    MarketError,
> {
    if !market.resolved {
        Some(MarketError::NotResolved)
    } else if vote.claimed {
        Some(MarketError::AlreadyClaimed)
    } else if !vote.belongs_to(user, market_key) {
        Some(MarketError::Unauthorized)
    } else if market.cancelled {
        None
    } else if market.winning_outcome != Some(vote.outcome_index) {
        Some(MarketError::Loser)
    } else if market.totals@[vote.outcome_index as int] == 0 {
        Some(MarketError::NoWinningStake)
    } else if market.winner_share(vote.outcome_index, vote.amount) > u64::MAX {
        Some(MarketError::MathOverflow)
    } else {
        None
    }
}

/// What a claim that is not refused pays: the whole stake from a cancelled
/// market, the winner's share under the market's policy otherwise.
pub open spec fn claim_payout(market: Market, vote: VoteRecord) -> int {
    if market.cancelled {
        vote.amount as int
    } else {
        market.winner_share(vote.outcome_index, vote.amount)
    }
}

/// What a claim that is not refused returns.
pub open spec fn claim_receipt(market: Market, vote: VoteRecord, market_key: Identity) -> ClaimReceipt {
    ClaimReceipt {
        fees: if !market.cancelled && !market.fees_distributed {
            Some(market.fees_due(market_key))
        } else {
            None
        },
        payout: claim_payout(market, vote) as u64,
        refund: market.cancelled,
    }
}

/// Settles a user's record in a resolved market, once.
///
/// From a cancelled market the whole stake is refunded, whatever outcome it
/// was on. Otherwise the record must be on the winning outcome; the fees
/// are taken first if they have not been yet, and the record is paid what
/// the market's policy gives its stake. The record is marked as claimed, so a
/// second claim fails with `AlreadyClaimed`.
pub fn claim_winnings(
    market: &mut Market,
    market_key: &Identity,
    vote_record: &mut VoteRecord,
    user: &Identity,
) -> (r: Result<ClaimReceipt, MarketError>)
    requires
        old(market).wf(),
    ensures
        claim_failure(*old(market), *old(vote_record), *user, *market_key) matches Some(e) ==> r
            == Err::<ClaimReceipt, MarketError>(e),
        claim_failure(*old(market), *old(vote_record), *user, *market_key) is None ==> r == Ok::<
            ClaimReceipt,
            MarketError,
        >(claim_receipt(*old(market), *old(vote_record), *market_key)),
        r is Ok ==> *final(market) == old(market).after_claim(),
        r is Ok ==> *final(vote_record) == old(vote_record).settled(),
        r is Err ==> *final(market) == *old(market) && *final(vote_record) == *old(vote_record),
        final(market).wf(),
{
    if !market.resolved {
        return Err(MarketError::NotResolved);
    }
    if vote_record.claimed {
        return Err(MarketError::AlreadyClaimed);
    }
    if !vote_record.is_owned_by(user, market_key) {
        return Err(MarketError::Unauthorized);
    }
    if market.cancelled {
        vote_record.claimed = true;
        return Ok(ClaimReceipt { fees: None, payout: vote_record.amount, refund: true });
    }
    let winner: u8 = market.winning_outcome.unwrap();
    if vote_record.outcome_index != winner {
        return Err(MarketError::Loser);
    }
    let policy = market.policy;
    let payout: u64 = match winner_payout(
        &policy,
        &market.totals,
        market.total_liquidity,
        winner,
        vote_record.amount,
    ) {
        Ok(p) => p,
        Err(e) => {
            return Err(MarketError::from_calc(e));
        },
    };
    let fees: Option<FeesDistributedEvent> = if market.fees_distributed {
        None
    } else {
        let (creator_fee, dev_fee, burn_amount): (u64, u64, u64) = policy_fees(
            &policy,
            market.total_liquidity,
        );
        market.fees_distributed = true;
        Some(FeesDistributedEvent { market: *market_key, creator_fee, burn_amount, dev_fee })
    };
    vote_record.claimed = true;
    Ok(ClaimReceipt { fees, payout, refund: false })
}

/// What the market owes to `vote` right now: what a claim by the record's
/// owner would pay, nothing where that claim would be refused.
pub open spec fn due(market: Market, market_key: Identity, vote: VoteRecord) -> int {
    if claim_failure(market, vote, vote.user, market_key) is None {
        claim_payout(market, vote)
    } else {
        0
    }
}

/// What the market owes to all of `votes` together.
pub open spec fn dues(market: Market, market_key: Identity, votes: Seq<VoteRecord>) -> int
    decreases votes.len(),
{
    if votes.len() == 0 {
        0
    } else {
        dues(market, market_key, votes.drop_last()) + due(market, market_key, votes.last())
    }
}

/// What must stay in the market's vault: the fees that are still to be
/// taken, and what every record in `votes` is owed.
pub open spec fn owed(market: Market, market_key: Identity, votes: Seq<VoteRecord>) -> int {
    market.pending_fees() + dues(market, market_key, votes)
}

/// Nothing owed is negative, and a part of the records is owed no more than
/// all of them.
pub proof fn lemma_dues_grow(market: Market, market_key: Identity, votes: Seq<VoteRecord>, n: int)
    requires
        market.wf(),
        0 <= n <= votes.len(),
    ensures
        0 <= dues(market, market_key, votes.subrange(0, n)) <= dues(market, market_key, votes),
    decreases votes.len() - n,
{
    if n == votes.len() {
        assert(votes.subrange(0, n) =~= votes);
        lemma_dues_nonneg(market, market_key, votes);
    } else {
        assert(votes.subrange(0, n + 1).drop_last() =~= votes.subrange(0, n));
        lemma_dues_grow(market, market_key, votes, n + 1);
        lemma_dues_nonneg(market, market_key, votes.subrange(0, n));
    }
}

/// Nothing owed is negative.
pub proof fn lemma_dues_nonneg(market: Market, market_key: Identity, votes: Seq<VoteRecord>)
    requires
        market.wf(),
    ensures
        0 <= dues(market, market_key, votes),
    decreases votes.len(),
{
    if votes.len() > 0 {
        lemma_dues_nonneg(market, market_key, votes.drop_last());
        lemma_due_within_u64(market, market_key, votes.last());
    }
}

/// What one record is owed is an amount of 64 bits.
pub proof fn lemma_due_within_u64(market: Market, market_key: Identity, vote: VoteRecord)
    requires
        market.wf(),
    ensures
        0 <= due(market, market_key, vote) <= u64::MAX,
{
    if claim_failure(market, vote, vote.user, market_key) is None && !market.cancelled {
        crate::calc::lemma_winnings_scaled(
            market.policy,
            market.totals@,
            market.total_liquidity as int,
            vote.outcome_index as int,
            vote.amount as int,
        );
    }
}

/// What the market owes to `vote` right now: what a claim by the record's
/// owner would pay, nothing where that claim would be refused.
pub fn due_to_record(market: &Market, market_key: &Identity, vote: &VoteRecord) -> (amount: u64)
    requires
        market.wf(),
    ensures
        amount == due(*market, *market_key, *vote),
{
    if !market.resolved || vote.claimed || !vote.market.same(market_key) {
        return 0;
    }
    if market.cancelled {
        return vote.amount;
    }
    let winner: u8 = market.winning_outcome.unwrap();
    if vote.outcome_index != winner {
        return 0;
    }
    let policy = market.policy;
    match winner_payout(&policy, &market.totals, market.total_liquidity, winner, vote.amount) {
        Ok(p) => p,
        Err(_) => 0,
    }
}

/// What must stay in the market's vault, given the records of all who bet
/// in it: the fees that are still to be taken and what every record is
/// owed. `None` when the sum does not fit 64 bits.
pub fn owed_to_records(market: &Market, market_key: &Identity, votes: &Vec<VoteRecord>) -> (r:
    Option<u64>)
    requires
        market.wf(),
    ensures
        owed(*market, *market_key, votes@) <= u64::MAX ==> r == Some(
            owed(*market, *market_key, votes@) as u64,
        ),
        owed(*market, *market_key, votes@) > u64::MAX ==> r is None,
{
    let pending: u64 = if market.resolved && !market.cancelled && !market.fees_distributed {
        let policy = market.policy;
        let (creator_fee, dev_fee, burn_amount): (u64, u64, u64) = policy_fees(
            &policy,
            market.total_liquidity,
        );
        proof {
            crate::calc::lemma_budget_within_pool(
                market.policy,
                market.totals@,
                market.total_liquidity as int,
                0,
            );
        }
        creator_fee + dev_fee + burn_amount
    } else {
        0
    };
    let mut total: u64 = pending;
    let mut i: usize = 0;
    while i < votes.len()
        invariant
            market.wf(),
            i <= votes.len(),
            pending == market.pending_fees(),
            total == pending + dues(*market, *market_key, votes@.subrange(0, i as int)),
        decreases votes.len() - i,
    {
        let amount: u64 = due_to_record(market, market_key, &votes[i]);
        proof {
            assert(votes@.subrange(0, i as int + 1).drop_last() =~= votes@.subrange(0, i as int));
            lemma_dues_grow(*market, *market_key, votes@, i as int + 1);
        }
        match total.checked_add(amount) {
            Some(sum) => {
                total = sum;
            },
            None => {
                return None;
            },
        }
        i = i + 1;
    }
    proof {
        assert(votes@.subrange(0, i as int) =~= votes@);
    }
    Some(total)
}

/// Why a sweep is refused, if it is.
pub open spec fn sweep_failure(
    market: Market,
    signer: Identity,
    now: i64,
    vault_balance: u64,
    owed: u64,
) -> Option<MarketError> {
    if signer != market.authority {
        Some(MarketError::Unauthorized)
    } else if !market.resolved {
        Some(MarketError::NotResolved)
    } else if now <= market.end_time + SWEEP_COOLDOWN_SECONDS {
        Some(MarketError::SweepTooEarly)
    } else if vault_balance <= owed {
        Some(MarketError::NoDustToSweep)
    } else {
        None
    }
}

/// Decides a sweep of the market's own vault.
///
/// `vault_balance` is what the vault holds and `owed` what must stay in it:
/// the fees still to be taken and what unclaimed records are owed, as
/// `owed_to_records` computes it from the market's records. Thirty days after
/// the end of a resolved market its authority may move the rest, the dust
/// that rounding and exit penalties left behind, to the developers' account.
/// Returns the amount to move: the balance less what is owed. What is owed
/// is never touched; where nothing is left beyond it the sweep fails.
pub fn sweep_market(
    market: &Market,
    signer: &Identity,
    now: i64,
    vault_balance: u64,
    owed: u64,
) -> (r: Result<u64, MarketError>)
    ensures
        sweep_failure(*market, *signer, now, vault_balance, owed) matches Some(e) ==> r == Err::<
            u64,
            MarketError,
        >(e),
        sweep_failure(*market, *signer, now, vault_balance, owed) is None ==> r == Ok::<
            u64,
            MarketError,
        >((vault_balance - owed) as u64),
{
    if !signer.same(&market.authority) {
        return Err(MarketError::Unauthorized);
    }
    if !market.resolved {
        return Err(MarketError::NotResolved);
    }
    if now as i128 <= market.end_time as i128 + SWEEP_COOLDOWN_SECONDS as i128 {
        return Err(MarketError::SweepTooEarly);
    }
    if vault_balance <= owed {
        return Err(MarketError::NoDustToSweep);
    }
    Ok(vault_balance - owed)
}

/// A record is paid once: after a claim that succeeded, the same claim fails
/// with `AlreadyClaimed`, so it orders no second transfer.
pub proof fn lemma_second_claim_fails(
    market: Market,
    vote: VoteRecord,
    user: Identity,
    market_key: Identity,
)
    requires
        market.wf(),
        claim_failure(market, vote, user, market_key) is None,
    ensures
        claim_failure(market.after_claim(), vote.settled(), user, market_key) == Some(
            MarketError::AlreadyClaimed,
        ),
        due(market.after_claim(), market_key, vote.settled()) == 0,
{
}

/// A settled record is closed for good: whatever state the market is in and
/// whoever asks, it takes no further bet, exit or claim, and is owed nothing.
pub proof fn lemma_settled_record_is_closed(
    market: Market,
    vote: VoteRecord,
    user: Identity,
    market_key: Identity,
    now: i64,
    amount: u64,
    outcome_index: u8,
)
    requires
        vote.claimed,
    ensures
        claim_failure(market, vote, user, market_key) is Some,
        early_exit_failure(market, vote, user, market_key) is Some,
        place_vote_failure(market, vote, user, market_key, now, amount, outcome_index) is Some,
        due(market, market_key, vote) == 0,
{
}

/// Resolution is final: on a resolved market every further resolution fails
/// with `AlreadyResolved`, by the authority or by the oracle, for whatever
/// outcome, paused or not, and so does a cancellation. Since a failing
/// handler changes nothing, the winning outcome stays as it is.
pub proof fn lemma_resolution_is_final(
    market: Market,
    signer: Identity,
    oracle: Identity,
    outcome_index: u8,
)
    requires
        market.resolved,
    ensures
        resolve_failure(market, signer, outcome_index) is Some,
        oracle_resolve_failure(market, oracle, outcome_index) is Some,
        signer == market.authority ==> resolve_failure(market, signer, outcome_index) == Some(
            MarketError::AlreadyResolved,
        ),
        market.oracle_key == Some(oracle) ==> oracle_resolve_failure(
            market,
            oracle,
            outcome_index,
        ) == Some(MarketError::AlreadyResolved),
{
}

/// The authority resolves an open market, paused or not: with an outcome the
/// market has, the resolution succeeds; with any other it fails with
/// `InvalidOutcomeIndex`.
pub proof fn lemma_authority_resolves(market: Market, outcome_index: u8)
    requires
        !market.resolved,
    ensures
        outcome_index < market.outcome_count ==> resolve_failure(
            market,
            market.authority,
            outcome_index,
        ) is None,
        outcome_index >= market.outcome_count ==> resolve_failure(
            market,
            market.authority,
            outcome_index,
        ) == Some(MarketError::InvalidOutcomeIndex),
{
}

/// Betting closes at the end time: on a market that is not paused, a bet at
/// the end time or later fails as a temporal violation, whatever else holds
/// of it. A paused market refuses every bet as a state conflict instead.
pub proof fn lemma_betting_closes_at_end_time(
    market: Market,
    vote: VoteRecord,
    user: Identity,
    market_key: Identity,
    now: i64,
    amount: u64,
    outcome_index: u8,
)
    requires
        !market.paused,
        now >= market.end_time,
    ensures
        place_vote_failure(market, vote, user, market_key, now, amount, outcome_index) matches Some(
            e,
        ) && e.spec_class() == crate::errors::ErrorClass::TemporalViolation,
        !market.resolved ==> place_vote_failure(
            market,
            vote,
            user,
            market_key,
            now,
            amount,
            outcome_index,
        ) == Some(MarketError::MarketClosed),
{
}

/// Before the end time a first bet succeeds: on an open market that is not
/// paused, a bet on one of its outcomes, within its limits, on a vacant
/// record, is taken as long as the pool can hold it.
pub proof fn lemma_betting_open_before_end_time(
    market: Market,
    vote: VoteRecord,
    user: Identity,
    market_key: Identity,
    now: i64,
    amount: u64,
    outcome_index: u8,
)
    requires
        now < market.end_time,
        !market.paused,
        !market.resolved,
        outcome_index < market.outcome_count,
        market.min_bet <= amount,
        market.max_bet == 0 || amount <= market.max_bet,
        vote.is_vacant(),
        market.total_liquidity + amount <= u64::MAX,
    ensures
        place_vote_failure(market, vote, user, market_key, now, amount, outcome_index) is None,
{
}

/// A market that was called off refunds every stake in full: the claim of
/// an open record by its owner succeeds, paused or not, pays exactly the
/// stake, whatever outcome the stake was on, and takes no fees.
pub proof fn lemma_cancelled_market_refunds_stake(
    market: Market,
    vote: VoteRecord,
    user: Identity,
    market_key: Identity,
)
    requires
        market.wf(),
        market.cancelled,
        !vote.claimed,
        vote.belongs_to(user, market_key),
    ensures
        claim_failure(market, vote, user, market_key) is None,
        claim_receipt(market, vote, market_key) == (ClaimReceipt {
            fees: None,
            payout: vote.amount,
            refund: true,
        }),
        due(market, market_key, vote) == vote.amount,
{
}

/// A sweep leaves what is owed: with `vault_balance` above what is `owed`
/// exactly the difference moves, and with nothing above it the sweep fails
/// with `NoDustToSweep`, for the authority of a resolved market after the
/// cooldown.
pub proof fn lemma_sweep_leaves_what_is_owed(market: Market, now: i64, vault_balance: u64, owed: u64)
    requires
        market.resolved,
        now > market.end_time + SWEEP_COOLDOWN_SECONDS,
    ensures
        vault_balance > owed ==> sweep_failure(
            market,
            market.authority,
            now,
            vault_balance,
            owed,
        ) is None,
        vault_balance <= owed ==> sweep_failure(
            market,
            market.authority,
            now,
            vault_balance,
            owed,
        ) == Some(MarketError::NoDustToSweep),
{
}

/// A claim pays what the record is owed: where a claim succeeds, its payout
/// is what the market owed to the record, and afterwards it owes the record
/// nothing.
pub proof fn lemma_claim_pays_what_is_owed(
    market: Market,
    vote: VoteRecord,
    user: Identity,
    market_key: Identity,
)
    requires
        market.wf(),
        claim_failure(market, vote, user, market_key) is None,
    ensures
        claim_receipt(market, vote, market_key).payout == due(market, market_key, vote),
        due(market.after_claim(), market_key, vote.settled()) == 0,
{
    lemma_due_within_u64(market, market_key, vote);
}

} // verus!
