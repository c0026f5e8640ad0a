//! The shared-treasury engine.
//!
//! All markets keep their stakes in one treasury. A market may be seeded with
//! virtual liquidity, spread over its outcomes by weight, so that early bets
//! meet a ratio. The payout of a bet is fixed when the bet is placed, from the
//! ratio the pools have at that moment, and stored in the vote together with
//! the protocol fee that goes with it; a claim pays what was stored. A user
//! bets once per market.

use vstd::prelude::*;
use crate::calc::{
    locked_fee, locked_payout, locked_quote, locked_quote_fits, pool_sum, seed_outcome_totals,
    seeded_total, weight_sum,
};
use crate::errors::PolybetError;
use crate::identity::Identity;

verus! {

/// The handle of the token program that the treasury's asset must live under.
pub const TOKEN_2022_ID: [u8; 32] = [
    6, 221, 246, 225, 238, 117, 144, 24, 182, 46, 112, 57, 25, 254, 12, 154,
    215, 234, 114, 22, 253, 143, 30, 79, 239, 30, 218, 128, 216, 161, 139, 252,
];

/// Bytes that the treasury's token account occupies in storage.
pub const TREASURY_VAULT_SPACE: u64 = 165;

/// The protocol-wide settings: who may sweep the treasury, and the
/// derivation data of the treasury and of the settings themselves.
#[derive(Clone, Copy, Debug, PartialEq, Eq)]
pub struct ProtocolConfig {
    pub authority: Identity,
    pub vault_bump: u8,
    pub bump: u8,
}

/// One market: its description, the pot and what is staked per outcome.
#[derive(Clone, Debug, PartialEq, Eq)]
pub struct Market {
    pub authority: Identity,
    pub question: String,
    pub end_timestamp: i64,
    pub outcomes_count: u8,
    pub total_pot: u64,
    pub outcome_totals: [u64; 8],
    pub resolved: bool,
    pub winner_index: Option<u8>,
    pub bump: u8,
}

/// One user's bet in one market, with the payout fixed when it was placed.
#[derive(Clone, Copy, Debug, PartialEq, Eq)]
pub struct Vote {
    pub user: Identity,
    pub market: Identity,
    pub outcome_index: u8,
    pub amount: u64,
    pub locked_payout: u64,
    pub locked_creator_fee: u64,
    pub locked_dev_fee: u64,
    pub claimed: bool,
    pub bump: u8,
}

/// What a successful claim asks the caller to move out of the treasury: the
/// payout to the user, then the fee to the developers.
#[derive(Clone, Copy, Debug, PartialEq, Eq, Structural)]
pub struct LockedClaim {
    pub payout: u64,
    pub dev_fee: u64,
}

impl ProtocolConfig {
    /// Bytes that the settings occupy in storage.
    pub const SPACE: usize = 8 + 32 + 1 + 1;
}

impl Vote {
    /// Bytes that a vote occupies in storage.
    pub const SPACE: usize = 8 + 32 + 32 + 1 + 8 + 8 + 8 + 8 + 1 + 1;
}

impl Market {
    /// Bytes that a market occupies in storage.
    pub const SPACE: usize = 8 + 32 + (4 + 64) + 8 + 1 + 8 + 64 + 1 + 2 + 1;

    /// The market's invariant: a plausible outcome count, outcome totals
    /// that the pot covers, nothing staked on outcomes the market does not
    /// have, and a winner exactly when the market is resolved.
    pub open spec fn wf(self) -> bool {
        &&& 1 <= self.outcomes_count <= 8
        &&& pool_sum(self.outcome_totals@) <= self.total_pot
        &&& forall|i: int| self.outcomes_count <= i < 8 ==> self.outcome_totals@[i] == 0
        &&& self.resolved <==> self.winner_index is Some
        &&& self.winner_index matches Some(w) ==> w < self.outcomes_count
    }

    /// The market with a bet of `amount` on `outcome_index` added.
    pub open spec fn with_stake(self, outcome_index: u8, amount: u64) -> Market {
        Market {
            outcome_totals: vstd::array::spec_array_update(
                self.outcome_totals,
                outcome_index as int,
                (self.outcome_totals@[outcome_index as int] + amount) as u64,
            ),
            total_pot: (self.total_pot + amount) as u64,
            ..self
        }
    }

    /// Whether the market's invariant holds, for records that come from
    /// storage.
    pub fn is_valid(&self) -> (ok: bool)
        ensures
            ok == self.wf(),
    {
        if self.outcomes_count < 1 || self.outcomes_count > 8 {
            return false;
        }
        let sum: u128 = self.outcome_totals[0] as u128 + self.outcome_totals[1] as u128
            + self.outcome_totals[2] as u128 + self.outcome_totals[3] as u128
            + self.outcome_totals[4] as u128 + self.outcome_totals[5] as u128
            + self.outcome_totals[6] as u128 + self.outcome_totals[7] as u128;
        if sum > self.total_pot as u128 {
            return false;
        }
        let mut i: usize = self.outcomes_count as usize;
        while i < 8
            invariant
                self.outcomes_count <= i <= 8,
                forall|j: int| self.outcomes_count <= j < i ==> self.outcome_totals@[j] == 0,
            decreases 8 - i,
        {
            if self.outcome_totals[i] != 0 {
                return false;
            }
            i = i + 1;
        }
        match self.winner_index {
            Some(w) => self.resolved && w < self.outcomes_count,
            None => !self.resolved,
        }
    }
}

/// The handle of the token program that the treasury's asset must live under.
pub fn token_2022_id() -> (id: Identity)
    ensures
        id.bytes == TOKEN_2022_ID,
{
    Identity::new(TOKEN_2022_ID)
}

/// Accepts `token_program` only if it is the token program that the
/// treasury's asset lives under. Callers that take the token program from
/// their input run this before any other step.
pub fn check_token_program(token_program: &Identity) -> (r: Result<(), PolybetError>)
    ensures
        token_program.bytes == TOKEN_2022_ID ==> r is Ok,
        token_program.bytes != TOKEN_2022_ID ==> r == Err::<(), PolybetError>(
            PolybetError::InvalidProgramId,
        ),
{
    let expected = token_2022_id();
    if token_program.same(&expected) {
        Ok(())
    } else {
        Err(PolybetError::InvalidProgramId)
    }
}

/// Creates the protocol settings. The caller provisions the treasury's token
/// account, of `TREASURY_VAULT_SPACE` bytes, as part of the same operation.
pub fn initialize_protocol(authority: Identity, vault_bump: u8, bump: u8) -> (config:
    ProtocolConfig)
    ensures
        config == (ProtocolConfig { authority, vault_bump, bump }),
{
    ProtocolConfig { authority, vault_bump, bump }
}

/// Creates a market whose pot starts at `virtual_liquidity`, spread over the
/// first `outcomes_count` outcomes in proportion to `weights`, each share
/// rounded down. With all weights zero the outcomes start empty.
///
/// Fails with `InvalidOutcome` unless the count lies between 1 and 8, and
/// with `MathOverflow` when the weights do not add up within 32 bits.
pub fn initialize_market(
    authority: Identity,
    question: String,
    end_timestamp: i64,
    outcomes_count: u8,
    virtual_liquidity: u64,
    weights: [u32; 8],
    bump: u8,
) -> (r: Result<Market, PolybetError>)
    ensures
        !(1 <= outcomes_count <= 8) ==> r == Err::<Market, PolybetError>(
            PolybetError::InvalidOutcome,
        ),
        1 <= outcomes_count <= 8 && weight_sum(weights@, outcomes_count as int) > u32::MAX ==> r
            == Err::<Market, PolybetError>(PolybetError::MathOverflow),
        1 <= outcomes_count <= 8 && weight_sum(weights@, outcomes_count as int) <= u32::MAX ==> r
            is Ok,
        r matches Ok(m) ==> {
            &&& m.wf()
            &&& m.authority == authority
            &&& m.question == question
            &&& m.end_timestamp == end_timestamp
            &&& m.outcomes_count == outcomes_count
            &&& m.total_pot == virtual_liquidity
            &&& forall|i: int|
                0 <= i < 8 ==> #[trigger] m.outcome_totals@[i] == seeded_total(
                    virtual_liquidity as int,
                    weights@,
                    outcomes_count as int,
                    i,
                )
            &&& !m.resolved
            &&& m.winner_index is None
            &&& m.bump == bump
        },
{
    if !(outcomes_count > 0 && outcomes_count <= 8) {
        return Err(PolybetError::InvalidOutcome);
    }
    let outcome_totals: [u64; 8] = match seed_outcome_totals(
        virtual_liquidity,
        &weights,
        outcomes_count,
    ) {
        Ok(totals) => totals,
        Err(_) => {
            return Err(PolybetError::MathOverflow);
        },
    };
    Ok(
        Market {
            authority,
            question,
            end_timestamp,
            outcomes_count,
            total_pot: virtual_liquidity,
            outcome_totals,
            resolved: false,
            winner_index: None,
            bump,
        },
    )
}

/// Why a bet is refused, if it is. The checks come in this order; the first
/// that fails decides.
pub open spec fn place_vote_failure(market: Market, now: i64, outcome_index: u8, amount: u64) -> Option<
    PolybetError,
> {
    if now >= market.end_timestamp {
        Some(PolybetError::MarketEnded)
    } else if market.resolved {
        Some(PolybetError::MarketEnded)
    } else if outcome_index >= market.outcomes_count {
        Some(PolybetError::InvalidOutcome)
    } else if !locked_quote_fits(
        amount as int,
        market.total_pot as int,
        market.outcome_totals@[outcome_index as int] as int,
    ) {
        Some(PolybetError::MathOverflow)
    } else if market.total_pot + amount > u64::MAX {
        Some(PolybetError::MathOverflow)
    } else {
        None
    }
}

/// The vote that a bet which is not refused creates.
pub open spec fn placed_vote(
    market: Market,
    user: Identity,
    market_key: Identity,
    outcome_index: u8,
    amount: u64,
    bump: u8,
) -> Vote {
    let payout = locked_payout(
        amount as int,
        market.total_pot as int,
        market.outcome_totals@[outcome_index as int] as int,
    );
    Vote {
        user,
        market: market_key,
        outcome_index,
        amount,
        locked_payout: payout as u64,
        locked_creator_fee: 0,
        locked_dev_fee: locked_fee(payout) as u64,
        claimed: false,
        bump,
    }
}

/// Takes the user's bet of `amount` on `outcome_index` and fixes its payout.
///
/// The payout is 90% of the stake's claim on the pot at the ratio the chosen
/// outcome has before the bet is added, or the bare stake when that outcome
/// is still empty; the protocol fee is 11% of the payout. Both are rounded
/// down and stored in the returned vote. On success the stake is added to
/// the outcome's total and to the pot, and the caller moves `amount` from the
/// user into the treasury.
pub fn place_vote(
    market: &mut Market,
    user: Identity,
    market_key: Identity,
    now: i64,
    outcome_index: u8,
    amount: u64,
    bump: u8,
) -> (r: Result<Vote, PolybetError>)
    requires
        old(market).wf(),
    ensures
        place_vote_failure(*old(market), now, outcome_index, amount) matches Some(e) ==> r
            == Err::<Vote, PolybetError>(e),
        place_vote_failure(*old(market), now, outcome_index, amount) is None ==> r == Ok::<
            Vote,
            PolybetError,
        >(placed_vote(*old(market), user, market_key, outcome_index, amount, bump)),
        r is Ok ==> *final(market) == old(market).with_stake(outcome_index, amount),
        r is Err ==> *final(market) == *old(market),
        final(market).wf(),
{
    if now >= market.end_timestamp {
        return Err(PolybetError::MarketEnded);
    }
    if market.resolved {
        return Err(PolybetError::MarketEnded);
    }
    if outcome_index >= market.outcomes_count {
        return Err(PolybetError::InvalidOutcome);
    }
    let slot: usize = outcome_index as usize;
    let (payout, dev_fee): (u64, u64) = match locked_quote(
        amount,
        market.total_pot,
        market.outcome_totals[slot],
    ) {
        Ok(quote) => quote,
        Err(_) => {
            return Err(PolybetError::MathOverflow);
        },
    };
    let pot: u64 = match market.total_pot.checked_add(amount) {
        Some(v) => v,
        None => {
            return Err(PolybetError::MathOverflow);
        },
    };
    let mut totals: [u64; 8] = market.outcome_totals;
    totals[slot] = totals[slot] + amount;
    market.outcome_totals = totals;
    market.total_pot = pot;
    Ok(
        Vote {
            user,
            market: market_key,
            outcome_index,
            amount,
            locked_payout: payout,
            locked_creator_fee: 0,
            locked_dev_fee: dev_fee,
            claimed: false,
            bump,
        },
    )
}

/// Why a claim is refused, if it is.
pub open spec fn claim_failure(market: Market, vote: Vote, user: Identity, market_key: Identity) -> Option<
    PolybetError,
> {
    if vote.user != user || vote.market != market_key {
        Some(PolybetError::Unauthorized)
    } else if !market.resolved {
        Some(PolybetError::MarketActive)
    } else if vote.claimed {
        Some(PolybetError::AlreadyClaimed)
    } else if market.winner_index != Some(vote.outcome_index) {
        Some(PolybetError::InvalidOutcome)
    } else {
        None
    }
}

/// Settles a winning vote, once: the caller pays the payout and the fee that
/// were fixed when the bet was placed. The vote is marked as claimed, so a
/// second claim fails with `AlreadyClaimed`.
pub fn claim_winnings(market: &Market, vote: &mut Vote, user: &Identity, market_key: &Identity) -> (r:
    Result<LockedClaim, PolybetError>)
    ensures
        claim_failure(*market, *old(vote), *user, *market_key) matches Some(e) ==> r == Err::<
            LockedClaim,
            PolybetError,
        >(e),
        claim_failure(*market, *old(vote), *user, *market_key) is None ==> r == Ok::<
            LockedClaim,
            PolybetError,
        >(
            (LockedClaim {
                payout: old(vote).locked_payout,
                dev_fee: old(vote).locked_dev_fee,
            }),
        ),
        r is Ok ==> *final(vote) == (Vote { claimed: true, ..*old(vote) }),
        r is Err ==> *final(vote) == *old(vote),
{
    if !(vote.user.same(user) && vote.market.same(market_key)) {
        return Err(PolybetError::Unauthorized);
    }
    if !market.resolved {
        return Err(PolybetError::MarketActive);
    }
    if vote.claimed {
        return Err(PolybetError::AlreadyClaimed);
    }
    let wins: bool = match market.winner_index {
        Some(w) => w == vote.outcome_index,
        None => false,
    };
    if !wins {
        return Err(PolybetError::InvalidOutcome);
    }
    vote.claimed = true;
    Ok(LockedClaim { payout: vote.locked_payout, dev_fee: vote.locked_dev_fee })
}

/// Why a resolution is refused, if it is.
pub open spec fn resolve_failure(market: Market, signer: Identity, winner_index: u8) -> Option<
    PolybetError,
> {
    if signer != market.authority {
        Some(PolybetError::Unauthorized)
    } else if market.resolved {
        Some(PolybetError::MarketEnded)
    } else if winner_index >= market.outcomes_count {
        Some(PolybetError::InvalidOutcome)
    } else {
        None
    }
}

/// Resolves the market to `winner_index` on the word of its authority.
///
/// A market is resolved once: on a resolved market this fails and leaves the
/// winner as it is.
pub fn resolve_market(market: &mut Market, signer: &Identity, winner_index: u8) -> (r: Result<
    (),
    PolybetError,
>)
    requires
        old(market).wf(),
    ensures
        resolve_failure(*old(market), *signer, winner_index) matches Some(e) ==> r == Err::<
            (),
            PolybetError,
        >(e),
        resolve_failure(*old(market), *signer, winner_index) is None ==> r is Ok,
        r is Ok ==> *final(market) == (Market {
            resolved: true,
            winner_index: Some(winner_index),
            ..*old(market)
        }),
        r is Err ==> *final(market) == *old(market),
        old(market).resolved ==> r is Err && final(market).winner_index == old(
            market,
        ).winner_index,
        final(market).wf(),
{
    if !signer.same(&market.authority) {
        return Err(PolybetError::Unauthorized);
    }
    if market.resolved {
        return Err(PolybetError::MarketEnded);
    }
    if winner_index >= market.outcomes_count {
        return Err(PolybetError::InvalidOutcome);
    }
    market.resolved = true;
    market.winner_index = Some(winner_index);
    Ok(())
}

/// What the treasury owes to `vote` of `market`: the payout and the fee that
/// were fixed when the bet was placed, as long as the vote is not claimed and
/// can still win: its market is not resolved yet, or resolved to its outcome.
pub open spec fn vote_due(market: Market, vote: Vote) -> int {
    if vote.claimed || (market.resolved && market.winner_index != Some(vote.outcome_index)) {
        0
    } else {
        vote.locked_payout + vote.locked_dev_fee
    }
}

/// Adds what the treasury owes to `vote` of `market` to `total`. Callers
/// fold this over the votes of all markets to learn what must stay in the
/// treasury. Fails with `MathOverflow` when the sum does not fit 64 bits.
pub fn add_vote_due(total: u64, market: &Market, vote: &Vote) -> (r: Result<u64, PolybetError>)
    ensures
        total + vote_due(*market, *vote) <= u64::MAX ==> r == Ok::<u64, PolybetError>(
            (total + vote_due(*market, *vote)) as u64,
        ),
        total + vote_due(*market, *vote) > u64::MAX ==> r == Err::<u64, PolybetError>(
            PolybetError::MathOverflow,
        ),
{
    let wins: bool = match market.winner_index {
        Some(w) => w == vote.outcome_index,
        None => false,
    };
    if vote.claimed || (market.resolved && !wins) {
        return Ok(total);
    }
    let due: u128 = vote.locked_payout as u128 + vote.locked_dev_fee as u128 + total as u128;
    if due > u64::MAX as u128 {
        Err(PolybetError::MathOverflow)
    } else {
        Ok(due as u64)
    }
}

/// Why a sweep of the treasury is refused, if it is.
pub open spec fn sweep_failure(
    config: ProtocolConfig,
    signer: Identity,
    amount: u64,
    treasury_balance: u64,
    owed: u64,
) -> Option<PolybetError> {
    if signer != config.authority {
        Some(PolybetError::Unauthorized)
    } else if amount + owed > treasury_balance {
        Some(PolybetError::InsufficientFunds)
    } else {
        None
    }
}

/// Decides a sweep of `amount` out of the treasury to a destination of the
/// authority's choosing.
///
/// `treasury_balance` is what the treasury holds and `owed` what must stay in
/// it: the locked payouts and fees of the unclaimed votes of all markets, as
/// `add_vote_due` sums them. Only the authority of the protocol settings may
/// sweep, and only what the treasury holds beyond what is owed. Returns the
/// amount to move.
pub fn sweep_profit(
    config: &ProtocolConfig,
    signer: &Identity,
    amount: u64,
    treasury_balance: u64,
    owed: u64,
) -> (r: Result<u64, PolybetError>)
    ensures
        sweep_failure(*config, *signer, amount, treasury_balance, owed) matches Some(e) ==> r
            == Err::<u64, PolybetError>(e),
        sweep_failure(*config, *signer, amount, treasury_balance, owed) is None ==> r == Ok::<
            u64,
            PolybetError,
        >(amount),
        r is Ok ==> r->Ok_0 <= treasury_balance - owed,
{
    if !signer.same(&config.authority) {
        return Err(PolybetError::Unauthorized);
    }
    if owed > treasury_balance || amount > treasury_balance - owed {
        return Err(PolybetError::InsufficientFunds);
    }
    Ok(amount)
}

/// A vote is paid once: after a claim that succeeded, the same claim fails
/// with `AlreadyClaimed`, so it orders no second transfer.
pub proof fn lemma_second_claim_fails(market: Market, vote: Vote, user: Identity, market_key: Identity)
    requires
        claim_failure(market, vote, user, market_key) is None,
    ensures
        claim_failure(market, (Vote { claimed: true, ..vote }), user, market_key) == Some(
            PolybetError::AlreadyClaimed,
        ),
        vote_due(market, (Vote { claimed: true, ..vote })) == 0,
{
}

/// Resolution is final: on a resolved market every further resolution fails,
/// for whatever outcome. Since a failing handler changes nothing, the winner
/// stays as it is.
pub proof fn lemma_resolution_is_final(market: Market, signer: Identity, winner_index: u8)
    requires
        market.resolved,
    ensures
        resolve_failure(market, signer, winner_index) is Some,
        signer == market.authority ==> resolve_failure(market, signer, winner_index) == Some(
            PolybetError::MarketEnded,
        ),
{
}

/// Betting closes at the end time: a bet at the end time or later fails as
/// a temporal violation, whatever else holds of it.
pub proof fn lemma_betting_closes_at_end_time(
    market: Market,
    now: i64,
    outcome_index: u8,
    amount: u64,
)
    requires
        now >= market.end_timestamp,
    ensures
        place_vote_failure(market, now, outcome_index, amount) == Some(PolybetError::MarketEnded),
        PolybetError::MarketEnded.spec_class() == crate::errors::ErrorClass::TemporalViolation,
{
}

/// Before the end time a bet succeeds: on a market that is not resolved, a
/// bet on one of its outcomes is taken as long as its payout can be fixed
/// and the pot can hold it.
pub proof fn lemma_betting_open_before_end_time(
    market: Market,
    now: i64,
    outcome_index: u8,
    amount: u64,
)
    requires
        now < market.end_timestamp,
        !market.resolved,
        outcome_index < market.outcomes_count,
        locked_quote_fits(
            amount as int,
            market.total_pot as int,
            market.outcome_totals@[outcome_index as int] as int,
        ),
        market.total_pot + amount <= u64::MAX,
    ensures
        place_vote_failure(market, now, outcome_index, amount) is None,
{
}

/// Every stake is booked in full: a bet that is taken raises the pot and the
/// sum of the outcome totals by exactly the stake. What the pot holds beyond
/// the outcome totals therefore stays what the seeding of the market left
/// there.
pub proof fn lemma_bet_is_booked_in_full(market: Market, now: i64, outcome_index: u8, amount: u64)
    requires
        market.wf(),
        place_vote_failure(market, now, outcome_index, amount) is None,
    ensures
        market.with_stake(outcome_index, amount).wf(),
        market.with_stake(outcome_index, amount).total_pot == market.total_pot + amount,
        pool_sum(market.with_stake(outcome_index, amount).outcome_totals@) == pool_sum(
            market.outcome_totals@,
        ) + amount,
        market.with_stake(outcome_index, amount).total_pot - pool_sum(
            market.with_stake(outcome_index, amount).outcome_totals@,
        ) == market.total_pot - pool_sum(market.outcome_totals@),
{
    let after = market.with_stake(outcome_index, amount);
    assert(after.outcome_totals@ == market.outcome_totals@.update(
        outcome_index as int,
        (market.outcome_totals@[outcome_index as int] + amount) as u64,
    ));
}

/// A sweep of the treasury leaves what votes are owed: whatever amount is
/// granted, the treasury still holds at least `owed` afterwards, and a
/// request that would reach into it is refused.
pub proof fn lemma_sweep_leaves_what_is_owed(
    config: ProtocolConfig,
    signer: Identity,
    amount: u64,
    treasury_balance: u64,
    owed: u64,
)
    ensures
        sweep_failure(config, signer, amount, treasury_balance, owed) is None ==> treasury_balance
            - amount >= owed,
        signer == config.authority && treasury_balance - amount < owed ==> sweep_failure(
            config,
            signer,
            amount,
            treasury_balance,
            owed,
        ) == Some(PolybetError::InsufficientFunds),
{
}

/// A claim pays what the vote is owed: where a claim succeeds, the payout
/// and the fee it orders are together what the treasury owed to the vote,
/// and afterwards it owes the vote nothing.
pub proof fn lemma_claim_pays_what_is_owed(market: Market, vote: Vote, user: Identity, market_key: Identity)
    requires
        claim_failure(market, vote, user, market_key) is None,
    ensures
        vote_due(market, vote) == vote.locked_payout + vote.locked_dev_fee,
        vote_due(market, (Vote { claimed: true, ..vote })) == 0,
{
}

} // verus!
