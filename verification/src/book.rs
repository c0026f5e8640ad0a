//! The books of one market of the per-market-vault engine.
//!
//! The handlers of the engine see one market and one vote at a time. This
//! module puts a market together with all of its votes and with the balance
//! of its vault, replays the handlers on that whole, and proves what no
//! single handler can state: custody always covers what the market still
//! owes, also after a sweep, and fees, burns and payouts together never
//! exceed the pool.
//!
//! Everything here is specification and proof; nothing is compiled.

use vstd::prelude::*;
use crate::calc::{lemma_budget_within_pool, lemma_winnings_scaled};
use crate::identity::Identity;
use crate::prophet::{
    claim_failure, claim_receipt, distribute_fees_failure, due, dues, early_exit_failure,
    lemma_due_within_u64, lemma_dues_nonneg, oracle_resolve_failure, owed, place_vote_failure,
    resolve_failure, sweep_failure, Market, VoteRecord,
};

verus! {

/// What `vote` still has at stake on `outcome`, or on any outcome when none
/// is named. A settled record has nothing at stake.
pub open spec fn open_stake(vote: VoteRecord, outcome: Option<u8>) -> int {
    if vote.claimed {
        0
    } else {
        match outcome {
            Some(k) => if vote.outcome_index == k {
                vote.amount as int
            } else {
                0
            },
            None => vote.amount as int,
        }
    }
}

/// What all of `votes` together still have at stake on `outcome`, or on any
/// outcome when none is named.
pub open spec fn open_stakes(votes: Seq<VoteRecord>, outcome: Option<u8>) -> int
    decreases votes.len(),
{
    if votes.len() == 0 {
        0
    } else {
        open_stakes(votes.drop_last(), outcome) + open_stake(votes.last(), outcome)
    }
}

/// Stakes are never negative.
pub proof fn lemma_open_stakes_nonneg(votes: Seq<VoteRecord>, outcome: Option<u8>)
    ensures
        0 <= open_stakes(votes, outcome),
    decreases votes.len(),
{
    if votes.len() > 0 {
        lemma_open_stakes_nonneg(votes.drop_last(), outcome);
    }
}

/// A new record adds its own stake to the sum.
pub proof fn lemma_open_stakes_push(votes: Seq<VoteRecord>, vote: VoteRecord, outcome: Option<u8>)
    ensures
        open_stakes(votes.push(vote), outcome) == open_stakes(votes, outcome) + open_stake(
            vote,
            outcome,
        ),
{
    assert(votes.push(vote).drop_last() =~= votes);
}

/// Replacing one record changes the sum by the difference of the two stakes.
pub proof fn lemma_open_stakes_update(
    votes: Seq<VoteRecord>,
    i: int,
    vote: VoteRecord,
    outcome: Option<u8>,
)
    requires
        0 <= i < votes.len(),
    ensures
        open_stakes(votes.update(i, vote), outcome) == open_stakes(votes, outcome) - open_stake(
            votes[i],
            outcome,
        ) + open_stake(vote, outcome),
    decreases votes.len(),
{
    if i == votes.len() - 1 {
        assert(votes.update(i, vote).drop_last() =~= votes.drop_last());
    } else {
        assert(votes.update(i, vote).drop_last() =~= votes.drop_last().update(i, vote));
        lemma_open_stakes_update(votes.drop_last(), i, vote, outcome);
    }
}

/// One record's stake is part of the sum.
pub proof fn lemma_open_stake_within_sum(votes: Seq<VoteRecord>, i: int, outcome: Option<u8>)
    requires
        0 <= i < votes.len(),
    ensures
        0 <= open_stake(votes[i], outcome) <= open_stakes(votes, outcome),
    decreases votes.len(),
{
    if i == votes.len() - 1 {
        lemma_open_stakes_nonneg(votes.drop_last(), outcome);
    } else {
        lemma_open_stake_within_sum(votes.drop_last(), i, outcome);
    }
}

/// A new record adds what it is owed to the sum.
pub proof fn lemma_dues_push(market: Market, key: Identity, votes: Seq<VoteRecord>, vote: VoteRecord)
    ensures
        dues(market, key, votes.push(vote)) == dues(market, key, votes) + due(market, key, vote),
{
    assert(votes.push(vote).drop_last() =~= votes);
}

/// Replacing one record changes the sum by the difference of what the two
/// are owed.
pub proof fn lemma_dues_update(
    market: Market,
    key: Identity,
    votes: Seq<VoteRecord>,
    i: int,
    vote: VoteRecord,
)
    requires
        0 <= i < votes.len(),
    ensures
        dues(market, key, votes.update(i, vote)) == dues(market, key, votes) - due(
            market,
            key,
            votes[i],
        ) + due(market, key, vote),
    decreases votes.len(),
{
    if i == votes.len() - 1 {
        assert(votes.update(i, vote).drop_last() =~= votes.drop_last());
    } else {
        assert(votes.update(i, vote).drop_last() =~= votes.drop_last().update(i, vote));
        lemma_dues_update(market, key, votes.drop_last(), i, vote);
    }
}

/// Whether two states of a market settle alike: what a record is owed
/// depends on nothing else.
pub open spec fn settles_alike(a: Market, b: Market) -> bool {
    &&& a.resolved == b.resolved
    &&& a.cancelled == b.cancelled
    &&& a.winning_outcome == b.winning_outcome
    &&& a.totals == b.totals
    &&& a.total_liquidity == b.total_liquidity
    &&& a.policy == b.policy
}

/// Markets that settle alike owe the same.
pub proof fn lemma_dues_alike(a: Market, b: Market, key: Identity, votes: Seq<VoteRecord>)
    requires
        settles_alike(a, b),
    ensures
        dues(a, key, votes) == dues(b, key, votes),
    decreases votes.len(),
{
    if votes.len() > 0 {
        lemma_dues_alike(a, b, key, votes.drop_last());
    }
}

/// A market that was called off owes no more than what is still staked.
pub proof fn lemma_dues_within_stakes(market: Market, key: Identity, votes: Seq<VoteRecord>)
    requires
        market.cancelled,
    ensures
        dues(market, key, votes) <= open_stakes(votes, None),
    decreases votes.len(),
{
    if votes.len() > 0 {
        lemma_dues_within_stakes(market, key, votes.drop_last());
    }
}

/// What a resolved market owes beyond the stakes it hands back, scaled by
/// the winning total, never exceeds the open winning stakes' claim on the
/// winnings pool. A market without winning stake owes nothing.
pub proof fn lemma_dues_scaled(market: Market, key: Identity, votes: Seq<VoteRecord>)
    requires
        market.wf(),
        market.resolved,
        !market.cancelled,
    ensures
        ({
            let winner = market.winning_outcome->Some_0;
            let total = market.totals@[winner as int] as int;
            let staked = open_stakes(votes, market.winning_outcome);
            let pool = market.policy.winnings_pool(
                market.totals@,
                market.total_liquidity as int,
                winner as int,
            );
            let back = if market.policy.returns_stake() {
                staked
            } else {
                0
            };
            &&& 0 <= staked
            &&& total == 0 ==> dues(market, key, votes) == 0
            &&& total > 0 ==> (dues(market, key, votes) - back) * total <= pool * staked
        }),
    decreases votes.len(),
{
    let winner = market.winning_outcome->Some_0;
    let total = market.totals@[winner as int] as int;
    let pool = market.policy.winnings_pool(
        market.totals@,
        market.total_liquidity as int,
        winner as int,
    );
    if votes.len() > 0 {
        let rest = votes.drop_last();
        let vote = votes.last();
        lemma_dues_scaled(market, key, rest);
        if total > 0 {
            let stake = open_stake(vote, market.winning_outcome);
            let owed_now = due(market, key, vote);
            let gain = if market.policy.returns_stake() {
                owed_now - stake
            } else {
                owed_now
            };
            lemma_winnings_scaled(
                market.policy,
                market.totals@,
                market.total_liquidity as int,
                winner as int,
                vote.amount as int,
            );
            assert(gain * total <= pool * stake) by {
                if owed_now == 0 {
                    assert(gain * total <= 0) by (nonlinear_arith)
                        requires
                            gain <= 0,
                            0 < total,
                    ;
                    assert(0 <= pool * stake) by (nonlinear_arith)
                        requires
                            0 <= pool,
                            0 <= stake,
                    ;
                }
            }
            let rest_staked = open_stakes(rest, market.winning_outcome);
            let rest_back = if market.policy.returns_stake() {
                rest_staked
            } else {
                0
            };
            let rest_dues = dues(market, key, rest);
            assert((rest_dues - rest_back + gain) * total <= pool * (rest_staked + stake))
                by (nonlinear_arith)
                requires
                    (rest_dues - rest_back) * total <= pool * rest_staked,
                    gain * total <= pool * stake,
            ;
        }
    } else {
        assert(0 * total == 0);
        assert(pool * 0 == 0);
    }
}

/// When a market is resolved, the pool covers the fees and everything the
/// winners are owed, and what the winners are owed beyond the stakes that the
/// policy hands back stays within the winnings pool: under the losing-pool
/// split, within the winners' part of the losing pools.
pub proof fn lemma_pool_covers_resolution(market: Market, key: Identity, votes: Seq<VoteRecord>)
    requires
        market.wf(),
        market.resolved,
        !market.cancelled,
        !market.fees_distributed,
        open_stakes(votes, market.winning_outcome) <= market.totals@[market.winning_outcome->Some_0 as int],
    ensures
        0 <= owed(market, key, votes) <= market.total_liquidity,
        dues(market, key, votes) - (if market.policy.returns_stake() {
            open_stakes(votes, market.winning_outcome)
        } else {
            0
        }) <= market.policy.winnings_pool(
            market.totals@,
            market.total_liquidity as int,
            market.winning_outcome->Some_0 as int,
        ),
{
    let winner = market.winning_outcome->Some_0;
    let total = market.totals@[winner as int] as int;
    let staked = open_stakes(votes, market.winning_outcome);
    let pool = market.policy.winnings_pool(
        market.totals@,
        market.total_liquidity as int,
        winner as int,
    );
    let owed_to_all = dues(market, key, votes);
    lemma_dues_scaled(market, key, votes);
    lemma_dues_nonneg(market, key, votes);
    lemma_budget_within_pool(
        market.policy,
        market.totals@,
        market.total_liquidity as int,
        winner as int,
    );
    if total > 0 {
        let back = if market.policy.returns_stake() {
            staked
        } else {
            0
        };
        assert(owed_to_all - back <= pool) by (nonlinear_arith)
            requires
                (owed_to_all - back) * total <= pool * staked,
                0 <= staked <= total,
                0 < total,
                0 <= pool,
        ;
    }
}

/// A record without stake is owed nothing.
pub proof fn lemma_nothing_due_without_stake(market: Market, key: Identity, vote: VoteRecord)
    requires
        market.wf(),
        vote.amount == 0,
    ensures
        due(market, key, vote) == 0,
{
    if claim_failure(market, vote, vote.user, key) is None && !market.cancelled {
        let total = market.totals@[vote.outcome_index as int] as int;
        lemma_winnings_scaled(
            market.policy,
            market.totals@,
            market.total_liquidity as int,
            vote.outcome_index as int,
            0,
        );
        let gain = market.policy.winnings(
            market.totals@,
            market.total_liquidity as int,
            vote.outcome_index as int,
            0,
        );
        let pool = market.policy.winnings_pool(
            market.totals@,
            market.total_liquidity as int,
            vote.outcome_index as int,
        );
        assert(gain == 0) by (nonlinear_arith)
            requires
                gain * total <= pool * 0,
                0 <= gain,
                0 < total,
        ;
    }
}

/// A market, the records of all who bet in it, the balance of its vault,
/// and running totals of what moved in and out.
pub struct Book {
    pub market: Market,
    pub key: Identity,
    pub votes: Seq<VoteRecord>,
    /// What the vault holds.
    pub vault: int,
    /// Stakes moved into the vault.
    pub deposited: int,
    /// Refunds of early exits moved out.
    pub exit_refunds: int,
    /// Payouts of claims moved out: winnings, and the refunds of a market
    /// that was called off.
    pub claimed_payouts: int,
    /// Creator and developer fees moved out.
    pub fees_transferred: int,
    /// Burnt out of the vault.
    pub burned: int,
    /// Dust swept out of the vault.
    pub swept: int,
}

/// One call of a handler on the market of a book.
pub enum Op {
    /// A user gets a vacant record.
    Enroll { user: Identity },
    /// `place_vote` on record `voter`.
    Bet { voter: int, user: Identity, now: i64, amount: u64, outcome_index: u8 },
    /// `early_exit` on record `voter`.
    Exit { voter: int, user: Identity },
    /// `pause_market`.
    Pause { signer: Identity, pause: bool },
    /// `resolve_market`.
    Resolve { signer: Identity, outcome_index: u8 },
    /// `resolve_via_oracle`.
    OracleResolve { oracle: Identity, outcome_index: u8 },
    /// `cancel_market`.
    Cancel { signer: Identity },
    /// `distribute_fees`.
    DistributeFees { signer: Identity },
    /// `claim_winnings` on record `voter`.
    Claim { voter: int, user: Identity },
    /// `sweep_market`, told what the vault holds and what the records are
    /// owed.
    Sweep { signer: Identity, now: i64 },
}

impl Book {
    /// The books of a market that was just created: no records, an empty
    /// vault.
    pub open spec fn open(market: Market, key: Identity) -> Book {
        Book {
            market,
            key,
            votes: Seq::empty(),
            vault: 0,
            deposited: 0,
            exit_refunds: 0,
            claimed_payouts: 0,
            fees_transferred: 0,
            burned: 0,
            swept: 0,
        }
    }

    /// What settlement has moved out: payouts, fees and burns.
    pub open spec fn outflow(self) -> int {
        self.claimed_payouts + self.fees_transferred + self.burned
    }

    /// Whether settlement has not moved anything yet.
    pub open spec fn untouched(self) -> bool {
        self.claimed_payouts == 0 && self.fees_transferred == 0 && self.burned == 0
    }

    /// What is left of the pool after what settlement has moved out. Once
    /// every winner is paid this is the dust.
    pub open spec fn residual(self) -> int {
        self.market.total_liquidity - self.outflow()
    }

    /// What must stay in the vault: the fees still to be taken and what the
    /// records are owed.
    pub open spec fn owed(self) -> int {
        owed(self.market, self.key, self.votes)
    }

    /// The books after `op`. A call that the handler refuses changes
    /// nothing.
    pub open spec fn apply(self, op: Op) -> Book {
        match op {
            Op::Enroll { user } => Book {
                votes: self.votes.push(
                    VoteRecord {
                        user,
                        market: self.key,
                        outcome_index: 0,
                        amount: 0,
                        claimed: false,
                    },
                ),
                ..self
            },
            Op::Bet { voter, user, now, amount, outcome_index } => {
                if 0 <= voter < self.votes.len() && place_vote_failure(
                    self.market,
                    self.votes[voter],
                    user,
                    self.key,
                    now,
                    amount,
                    outcome_index,
                ) is None {
                    Book {
                        market: self.market.with_stake(outcome_index, amount),
                        votes: self.votes.update(
                            voter,
                            self.votes[voter].topped_up(user, self.key, outcome_index, amount),
                        ),
                        vault: self.vault + amount,
                        deposited: self.deposited + amount,
                        ..self
                    }
                } else {
                    self
                }
            },
            Op::Exit { voter, user } => {
                if 0 <= voter < self.votes.len() && early_exit_failure(
                    self.market,
                    self.votes[voter],
                    user,
                    self.key,
                ) is None {
                    let vote = self.votes[voter];
                    let refund = crate::calc::exit_refund(vote.amount as int);
                    Book {
                        market: self.market.without_stake(vote.outcome_index, vote.amount),
                        votes: self.votes.update(voter, vote.exited()),
                        vault: self.vault - refund,
                        exit_refunds: self.exit_refunds + refund,
                        ..self
                    }
                } else {
                    self
                }
            },
            Op::Pause { signer, pause } => {
                if signer == self.market.authority {
                    Book { market: self.market.with_pause(pause), ..self }
                } else {
                    self
                }
            },
            Op::Resolve { signer, outcome_index } => {
                if resolve_failure(self.market, signer, outcome_index) is None {
                    Book { market: self.market.resolved_to(outcome_index), ..self }
                } else {
                    self
                }
            },
            Op::OracleResolve { oracle, outcome_index } => {
                if oracle_resolve_failure(self.market, oracle, outcome_index) is None {
                    Book { market: self.market.resolved_to(outcome_index), ..self }
                } else {
                    self
                }
            },
            Op::Cancel { signer } => {
                if signer == self.market.authority && !self.market.resolved {
                    Book { market: self.market.called_off(), ..self }
                } else {
                    self
                }
            },
            Op::DistributeFees { signer } => {
                if distribute_fees_failure(self.market, signer) is None {
                    let fees = self.market.fees_due(self.key);
                    Book {
                        market: self.market.with_fees_taken(),
                        vault: self.vault - fees.creator_fee - fees.dev_fee - fees.burn_amount,
                        fees_transferred: self.fees_transferred + fees.creator_fee + fees.dev_fee,
                        burned: self.burned + fees.burn_amount,
                        ..self
                    }
                } else {
                    self
                }
            },
            Op::Claim { voter, user } => {
                if 0 <= voter < self.votes.len() && claim_failure(
                    self.market,
                    self.votes[voter],
                    user,
                    self.key,
                ) is None {
                    let receipt = claim_receipt(self.market, self.votes[voter], self.key);
                    let fee_out: int = match receipt.fees {
                        Some(fees) => fees.creator_fee + fees.dev_fee,
                        None => 0,
                    };
                    let burn_out: int = match receipt.fees {
                        Some(fees) => fees.burn_amount as int,
                        None => 0,
                    };
                    Book {
                        market: self.market.after_claim(),
                        votes: self.votes.update(voter, self.votes[voter].settled()),
                        vault: self.vault - fee_out - burn_out - receipt.payout,
                        claimed_payouts: self.claimed_payouts + receipt.payout,
                        fees_transferred: self.fees_transferred + fee_out,
                        burned: self.burned + burn_out,
                        ..self
                    }
                } else {
                    self
                }
            },
            Op::Sweep { signer, now } => {
                if 0 <= self.vault <= u64::MAX && 0 <= self.owed() <= u64::MAX && sweep_failure(
                    self.market,
                    signer,
                    now,
                    self.vault as u64,
                    self.owed() as u64,
                ) is None {
                    Book {
                        vault: self.owed(),
                        swept: self.swept + (self.vault - self.owed()),
                        ..self
                    }
                } else {
                    self
                }
            },
        }
    }

    /// The books after a sequence of calls, first to last.
    pub open spec fn run(self, ops: Seq<Op>) -> Book
        decreases ops.len(),
    {
        if ops.len() == 0 {
            self
        } else {
            self.run(ops.drop_last()).apply(ops.last())
        }
    }

    /// What holds of the books at all times.
    ///
    /// The vault holds what came in less what went out. While the market is
    /// open the records account for every outcome total and the vault covers
    /// the pool. Once it is resolved or called off, both the vault and what
    /// is left of the pool cover the fees still to be taken and everything
    /// the records are owed.
    pub open spec fn inv(self) -> bool {
        &&& self.market.wf()
        &&& self.vault == self.deposited - self.exit_refunds - self.outflow() - self.swept
        &&& if !self.market.resolved {
            &&& self.untouched()
            &&& self.vault >= self.market.total_liquidity
            &&& open_stakes(self.votes, None) == self.market.total_liquidity
            &&& forall|k: u8|
                k < 8 ==> #[trigger] open_stakes(self.votes, Some(k)) == self.market.totals@[k as int]
        } else {
            &&& self.residual() >= self.owed()
            &&& self.vault >= self.owed()
        }
    }
}

/// Enrolling a user keeps the books in order.
proof fn lemma_enroll_keeps_inv(book: Book, user: Identity)
    requires
        book.inv(),
    ensures
        book.apply(Op::Enroll { user }).inv(),
{
    let vote = VoteRecord { user, market: book.key, outcome_index: 0, amount: 0, claimed: false };
    lemma_open_stakes_push(book.votes, vote, None);
    lemma_dues_push(book.market, book.key, book.votes, vote);
    lemma_nothing_due_without_stake(book.market, book.key, vote);
    assert forall|k: u8| k < 8 implies #[trigger] open_stakes(book.votes.push(vote), Some(k))
        == open_stakes(book.votes, Some(k)) by {
        lemma_open_stakes_push(book.votes, vote, Some(k));
    }
}

/// A bet keeps the books in order.
proof fn lemma_bet_keeps_inv(
    book: Book,
    voter: int,
    user: Identity,
    now: i64,
    amount: u64,
    outcome_index: u8,
)
    requires
        book.inv(),
    ensures
        book.apply(Op::Bet { voter, user, now, amount, outcome_index }).inv(),
{
    let post = book.apply(Op::Bet { voter, user, now, amount, outcome_index });
    if 0 <= voter < book.votes.len() && place_vote_failure(
        book.market,
        book.votes[voter],
        user,
        book.key,
        now,
        amount,
        outcome_index,
    ) is None {
        let before = book.votes[voter];
        let after = before.topped_up(user, book.key, outcome_index, amount);
        assert(post.market.totals@ == book.market.totals@.update(
            outcome_index as int,
            (book.market.totals@[outcome_index as int] + amount) as u64,
        ));
        assert(post.market.wf());
        lemma_open_stakes_update(book.votes, voter, after, None);
        assert forall|k: u8| k < 8 implies #[trigger] open_stakes(post.votes, Some(k))
            == post.market.totals@[k as int] by {
            lemma_open_stakes_update(book.votes, voter, after, Some(k));
        }
    }
}

/// An early exit keeps the books in order.
proof fn lemma_exit_keeps_inv(book: Book, voter: int, user: Identity)
    requires
        book.inv(),
    ensures
        book.apply(Op::Exit { voter, user }).inv(),
{
    let post = book.apply(Op::Exit { voter, user });
    if 0 <= voter < book.votes.len() && early_exit_failure(
        book.market,
        book.votes[voter],
        user,
        book.key,
    ) is None {
        let before = book.votes[voter];
        let after = before.exited();
        assert(post.market.totals@ == book.market.totals@.update(
            before.outcome_index as int,
            (book.market.totals@[before.outcome_index as int] - before.amount) as u64,
        ));
        assert(post.market.wf());
        lemma_open_stakes_update(book.votes, voter, after, None);
        assert forall|k: u8| k < 8 implies #[trigger] open_stakes(post.votes, Some(k))
            == post.market.totals@[k as int] by {
            lemma_open_stakes_update(book.votes, voter, after, Some(k));
        }
    }
}

/// A change of the pause switch keeps the books in order.
proof fn lemma_pause_keeps_inv(book: Book, signer: Identity, pause: bool)
    requires
        book.inv(),
    ensures
        book.apply(Op::Pause { signer, pause }).inv(),
{
    if signer == book.market.authority {
        lemma_dues_alike(book.market, book.market.with_pause(pause), book.key, book.votes);
    }
}

/// A resolution keeps the books in order, whoever resolves.
proof fn lemma_resolution_keeps_inv(book: Book, outcome_index: u8)
    requires
        book.inv(),
        !book.market.resolved,
        outcome_index < book.market.outcome_count,
    ensures
        (Book { market: book.market.resolved_to(outcome_index), ..book }).inv(),
{
    assert(open_stakes(book.votes, Some(outcome_index)) == book.market.totals@[outcome_index as int]);
    lemma_pool_covers_resolution(book.market.resolved_to(outcome_index), book.key, book.votes);
}

/// A cancellation keeps the books in order.
proof fn lemma_cancel_keeps_inv(book: Book, signer: Identity)
    requires
        book.inv(),
    ensures
        book.apply(Op::Cancel { signer }).inv(),
{
    if signer == book.market.authority && !book.market.resolved {
        lemma_dues_within_stakes(book.market.called_off(), book.key, book.votes);
    }
}

/// A distribution of fees keeps the books in order.
proof fn lemma_fees_keep_inv(book: Book, signer: Identity)
    requires
        book.inv(),
    ensures
        book.apply(Op::DistributeFees { signer }).inv(),
{
    if distribute_fees_failure(book.market, signer) is None {
        lemma_budget_within_pool(
            book.market.policy,
            book.market.totals@,
            book.market.total_liquidity as int,
            0,
        );
        lemma_dues_alike(book.market, book.market.with_fees_taken(), book.key, book.votes);
    }
}

/// A claim keeps the books in order.
proof fn lemma_claim_keeps_inv(book: Book, voter: int, user: Identity)
    requires
        book.inv(),
    ensures
        book.apply(Op::Claim { voter, user }).inv(),
{
    if 0 <= voter < book.votes.len() && claim_failure(
        book.market,
        book.votes[voter],
        user,
        book.key,
    ) is None {
        let before = book.votes[voter];
        let after = before.settled();
        lemma_budget_within_pool(
            book.market.policy,
            book.market.totals@,
            book.market.total_liquidity as int,
            0,
        );
        lemma_due_within_u64(book.market, book.key, before);
        lemma_dues_update(book.market, book.key, book.votes, voter, after);
        lemma_dues_alike(
            book.market,
            book.market.after_claim(),
            book.key,
            book.votes.update(voter, after),
        );
    }
}

/// A sweep keeps the books in order.
proof fn lemma_sweep_keeps_inv(book: Book, signer: Identity, now: i64)
    requires
        book.inv(),
    ensures
        book.apply(Op::Sweep { signer, now }).inv(),
{
}

/// Whatever is called on the market, the books stay in order.
pub proof fn lemma_apply_keeps_inv(book: Book, op: Op)
    requires
        book.inv(),
    ensures
        book.apply(op).inv(),
{
    match op {
        Op::Enroll { user } => lemma_enroll_keeps_inv(book, user),
        Op::Bet { voter, user, now, amount, outcome_index } => lemma_bet_keeps_inv(
            book,
            voter,
            user,
            now,
            amount,
            outcome_index,
        ),
        Op::Exit { voter, user } => lemma_exit_keeps_inv(book, voter, user),
        Op::Pause { signer, pause } => lemma_pause_keeps_inv(book, signer, pause),
        Op::Resolve { signer, outcome_index } => {
            if resolve_failure(book.market, signer, outcome_index) is None {
                lemma_resolution_keeps_inv(book, outcome_index);
            }
        },
        Op::OracleResolve { oracle, outcome_index } => {
            if oracle_resolve_failure(book.market, oracle, outcome_index) is None {
                lemma_resolution_keeps_inv(book, outcome_index);
            }
        },
        Op::Cancel { signer } => lemma_cancel_keeps_inv(book, signer),
        Op::DistributeFees { signer } => lemma_fees_keep_inv(book, signer),
        Op::Claim { voter, user } => lemma_claim_keeps_inv(book, voter, user),
        Op::Sweep { signer, now } => lemma_sweep_keeps_inv(book, signer, now),
    }
}

/// However long the market runs, the books stay in order.
pub proof fn lemma_run_keeps_inv(book: Book, ops: Seq<Op>)
    requires
        book.inv(),
    ensures
        book.run(ops).inv(),
    decreases ops.len(),
{
    if ops.len() > 0 {
        lemma_run_keeps_inv(book, ops.drop_last());
        lemma_apply_keeps_inv(book.run(ops.drop_last()), ops.last());
    }
}

/// Conservation. Start from a market that was just created and call the
/// handlers in any order, with any arguments, sweeps included. Then at every
/// moment:
///
/// - the vault holds exactly what was staked less what was paid or swept
///   out of it;
/// - claimed payouts, transferred fees and burns, together with what is left
///   of the pool, make up the pool, and what is left is never negative: no
///   rounding ever pays out more than was staked;
/// - the vault covers the pool while the market is open, and afterwards the
///   fees still to be taken and everything the records are owed: no payout
///   that a handler orders can overdraw it, and no sweep takes what a record
///   can still claim.
pub proof fn conservation(market: Market, key: Identity, ops: Seq<Op>)
    requires
        market.wf(),
        !market.resolved,
        market.total_liquidity == 0,
    ensures
        ({
            let book = Book::open(market, key).run(ops);
            &&& book.vault == book.deposited - book.exit_refunds - book.claimed_payouts
                - book.fees_transferred - book.burned - book.swept
            &&& book.claimed_payouts + book.fees_transferred + book.burned + book.residual()
                == book.market.total_liquidity
            &&& book.residual() >= 0
            &&& book.claimed_payouts + book.fees_transferred + book.burned
                <= book.market.total_liquidity
            &&& !book.market.resolved ==> book.vault >= book.market.total_liquidity
            &&& book.market.resolved ==> book.residual() >= book.owed() && book.vault
                >= book.owed() && book.owed() >= 0
        }),
{
    let start = Book::open(market, key);
    assert(start.inv()) by {
        assert forall|k: u8| k < 8 implies #[trigger] open_stakes(start.votes, Some(k))
            == market.totals@[k as int] by {}
    }
    lemma_run_keeps_inv(start, ops);
    let book = start.run(ops);
    lemma_dues_nonneg(book.market, book.key, book.votes);
    lemma_budget_within_pool(
        book.market.policy,
        book.market.totals@,
        book.market.total_liquidity as int,
        0,
    );
}

} // verus!
