//! Typed failures of the settlement handlers.
//!
//! Every handler checks all of its preconditions before it changes anything,
//! so an error always means that no state was touched and that nothing must
//! be moved in custody. Each error belongs to one of six classes, which is
//! what callers usually branch on.

use vstd::prelude::*;

verus! {

/// The six kinds of failure.
#[derive(Clone, Copy, Debug, PartialEq, Eq, Structural)]
pub enum ErrorClass {
    /// The operation came too early or too late: a bet after the close, a
    /// claim before resolution, a second resolution, a sweep before the
    /// cooldown has passed.
    TemporalViolation,
    /// The caller is not the authority or oracle that the operation needs.
    AuthorizationFailure,
    /// An argument is out of range.
    InvalidInput,
    /// The market or vote is in a state that rules the operation out.
    StateConflict,
    /// An amount does not fit the machine integers, or a winning pool is
    /// empty.
    ArithmeticFailure,
    /// Something the operation needs is not there.
    PreconditionUnmet,
}

/// Failures of the pure payout arithmetic.
#[derive(Clone, Copy, Debug, PartialEq, Eq, Structural)]
pub enum CalcError {
    /// A product or sum does not fit the integer type that holds it.
    Overflow,
    /// Nothing is staked on the winning outcome, so no share can be formed.
    NoWinningStake,
}

/// Failures of the per-market-vault engine.
#[derive(Clone, Copy, Debug, PartialEq, Eq, Structural)]
pub enum MarketError {
    AlreadyResolved,
    NotResolved,
    Loser,
    AlreadyClaimed,
    InvalidOutcomeCount,
    InvalidOutcomeIndex,
    MultipleOutcomesNotSupported,
    MarketClosed,
    FeesAlreadyDistributed,
    FeesNotDistributed,
    MarketPaused,
    MarketCancelled,
    NoActiveBet,
    BetTooSmall,
    BetTooLarge,
    InvalidMint,
    SweepTooEarly,
    NoDustToSweep,
    Unauthorized,
    MathOverflow,
    NoWinningStake,
    InvalidFeeSchedule,
}

/// Failures of the shared-treasury engine.
#[derive(Clone, Copy, Debug, PartialEq, Eq, Structural)]
pub enum PolybetError {
    MarketEnded,
    MarketActive,
    InvalidOutcome,
    AlreadyClaimed,
    Unauthorized,
    InvalidProgramId,
    MathOverflow,
    InsufficientFunds,
}

/// The general failure vocabulary of a market program.
#[derive(Clone, Copy, Debug, PartialEq, Eq, Structural)]
pub enum ProphetError {
    MarketEnded,
    MarketActive,
    InsufficientFunds,
    InvalidOutcome,
    AlreadyClaimed,
    Unauthorized,
    MathOverflow,
    OutcomeNotSet,
}

impl CalcError {
    /// The class of this failure.
    pub open spec fn spec_class(self) -> ErrorClass {
        ErrorClass::ArithmeticFailure
    }

    /// The class of this failure.
    #[verifier::when_used_as_spec(spec_class)]
    pub fn class(self) -> (c: ErrorClass)
        ensures
            c == self.spec_class(),
    {
        ErrorClass::ArithmeticFailure
    }
}

impl MarketError {
    /// The class of this failure.
    pub open spec fn spec_class(self) -> ErrorClass {
        match self {
            MarketError::AlreadyResolved => ErrorClass::TemporalViolation,
            MarketError::NotResolved => ErrorClass::TemporalViolation,
            MarketError::MarketClosed => ErrorClass::TemporalViolation,
            MarketError::SweepTooEarly => ErrorClass::TemporalViolation,
            MarketError::Unauthorized => ErrorClass::AuthorizationFailure,
            MarketError::InvalidOutcomeCount => ErrorClass::InvalidInput,
            MarketError::InvalidOutcomeIndex => ErrorClass::InvalidInput,
            MarketError::BetTooSmall => ErrorClass::InvalidInput,
            MarketError::BetTooLarge => ErrorClass::InvalidInput,
            MarketError::InvalidMint => ErrorClass::InvalidInput,
            MarketError::InvalidFeeSchedule => ErrorClass::InvalidInput,
            MarketError::AlreadyClaimed => ErrorClass::StateConflict,
            MarketError::MultipleOutcomesNotSupported => ErrorClass::StateConflict,
            MarketError::FeesAlreadyDistributed => ErrorClass::StateConflict,
            MarketError::FeesNotDistributed => ErrorClass::StateConflict,
            MarketError::MarketPaused => ErrorClass::StateConflict,
            MarketError::MarketCancelled => ErrorClass::StateConflict,
            MarketError::MathOverflow => ErrorClass::ArithmeticFailure,
            MarketError::NoWinningStake => ErrorClass::ArithmeticFailure,
            MarketError::Loser => ErrorClass::PreconditionUnmet,
            MarketError::NoActiveBet => ErrorClass::PreconditionUnmet,
            MarketError::NoDustToSweep => ErrorClass::PreconditionUnmet,
        }
    }

    /// The class of this failure.
    #[verifier::when_used_as_spec(spec_class)]
    pub fn class(self) -> (c: ErrorClass)
        ensures
            c == self.spec_class(),
    {
        match self {
            MarketError::AlreadyResolved
            | MarketError::NotResolved
            | MarketError::MarketClosed
            | MarketError::SweepTooEarly => ErrorClass::TemporalViolation,
            MarketError::Unauthorized => ErrorClass::AuthorizationFailure,
            MarketError::InvalidOutcomeCount
            | MarketError::InvalidOutcomeIndex
            | MarketError::BetTooSmall
            | MarketError::BetTooLarge
            | MarketError::InvalidMint
            | MarketError::InvalidFeeSchedule => ErrorClass::InvalidInput,
            MarketError::AlreadyClaimed
            | MarketError::MultipleOutcomesNotSupported
            | MarketError::FeesAlreadyDistributed
            | MarketError::FeesNotDistributed
            | MarketError::MarketPaused
            | MarketError::MarketCancelled => ErrorClass::StateConflict,
            MarketError::MathOverflow | MarketError::NoWinningStake => {
                ErrorClass::ArithmeticFailure
            },
            MarketError::Loser | MarketError::NoActiveBet | MarketError::NoDustToSweep => {
                ErrorClass::PreconditionUnmet
            },
        }
    }

    /// The text shown to a user for this failure.
    pub open spec fn spec_message(self) -> Seq<char> {
        match self {
            MarketError::AlreadyResolved => "Market is already resolved."@,
            MarketError::NotResolved => "Market is not resolved yet."@,
            MarketError::Loser => "You voted for the losing side."@,
            MarketError::AlreadyClaimed => "You have already claimed winnings."@,
            MarketError::InvalidOutcomeCount => "Outcome count must be between 1 and 8."@,
            MarketError::InvalidOutcomeIndex => "Invalid outcome index."@,
            MarketError::MultipleOutcomesNotSupported => "Voting for multiple outcomes in the same market is not supported."@,
            MarketError::MarketClosed => "Market has closed for voting."@,
            MarketError::FeesAlreadyDistributed => "Fees have already been distributed."@,
            MarketError::FeesNotDistributed => "Fees have not been distributed yet."@,
            MarketError::MarketPaused => "Market is currently paused."@,
            MarketError::MarketCancelled => "Market was cancelled."@,
            MarketError::NoActiveBet => "No active bet found for this user."@,
            MarketError::BetTooSmall => "Bet amount is below the minimum limit."@,
            MarketError::BetTooLarge => "Bet amount is above the maximum limit."@,
            MarketError::InvalidMint => "Invalid mint. Only Polybet Token is allowed."@,
            MarketError::SweepTooEarly => "Sweep can only occur 30 days after market resolution."@,
            MarketError::NoDustToSweep => "No dust tokens found to sweep."@,
            MarketError::Unauthorized => "Unauthorized access."@,
            MarketError::MathOverflow => "Math overflow."@,
            MarketError::NoWinningStake => "Nothing is staked on the winning outcome."@,
            MarketError::InvalidFeeSchedule => "Fees must not exceed 10000 basis points in total."@,
        }
    }

    /// The text shown to a user for this failure.
    pub fn message(self) -> (text: &'static str)
        ensures
            text@ == self.spec_message(),
    {
        match self {
            MarketError::AlreadyResolved => "Market is already resolved.",
            MarketError::NotResolved => "Market is not resolved yet.",
            MarketError::Loser => "You voted for the losing side.",
            MarketError::AlreadyClaimed => "You have already claimed winnings.",
            MarketError::InvalidOutcomeCount => "Outcome count must be between 1 and 8.",
            MarketError::InvalidOutcomeIndex => "Invalid outcome index.",
            MarketError::MultipleOutcomesNotSupported => "Voting for multiple outcomes in the same market is not supported.",
            MarketError::MarketClosed => "Market has closed for voting.",
            MarketError::FeesAlreadyDistributed => "Fees have already been distributed.",
            MarketError::FeesNotDistributed => "Fees have not been distributed yet.",
            MarketError::MarketPaused => "Market is currently paused.",
            MarketError::MarketCancelled => "Market was cancelled.",
            MarketError::NoActiveBet => "No active bet found for this user.",
            MarketError::BetTooSmall => "Bet amount is below the minimum limit.",
            MarketError::BetTooLarge => "Bet amount is above the maximum limit.",
            MarketError::InvalidMint => "Invalid mint. Only Polybet Token is allowed.",
            MarketError::SweepTooEarly => "Sweep can only occur 30 days after market resolution.",
            MarketError::NoDustToSweep => "No dust tokens found to sweep.",
            MarketError::Unauthorized => "Unauthorized access.",
            MarketError::MathOverflow => "Math overflow.",
            MarketError::NoWinningStake => "Nothing is staked on the winning outcome.",
            MarketError::InvalidFeeSchedule => "Fees must not exceed 10000 basis points in total.",
        }
    }

    /// The market failure that stands for a failure of the payout arithmetic.
    pub open spec fn of_calc(e: CalcError) -> MarketError {
        match e {
            CalcError::Overflow => MarketError::MathOverflow,
            CalcError::NoWinningStake => MarketError::NoWinningStake,
        }
    }

    /// The market failure for a failure of the payout arithmetic.
    pub fn from_calc(e: CalcError) -> (m: MarketError)
        ensures
            m == MarketError::of_calc(e),
            m.spec_class() == e.spec_class(),
    {
        match e {
            CalcError::Overflow => MarketError::MathOverflow,
            CalcError::NoWinningStake => MarketError::NoWinningStake,
        }
    }
}

impl PolybetError {
    /// The class of this failure.
    pub open spec fn spec_class(self) -> ErrorClass {
        match self {
            PolybetError::MarketEnded => ErrorClass::TemporalViolation,
            PolybetError::MarketActive => ErrorClass::TemporalViolation,
            PolybetError::InvalidOutcome => ErrorClass::InvalidInput,
            PolybetError::AlreadyClaimed => ErrorClass::StateConflict,
            PolybetError::Unauthorized => ErrorClass::AuthorizationFailure,
            PolybetError::InvalidProgramId => ErrorClass::InvalidInput,
            PolybetError::MathOverflow => ErrorClass::ArithmeticFailure,
            PolybetError::InsufficientFunds => ErrorClass::PreconditionUnmet,
        }
    }

    /// The class of this failure.
    #[verifier::when_used_as_spec(spec_class)]
    pub fn class(self) -> (c: ErrorClass)
        ensures
            c == self.spec_class(),
    {
        match self {
            PolybetError::MarketEnded | PolybetError::MarketActive => {
                ErrorClass::TemporalViolation
            },
            PolybetError::InvalidOutcome | PolybetError::InvalidProgramId => {
                ErrorClass::InvalidInput
            },
            PolybetError::AlreadyClaimed => ErrorClass::StateConflict,
            PolybetError::Unauthorized => ErrorClass::AuthorizationFailure,
            PolybetError::MathOverflow => ErrorClass::ArithmeticFailure,
            PolybetError::InsufficientFunds => ErrorClass::PreconditionUnmet,
        }
    }

    /// The text shown to a user for this failure.
    pub open spec fn spec_message(self) -> Seq<char> {
        match self {
            PolybetError::MarketEnded => "Market ended."@,
            PolybetError::MarketActive => "Market active."@,
            PolybetError::InvalidOutcome => "Outcome mismatch."@,
            PolybetError::AlreadyClaimed => "Already claimed."@,
            PolybetError::Unauthorized => "Unauthorized."@,
            PolybetError::InvalidProgramId => "Invalid Program ID."@,
            PolybetError::MathOverflow => "Math overflow."@,
            PolybetError::InsufficientFunds => "Insufficient funds."@,
        }
    }

    /// The text shown to a user for this failure.
    pub fn message(self) -> (text: &'static str)
        ensures
            text@ == self.spec_message(),
    {
        match self {
            PolybetError::MarketEnded => "Market ended.",
            PolybetError::MarketActive => "Market active.",
            PolybetError::InvalidOutcome => "Outcome mismatch.",
            PolybetError::AlreadyClaimed => "Already claimed.",
            PolybetError::Unauthorized => "Unauthorized.",
            PolybetError::InvalidProgramId => "Invalid Program ID.",
            PolybetError::MathOverflow => "Math overflow.",
            PolybetError::InsufficientFunds => "Insufficient funds.",
        }
    }
}

impl ProphetError {
    /// The class of this failure.
    pub open spec fn spec_class(self) -> ErrorClass {
        match self {
            ProphetError::MarketEnded => ErrorClass::TemporalViolation,
            ProphetError::MarketActive => ErrorClass::TemporalViolation,
            ProphetError::InsufficientFunds => ErrorClass::PreconditionUnmet,
            ProphetError::InvalidOutcome => ErrorClass::InvalidInput,
            ProphetError::AlreadyClaimed => ErrorClass::StateConflict,
            ProphetError::Unauthorized => ErrorClass::AuthorizationFailure,
            ProphetError::MathOverflow => ErrorClass::ArithmeticFailure,
            ProphetError::OutcomeNotSet => ErrorClass::PreconditionUnmet,
        }
    }

    /// The class of this failure.
    #[verifier::when_used_as_spec(spec_class)]
    pub fn class(self) -> (c: ErrorClass)
        ensures
            c == self.spec_class(),
    {
        match self {
            ProphetError::MarketEnded | ProphetError::MarketActive => {
                ErrorClass::TemporalViolation
            },
            ProphetError::InsufficientFunds | ProphetError::OutcomeNotSet => {
                ErrorClass::PreconditionUnmet
            },
            ProphetError::InvalidOutcome => ErrorClass::InvalidInput,
            ProphetError::AlreadyClaimed => ErrorClass::StateConflict,
            ProphetError::Unauthorized => ErrorClass::AuthorizationFailure,
            ProphetError::MathOverflow => ErrorClass::ArithmeticFailure,
        }
    }

    /// The text shown to a user for this failure.
    pub open spec fn spec_message(self) -> Seq<char> {
        match self {
            ProphetError::MarketEnded => "Market has already ended."@,
            ProphetError::MarketActive => "Market is still active."@,
            ProphetError::InsufficientFunds => "Insufficient funds to place this bet."@,
            ProphetError::InvalidOutcome => "Invalid outcome selected."@,
            ProphetError::AlreadyClaimed => "User has already claimed winnings."@,
            ProphetError::Unauthorized => "Unauthorized access."@,
            ProphetError::MathOverflow => "Math overflow."@,
            ProphetError::OutcomeNotSet => "Market outcome has not been set."@,
        }
    }

    /// The text shown to a user for this failure.
    pub fn message(self) -> (text: &'static str)
        ensures
            text@ == self.spec_message(),
    {
        match self {
            ProphetError::MarketEnded => "Market has already ended.",
            ProphetError::MarketActive => "Market is still active.",
            ProphetError::InsufficientFunds => "Insufficient funds to place this bet.",
            ProphetError::InvalidOutcome => "Invalid outcome selected.",
            ProphetError::AlreadyClaimed => "User has already claimed winnings.",
            ProphetError::Unauthorized => "Unauthorized access.",
            ProphetError::MathOverflow => "Math overflow.",
            ProphetError::OutcomeNotSet => "Market outcome has not been set.",
        }
    }
}

} // verus!
