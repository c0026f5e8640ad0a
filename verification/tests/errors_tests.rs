use parimutuel::errors::{CalcError, ErrorClass, MarketError, PolybetError, ProphetError};

#[test]
fn market_errors_fall_into_their_classes() {
    let expected = [
        (MarketError::AlreadyResolved, ErrorClass::TemporalViolation),
        (MarketError::NotResolved, ErrorClass::TemporalViolation),
        (MarketError::MarketClosed, ErrorClass::TemporalViolation),
        (MarketError::SweepTooEarly, ErrorClass::TemporalViolation),
        (MarketError::Unauthorized, ErrorClass::AuthorizationFailure),
        (MarketError::InvalidOutcomeCount, ErrorClass::InvalidInput),
        (MarketError::InvalidOutcomeIndex, ErrorClass::InvalidInput),
        (MarketError::BetTooSmall, ErrorClass::InvalidInput),
        (MarketError::BetTooLarge, ErrorClass::InvalidInput),
        (MarketError::InvalidMint, ErrorClass::InvalidInput),
        (MarketError::InvalidFeeSchedule, ErrorClass::InvalidInput),
        (MarketError::AlreadyClaimed, ErrorClass::StateConflict),
        (MarketError::MultipleOutcomesNotSupported, ErrorClass::StateConflict),
        (MarketError::FeesAlreadyDistributed, ErrorClass::StateConflict),
        (MarketError::FeesNotDistributed, ErrorClass::StateConflict),
        (MarketError::MarketPaused, ErrorClass::StateConflict),
        (MarketError::MarketCancelled, ErrorClass::StateConflict),
        (MarketError::MathOverflow, ErrorClass::ArithmeticFailure),
        (MarketError::NoWinningStake, ErrorClass::ArithmeticFailure),
        (MarketError::Loser, ErrorClass::PreconditionUnmet),
        (MarketError::NoActiveBet, ErrorClass::PreconditionUnmet),
        (MarketError::NoDustToSweep, ErrorClass::PreconditionUnmet),
    ];
    for (error, class) in expected {
        assert_eq!(error.class(), class, "{:?}", error);
    }
}

#[test]
fn polybet_errors_fall_into_their_classes() {
    assert_eq!(PolybetError::MarketEnded.class(), ErrorClass::TemporalViolation);
    assert_eq!(PolybetError::MarketActive.class(), ErrorClass::TemporalViolation);
    assert_eq!(PolybetError::InvalidOutcome.class(), ErrorClass::InvalidInput);
    assert_eq!(PolybetError::AlreadyClaimed.class(), ErrorClass::StateConflict);
    assert_eq!(PolybetError::Unauthorized.class(), ErrorClass::AuthorizationFailure);
    assert_eq!(PolybetError::InvalidProgramId.class(), ErrorClass::InvalidInput);
    assert_eq!(PolybetError::MathOverflow.class(), ErrorClass::ArithmeticFailure);
    assert_eq!(PolybetError::InsufficientFunds.class(), ErrorClass::PreconditionUnmet);
}

#[test]
fn prophet_errors_fall_into_their_classes() {
    assert_eq!(ProphetError::MarketEnded.class(), ErrorClass::TemporalViolation);
    assert_eq!(ProphetError::MarketActive.class(), ErrorClass::TemporalViolation);
    assert_eq!(ProphetError::InsufficientFunds.class(), ErrorClass::PreconditionUnmet);
    assert_eq!(ProphetError::InvalidOutcome.class(), ErrorClass::InvalidInput);
    assert_eq!(ProphetError::AlreadyClaimed.class(), ErrorClass::StateConflict);
    assert_eq!(ProphetError::Unauthorized.class(), ErrorClass::AuthorizationFailure);
    assert_eq!(ProphetError::MathOverflow.class(), ErrorClass::ArithmeticFailure);
    assert_eq!(ProphetError::OutcomeNotSet.class(), ErrorClass::PreconditionUnmet);
}

#[test]
fn calc_errors_are_arithmetic_failures() {
    assert_eq!(CalcError::Overflow.class(), ErrorClass::ArithmeticFailure);
    assert_eq!(CalcError::NoWinningStake.class(), ErrorClass::ArithmeticFailure);
    assert_eq!(MarketError::from_calc(CalcError::Overflow), MarketError::MathOverflow);
    assert_eq!(MarketError::from_calc(CalcError::NoWinningStake), MarketError::NoWinningStake);
}

#[test]
fn market_error_messages() {
    assert_eq!(MarketError::AlreadyResolved.message(), "Market is already resolved.");
    assert_eq!(MarketError::NotResolved.message(), "Market is not resolved yet.");
    assert_eq!(MarketError::Loser.message(), "You voted for the losing side.");
    assert_eq!(MarketError::AlreadyClaimed.message(), "You have already claimed winnings.");
    assert_eq!(
        MarketError::InvalidOutcomeCount.message(),
        "Outcome count must be between 1 and 8."
    );
    assert_eq!(MarketError::InvalidOutcomeIndex.message(), "Invalid outcome index.");
    assert_eq!(
        MarketError::MultipleOutcomesNotSupported.message(),
        "Voting for multiple outcomes in the same market is not supported."
    );
    assert_eq!(MarketError::MarketClosed.message(), "Market has closed for voting.");
    assert_eq!(
        MarketError::FeesAlreadyDistributed.message(),
        "Fees have already been distributed."
    );
    assert_eq!(MarketError::FeesNotDistributed.message(), "Fees have not been distributed yet.");
    assert_eq!(MarketError::MarketPaused.message(), "Market is currently paused.");
    assert_eq!(MarketError::MarketCancelled.message(), "Market was cancelled.");
    assert_eq!(MarketError::NoActiveBet.message(), "No active bet found for this user.");
    assert_eq!(MarketError::BetTooSmall.message(), "Bet amount is below the minimum limit.");
    assert_eq!(MarketError::BetTooLarge.message(), "Bet amount is above the maximum limit.");
    assert_eq!(
        MarketError::InvalidMint.message(),
        "Invalid mint. Only Polybet Token is allowed."
    );
    assert_eq!(
        MarketError::SweepTooEarly.message(),
        "Sweep can only occur 30 days after market resolution."
    );
    assert_eq!(MarketError::NoDustToSweep.message(), "No dust tokens found to sweep.");
    assert_eq!(MarketError::Unauthorized.message(), "Unauthorized access.");
    assert_eq!(MarketError::MathOverflow.message(), "Math overflow.");
    assert_eq!(
        MarketError::NoWinningStake.message(),
        "Nothing is staked on the winning outcome."
    );
    assert_eq!(
        MarketError::InvalidFeeSchedule.message(),
        "Fees must not exceed 10000 basis points in total."
    );
}

#[test]
fn polybet_error_messages() {
    assert_eq!(PolybetError::MarketEnded.message(), "Market ended.");
    assert_eq!(PolybetError::MarketActive.message(), "Market active.");
    assert_eq!(PolybetError::InvalidOutcome.message(), "Outcome mismatch.");
    assert_eq!(PolybetError::AlreadyClaimed.message(), "Already claimed.");
    assert_eq!(PolybetError::Unauthorized.message(), "Unauthorized.");
    assert_eq!(PolybetError::InvalidProgramId.message(), "Invalid Program ID.");
    assert_eq!(PolybetError::MathOverflow.message(), "Math overflow.");
    assert_eq!(PolybetError::InsufficientFunds.message(), "Insufficient funds.");
}

#[test]
fn prophet_error_messages() {
    assert_eq!(ProphetError::MarketEnded.message(), "Market has already ended.");
    assert_eq!(ProphetError::MarketActive.message(), "Market is still active.");
    assert_eq!(
        ProphetError::InsufficientFunds.message(),
        "Insufficient funds to place this bet."
    );
    assert_eq!(ProphetError::InvalidOutcome.message(), "Invalid outcome selected.");
    assert_eq!(ProphetError::AlreadyClaimed.message(), "User has already claimed winnings.");
    assert_eq!(ProphetError::Unauthorized.message(), "Unauthorized access.");
    assert_eq!(ProphetError::MathOverflow.message(), "Math overflow.");
    assert_eq!(ProphetError::OutcomeNotSet.message(), "Market outcome has not been set.");
}
