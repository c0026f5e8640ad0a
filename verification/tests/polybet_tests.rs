use parimutuel::errors::{ErrorClass, PolybetError};
use parimutuel::identity::Identity;
use parimutuel::polybet::{
    add_vote_due, check_token_program, claim_winnings, initialize_market, initialize_protocol,
    place_vote, resolve_market, sweep_profit, token_2022_id, LockedClaim, Market,
    ProtocolConfig, Vote, TOKEN_2022_ID, TREASURY_VAULT_SPACE,
};
use solana_program::pubkey::Pubkey;
use std::str::FromStr;

const CLOSE: i64 = 5_000;

fn who(n: u8) -> Identity {
    Identity::new([n; 32])
}

fn owner() -> Identity {
    who(1)
}

fn place() -> Identity {
    who(9)
}

fn seeded(liquidity: u64, weights: [u32; 8], count: u8) -> Market {
    initialize_market(owner(), String::from("Heads?"), CLOSE, count, liquidity, weights, 250)
        .unwrap()
}

fn even_market() -> Market {
    seeded(1000, [1, 1, 0, 0, 0, 0, 0, 0], 2)
}

#[test]
fn token_program_handle_is_the_decoded_address() {
    let decoded = Pubkey::from_str("TokenzQdBnBLqP5VEhdkAS6EPFLC1PHnBqCXEpPxuEb").unwrap();
    assert_eq!(TOKEN_2022_ID, decoded.to_bytes());
    assert_eq!(token_2022_id().to_bytes(), decoded.to_bytes());
    assert_eq!(Pubkey::new_from_array(token_2022_id().to_bytes()), decoded);
}

#[test]
fn token_program_gate() {
    assert_eq!(check_token_program(&token_2022_id()), Ok(()));
    assert_eq!(check_token_program(&Identity::new(TOKEN_2022_ID)), Ok(()));
    assert_eq!(check_token_program(&who(0)), Err(PolybetError::InvalidProgramId));
    let mut near = TOKEN_2022_ID;
    near[31] ^= 1;
    assert_eq!(check_token_program(&Identity::new(near)), Err(PolybetError::InvalidProgramId));
    let classic = Pubkey::from_str("TokenkegQfeZyiNwAJbNbGKPFXCWuBvf9Ss623VQ5DA").unwrap();
    assert_eq!(
        check_token_program(&Identity::new(classic.to_bytes())),
        Err(PolybetError::InvalidProgramId)
    );
}

#[test]
fn protocol_settings() {
    let c = initialize_protocol(owner(), 254, 253);
    assert_eq!(c, ProtocolConfig { authority: owner(), vault_bump: 254, bump: 253 });
    assert_eq!(TREASURY_VAULT_SPACE, 165);
    assert_eq!(ProtocolConfig::SPACE, 42);
    assert_eq!(Market::SPACE, 193);
    assert_eq!(Vote::SPACE, 107);
}

#[test]
fn seeded_market() {
    let m = even_market();
    assert_eq!(
        m,
        Market {
            authority: owner(),
            question: String::from("Heads?"),
            end_timestamp: CLOSE,
            outcomes_count: 2,
            total_pot: 1000,
            outcome_totals: [500, 500, 0, 0, 0, 0, 0, 0],
            resolved: false,
            winner_index: None,
            bump: 250,
        }
    );
    assert!(m.is_valid());
    let m = seeded(100, [1, 2, 0, 0, 0, 0, 0, 0], 2);
    assert_eq!(m.outcome_totals, [33, 66, 0, 0, 0, 0, 0, 0]);
    assert_eq!(m.total_pot, 100);
    assert!(m.is_valid());
    let m = seeded(100, [0; 8], 3);
    assert_eq!(m.outcome_totals, [0; 8]);
    assert_eq!(m.total_pot, 100);
    let m = seeded(0, [5, 5, 5, 5, 5, 5, 5, 5], 8);
    assert_eq!(m.outcome_totals, [0; 8]);
    assert_eq!(m.total_pot, 0);
}

#[test]
fn seeded_market_needs_one_to_eight_outcomes() {
    for count in [0u8, 9, 255] {
        let r = initialize_market(owner(), String::new(), CLOSE, count, 10, [1; 8], 0);
        assert_eq!(r, Err(PolybetError::InvalidOutcome));
        assert_eq!(r.unwrap_err().class(), ErrorClass::InvalidInput);
    }
}

#[test]
fn seeded_market_needs_weights_that_add_up() {
    let r = initialize_market(
        owner(),
        String::new(),
        CLOSE,
        2,
        10,
        [u32::MAX, 1, 0, 0, 0, 0, 0, 0],
        0,
    );
    assert_eq!(r, Err(PolybetError::MathOverflow));
    let r = initialize_market(
        owner(),
        String::new(),
        CLOSE,
        1,
        10,
        [u32::MAX, 1, 0, 0, 0, 0, 0, 0],
        0,
    );
    assert_eq!(r.unwrap().outcome_totals, [10, 0, 0, 0, 0, 0, 0, 0]);
}

#[test]
fn bet_locks_its_payout() {
    let mut m = even_market();
    let v = place_vote(&mut m, who(10), place(), CLOSE - 1, 0, 100, 7);
    // 100 * 90 * 1000 / 100 / 500 = 180; fee 180 * 11 / 100 = 19
    assert_eq!(
        v,
        Ok(Vote {
            user: who(10),
            market: place(),
            outcome_index: 0,
            amount: 100,
            locked_payout: 180,
            locked_creator_fee: 0,
            locked_dev_fee: 19,
            claimed: false,
            bump: 7,
        })
    );
    assert_eq!(m.total_pot, 1100);
    assert_eq!(m.outcome_totals, [600, 500, 0, 0, 0, 0, 0, 0]);
    assert!(m.is_valid());
    // a later bet on the same outcome meets another ratio
    let v = place_vote(&mut m, who(11), place(), CLOSE - 1, 0, 100, 7).unwrap();
    assert_eq!(v.locked_payout, 165);
    assert_eq!(v.locked_dev_fee, 18);
    assert_eq!(m.total_pot, 1200);
    assert_eq!(m.outcome_totals, [700, 500, 0, 0, 0, 0, 0, 0]);
}

#[test]
fn bet_on_an_empty_outcome_locks_the_stake() {
    let mut m = seeded(1000, [0; 8], 2);
    let v = place_vote(&mut m, who(10), place(), 0, 1, 100, 0).unwrap();
    assert_eq!(v.locked_payout, 100);
    assert_eq!(v.locked_dev_fee, 11);
    assert_eq!(m.outcome_totals, [0, 100, 0, 0, 0, 0, 0, 0]);
    assert_eq!(m.total_pot, 1100);
}

#[test]
fn betting_closes_at_the_end() {
    let mut m = even_market();
    for now in [CLOSE, CLOSE + 1, i64::MAX] {
        let r = place_vote(&mut m, who(10), place(), now, 0, 100, 0);
        assert_eq!(r, Err(PolybetError::MarketEnded));
        assert_eq!(r.unwrap_err().class(), ErrorClass::TemporalViolation);
    }
    assert_eq!(m, even_market());
    assert!(place_vote(&mut m, who(10), place(), CLOSE - 1, 0, 100, 0).is_ok());
    assert!(place_vote(&mut m, who(10), place(), i64::MIN, 0, 100, 0).is_ok());
}

#[test]
fn locked_bets_are_refused_in_order() {
    let mut m = even_market();
    resolve_market(&mut m, &owner(), 0).unwrap();
    let before = m.clone();
    assert_eq!(
        place_vote(&mut m, who(10), place(), CLOSE - 1, 9, 100, 0),
        Err(PolybetError::MarketEnded)
    );
    assert_eq!(m, before);
    let mut m = even_market();
    assert_eq!(
        place_vote(&mut m, who(10), place(), CLOSE - 1, 2, 100, 0),
        Err(PolybetError::InvalidOutcome)
    );
    assert_eq!(
        place_vote(&mut m, who(10), place(), CLOSE - 1, 255, u64::MAX, 0),
        Err(PolybetError::InvalidOutcome)
    );
    assert_eq!(m, even_market());
}

#[test]
fn locked_bet_that_overflows_is_refused() {
    // the payout does not fit 64 bits
    let mut m = seeded(1_000_000, [1, 999_999, 0, 0, 0, 0, 0, 0], 2);
    assert_eq!(m.outcome_totals, [1, 999_999, 0, 0, 0, 0, 0, 0]);
    let before = m.clone();
    let r = place_vote(&mut m, who(10), place(), 0, 0, u64::MAX / 2, 0);
    assert_eq!(r, Err(PolybetError::MathOverflow));
    assert_eq!(r.unwrap_err().class(), ErrorClass::ArithmeticFailure);
    assert_eq!(m, before);
    // the pot does not hold the stake
    let mut m = seeded(u64::MAX - 10, [0; 8], 2);
    let r = place_vote(&mut m, who(10), place(), 0, 0, 11, 0);
    assert_eq!(r, Err(PolybetError::MathOverflow));
    assert_eq!(m.total_pot, u64::MAX - 10);
    assert!(place_vote(&mut m, who(10), place(), 0, 0, 10, 0).is_ok());
    assert_eq!(m.total_pot, u64::MAX);
}

#[test]
fn a_locked_payout_may_exceed_what_was_staked() {
    let mut m = seeded(1000, [1, 999, 0, 0, 0, 0, 0, 0], 2);
    let v = place_vote(&mut m, who(10), place(), 0, 0, 100, 0).unwrap();
    assert_eq!(v.locked_payout, 90_000);
    assert_eq!(v.locked_dev_fee, 9_900);
}

#[test]
fn market_resolves_once() {
    let mut m = even_market();
    assert_eq!(resolve_market(&mut m, &who(10), 0), Err(PolybetError::Unauthorized));
    assert_eq!(resolve_market(&mut m, &owner(), 2), Err(PolybetError::InvalidOutcome));
    assert!(!m.resolved);
    assert_eq!(m.winner_index, None);
    assert_eq!(resolve_market(&mut m, &owner(), 1), Ok(()));
    assert!(m.resolved);
    assert_eq!(m.winner_index, Some(1));
    assert!(m.is_valid());
    let before = m.clone();
    let r = resolve_market(&mut m, &owner(), 0);
    assert_eq!(r, Err(PolybetError::MarketEnded));
    assert_eq!(r.unwrap_err().class(), ErrorClass::TemporalViolation);
    assert_eq!(resolve_market(&mut m, &owner(), 1), Err(PolybetError::MarketEnded));
    assert_eq!(m.winner_index, Some(1));
    assert_eq!(m, before);
}

#[test]
fn winner_is_paid_what_was_locked() {
    let mut m = even_market();
    let mut v = place_vote(&mut m, who(10), place(), 0, 0, 100, 0).unwrap();
    resolve_market(&mut m, &owner(), 0).unwrap();
    let r = claim_winnings(&m, &mut v, &who(10), &place());
    assert_eq!(r, Ok(LockedClaim { payout: 180, dev_fee: 19 }));
    assert!(v.claimed);
    assert_eq!(v.locked_payout, 180);
    assert_eq!(v.amount, 100);
}

#[test]
fn locked_claim_happens_once() {
    let mut m = even_market();
    let mut v = place_vote(&mut m, who(10), place(), 0, 0, 100, 0).unwrap();
    resolve_market(&mut m, &owner(), 0).unwrap();
    assert!(claim_winnings(&m, &mut v, &who(10), &place()).is_ok());
    let after = v;
    for _ in 0..3 {
        let r = claim_winnings(&m, &mut v, &who(10), &place());
        assert_eq!(r, Err(PolybetError::AlreadyClaimed));
        assert_eq!(r.unwrap_err().class(), ErrorClass::StateConflict);
        assert_eq!(v, after);
    }
}

#[test]
fn locked_claims_are_refused_in_order() {
    let mut m = even_market();
    let mut v = place_vote(&mut m, who(10), place(), 0, 0, 100, 0).unwrap();
    let mut loser = place_vote(&mut m, who(11), place(), 0, 1, 100, 0).unwrap();
    assert_eq!(
        claim_winnings(&m, &mut v, &who(11), &place()),
        Err(PolybetError::Unauthorized)
    );
    assert_eq!(
        claim_winnings(&m, &mut v, &who(10), &who(8)),
        Err(PolybetError::Unauthorized)
    );
    let r = claim_winnings(&m, &mut v, &who(10), &place());
    assert_eq!(r, Err(PolybetError::MarketActive));
    assert_eq!(r.unwrap_err().class(), ErrorClass::TemporalViolation);
    resolve_market(&mut m, &owner(), 0).unwrap();
    assert_eq!(
        claim_winnings(&m, &mut loser, &who(11), &place()),
        Err(PolybetError::InvalidOutcome)
    );
    assert!(!loser.claimed);
    assert!(!v.claimed);
    assert!(claim_winnings(&m, &mut v, &who(10), &place()).is_ok());
}

#[test]
fn treasury_sweep_is_for_the_authority() {
    let c = initialize_protocol(owner(), 1, 2);
    assert_eq!(sweep_profit(&c, &owner(), 500, 500, 0), Ok(500));
    assert_eq!(sweep_profit(&c, &owner(), 0, 0, 0), Ok(0));
    assert_eq!(sweep_profit(&c, &owner(), u64::MAX, u64::MAX, 0), Ok(u64::MAX));
    let r = sweep_profit(&c, &who(10), 500, 500, 0);
    assert_eq!(r, Err(PolybetError::Unauthorized));
    assert_eq!(r.unwrap_err().class(), ErrorClass::AuthorizationFailure);
    assert_eq!(sweep_profit(&c, &who(10), 500, 0, 0), Err(PolybetError::Unauthorized));
}

#[test]
fn treasury_sweep_leaves_what_votes_are_owed() {
    let c = initialize_protocol(owner(), 1, 2);
    // the treasury holds 1000, votes are owed 199
    assert_eq!(sweep_profit(&c, &owner(), 801, 1000, 199), Ok(801));
    assert_eq!(sweep_profit(&c, &owner(), 1, 1000, 199), Ok(1));
    let r = sweep_profit(&c, &owner(), 802, 1000, 199);
    assert_eq!(r, Err(PolybetError::InsufficientFunds));
    assert_eq!(r.unwrap_err().class(), ErrorClass::PreconditionUnmet);
    assert_eq!(sweep_profit(&c, &owner(), 1000, 1000, 199), Err(PolybetError::InsufficientFunds));
    // everything is owed, or more than is there
    assert_eq!(sweep_profit(&c, &owner(), 1, 1000, 1000), Err(PolybetError::InsufficientFunds));
    assert_eq!(sweep_profit(&c, &owner(), 1, 1000, 2000), Err(PolybetError::InsufficientFunds));
    assert_eq!(sweep_profit(&c, &owner(), 0, 1000, 2000), Err(PolybetError::InsufficientFunds));
    assert_eq!(sweep_profit(&c, &owner(), 0, 1000, 1000), Ok(0));
    assert_eq!(
        sweep_profit(&c, &owner(), u64::MAX, u64::MAX, u64::MAX),
        Err(PolybetError::InsufficientFunds)
    );
}

#[test]
fn what_the_treasury_owes_to_votes() {
    let mut m = even_market();
    let mut v = place_vote(&mut m, who(10), place(), 0, 0, 100, 0).unwrap();
    let loser = place_vote(&mut m, who(11), place(), 0, 1, 100, 0).unwrap();
    assert_eq!((v.locked_payout, v.locked_dev_fee), (180, 19));
    assert_eq!((loser.locked_payout, loser.locked_dev_fee), (198, 21));
    // while the market is open either vote may win
    let owed = add_vote_due(0, &m, &v).unwrap();
    assert_eq!(owed, 199);
    let owed = add_vote_due(owed, &m, &loser).unwrap();
    assert_eq!(owed, 199 + 219);
    resolve_market(&mut m, &owner(), 0).unwrap();
    assert_eq!(add_vote_due(7, &m, &v), Ok(7 + 199));
    assert_eq!(add_vote_due(7, &m, &loser), Ok(7));
    assert_eq!(add_vote_due(u64::MAX - 199, &m, &v), Ok(u64::MAX));
    assert_eq!(add_vote_due(u64::MAX - 198, &m, &v), Err(PolybetError::MathOverflow));
    assert_eq!(add_vote_due(u64::MAX, &m, &loser), Ok(u64::MAX));
    claim_winnings(&m, &mut v, &who(10), &place()).unwrap();
    assert_eq!(add_vote_due(7, &m, &v), Ok(7));
}

#[test]
fn validity_of_stored_treasury_markets() {
    let m = even_market();
    assert!(m.is_valid());
    let mut bad = m.clone();
    bad.total_pot = 999;
    assert!(!bad.is_valid());
    let mut good = m.clone();
    good.total_pot = 5_000;
    assert!(good.is_valid());
    let mut bad = m.clone();
    bad.outcomes_count = 1;
    assert!(!bad.is_valid());
    let mut bad = m.clone();
    bad.outcomes_count = 0;
    assert!(!bad.is_valid());
    let mut bad = m.clone();
    bad.outcomes_count = 9;
    assert!(!bad.is_valid());
    let mut bad = m.clone();
    bad.resolved = true;
    assert!(!bad.is_valid());
    let mut bad = m.clone();
    bad.winner_index = Some(0);
    assert!(!bad.is_valid());
    let mut bad = m.clone();
    bad.resolved = true;
    bad.winner_index = Some(2);
    assert!(!bad.is_valid());
    let mut good = m.clone();
    good.resolved = true;
    good.winner_index = Some(1);
    assert!(good.is_valid());
}
