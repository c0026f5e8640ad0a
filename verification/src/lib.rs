//! Settlement engine for parimutuel prediction markets.
//!
//! Users stake a fungible asset on one of several mutually exclusive
//! outcomes. Once the event is resolved the pooled stakes are paid out to the
//! backers of the winning outcome, net of creator, developer and burn fees.
//! Every handler is a pure state transition: it validates, updates the market
//! and vote records it was handed, and returns the amounts that the caller
//! must move in custody as part of the same atomic operation.
//!
//! - [`calc`] is the payout and fee arithmetic, with both payout formulas
//!   behind one policy type.
//! - [`prophet`] is the engine for markets with a vault of their own, paid
//!   out at claim time.
//! - [`polybet`] is the engine for markets on a shared treasury, with
//!   payouts fixed at bet time.
//! - [`book`] proves that the first engine never pays out more than was
//!   staked and that custody always covers what is owed.
//! - [`errors`] and [`identity`] hold the failure types and the handles by
//!   which accounts and authorities are named.

pub mod book;
pub mod calc;
pub mod errors;
pub mod identity;
pub mod polybet;
pub mod prophet;
