//! A ledger engine: one account per client, driven by an ordered stream of
//! deposits, withdrawals, disputes, resolves and chargebacks.
//!
//! Amounts are decimal numbers of arbitrary size. Every balance the engine
//! stores carries exactly [`decimal::PRECISION`] fractional digits, so a
//! balance is an integer count of the smallest unit and all sums are exact.

pub mod client;
pub mod decimal;
pub mod laws;
pub mod ledger;
pub mod model;
pub mod transaction;
