//! Trust core of a trade-finance platform.
//!
//! Five registries hold the rules that keep the platform honest: a collateral
//! registry that refuses to finance the same collateral twice, an escrow core
//! that caps every loan at a share of the collateral's value, an oracle
//! adapter that counts independent confirmations, a governance module with
//! quadratic voting, and a reputation engine that prices counterparty risk.
//!
//! Every registry is a plain value. An operation takes the registry, the
//! ledger context of the call ([`ledger::Env`]: the clock and the principals
//! that authorized the call) and its arguments, and either commits all of its
//! changes or returns one error and changes nothing.

pub mod collateral_registry;
pub mod crypto;
pub mod escrow;
pub mod governance;
pub mod ledger;
pub mod math;
pub mod mirror;
pub mod models;
pub mod oracle_adapter;
pub mod reputation_registry;
pub mod store;
pub mod vault;
