//! Core of a liquid-staking ledger: registries of remote delegators and
//! validators per asset class, per-delegator bonding ledgers, admission
//! control for exchange-rate tuning and hosting-fee computation, and the
//! construction and dispatch of outbound cross-chain messages.

pub mod arith;
pub mod capabilities;
pub mod errors;
pub mod ledger;
pub mod location;
pub mod messenger;
pub mod mocks;
pub mod registry;
pub mod state;
pub mod time;
pub mod tuning;
