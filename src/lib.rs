//! Reward accrual and settlement for a liquidity-mining gauge.
//!
//! - `math`: the emission schedule and fixed-point helpers.
//! - `state`: configuration, pool and position records, outgoing requests.
//! - `accrual`: settling a pool's two accrual tracks.
//! - `ledger`: pending rewards and position updates.
//! - `registry`: keyed lookup over pools and positions.
//! - `gauge`: the gauge's state, its settlement cycle and its operations.

pub mod error;
pub mod math;
pub mod state;
pub mod accrual;
pub mod ledger;
pub mod registry;
pub mod gauge;
