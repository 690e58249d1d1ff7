//! A pooled-staking accounting engine.
//!
//! Depositors stake a fungible asset into a shared pool; the pool receives
//! reward income from an upstream staking module and every depositor is owed
//! a share of that income proportional to their stake. Rewards are tracked
//! with a pull-based per-share accumulator (`power`), a slice of each income
//! is split off for a treasury and a secondary recipient, and operations that
//! arrive while upstream income is still unharvested are serialized through a
//! single pending-action slot until the income lands.

pub mod error;
pub mod fixed;
pub mod ledger;
pub mod handlers;
pub mod laws;
pub mod msg;
pub mod queries;
pub mod state;
pub mod validate;
pub mod vault;

pub use fixed::Ratio;
pub use fixed::FRAC;
