//! The rules of ShadowLend, an over-collateralised lending program: interest
//! accrual, valuation, health checks and liquidation, with the private
//! circuits that prove loan-to-value facts about a single loan.

pub mod chain;
pub mod circuits;
pub mod errors;
pub mod health;
pub mod interest;
pub mod keys;
pub mod laws;
pub mod layout;
pub mod liquidation;
pub mod markets;
pub mod math;
pub mod oracle;
pub mod outcomes;
pub mod positions;
pub mod state;
pub mod stats;
pub mod valuation;
