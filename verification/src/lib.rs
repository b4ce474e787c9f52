//! Continuous wage streaming: an employer funds a pool, employees accrue pay
//! by the second at a rate per wage period, and either side can settle what
//! has accrued at any time.
//!
//! The library is the accounting. It is handed the time and the pool's
//! balance as plain values, decides, and says what is to be transferred; the
//! clock, the storage and the token are the caller's business. All amounts
//! are 128-bit integers, and every step that could leave their range is
//! reported as `Error::Overflow`.
//!
//! - `employee`: the account, its invariant, and what it is owed at a time
//! - `accrual`: the live accrual and the withdrawal from an account
//! - `contract`: the payroll's state
//! - `lifecycle`: hire, change of rate, freeze, activation, removal
//! - `settlement`: deposits, withdrawals and sweeps
//! - `laws`: what holds of all of these

pub mod accrual;
pub mod contract;
pub mod employee;
pub mod error;
pub mod laws;
pub mod lifecycle;
pub mod settlement;

pub use contract::FairWage;
pub use employee::{BatchPayResult, Employee, Payment};
pub use error::Error;
