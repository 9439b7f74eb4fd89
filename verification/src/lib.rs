//! Accounting core of a two-token constant-product liquidity pool.
//!
//! The crate decides how many pool shares a deposit mints, how much of the
//! other token a swap pays out, and how much of each token a withdrawal
//! returns, and it keeps the two reserve counters of the pool in step with
//! those decisions. It moves no tokens itself: the caller carries out the
//! transfers, mints and burns that each result calls for.

pub mod account;
pub mod deposit;
pub mod error;
pub mod exchange;
pub mod key;
pub mod laws;
pub mod math;
pub mod withdraw;

pub use account::{initialize, AmmAccount};
pub use deposit::addliquidity;
pub use error::AmmError;
pub use exchange::swap;
pub use key::MintKey;
pub use math::{integer_sqrt, mul_div};
pub use withdraw::removeliquidity;
