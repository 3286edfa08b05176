//! Reward accrual for staking pools: a pool ledger shared by any number of
//! depositors, one record per depositor, and the settlement rules that keep
//! every payout proportional to the size and the duration of a stake.
//!
//! - [`math`]: checked fixed-point numbers over 192-bit integers.
//! - [`state`]: the pool ledger, the depositor record, their settlement and
//!   their stored form.
//! - [`laws`]: what holds of the engine for all inputs.
//! - [`instruction`]: the operations on the wire and the account lists that
//!   go with them.
//! - [`processor`]: the operations themselves, on accounts as the host
//!   presents them.
//! - [`host`]: the calls into the host's libraries.
//! - [`codec`], [`pubkey`], [`error`], [`validators`]: byte encodings,
//!   addresses, failures, and checks of textual arguments.

pub mod codec;
pub mod error;
pub mod host;
pub mod instruction;
pub mod laws;
pub mod math;
pub mod processor;
pub mod pubkey;
pub mod state;
pub mod validators;
