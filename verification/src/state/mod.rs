//! The records the engine keeps: one ledger per pool, one record per
//! depositor, the operations that settle the two together, and the byte
//! layout in which both are stored.

pub mod options;
pub mod settlement;
pub mod stake_account;
pub mod staking_pool;
