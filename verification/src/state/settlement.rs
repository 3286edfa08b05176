//! Settling a pool and one of its depositors together: the ledger is brought
//! up to the present, then the record is settled against the ledger's index.
//! Each operation changes both or, when it fails, neither.

use crate::error::{ProgramError, ProgramResult};
use crate::state::stake_account::StakeAccount;
use crate::state::staking_pool::{Slot, StakingPool};
use vstd::prelude::*;

verus! {

/// Ledger and record after `amount` is staked at `current_time`.
pub open spec fn spec_settle_deposit(
    pool: StakingPool,
    account: StakeAccount,
    current_time: Slot,
    amount: u64,
) -> Result<(StakingPool, StakeAccount), ProgramError> {
    match pool.spec_deposit(current_time, amount) {
        Err(e) => Err(e),
        Ok(p) => match account.spec_deposit(p.cumulative_rate, amount) {
            Err(e) => Err(e),
            Ok(a) => Ok((p, a)),
        },
    }
}

/// Stakes `amount` in ledger and record, or fails and changes neither.
pub fn settle_deposit(
    pool: &mut StakingPool,
    account: &mut StakeAccount,
    current_time: Slot,
    amount: u64,
) -> (r: ProgramResult)
    ensures
        match spec_settle_deposit(*old(pool), *old(account), current_time, amount) {
            Ok((p, a)) => {
                &&& r == Ok::<(), ProgramError>(())
                &&& *final(pool) == p
                &&& *final(account) == a
            },
            Err(e) => {
                &&& r == Err::<(), ProgramError>(e)
                &&& *final(pool) == *old(pool)
                &&& *final(account) == *old(account)
            },
        },
{
    let mut ledger = *pool;
    let rate = ledger.deposit(current_time, amount)?;
    account.deposit(rate, amount)?;
    *pool = ledger;
    Ok(())
}

/// Ledger and record after `amount` is taken out at `current_time`.
pub open spec fn spec_settle_withdraw(
    pool: StakingPool,
    account: StakeAccount,
    current_time: Slot,
    amount: u64,
) -> Result<(StakingPool, StakeAccount), ProgramError> {
    match pool.spec_withdraw(current_time, amount) {
        Err(e) => Err(e),
        Ok(p) => match account.spec_withdraw(p.cumulative_rate, amount) {
            Err(e) => Err(e),
            Ok(a) => Ok((p, a)),
        },
    }
}

/// Takes `amount` out of ledger and record, or fails and changes neither.
pub fn settle_withdraw(
    pool: &mut StakingPool,
    account: &mut StakeAccount,
    current_time: Slot,
    amount: u64,
) -> (r: ProgramResult)
    ensures
        match spec_settle_withdraw(*old(pool), *old(account), current_time, amount) {
            Ok((p, a)) => {
                &&& r == Ok::<(), ProgramError>(())
                &&& *final(pool) == p
                &&& *final(account) == a
            },
            Err(e) => {
                &&& r == Err::<(), ProgramError>(e)
                &&& *final(pool) == *old(pool)
                &&& *final(account) == *old(account)
            },
        },
{
    let mut ledger = *pool;
    let rate = ledger.withdraw(current_time, amount)?;
    account.withdraw(rate, amount)?;
    *pool = ledger;
    Ok(())
}

/// Ledger and record after a claim at `current_time`, and the whole units
/// paid out per stream.
pub open spec fn spec_settle_claim(pool: StakingPool, account: StakeAccount, current_time: Slot)
    -> Result<(StakingPool, StakeAccount, (u64, Option<u64>)), ProgramError> {
    match pool.spec_advance(current_time) {
        Err(e) => Err(e),
        Ok(p) => match account.spec_claim_reward(p.cumulative_rate) {
            Err(e) => Err(e),
            Ok((a, paid)) => Ok((p, a, paid)),
        },
    }
}

/// Settles ledger and record and gives the whole units to pay, or fails and changes
/// neither.
pub fn settle_claim(pool: &mut StakingPool, account: &mut StakeAccount, current_time: Slot) -> (r:
    Result<(u64, Option<u64>), ProgramError>)
    ensures
        match spec_settle_claim(*old(pool), *old(account), current_time) {
            Ok((p, a, paid)) => {
                &&& r == Ok::<(u64, Option<u64>), ProgramError>(paid)
                &&& *final(pool) == p
                &&& *final(account) == a
            },
            Err(e) => {
                &&& r == Err::<(u64, Option<u64>), ProgramError>(e)
                &&& *final(pool) == *old(pool)
                &&& *final(account) == *old(account)
            },
        },
{
    let mut ledger = *pool;
    let rate = ledger.claim_reward(current_time)?;
    let paid = account.claim_reward(rate)?;
    *pool = ledger;
    Ok(paid)
}

} // verus!
