//! The operations of the program: each checks the accounts it is given,
//! drives the engine, stores the records that changed and says which token
//! transfers the host has to make. An operation that fails stores nothing.

use crate::error::{ProgramError, ProgramResult, StakingError};
use crate::host::{
    clock_slot, clock_slot_of, create_program_address, program_address_of, token_account,
    token_account_of,
};
use crate::instruction::StakingInstruction;
use crate::pubkey::Pubkey;
use crate::state::settlement::{
    settle_claim, settle_deposit, settle_withdraw, spec_settle_claim, spec_settle_deposit,
    spec_settle_withdraw,
};
use crate::state::stake_account::StakeAccount;
use crate::state::staking_pool::{abs_u64, magnitude, Slot, StakingPool};
use vstd::prelude::*;

verus! {

/// An account as an operation sees it.
#[derive(Clone, Debug, PartialEq, Eq)]
pub struct AccountInfo {
    /// The address of the account.
    pub key: Pubkey,
    /// Whether the transaction was signed for this address.
    pub is_signer: bool,
    /// Whether the transaction may change the account.
    pub is_writable: bool,
    /// The balance of the account.
    pub lamports: u64,
    /// The data that the account holds.
    pub data: Vec<u8>,
    /// The program that owns the account.
    pub owner: Pubkey,
    /// Whether the balance exempts the account from rent at the length of
    /// its data, by the host's rent schedule.
    pub rent_exempt: bool,
}

/// Mint and balance of a token account.
#[derive(Clone, Copy, Debug, PartialEq, Eq)]
pub struct TokenAccount {
    pub mint: Pubkey,
    pub amount: u64,
}

/// What the host has to do to the token ledger when an operation succeeds.
#[derive(Clone, Copy, Debug, PartialEq, Eq)]
pub enum TokenAction {
    /// Set up `account` as a token account of `mint` that `owner` controls.
    InitializeAccount {
        token_program: Pubkey,
        account: Pubkey,
        mint: Pubkey,
        owner: Pubkey,
        rent: Pubkey,
    },
    /// Move `amount` from `source` to `destination` with the approval of
    /// `authority`. Where `signer_seeds` holds a pool's address and seed
    /// byte, the authority is the one derived from them and the program
    /// itself approves.
    Transfer {
        token_program: Pubkey,
        source: Pubkey,
        destination: Pubkey,
        authority: Pubkey,
        amount: u64,
        signer_seeds: Option<(Pubkey, u8)>,
    },
}

/// `after` is `before` with new data.
pub open spec fn rewritten(before: AccountInfo, after: AccountInfo, data: Seq<u8>) -> bool {
    &&& after.key == before.key
    &&& after.is_signer == before.is_signer
    &&& after.is_writable == before.is_writable
    &&& after.lamports == before.lamports
    &&& after.owner == before.owner
    &&& after.rent_exempt == before.rent_exempt
    &&& after.data@ == data
}

/// `after` is `before` with new data in the account at `index`.
pub open spec fn one_rewritten(
    before: Seq<AccountInfo>,
    after: Seq<AccountInfo>,
    index: int,
    data: Seq<u8>,
) -> bool {
    &&& after.len() == before.len()
    &&& forall|i: int| 0 <= i < before.len() && i != index ==> after[i] == before[i]
    &&& rewritten(before[index], after[index], data)
}

/// `after` is `before` with new data in the accounts at `first` and `second`.
pub open spec fn two_rewritten(
    before: Seq<AccountInfo>,
    after: Seq<AccountInfo>,
    first: int,
    first_data: Seq<u8>,
    second: int,
    second_data: Seq<u8>,
) -> bool {
    &&& after.len() == before.len()
    &&& forall|i: int|
        0 <= i < before.len() && i != first && i != second ==> after[i] == before[i]
    &&& rewritten(before[first], after[first], first_data)
    &&& rewritten(before[second], after[second], second_data)
}

/// A failure of the staking engine.
pub open spec fn staking(e: StakingError) -> ProgramError {
    ProgramError::Staking(e)
}

/// The pool ledger in an account's data, where the data holds an
/// initialized one; anything else is an invalid staking pool.
pub open spec fn spec_load_pool(data: Seq<u8>) -> Result<StakingPool, ProgramError> {
    match StakingPool::spec_unpack(data) {
        Ok(pool) => Ok(pool),
        Err(_) => Err(staking(StakingError::InvalidStakingPool)),
    }
}

fn load_pool(info: &AccountInfo) -> (r: Result<StakingPool, ProgramError>)
    ensures
        r == spec_load_pool(info.data@),
{
    match StakingPool::unpack(info.data.as_slice()) {
        Ok(pool) => Ok(pool),
        Err(_) => Err(ProgramError::Staking(StakingError::InvalidStakingPool)),
    }
}

/// The depositor record in an account's data, where the data holds an
/// initialized one; anything else is an invalid stake account.
pub open spec fn spec_load_stake_account(data: Seq<u8>) -> Result<StakeAccount, ProgramError> {
    match StakeAccount::spec_unpack(data) {
        Ok(account) => Ok(account),
        Err(_) => Err(staking(StakingError::InvalidStakeAccount)),
    }
}

fn load_stake_account(info: &AccountInfo) -> (r: Result<StakeAccount, ProgramError>)
    ensures
        r == spec_load_stake_account(info.data@),
{
    match StakeAccount::unpack(info.data.as_slice()) {
        Ok(account) => Ok(account),
        Err(_) => Err(ProgramError::Staking(StakingError::InvalidStakeAccount)),
    }
}

/// Stores a ledger in the account at `index`, or fails and changes nothing.
fn store_pool(accounts: &mut Vec<AccountInfo>, index: usize, pool: StakingPool) -> (r:
    ProgramResult)
    requires
        index < old(accounts).len(),
    ensures
        match StakingPool::spec_pack(pool, old(accounts)[index as int].data@) {
            Ok(data) => r == Ok::<(), ProgramError>(()) && one_rewritten(
                old(accounts)@,
                final(accounts)@,
                index as int,
                data,
            ),
            Err(e) => r == Err::<(), ProgramError>(e) && final(accounts)@ == old(accounts)@,
        },
{
    if accounts[index].data.len() != 298 {
        return Err(ProgramError::InvalidAccountData);
    }
    if !pool.is_packable() {
        return Err(ProgramError::Staking(StakingError::MathOverflow));
    }
    pool.pack_into_slice(accounts[index].data.as_mut_slice());
    Ok(())
}

/// Stores a record in the account at `index`, or fails and changes nothing.
fn store_stake_account(accounts: &mut Vec<AccountInfo>, index: usize, account: StakeAccount) -> (r:
    ProgramResult)
    requires
        index < old(accounts).len(),
    ensures
        match StakeAccount::spec_pack(account, old(accounts)[index as int].data@) {
            Ok(data) => r == Ok::<(), ProgramError>(()) && one_rewritten(
                old(accounts)@,
                final(accounts)@,
                index as int,
                data,
            ),
            Err(e) => r == Err::<(), ProgramError>(e) && final(accounts)@ == old(accounts)@,
        },
{
    if accounts[index].data.len() != 233 {
        return Err(ProgramError::InvalidAccountData);
    }
    if !account.is_packable() {
        return Err(ProgramError::Staking(StakingError::MathOverflow));
    }
    account.pack_into_slice(accounts[index].data.as_mut_slice());
    Ok(())
}

/// Whether an account may hold a record: its balance must exempt it from rent.
pub fn assert_rent_exempt(account_info: &AccountInfo) -> (r: ProgramResult)
    ensures
        r == (if account_info.rent_exempt {
            Ok::<(), ProgramError>(())
        } else {
            Err::<(), ProgramError>(staking(StakingError::NotRentExempt))
        }),
{
    if !account_info.rent_exempt {
        Err(ProgramError::Staking(StakingError::NotRentExempt))
    } else {
        Ok(())
    }
}

/// The pool ledger in an account that is to be initialized: the data must
/// have the length of a ledger and must not hold an initialized one.
pub open spec fn spec_uninitialized_pool(data: Seq<u8>) -> Result<StakingPool, ProgramError> {
    match StakingPool::spec_unpack_unchecked(data) {
        Err(e) => Err(e),
        Ok(pool) => if pool.spec_is_initialized() {
            Err(staking(StakingError::AlreadyInitialized))
        } else {
            Ok(pool)
        },
    }
}

/// Reads the ledger of an account that is to be initialized.
pub fn assert_uninitialized_pool(account_info: &AccountInfo) -> (r: Result<
    StakingPool,
    ProgramError,
>)
    ensures
        r == spec_uninitialized_pool(account_info.data@),
{
    let pool = StakingPool::unpack_unchecked(account_info.data.as_slice())?;
    if pool.is_initialized() {
        Err(ProgramError::Staking(StakingError::AlreadyInitialized))
    } else {
        Ok(pool)
    }
}

/// The depositor record in an account that is to be initialized.
pub open spec fn spec_uninitialized_stake_account(data: Seq<u8>) -> Result<
    StakeAccount,
    ProgramError,
> {
    match StakeAccount::spec_unpack_unchecked(data) {
        Err(e) => Err(e),
        Ok(account) => if account.spec_is_initialized() {
            Err(staking(StakingError::AlreadyInitialized))
        } else {
            Ok(account)
        },
    }
}

/// Reads the record of an account that is to be initialized.
pub fn assert_uninitialized_stake_account(account_info: &AccountInfo) -> (r: Result<
    StakeAccount,
    ProgramError,
>)
    ensures
        r == spec_uninitialized_stake_account(account_info.data@),
{
    let account = StakeAccount::unpack_unchecked(account_info.data.as_slice())?;
    if account.is_initialized() {
        Err(ProgramError::Staking(StakingError::AlreadyInitialized))
    } else {
        Ok(account)
    }
}

/// The data of the pool account after its owner hands the pool to `new_owner`.
///
/// Accounts: the current owner, who must have signed, and the pool, which
/// this program must own.
pub open spec fn spec_process_change_owner(
    program_id: Pubkey,
    new_owner: Pubkey,
    accounts: Seq<AccountInfo>,
) -> Result<Seq<u8>, ProgramError> {
    if accounts.len() < 2 {
        Err(ProgramError::NotEnoughAccountKeys)
    } else if !accounts[0].is_signer {
        Err(staking(StakingError::InvalidArgumentError))
    } else {
        match StakingPool::spec_unpack(accounts[1].data@) {
            Err(e) => Err(e),
            Ok(pool) => if accounts[0].key != pool.owner_authority {
                Err(staking(StakingError::InvalidSigner))
            } else if accounts[1].owner != program_id {
                Err(staking(StakingError::InvalidAccountOwner))
            } else {
                StakingPool::spec_pack(
                    StakingPool { owner_authority: new_owner, ..pool },
                    accounts[1].data@,
                )
            },
        }
    }
}

/// Hands the pool to a new owner, or fails and changes nothing.
pub fn process_change_owner(
    program_id: &Pubkey,
    new_owner: Pubkey,
    accounts: &mut Vec<AccountInfo>,
) -> (r: ProgramResult)
    ensures
        match spec_process_change_owner(*program_id, new_owner, old(accounts)@) {
            Ok(data) => r == Ok::<(), ProgramError>(()) && one_rewritten(
                old(accounts)@,
                final(accounts)@,
                1,
                data,
            ),
            Err(e) => r == Err::<(), ProgramError>(e) && final(accounts)@ == old(accounts)@,
        },
{
    if accounts.len() < 2 {
        return Err(ProgramError::NotEnoughAccountKeys);
    }
    if !accounts[0].is_signer {
        return Err(ProgramError::Staking(StakingError::InvalidArgumentError));
    }
    let mut staking_pool = StakingPool::unpack(accounts[1].data.as_slice())?;
    if !(accounts[0].key == staking_pool.owner_authority) {
        return Err(ProgramError::Staking(StakingError::InvalidSigner));
    }
    if !(accounts[1].owner == *program_id) {
        return Err(ProgramError::Staking(StakingError::InvalidAccountOwner));
    }
    staking_pool.owner_authority = new_owner;
    store_pool(accounts, 1, staking_pool)
}

/// The data of the pool account after its admin hands the administration
/// to `new_admin`.
///
/// Accounts: the current admin, who must have signed, and the pool, which
/// this program must own.
pub open spec fn spec_process_change_admin(
    program_id: Pubkey,
    new_admin: Pubkey,
    accounts: Seq<AccountInfo>,
) -> Result<Seq<u8>, ProgramError> {
    if accounts.len() < 2 {
        Err(ProgramError::NotEnoughAccountKeys)
    } else if !accounts[0].is_signer {
        Err(staking(StakingError::InvalidArgumentError))
    } else {
        match StakingPool::spec_unpack(accounts[1].data@) {
            Err(e) => Err(e),
            Ok(pool) => if accounts[0].key != pool.admin_authority {
                Err(staking(StakingError::InvalidSigner))
            } else if accounts[1].owner != program_id {
                Err(staking(StakingError::InvalidAccountOwner))
            } else {
                StakingPool::spec_pack(
                    StakingPool { admin_authority: new_admin, ..pool },
                    accounts[1].data@,
                )
            },
        }
    }
}

/// Hands the administration of the pool to a new admin, or fails and changes nothing.
pub fn process_change_admin(
    program_id: &Pubkey,
    new_admin: Pubkey,
    accounts: &mut Vec<AccountInfo>,
) -> (r: ProgramResult)
    ensures
        match spec_process_change_admin(*program_id, new_admin, old(accounts)@) {
            Ok(data) => r == Ok::<(), ProgramError>(()) && one_rewritten(
                old(accounts)@,
                final(accounts)@,
                1,
                data,
            ),
            Err(e) => r == Err::<(), ProgramError>(e) && final(accounts)@ == old(accounts)@,
        },
{
    if accounts.len() < 2 {
        return Err(ProgramError::NotEnoughAccountKeys);
    }
    if !accounts[0].is_signer {
        return Err(ProgramError::Staking(StakingError::InvalidArgumentError));
    }
    let mut staking_pool = StakingPool::unpack(accounts[1].data.as_slice())?;
    if !(accounts[0].key == staking_pool.admin_authority) {
        return Err(ProgramError::Staking(StakingError::InvalidSigner));
    }
    if !(accounts[1].owner == *program_id) {
        return Err(ProgramError::Staking(StakingError::InvalidAccountOwner));
    }
    staking_pool.admin_authority = new_admin;
    store_pool(accounts, 1, staking_pool)
}

/// The data of the pool account after its admin sets the earliest tick at
/// which claims pay out.
///
/// Accounts: the admin, who must have signed, and the pool, which this
/// program must own.
pub open spec fn spec_process_update_earliest_reward_claim_time(
    program_id: Pubkey,
    time: Slot,
    accounts: Seq<AccountInfo>,
) -> Result<Seq<u8>, ProgramError> {
    if accounts.len() < 2 {
        Err(ProgramError::NotEnoughAccountKeys)
    } else if !accounts[0].is_signer {
        Err(staking(StakingError::InvalidArgumentError))
    } else if accounts[1].owner != program_id {
        Err(staking(StakingError::InvalidAccountOwner))
    } else {
        match spec_load_pool(accounts[1].data@) {
            Err(e) => Err(e),
            Ok(pool) => if accounts[0].key != pool.admin_authority {
                Err(staking(StakingError::InvalidSigner))
            } else {
                StakingPool::spec_pack(
                    StakingPool { earliest_reward_claim_time: time, ..pool },
                    accounts[1].data@,
                )
            },
        }
    }
}

/// Sets the earliest claim tick, or fails and changes nothing.
pub fn process_update_earliest_reward_claim_time(
    program_id: &Pubkey,
    time: Slot,
    accounts: &mut Vec<AccountInfo>,
) -> (r: ProgramResult)
    ensures
        match spec_process_update_earliest_reward_claim_time(*program_id, time, old(accounts)@) {
            Ok(data) => r == Ok::<(), ProgramError>(()) && one_rewritten(
                old(accounts)@,
                final(accounts)@,
                1,
                data,
            ),
            Err(e) => r == Err::<(), ProgramError>(e) && final(accounts)@ == old(accounts)@,
        },
{
    if accounts.len() < 2 {
        return Err(ProgramError::NotEnoughAccountKeys);
    }
    if !accounts[0].is_signer {
        return Err(ProgramError::Staking(StakingError::InvalidArgumentError));
    }
    if !(accounts[1].owner == *program_id) {
        return Err(ProgramError::Staking(StakingError::InvalidAccountOwner));
    }
    let mut staking_pool = load_pool(&accounts[1])?;
    if !(accounts[0].key == staking_pool.admin_authority) {
        return Err(ProgramError::Staking(StakingError::InvalidSigner));
    }
    staking_pool.earliest_reward_claim_time = time;
    store_pool(accounts, 1, staking_pool)
}

/// The data of the pool account after its admin changes the duration by
/// `amount` ticks at the tick `clock`.
///
/// Accounts: the admin, who must have signed; the pool, which this program
/// must own; the clock. `clock` is the tick that the clock account holds,
/// `None` where it is not the host's clock.
pub open spec fn spec_process_change_duration(
    program_id: Pubkey,
    amount: i64,
    accounts: Seq<AccountInfo>,
    clock: Option<Slot>,
) -> Result<Seq<u8>, ProgramError> {
    if accounts.len() < 3 {
        Err(ProgramError::NotEnoughAccountKeys)
    } else if !accounts[0].is_signer {
        Err(staking(StakingError::InvalidArgumentError))
    } else {
        match StakingPool::spec_unpack(accounts[1].data@) {
            Err(e) => Err(e),
            Ok(pool) => if accounts[0].key != pool.admin_authority {
                Err(staking(StakingError::InvalidSigner))
            } else if accounts[1].owner != program_id {
                Err(staking(StakingError::InvalidAccountOwner))
            } else {
                match clock {
                    None => Err(ProgramError::InvalidArgument),
                    Some(now) => match pool.spec_extend_duration(amount, now) {
                        Err(e) => Err(e),
                        Ok(after) => StakingPool::spec_pack(after, accounts[1].data@),
                    },
                }
            },
        }
    }
}

/// Changes the duration of the schedule, or fails and changes nothing.
pub fn process_change_duration(
    program_id: &Pubkey,
    amount: i64,
    accounts: &mut Vec<AccountInfo>,
    clock: Option<Slot>,
) -> (r: ProgramResult)
    ensures
        match spec_process_change_duration(*program_id, amount, old(accounts)@, clock) {
            Ok(data) => r == Ok::<(), ProgramError>(()) && one_rewritten(
                old(accounts)@,
                final(accounts)@,
                1,
                data,
            ),
            Err(e) => r == Err::<(), ProgramError>(e) && final(accounts)@ == old(accounts)@,
        },
{
    if accounts.len() < 3 {
        return Err(ProgramError::NotEnoughAccountKeys);
    }
    if !accounts[0].is_signer {
        return Err(ProgramError::Staking(StakingError::InvalidArgumentError));
    }
    let mut staking_pool = StakingPool::unpack(accounts[1].data.as_slice())?;
    if !(accounts[0].key == staking_pool.admin_authority) {
        return Err(ProgramError::Staking(StakingError::InvalidSigner));
    }
    if !(accounts[1].owner == *program_id) {
        return Err(ProgramError::Staking(StakingError::InvalidAccountOwner));
    }
    let now = match clock {
        Some(now) => now,
        None => {
            return Err(ProgramError::InvalidArgument);
        },
    };
    staking_pool.extend_duration(amount, now)?;
    store_pool(accounts, 1, staking_pool)
}

/// The data of a new depositor record.
///
/// Accounts: the stake account, exempt from rent, owned by this program,
/// with data that holds no initialized record; the pool, owned by this
/// program; the owner of the record; the rent account.
pub open spec fn spec_process_create_stake_account(program_id: Pubkey, accounts: Seq<AccountInfo>)
    -> Result<Seq<u8>, ProgramError> {
    if accounts.len() < 4 {
        Err(ProgramError::NotEnoughAccountKeys)
    } else if !accounts[0].rent_exempt {
        Err(staking(StakingError::NotRentExempt))
    } else if accounts[0].owner != program_id {
        Err(staking(StakingError::InvalidAccountOwner))
    } else if accounts[1].owner != program_id {
        Err(staking(StakingError::InvalidAccountOwner))
    } else if accounts[0].data@.len() == 0 {
        Err(staking(StakingError::InvalidStakeAccount))
    } else {
        match spec_uninitialized_stake_account(accounts[0].data@) {
            Err(e) => Err(e),
            Ok(account) => StakeAccount::spec_pack(
                StakeAccount {
                    owner: accounts[2].key,
                    version: crate::state::stake_account::PROGRAM_VERSION,
                    pool_pubkey: accounts[1].key,
                    ..account
                },
                accounts[0].data@,
            ),
        }
    }
}

/// Sets up a depositor record, or fails and changes nothing.
pub fn process_create_stake_account(program_id: &Pubkey, accounts: &mut Vec<AccountInfo>) -> (r:
    ProgramResult)
    ensures
        match spec_process_create_stake_account(*program_id, old(accounts)@) {
            Ok(data) => r == Ok::<(), ProgramError>(()) && one_rewritten(
                old(accounts)@,
                final(accounts)@,
                0,
                data,
            ),
            Err(e) => r == Err::<(), ProgramError>(e) && final(accounts)@ == old(accounts)@,
        },
{
    if accounts.len() < 4 {
        return Err(ProgramError::NotEnoughAccountKeys);
    }
    assert_rent_exempt(&accounts[0])?;
    if !(accounts[0].owner == *program_id) {
        return Err(ProgramError::Staking(StakingError::InvalidAccountOwner));
    }
    if !(accounts[1].owner == *program_id) {
        return Err(ProgramError::Staking(StakingError::InvalidAccountOwner));
    }
    if accounts[0].data.len() == 0 {
        return Err(ProgramError::Staking(StakingError::InvalidStakeAccount));
    }
    let mut stake_account = assert_uninitialized_stake_account(&accounts[0])?;
    let owner = accounts[2].key;
    let pool = accounts[1].key;
    stake_account.init(owner, pool)?;
    store_stake_account(accounts, 0, stake_account)
}

/// What a deposit or a withdrawal checks before it touches the engine, and
/// the records it then works on.
///
/// Accounts: the authority, who must have signed and be the pool's owner or
/// admin; the stake account and the pool, both owned by this program, the
/// stake account belonging to the pool; the clock.
pub open spec fn spec_stake_records(program_id: Pubkey, accounts: Seq<AccountInfo>) -> Result<
    (StakingPool, StakeAccount),
    ProgramError,
> {
    if accounts.len() < 4 {
        Err(ProgramError::NotEnoughAccountKeys)
    } else if !accounts[0].is_signer {
        Err(staking(StakingError::InvalidArgumentError))
    } else if accounts[2].owner != program_id {
        Err(staking(StakingError::InvalidAccountOwner))
    } else if accounts[1].owner != program_id {
        Err(staking(StakingError::InvalidAccountOwner))
    } else {
        match spec_load_pool(accounts[2].data@) {
            Err(e) => Err(e),
            Ok(pool) => if accounts[0].key != pool.owner_authority && accounts[0].key
                != pool.admin_authority {
                Err(staking(StakingError::InvalidSigner))
            } else {
                match spec_load_stake_account(accounts[1].data@) {
                    Err(e) => Err(e),
                    Ok(account) => if accounts[2].key != account.pool_pubkey {
                        Err(staking(StakingError::InvalidStakingPool))
                    } else {
                        Ok((pool, account))
                    },
                }
            },
        }
    }
}

fn stake_records(program_id: &Pubkey, accounts: &Vec<AccountInfo>) -> (r: Result<
    (StakingPool, StakeAccount),
    ProgramError,
>)
    ensures
        r == spec_stake_records(*program_id, accounts@),
{
    if accounts.len() < 4 {
        return Err(ProgramError::NotEnoughAccountKeys);
    }
    if !accounts[0].is_signer {
        return Err(ProgramError::Staking(StakingError::InvalidArgumentError));
    }
    if !(accounts[2].owner == *program_id) {
        return Err(ProgramError::Staking(StakingError::InvalidAccountOwner));
    }
    if !(accounts[1].owner == *program_id) {
        return Err(ProgramError::Staking(StakingError::InvalidAccountOwner));
    }
    let staking_pool = load_pool(&accounts[2])?;
    if !(accounts[0].key == staking_pool.owner_authority) && !(accounts[0].key
        == staking_pool.admin_authority) {
        return Err(ProgramError::Staking(StakingError::InvalidSigner));
    }
    let stake_account = load_stake_account(&accounts[1])?;
    if !(accounts[2].key == stake_account.pool_pubkey) {
        return Err(ProgramError::Staking(StakingError::InvalidStakingPool));
    }
    Ok((staking_pool, stake_account))
}

/// The data of stake account and pool once both records are stored.
pub open spec fn spec_store_both(
    accounts: Seq<AccountInfo>,
    account: StakeAccount,
    pool: StakingPool,
) -> Result<(Seq<u8>, Seq<u8>), ProgramError> {
    match (
        StakeAccount::spec_pack(account, accounts[1].data@),
        StakingPool::spec_pack(pool, accounts[2].data@),
    ) {
        (Ok(account_data), Ok(pool_data)) => Ok((account_data, pool_data)),
        (Err(e), _) => Err(e),
        (_, Err(e)) => Err(e),
    }
}

/// Stores the record at index 1 and the ledger at index 2, or fails and
/// changes nothing.
fn store_both(accounts: &mut Vec<AccountInfo>, account: StakeAccount, pool: StakingPool) -> (r:
    ProgramResult)
    requires
        old(accounts).len() >= 3,
    ensures
        match spec_store_both(old(accounts)@, account, pool) {
            Ok((account_data, pool_data)) => r == Ok::<(), ProgramError>(()) && two_rewritten(
                old(accounts)@,
                final(accounts)@,
                1,
                account_data,
                2,
                pool_data,
            ),
            Err(e) => r == Err::<(), ProgramError>(e) && final(accounts)@ == old(accounts)@,
        },
{
    if accounts[1].data.len() != 233 {
        return Err(ProgramError::InvalidAccountData);
    }
    if !account.is_packable() {
        return Err(ProgramError::Staking(StakingError::MathOverflow));
    }
    if accounts[2].data.len() != 298 {
        return Err(ProgramError::InvalidAccountData);
    }
    if !pool.is_packable() {
        return Err(ProgramError::Staking(StakingError::MathOverflow));
    }
    account.pack_into_slice(accounts[1].data.as_mut_slice());
    pool.pack_into_slice(accounts[2].data.as_mut_slice());
    Ok(())
}

/// The data of stake account and pool after `amount` is staked at the tick
/// `clock`.
pub open spec fn spec_process_deposit(
    program_id: Pubkey,
    amount: u64,
    accounts: Seq<AccountInfo>,
    clock: Option<Slot>,
) -> Result<(Seq<u8>, Seq<u8>), ProgramError> {
    match spec_stake_records(program_id, accounts) {
        Err(e) => Err(e),
        Ok((pool, account)) => match clock {
            None => Err(ProgramError::InvalidArgument),
            Some(now) => match spec_settle_deposit(pool, account, now, amount) {
                Err(e) => Err(e),
                Ok((p, a)) => spec_store_both(accounts, a, p),
            },
        },
    }
}

/// Stakes an amount, or fails and changes nothing.
pub fn process_deposit(
    program_id: &Pubkey,
    amount: u64,
    accounts: &mut Vec<AccountInfo>,
    clock: Option<Slot>,
) -> (r: ProgramResult)
    ensures
        match spec_process_deposit(*program_id, amount, old(accounts)@, clock) {
            Ok((account_data, pool_data)) => r == Ok::<(), ProgramError>(()) && two_rewritten(
                old(accounts)@,
                final(accounts)@,
                1,
                account_data,
                2,
                pool_data,
            ),
            Err(e) => r == Err::<(), ProgramError>(e) && final(accounts)@ == old(accounts)@,
        },
{
    let (mut staking_pool, mut stake_account) = stake_records(program_id, accounts)?;
    let now = match clock {
        Some(now) => now,
        None => {
            return Err(ProgramError::InvalidArgument);
        },
    };
    settle_deposit(&mut staking_pool, &mut stake_account, now, amount)?;
    store_both(accounts, stake_account, staking_pool)
}

/// The data of stake account and pool after `amount` is taken out at the
/// tick `clock`.
pub open spec fn spec_process_withdraw(
    program_id: Pubkey,
    amount: u64,
    accounts: Seq<AccountInfo>,
    clock: Option<Slot>,
) -> Result<(Seq<u8>, Seq<u8>), ProgramError> {
    match spec_stake_records(program_id, accounts) {
        Err(e) => Err(e),
        Ok((pool, account)) => match clock {
            None => Err(ProgramError::InvalidArgument),
            Some(now) => match spec_settle_withdraw(pool, account, now, amount) {
                Err(e) => Err(e),
                Ok((p, a)) => spec_store_both(accounts, a, p),
            },
        },
    }
}

/// Takes an amount out, or fails and changes nothing.
pub fn process_withdraw(
    program_id: &Pubkey,
    amount: u64,
    accounts: &mut Vec<AccountInfo>,
    clock: Option<Slot>,
) -> (r: ProgramResult)
    ensures
        match spec_process_withdraw(*program_id, amount, old(accounts)@, clock) {
            Ok((account_data, pool_data)) => r == Ok::<(), ProgramError>(()) && two_rewritten(
                old(accounts)@,
                final(accounts)@,
                1,
                account_data,
                2,
                pool_data,
            ),
            Err(e) => r == Err::<(), ProgramError>(e) && final(accounts)@ == old(accounts)@,
        },
{
    let (mut staking_pool, mut stake_account) = stake_records(program_id, accounts)?;
    let now = match clock {
        Some(now) => now,
        None => {
            return Err(ProgramError::InvalidArgument);
        },
    };
    settle_withdraw(&mut staking_pool, &mut stake_account, now, amount)?;
    store_both(accounts, stake_account, staking_pool)
}

/// A transfer out of a vault of the pool at `pool`, approved by the
/// program through the authority derived from the pool's address and seed
/// byte.
pub open spec fn vault_transfer(
    token_program: Pubkey,
    source: Pubkey,
    destination: Pubkey,
    authority: Pubkey,
    amount: u64,
    pool: Pubkey,
    bump: u8,
) -> TokenAction {
    TokenAction::Transfer {
        token_program,
        source,
        destination,
        authority,
        amount,
        signer_seeds: Some((pool, bump)),
    }
}

/// A transfer that the holder of the source approves.
pub open spec fn signed_transfer(
    token_program: Pubkey,
    source: Pubkey,
    destination: Pubkey,
    authority: Pubkey,
    amount: u64,
) -> TokenAction {
    TokenAction::Transfer {
        token_program,
        source,
        destination,
        authority,
        amount,
        signer_seeds: None,
    }
}

/// What a claim stores and pays once the engine has settled it: the
/// primary reward from the pool's vault, and the secondary reward, where
/// the claim has one, from the secondary vault, which must be the one the
/// ledger names.
pub open spec fn spec_claim_payout(
    accounts: Seq<AccountInfo>,
    pool: StakingPool,
    account: StakeAccount,
    paid: (u64, Option<u64>),
) -> Result<((Seq<u8>, Seq<u8>), Seq<TokenAction>), ProgramError> {
    let primary = vault_transfer(
        accounts[7].key,
        accounts[3].key,
        accounts[4].key,
        accounts[5].key,
        paid.0,
        accounts[2].key,
        pool.bump_seed_staking_program,
    );
    match paid.1 {
        None => match spec_store_both(accounts, account, pool) {
            Err(e) => Err(e),
            Ok(stored) => Ok((stored, seq![primary])),
        },
        Some(sub) => if accounts.len() < 10 {
            Err(ProgramError::NotEnoughAccountKeys)
        } else if pool.sub_reward_token_pool != Some(accounts[8].key) {
            Err(staking(StakingError::InvalidRewardTokenPool))
        } else {
            match spec_store_both(accounts, account, pool) {
                Err(e) => Err(e),
                Ok(stored) => Ok(
                    (
                        stored,
                        seq![
                            primary,
                            vault_transfer(
                                accounts[7].key,
                                accounts[8].key,
                                accounts[9].key,
                                accounts[5].key,
                                sub,
                                accounts[2].key,
                                pool.bump_seed_staking_program,
                            ),
                        ],
                    ),
                )
            }
        },
    }
}

/// What a claim checks before it touches the engine, and the records it
/// then works on; `None` before the pool's earliest claim tick.
pub open spec fn spec_claim_records(program_id: Pubkey, accounts: Seq<AccountInfo>, now: Slot)
    -> Result<Option<(StakingPool, StakeAccount)>, ProgramError> {
    match (spec_load_stake_account(accounts[1].data@), spec_load_pool(accounts[2].data@)) {
        (Err(e), _) => Err(e),
        (_, Err(e)) => Err(e),
        (Ok(account), Ok(pool)) => if now < pool.earliest_reward_claim_time {
            Ok(None)
        } else if accounts[2].owner != program_id {
            Err(staking(StakingError::InvalidAccountOwner))
        } else if accounts[1].owner != program_id {
            Err(staking(StakingError::InvalidAccountOwner))
        } else if accounts[2].key != account.pool_pubkey {
            Err(staking(StakingError::InvalidStakingPool))
        } else if accounts[0].key != account.owner {
            Err(staking(StakingError::InvalidSigner))
        } else if pool.reward_token_pool != accounts[3].key {
            Err(staking(StakingError::InvalidRewardTokenPool))
        } else if accounts[4].owner != accounts[7].key || accounts[3].owner != accounts[7].key {
            Err(staking(StakingError::InvalidTokenOwner))
        } else {
            Ok(Some((pool, account)))
        },
    }
}

fn claim_records(program_id: &Pubkey, accounts: &Vec<AccountInfo>, now: Slot) -> (r: Result<
    Option<(StakingPool, StakeAccount)>,
    ProgramError,
>)
    requires
        accounts.len() >= 8,
    ensures
        r == spec_claim_records(*program_id, accounts@, now),
{
    let stake_account = load_stake_account(&accounts[1])?;
    let staking_pool = load_pool(&accounts[2])?;
    if now < staking_pool.earliest_reward_claim_time {
        return Ok(None);
    }
    if !(accounts[2].owner == *program_id) {
        return Err(ProgramError::Staking(StakingError::InvalidAccountOwner));
    }
    if !(accounts[1].owner == *program_id) {
        return Err(ProgramError::Staking(StakingError::InvalidAccountOwner));
    }
    if !(accounts[2].key == stake_account.pool_pubkey) {
        return Err(ProgramError::Staking(StakingError::InvalidStakingPool));
    }
    if !(accounts[0].key == stake_account.owner) {
        return Err(ProgramError::Staking(StakingError::InvalidSigner));
    }
    if !(staking_pool.reward_token_pool == accounts[3].key) {
        return Err(ProgramError::Staking(StakingError::InvalidRewardTokenPool));
    }
    if !(accounts[4].owner == accounts[7].key) || !(accounts[3].owner == accounts[7].key) {
        return Err(ProgramError::Staking(StakingError::InvalidTokenOwner));
    }
    Ok(Some((staking_pool, stake_account)))
}

fn claim_payout(
    accounts: &mut Vec<AccountInfo>,
    pool: StakingPool,
    account: StakeAccount,
    paid: (u64, Option<u64>),
) -> (r: Result<Vec<TokenAction>, ProgramError>)
    requires
        old(accounts).len() >= 8,
    ensures
        match spec_claim_payout(old(accounts)@, pool, account, paid) {
            Ok(((account_data, pool_data), actions)) => {
                &&& r is Ok
                &&& r->Ok_0@ == actions
                &&& two_rewritten(
                    old(accounts)@,
                    final(accounts)@,
                    1,
                    account_data,
                    2,
                    pool_data,
                )
            },
            Err(e) => r == Err::<Vec<TokenAction>, ProgramError>(e) && final(accounts)@ == old(
                accounts,
            )@,
        },
{
    let mut actions: Vec<TokenAction> = Vec::new();
    actions.push(
        TokenAction::Transfer {
            token_program: accounts[7].key,
            source: accounts[3].key,
            destination: accounts[4].key,
            authority: accounts[5].key,
            amount: paid.0,
            signer_seeds: Some((accounts[2].key, pool.bump_seed_staking_program)),
        },
    );
    if let Some(sub) = paid.1 {
        if accounts.len() < 10 {
            return Err(ProgramError::NotEnoughAccountKeys);
        }
        let vault = match pool.sub_reward_token_pool {
            Some(k) => k,
            None => {
                return Err(ProgramError::Staking(StakingError::InvalidRewardTokenPool));
            },
        };
        if !(vault == accounts[8].key) {
            return Err(ProgramError::Staking(StakingError::InvalidRewardTokenPool));
        }
        actions.push(
            TokenAction::Transfer {
                token_program: accounts[7].key,
                source: accounts[8].key,
                destination: accounts[9].key,
                authority: accounts[5].key,
                amount: sub,
                signer_seeds: Some((accounts[2].key, pool.bump_seed_staking_program)),
            },
        );
    }
    proof {
        let ghost expected = spec_claim_payout(old(accounts)@, pool, account, paid);
        if expected is Ok {
            assert(actions@ =~= expected->Ok_0.1);
        }
    }
    store_both(accounts, account, pool)?;
    Ok(actions)
}

/// The outcome of a claim at the tick `clock`: the data of stake account
/// and pool, and the transfers to make. Before the pool's earliest claim
/// tick a claim succeeds, stores nothing and pays nothing.
///
/// Accounts: the owner of the record, who must have signed; the stake
/// account and the pool, owned by this program, the one belonging to the
/// other; the pool's reward vault and the destination, both owned by the
/// token program given; the derived authority; the clock; the token
/// program; and, where the pool has a secondary reward, its vault and the
/// destination for it. `derived` is the address derived from the pool's
/// address and seed byte, `None` where there is none.
pub open spec fn spec_process_claim_reward(
    program_id: Pubkey,
    accounts: Seq<AccountInfo>,
    clock: Option<Slot>,
    derived: Option<Pubkey>,
) -> Result<Option<((Seq<u8>, Seq<u8>), Seq<TokenAction>)>, ProgramError> {
    if accounts.len() < 8 {
        Err(ProgramError::NotEnoughAccountKeys)
    } else if !accounts[0].is_signer {
        Err(staking(StakingError::InvalidArgumentError))
    } else if clock is None {
        Err(ProgramError::InvalidArgument)
    } else {
        match spec_claim_records(program_id, accounts, clock->Some_0) {
            Err(e) => Err(e),
            Ok(None) => Ok(None),
            Ok(Some((pool, account))) => match spec_settle_claim(pool, account, clock->Some_0) {
                Err(e) => Err(e),
                Ok((p, a, paid)) => if derived is None {
                    Err(ProgramError::InvalidSeeds)
                } else if derived->Some_0 != accounts[5].key {
                    Err(staking(StakingError::InvalidRewardTokenPoolOwner))
                } else {
                    match spec_claim_payout(accounts, p, a, paid) {
                        Err(e) => Err(e),
                        Ok(outcome) => Ok(Some(outcome)),
                    }
                },
            },
        }
    }
}

/// Settles a claim and says what to pay, or fails and changes nothing.
pub fn process_claim_reward(
    program_id: &Pubkey,
    accounts: &mut Vec<AccountInfo>,
    clock: Option<Slot>,
    derived: Option<Pubkey>,
) -> (r: Result<Vec<TokenAction>, ProgramError>)
    ensures
        match spec_process_claim_reward(*program_id, old(accounts)@, clock, derived) {
            Ok(Some(((account_data, pool_data), actions))) => {
                &&& r is Ok
                &&& r->Ok_0@ == actions
                &&& two_rewritten(
                    old(accounts)@,
                    final(accounts)@,
                    1,
                    account_data,
                    2,
                    pool_data,
                )
            },
            Ok(None) => {
                &&& r is Ok
                &&& r->Ok_0@ == Seq::<TokenAction>::empty()
                &&& final(accounts)@ == old(accounts)@
            },
            Err(e) => r == Err::<Vec<TokenAction>, ProgramError>(e) && final(accounts)@ == old(
                accounts,
            )@,
        },
{
    if accounts.len() < 8 {
        return Err(ProgramError::NotEnoughAccountKeys);
    }
    if !accounts[0].is_signer {
        return Err(ProgramError::Staking(StakingError::InvalidArgumentError));
    }
    let now = match clock {
        Some(now) => now,
        None => {
            return Err(ProgramError::InvalidArgument);
        },
    };
    let (mut staking_pool, mut stake_account) = match claim_records(program_id, accounts, now)? {
        Some(records) => records,
        None => {
            return Ok(Vec::new());
        },
    };
    let paid = settle_claim(&mut staking_pool, &mut stake_account, now)?;
    let authority = match derived {
        Some(k) => k,
        None => {
            return Err(ProgramError::InvalidSeeds);
        },
    };
    if !(authority == accounts[5].key) {
        return Err(ProgramError::Staking(StakingError::InvalidRewardTokenPoolOwner));
    }
    claim_payout(accounts, staking_pool, stake_account, paid)
}

/// What a reward supply has to be for a change of `amount`: a token
/// account of the mint given, with at least `amount` in it where the
/// change adds to the pool.
pub open spec fn spec_check_supply(supply: Option<TokenAccount>, amount: i64, mint: Pubkey)
    -> Result<(), ProgramError> {
    match supply {
        None => Err(staking(StakingError::InvalidRewardTokenSupplyAccount)),
        Some(account) => if amount > 0 && account.amount < amount {
            Err(staking(StakingError::InSufficientSupplyError))
        } else if account.mint != mint {
            Err(staking(StakingError::InvalidRewardSupplyAccountError))
        } else {
            Ok(())
        },
    }
}

fn check_supply(supply: Option<TokenAccount>, amount: i64, mint: &Pubkey) -> (r: ProgramResult)
    ensures
        r == spec_check_supply(supply, amount, *mint),
{
    let account = match supply {
        Some(account) => account,
        None => {
            return Err(ProgramError::Staking(StakingError::InvalidRewardTokenSupplyAccount));
        },
    };
    if amount > 0 && account.amount < (amount as u64) {
        return Err(ProgramError::Staking(StakingError::InSufficientSupplyError));
    }
    if !(account.mint == *mint) {
        return Err(ProgramError::Staking(StakingError::InvalidRewardSupplyAccountError));
    }
    Ok(())
}

/// Whether a change takes supply away, from either stream. Only the
/// pool's admin may do that.
pub open spec fn takes_away(amount: i64, sub_amount: Option<i64>) -> bool {
    amount < 0 || (sub_amount matches Some(sub) && sub < 0)
}

/// The transfer that goes with a change of `amount` to a supply: into the
/// vault, approved by the holder of the supply, where the change adds;
/// out of the vault, approved by the program, where it takes away.
pub open spec fn supply_transfer(
    accounts: Seq<AccountInfo>,
    supply: int,
    vault: int,
    inward: bool,
    amount: u64,
    bump: u8,
) -> TokenAction {
    if inward {
        signed_transfer(
            accounts[9].key,
            accounts[supply].key,
            accounts[vault].key,
            accounts[0].key,
            amount,
        )
    } else {
        vault_transfer(
            accounts[9].key,
            accounts[vault].key,
            accounts[supply].key,
            accounts[6].key,
            amount,
            accounts[1].key,
            bump,
        )
    }
}

/// The outcome of a change of `amount` to the reward supply, and of
/// `sub_amount` to the secondary one, at the tick `clock`: the data of the
/// pool and the transfers to make.
///
/// Each stream follows its own change: supply goes into its vault where
/// the change adds, and out of it where the change takes away.
///
/// Accounts: the transfer authority, who must have signed and, where the
/// change takes supply away from either stream, be the pool's admin; the
/// pool, owned by this program; the reward supply and the pool's reward
/// vault; the secondary supply and vault; the derived authority; the mints
/// of both rewards; the token program; the clock. `reward_supply` and
/// `sub_reward_supply` are what the token program makes of the two supply
/// accounts.
pub open spec fn spec_process_change_reward_supply(
    program_id: Pubkey,
    amount: i64,
    sub_amount: Option<i64>,
    accounts: Seq<AccountInfo>,
    reward_supply: Option<TokenAccount>,
    sub_reward_supply: Option<TokenAccount>,
    clock: Option<Slot>,
) -> Result<(Seq<u8>, Seq<TokenAction>), ProgramError> {
    if amount == 0 {
        Err(staking(StakingError::InvalidArgumentError))
    } else if accounts.len() < 11 {
        Err(ProgramError::NotEnoughAccountKeys)
    } else {
        match spec_load_pool(accounts[1].data@) {
            Err(e) => Err(e),
            Ok(pool) => if !accounts[0].is_signer {
                Err(staking(StakingError::InvalidArgumentError))
            } else if takes_away(amount, sub_amount) && accounts[0].key != pool.admin_authority {
                Err(staking(StakingError::InvalidSigner))
            } else if spec_check_supply(reward_supply, amount, accounts[7].key) is Err {
                Err(spec_check_supply(reward_supply, amount, accounts[7].key)->Err_0)
            } else if accounts[1].owner != program_id {
                Err(staking(StakingError::InvalidAccountOwner))
            } else if pool.reward_token_pool != accounts[3].key {
                Err(staking(StakingError::InvalidRewardTokenPool))
            } else if clock is None {
                Err(ProgramError::InvalidArgument)
            } else {
                match pool.spec_update_reward_supply(amount, sub_amount, clock->Some_0) {
                    Err(e) => Err(e),
                    Ok(after) => {
                        let primary = supply_transfer(
                            accounts,
                            2,
                            3,
                            amount > 0,
                            magnitude(amount),
                            after.bump_seed_staking_program,
                        );
                        match sub_amount {
                            None => match StakingPool::spec_pack(after, accounts[1].data@) {
                                Err(e) => Err(e),
                                Ok(data) => Ok((data, seq![primary])),
                            },
                            Some(sub) => if spec_check_supply(
                                sub_reward_supply,
                                sub,
                                accounts[8].key,
                            ) is Err {
                                Err(
                                    spec_check_supply(
                                        sub_reward_supply,
                                        sub,
                                        accounts[8].key,
                                    )->Err_0,
                                )
                            } else if after.sub_reward_token_pool != Some(accounts[5].key) {
                                Err(staking(StakingError::InvalidRewardTokenPool))
                            } else {
                                match StakingPool::spec_pack(after, accounts[1].data@) {
                                    Err(e) => Err(e),
                                    Ok(data) => Ok(
                                        (
                                            data,
                                            seq![
                                                primary,
                                                supply_transfer(
                                                    accounts,
                                                    4,
                                                    5,
                                                    sub > 0,
                                                    magnitude(sub),
                                                    after.bump_seed_staking_program,
                                                ),
                                            ],
                                        ),
                                    ),
                                }
                            },
                        }
                    },
                }
            },
        }
    }
}

fn push_supply_transfer(
    actions: &mut Vec<TokenAction>,
    accounts: &Vec<AccountInfo>,
    supply: usize,
    vault: usize,
    inward: bool,
    amount: u64,
    bump: u8,
)
    requires
        accounts.len() >= 11,
        supply < 11,
        vault < 11,
    ensures
        final(actions)@ == old(actions)@.push(
            supply_transfer(accounts@, supply as int, vault as int, inward, amount, bump),
        ),
{
    if inward {
        actions.push(
            TokenAction::Transfer {
                token_program: accounts[9].key,
                source: accounts[supply].key,
                destination: accounts[vault].key,
                authority: accounts[0].key,
                amount,
                signer_seeds: None,
            },
        );
    } else {
        actions.push(
            TokenAction::Transfer {
                token_program: accounts[9].key,
                source: accounts[vault].key,
                destination: accounts[supply].key,
                authority: accounts[6].key,
                amount,
                signer_seeds: Some((accounts[1].key, bump)),
            },
        );
    }
}

/// Changes the reward supply and says what to transfer, or fails and changes nothing.
pub fn process_change_reward_supply(
    program_id: &Pubkey,
    amount: i64,
    sub_amount: Option<i64>,
    accounts: &mut Vec<AccountInfo>,
    reward_supply: Option<TokenAccount>,
    sub_reward_supply: Option<TokenAccount>,
    clock: Option<Slot>,
) -> (r: Result<Vec<TokenAction>, ProgramError>)
    ensures
        match spec_process_change_reward_supply(
            *program_id,
            amount,
            sub_amount,
            old(accounts)@,
            reward_supply,
            sub_reward_supply,
            clock,
        ) {
            Ok((data, actions)) => {
                &&& r is Ok
                &&& r->Ok_0@ == actions
                &&& one_rewritten(old(accounts)@, final(accounts)@, 1, data)
            },
            Err(e) => r == Err::<Vec<TokenAction>, ProgramError>(e) && final(accounts)@ == old(
                accounts,
            )@,
        },
{
    if amount == 0 {
        return Err(ProgramError::Staking(StakingError::InvalidArgumentError));
    }
    if accounts.len() < 11 {
        return Err(ProgramError::NotEnoughAccountKeys);
    }
    let mut staking_pool = load_pool(&accounts[1])?;
    if !accounts[0].is_signer {
        return Err(ProgramError::Staking(StakingError::InvalidArgumentError));
    }
    let takes = amount < 0 || match sub_amount {
        Some(sub) => sub < 0,
        None => false,
    };
    if takes && !(accounts[0].key == staking_pool.admin_authority) {
        return Err(ProgramError::Staking(StakingError::InvalidSigner));
    }
    check_supply(reward_supply, amount, &accounts[7].key)?;
    if !(accounts[1].owner == *program_id) {
        return Err(ProgramError::Staking(StakingError::InvalidAccountOwner));
    }
    if !(staking_pool.reward_token_pool == accounts[3].key) {
        return Err(ProgramError::Staking(StakingError::InvalidRewardTokenPool));
    }
    let now = match clock {
        Some(now) => now,
        None => {
            return Err(ProgramError::InvalidArgument);
        },
    };
    staking_pool.update_reward_supply(amount, sub_amount, now)?;
    let bump = staking_pool.bump_seed_staking_program;
    let mut actions: Vec<TokenAction> = Vec::new();
    let size = abs_u64(amount);
    push_supply_transfer(&mut actions, accounts, 2, 3, amount > 0, size, bump);
    if let Some(sub) = sub_amount {
        check_supply(sub_reward_supply, sub, &accounts[8].key)?;
        let vault = match staking_pool.sub_reward_token_pool {
            Some(k) => k,
            None => {
                return Err(ProgramError::Staking(StakingError::InvalidRewardTokenPool));
            },
        };
        if !(vault == accounts[5].key) {
            return Err(ProgramError::Staking(StakingError::InvalidRewardTokenPool));
        }
        push_supply_transfer(&mut actions, accounts, 4, 5, sub > 0, abs_u64(sub), bump);
    }
    proof {
        let ghost primary = supply_transfer(old(accounts)@, 2, 3, amount > 0, size, bump);
        if let Some(sub) = sub_amount {
            assert(actions@ =~= seq![
                primary,
                supply_transfer(old(accounts)@, 4, 5, sub > 0, magnitude(sub), bump),
            ]);
        } else {
            assert(actions@ =~= seq![primary]);
        }
    }
    store_pool(accounts, 1, staking_pool)?;
    Ok(actions)
}

/// Setting up a token account at `account` for `mint`, under the control
/// of `owner`.
pub open spec fn vault_setup(
    token_program: Pubkey,
    account: Pubkey,
    mint: Pubkey,
    owner: Pubkey,
    rent: Pubkey,
) -> TokenAction {
    TokenAction::InitializeAccount { token_program, account, mint, owner, rent }
}

/// What a supply that funds a new reward has to be: a token account of the
/// mint given with at least `amount` in it.
pub open spec fn spec_check_funding(supply: Option<TokenAccount>, amount: u64, mint: Pubkey)
    -> Result<(), ProgramError> {
    match supply {
        None => Err(staking(StakingError::InvalidRewardTokenSupplyAccount)),
        Some(account) => if account.amount < amount {
            Err(staking(StakingError::InSufficientSupplyError))
        } else if account.mint != mint {
            Err(staking(StakingError::InvalidRewardSupplyAccountError))
        } else {
            Ok(())
        },
    }
}

fn check_funding(supply: Option<TokenAccount>, amount: u64, mint: &Pubkey) -> (r: ProgramResult)
    ensures
        r == spec_check_funding(supply, amount, *mint),
{
    let account = match supply {
        Some(account) => account,
        None => {
            return Err(ProgramError::Staking(StakingError::InvalidRewardTokenSupplyAccount));
        },
    };
    if account.amount < amount {
        return Err(ProgramError::Staking(StakingError::InSufficientSupplyError));
    }
    if !(account.mint == *mint) {
        return Err(ProgramError::Staking(StakingError::InvalidRewardSupplyAccountError));
    }
    Ok(())
}

/// The outcome of adding a secondary reward of `amount` at the tick
/// `clock`: the data of the pool, and the vault to set up and fund.
///
/// Accounts: the admin and the transfer authority, who must both have
/// signed; the pool, owned by this program; the secondary supply and the
/// new secondary vault, owned by the token program given, as is the mint;
/// the secondary mint; the derived authority; the token program; the rent
/// account; the clock. `derived` is the address derived from the pool's
/// address and seed byte.
pub open spec fn spec_process_add_sub_reward_pool(
    program_id: Pubkey,
    amount: u64,
    accounts: Seq<AccountInfo>,
    sub_reward_supply: Option<TokenAccount>,
    derived: Option<Pubkey>,
    clock: Option<Slot>,
) -> Result<(Seq<u8>, Seq<TokenAction>), ProgramError> {
    if accounts.len() < 10 {
        Err(ProgramError::NotEnoughAccountKeys)
    } else {
        match spec_load_pool(accounts[2].data@) {
            Err(e) => Err(e),
            Ok(pool) => if !accounts[1].is_signer {
                Err(staking(StakingError::InvalidArgumentError))
            } else if !accounts[0].is_signer {
                Err(staking(StakingError::InvalidArgumentError))
            } else if accounts[0].key != pool.admin_authority {
                Err(staking(StakingError::InvalidSigner))
            } else if spec_check_funding(sub_reward_supply, amount, accounts[5].key) is Err {
                Err(spec_check_funding(sub_reward_supply, amount, accounts[5].key)->Err_0)
            } else if accounts[2].owner != program_id {
                Err(staking(StakingError::InvalidAccountOwner))
            } else if accounts[5].owner != accounts[7].key {
                Err(staking(StakingError::InvalidTokenOwner))
            } else if accounts[3].owner != accounts[7].key || accounts[4].owner
                != accounts[7].key {
                Err(staking(StakingError::InvalidTokenOwner))
            } else if derived is None {
                Err(ProgramError::InvalidSeeds)
            } else if derived->Some_0 != accounts[6].key {
                Err(staking(StakingError::InvalidRewardTokenPoolOwner))
            } else if clock is None {
                Err(ProgramError::InvalidArgument)
            } else {
                match pool.spec_add_sub_reward(amount, clock->Some_0, accounts[4].key) {
                    Err(e) => Err(e),
                    Ok(after) => match StakingPool::spec_pack(after, accounts[2].data@) {
                        Err(e) => Err(e),
                        Ok(data) => Ok(
                            (
                                data,
                                seq![
                                    vault_setup(
                                        accounts[7].key,
                                        accounts[4].key,
                                        accounts[5].key,
                                        accounts[6].key,
                                        accounts[8].key,
                                    ),
                                    signed_transfer(
                                        accounts[7].key,
                                        accounts[3].key,
                                        accounts[4].key,
                                        accounts[1].key,
                                        amount,
                                    ),
                                ],
                            ),
                        ),
                    },
                }
            },
        }
    }
}

/// Adds the secondary reward and says which vault to set up and fund, or fails and
/// changes nothing.
pub fn process_add_sub_reward_pool(
    program_id: &Pubkey,
    amount: u64,
    accounts: &mut Vec<AccountInfo>,
    sub_reward_supply: Option<TokenAccount>,
    derived: Option<Pubkey>,
    clock: Option<Slot>,
) -> (r: Result<Vec<TokenAction>, ProgramError>)
    ensures
        match spec_process_add_sub_reward_pool(
            *program_id,
            amount,
            old(accounts)@,
            sub_reward_supply,
            derived,
            clock,
        ) {
            Ok((data, actions)) => {
                &&& r is Ok
                &&& r->Ok_0@ == actions
                &&& one_rewritten(old(accounts)@, final(accounts)@, 2, data)
            },
            Err(e) => r == Err::<Vec<TokenAction>, ProgramError>(e) && final(accounts)@ == old(
                accounts,
            )@,
        },
{
    if accounts.len() < 10 {
        return Err(ProgramError::NotEnoughAccountKeys);
    }
    let mut staking_pool = load_pool(&accounts[2])?;
    if !accounts[1].is_signer {
        return Err(ProgramError::Staking(StakingError::InvalidArgumentError));
    }
    if !accounts[0].is_signer {
        return Err(ProgramError::Staking(StakingError::InvalidArgumentError));
    }
    if !(accounts[0].key == staking_pool.admin_authority) {
        return Err(ProgramError::Staking(StakingError::InvalidSigner));
    }
    check_funding(sub_reward_supply, amount, &accounts[5].key)?;
    if !(accounts[2].owner == *program_id) {
        return Err(ProgramError::Staking(StakingError::InvalidAccountOwner));
    }
    if !(accounts[5].owner == accounts[7].key) {
        return Err(ProgramError::Staking(StakingError::InvalidTokenOwner));
    }
    if !(accounts[3].owner == accounts[7].key) || !(accounts[4].owner == accounts[7].key) {
        return Err(ProgramError::Staking(StakingError::InvalidTokenOwner));
    }
    let authority = match derived {
        Some(k) => k,
        None => {
            return Err(ProgramError::InvalidSeeds);
        },
    };
    if !(authority == accounts[6].key) {
        return Err(ProgramError::Staking(StakingError::InvalidRewardTokenPoolOwner));
    }
    let now = match clock {
        Some(now) => now,
        None => {
            return Err(ProgramError::InvalidArgument);
        },
    };
    staking_pool.add_sub_reward(amount, now, accounts[4].key)?;
    let mut actions: Vec<TokenAction> = Vec::new();
    actions.push(
        TokenAction::InitializeAccount {
            token_program: accounts[7].key,
            account: accounts[4].key,
            mint: accounts[5].key,
            owner: accounts[6].key,
            rent: accounts[8].key,
        },
    );
    actions.push(
        TokenAction::Transfer {
            token_program: accounts[7].key,
            source: accounts[3].key,
            destination: accounts[4].key,
            authority: accounts[1].key,
            amount,
            signer_seeds: None,
        },
    );
    proof {
        assert(actions@ =~= seq![
            vault_setup(
                accounts[7].key,
                accounts[4].key,
                accounts[5].key,
                accounts[6].key,
                accounts[8].key,
            ),
            signed_transfer(
                accounts[7].key,
                accounts[3].key,
                accounts[4].key,
                accounts[1].key,
                amount,
            ),
        ]);
    }
    store_pool(accounts, 2, staking_pool)?;
    Ok(actions)
}

/// What the vault and the supply of a new reward have to be, checked in
/// this order: the supply a token account of the mint with at least
/// `amount` in it; mint, supply and vault owned by the token program given.
pub open spec fn spec_check_reward_accounts(
    accounts: Seq<AccountInfo>,
    supply: Option<TokenAccount>,
    amount: u64,
    supply_at: int,
    vault_at: int,
    mint_at: int,
) -> Result<(), ProgramError> {
    if spec_check_funding(supply, amount, accounts[mint_at].key) is Err {
        Err(spec_check_funding(supply, amount, accounts[mint_at].key)->Err_0)
    } else if accounts[mint_at].owner != accounts[10].key {
        Err(staking(StakingError::InvalidTokenOwner))
    } else if accounts[supply_at].owner != accounts[10].key || accounts[vault_at].owner
        != accounts[10].key {
        Err(staking(StakingError::InvalidTokenOwner))
    } else {
        Ok(())
    }
}

fn check_reward_accounts(
    accounts: &Vec<AccountInfo>,
    supply: Option<TokenAccount>,
    amount: u64,
    supply_at: usize,
    vault_at: usize,
    mint_at: usize,
) -> (r: ProgramResult)
    requires
        accounts.len() >= 11,
        supply_at < 11,
        vault_at < 11,
        mint_at < 11,
    ensures
        r == spec_check_reward_accounts(
            accounts@,
            supply,
            amount,
            supply_at as int,
            vault_at as int,
            mint_at as int,
        ),
{
    check_funding(supply, amount, &accounts[mint_at].key)?;
    if !(accounts[mint_at].owner == accounts[10].key) {
        return Err(ProgramError::Staking(StakingError::InvalidTokenOwner));
    }
    if !(accounts[supply_at].owner == accounts[10].key) || !(accounts[vault_at].owner
        == accounts[10].key) {
        return Err(ProgramError::Staking(StakingError::InvalidTokenOwner));
    }
    Ok(())
}

/// Setting up and funding a new vault.
pub open spec fn funding_actions(accounts: Seq<AccountInfo>, supply: int, vault: int, mint: int, amount: u64)
    -> Seq<TokenAction> {
    seq![
        vault_setup(
            accounts[10].key,
            accounts[vault].key,
            accounts[mint].key,
            accounts[8].key,
            accounts[9].key,
        ),
        signed_transfer(
            accounts[10].key,
            accounts[supply].key,
            accounts[vault].key,
            accounts[0].key,
            amount,
        ),
    ]
}

fn push_funding(
    actions: &mut Vec<TokenAction>,
    accounts: &Vec<AccountInfo>,
    supply: usize,
    vault: usize,
    mint: usize,
    amount: u64,
)
    requires
        accounts.len() >= 11,
        supply < 11,
        vault < 11,
        mint < 11,
    ensures
        final(actions)@ == old(actions)@ + funding_actions(
            accounts@,
            supply as int,
            vault as int,
            mint as int,
            amount,
        ),
{
    actions.push(
        TokenAction::InitializeAccount {
            token_program: accounts[10].key,
            account: accounts[vault].key,
            mint: accounts[mint].key,
            owner: accounts[8].key,
            rent: accounts[9].key,
        },
    );
    actions.push(
        TokenAction::Transfer {
            token_program: accounts[10].key,
            source: accounts[supply].key,
            destination: accounts[vault].key,
            authority: accounts[0].key,
            amount,
            signer_seeds: None,
        },
    );
    assert(actions@ =~= old(actions)@ + funding_actions(
        accounts@,
        supply as int,
        vault as int,
        mint as int,
        amount,
    ));
}

/// The outcome of setting up a pool: the data of the pool account, and the
/// vaults to set up and fund.
///
/// Accounts: the transfer authority, who must have signed; the reward
/// supply and the new reward vault, the vault exempt from rent; the
/// secondary supply and vault; the pool account, exempt from rent, owned
/// by this program, holding no initialized ledger; the mints of both
/// rewards; the derived authority; the rent account; the token program,
/// which must own mints, supplies and vaults. `reward_supply` and
/// `sub_reward_supply` are what the token program makes of the two supply
/// accounts; `derived` is the address derived from the pool's address and
/// the seed byte given.
pub open spec fn spec_process_init_staking_pool(
    program_id: Pubkey,
    supply: u64,
    sub_supply: Option<u64>,
    duration: u64,
    earliest_reward_claim_time: Slot,
    bump_seed_staking_program: u8,
    pool_owner_authority: Pubkey,
    admin_authority: Pubkey,
    accounts: Seq<AccountInfo>,
    reward_supply: Option<TokenAccount>,
    sub_reward_supply: Option<TokenAccount>,
    derived: Option<Pubkey>,
) -> Result<(Seq<u8>, Seq<TokenAction>), ProgramError> {
    if supply == 0 {
        Err(staking(StakingError::InvalidSupplyError))
    } else if duration == 0 {
        Err(staking(StakingError::InvalidDurationError))
    } else if accounts.len() < 11 {
        Err(ProgramError::NotEnoughAccountKeys)
    } else if !accounts[5].rent_exempt || !accounts[2].rent_exempt {
        Err(staking(StakingError::NotRentExempt))
    } else if !accounts[0].is_signer {
        Err(staking(StakingError::InvalidArgumentError))
    } else if accounts[5].owner != program_id {
        Err(staking(StakingError::InvalidAccountOwner))
    } else if spec_check_reward_accounts(accounts, reward_supply, supply, 1, 2, 6) is Err {
        Err(spec_check_reward_accounts(accounts, reward_supply, supply, 1, 2, 6)->Err_0)
    } else if derived is None {
        Err(ProgramError::InvalidSeeds)
    } else if derived->Some_0 != accounts[8].key {
        Err(staking(StakingError::InvalidRewardTokenPoolOwner))
    } else if sub_supply == Some(0u64) {
        Err(staking(StakingError::InvalidSupplyError))
    } else if sub_supply is Some && spec_check_reward_accounts(
        accounts,
        sub_reward_supply,
        sub_supply->Some_0,
        3,
        4,
        7,
    ) is Err {
        Err(
            spec_check_reward_accounts(
                accounts,
                sub_reward_supply,
                sub_supply->Some_0,
                3,
                4,
                7,
            )->Err_0,
        )
    } else {
        match spec_uninitialized_pool(accounts[5].data@) {
            Err(e) => Err(e),
            Ok(pool) => match pool.spec_init(
                pool_owner_authority,
                admin_authority,
                accounts[2].key,
                match sub_supply {
                    Some(_) => Some(accounts[4].key),
                    None => None,
                },
                duration,
                supply,
                sub_supply,
                earliest_reward_claim_time,
                bump_seed_staking_program,
            ) {
                Err(e) => Err(e),
                Ok(after) => match StakingPool::spec_pack(after, accounts[5].data@) {
                    Err(e) => Err(e),
                    Ok(data) => Ok(
                        (
                            data,
                            match sub_supply {
                                None => funding_actions(accounts, 1, 2, 6, supply),
                                Some(sub) => funding_actions(accounts, 1, 2, 6, supply)
                                    + funding_actions(accounts, 3, 4, 7, sub),
                            },
                        ),
                    ),
                },
            },
        }
    }
}

/// Sets up a pool and says which vaults to set up and fund, or fails and changes nothing.
pub fn process_init_staking_pool(
    program_id: &Pubkey,
    supply: u64,
    sub_supply: Option<u64>,
    duration: u64,
    earliest_reward_claim_time: Slot,
    bump_seed_staking_program: u8,
    pool_owner_authority: Pubkey,
    admin_authority: Pubkey,
    accounts: &mut Vec<AccountInfo>,
    reward_supply: Option<TokenAccount>,
    sub_reward_supply: Option<TokenAccount>,
    derived: Option<Pubkey>,
) -> (r: Result<Vec<TokenAction>, ProgramError>)
    ensures
        match spec_process_init_staking_pool(
            *program_id,
            supply,
            sub_supply,
            duration,
            earliest_reward_claim_time,
            bump_seed_staking_program,
            pool_owner_authority,
            admin_authority,
            old(accounts)@,
            reward_supply,
            sub_reward_supply,
            derived,
        ) {
            Ok((data, actions)) => {
                &&& r is Ok
                &&& r->Ok_0@ == actions
                &&& one_rewritten(old(accounts)@, final(accounts)@, 5, data)
            },
            Err(e) => r == Err::<Vec<TokenAction>, ProgramError>(e) && final(accounts)@ == old(
                accounts,
            )@,
        },
{
    if supply == 0 {
        return Err(ProgramError::Staking(StakingError::InvalidSupplyError));
    }
    if duration == 0 {
        return Err(ProgramError::Staking(StakingError::InvalidDurationError));
    }
    if accounts.len() < 11 {
        return Err(ProgramError::NotEnoughAccountKeys);
    }
    assert_rent_exempt(&accounts[5])?;
    assert_rent_exempt(&accounts[2])?;
    if !accounts[0].is_signer {
        return Err(ProgramError::Staking(StakingError::InvalidArgumentError));
    }
    if !(accounts[5].owner == *program_id) {
        return Err(ProgramError::Staking(StakingError::InvalidAccountOwner));
    }
    check_reward_accounts(accounts, reward_supply, supply, 1, 2, 6)?;
    let authority = match derived {
        Some(k) => k,
        None => {
            return Err(ProgramError::InvalidSeeds);
        },
    };
    if !(authority == accounts[8].key) {
        return Err(ProgramError::Staking(StakingError::InvalidRewardTokenPoolOwner));
    }
    let mut actions: Vec<TokenAction> = Vec::new();
    push_funding(&mut actions, accounts, 1, 2, 6, supply);
    assert(actions@ =~= funding_actions(accounts@, 1, 2, 6, supply));
    let sub_vault = match sub_supply {
        Some(sub) => {
            if sub == 0 {
                return Err(ProgramError::Staking(StakingError::InvalidSupplyError));
            }
            check_reward_accounts(accounts, sub_reward_supply, sub, 3, 4, 7)?;
            push_funding(&mut actions, accounts, 3, 4, 7, sub);
            Some(accounts[4].key)
        },
        None => None,
    };
    let mut staking_pool = assert_uninitialized_pool(&accounts[5])?;
    let vault = accounts[2].key;
    staking_pool.init(
        pool_owner_authority,
        admin_authority,
        vault,
        sub_vault,
        duration,
        supply,
        sub_supply,
        earliest_reward_claim_time,
        bump_seed_staking_program,
    )?;
    store_pool(accounts, 5, staking_pool)?;
    Ok(actions)
}

/// The tick that the account at `index` holds as the host's clock.
pub open spec fn spec_clock_at(accounts: Seq<AccountInfo>, index: int) -> Option<Slot> {
    if index < accounts.len() {
        clock_slot_of(accounts[index].key@, accounts[index].data@)
    } else {
        None
    }
}

fn clock_at(accounts: &Vec<AccountInfo>, index: usize) -> (r: Option<Slot>)
    ensures
        r == spec_clock_at(accounts@, index as int),
{
    if index < accounts.len() {
        clock_slot(&accounts[index].key, &accounts[index].data)
    } else {
        None
    }
}

/// What the token program makes of the account at `index`.
pub open spec fn spec_token_at(accounts: Seq<AccountInfo>, index: int) -> Option<TokenAccount> {
    if index < accounts.len() {
        match token_account_of(accounts[index].data@) {
            Some((mint, amount)) => Some(
                TokenAccount { mint: Pubkey::spec_from_bytes(mint), amount },
            ),
            None => None,
        }
    } else {
        None
    }
}

fn token_at(accounts: &Vec<AccountInfo>, index: usize) -> (r: Option<TokenAccount>)
    ensures
        r == spec_token_at(accounts@, index as int),
{
    if index < accounts.len() {
        match token_account(&accounts[index].data) {
            Some((mint, amount)) => {
                proof {
                    Pubkey::lemma_from_bytes(mint);
                }
                Some(TokenAccount { mint, amount })
            },
            None => None,
        }
    } else {
        None
    }
}

/// The address that the host derives for this program from the address of
/// the account at `index` and a seed byte.
pub open spec fn spec_derived_at(
    accounts: Seq<AccountInfo>,
    index: int,
    bump: u8,
    program_id: Pubkey,
) -> Option<Pubkey> {
    if index < accounts.len() {
        match program_address_of(accounts[index].key@, bump, program_id@) {
            Some(k) => Some(Pubkey::spec_from_bytes(k)),
            None => None,
        }
    } else {
        None
    }
}

fn derived_at(accounts: &Vec<AccountInfo>, index: usize, bump: u8, program_id: &Pubkey) -> (r:
    Option<Pubkey>)
    ensures
        r == spec_derived_at(accounts@, index as int, bump, *program_id),
{
    if index < accounts.len() {
        match create_program_address(&accounts[index].key, bump, program_id) {
            Some(k) => {
                proof {
                    Pubkey::lemma_from_bytes(k);
                }
                Some(k)
            },
            None => None,
        }
    } else {
        None
    }
}

/// The seed byte in the ledger that the account at `index` holds, zero
/// where it holds none.
pub open spec fn spec_bump_at(accounts: Seq<AccountInfo>, index: int) -> u8 {
    if index < accounts.len() {
        match StakingPool::spec_unpack(accounts[index].data@) {
            Ok(pool) => pool.bump_seed_staking_program,
            Err(_) => 0,
        }
    } else {
        0
    }
}

fn bump_at(accounts: &Vec<AccountInfo>, index: usize) -> (r: u8)
    ensures
        r == spec_bump_at(accounts@, index as int),
{
    if index < accounts.len() {
        match StakingPool::unpack(accounts[index].data.as_slice()) {
            Ok(pool) => pool.bump_seed_staking_program,
            Err(_) => 0,
        }
    } else {
        0
    }
}

/// `after` is `before` with new data in the accounts that `writes` names.
pub open spec fn stored(
    before: Seq<AccountInfo>,
    after: Seq<AccountInfo>,
    writes: Map<int, Seq<u8>>,
) -> bool {
    &&& after.len() == before.len()
    &&& forall|i: int|
        0 <= i < before.len() ==> if writes.contains_key(i) {
            rewritten(before[i], #[trigger] after[i], writes[i])
        } else {
            after[i] == before[i]
        }
}

/// The data an operation stores, by the index of the account, and the
/// transfers it asks for.
pub type Outcome = (Map<int, Seq<u8>>, Seq<TokenAction>);

/// An outcome that stores one account and asks for no transfer.
pub open spec fn stores_one(r: Result<Seq<u8>, ProgramError>, index: int) -> Result<
    Outcome,
    ProgramError,
> {
    match r {
        Ok(data) => Ok((map![index => data], Seq::empty())),
        Err(e) => Err(e),
    }
}

/// An outcome that stores one account and asks for transfers.
pub open spec fn stores_and_pays(
    r: Result<(Seq<u8>, Seq<TokenAction>), ProgramError>,
    index: int,
) -> Result<Outcome, ProgramError> {
    match r {
        Ok((data, actions)) => Ok((map![index => data], actions)),
        Err(e) => Err(e),
    }
}

/// An outcome that stores the stake account and the pool.
pub open spec fn stores_both(r: Result<(Seq<u8>, Seq<u8>), ProgramError>) -> Result<
    Outcome,
    ProgramError,
> {
    match r {
        Ok((account_data, pool_data)) => Ok(
            (map![1int => account_data, 2int => pool_data], Seq::empty()),
        ),
        Err(e) => Err(e),
    }
}

/// Whether an operation did what `expected` says: on success it gave the
/// transfers and stored the data, on failure it gave the error and changed
/// nothing.
pub open spec fn carried_out(
    expected: Result<Outcome, ProgramError>,
    r: Result<Vec<TokenAction>, ProgramError>,
    before: Seq<AccountInfo>,
    after: Seq<AccountInfo>,
) -> bool {
    match expected {
        Ok((writes, actions)) => {
            &&& r is Ok
            &&& r->Ok_0@ == actions
            &&& stored(before, after, writes)
        },
        Err(e) => r == Err::<Vec<TokenAction>, ProgramError>(e) && after == before,
    }
}

fn no_actions(r: ProgramResult) -> (out: Result<Vec<TokenAction>, ProgramError>)
    ensures
        match r {
            Ok(_) => out is Ok && out->Ok_0@ == Seq::<TokenAction>::empty(),
            Err(e) => out == Err::<Vec<TokenAction>, ProgramError>(e),
        },
{
    match r {
        Ok(_) => Ok(Vec::new()),
        Err(e) => Err(e),
    }
}

/// Setting up a pool, with what the host makes of the accounts given.
pub open spec fn spec_run_init_staking_pool(
    program_id: Pubkey,
    supply: u64,
    sub_supply: Option<u64>,
    duration: u64,
    earliest_reward_claim_time: Slot,
    bump_seed_staking_program: u8,
    pool_owner_authority: Pubkey,
    admin_authority: Pubkey,
    accounts: Seq<AccountInfo>,
) -> Result<Outcome, ProgramError> {
    stores_and_pays(
        spec_process_init_staking_pool(
            program_id,
            supply,
            sub_supply,
            duration,
            earliest_reward_claim_time,
            bump_seed_staking_program,
            pool_owner_authority,
            admin_authority,
            accounts,
            spec_token_at(accounts, 1),
            spec_token_at(accounts, 3),
            spec_derived_at(accounts, 5, bump_seed_staking_program, program_id),
        ),
        5,
    )
}

fn run_init_staking_pool(
    program_id: &Pubkey,
    supply: u64,
    sub_supply: Option<u64>,
    duration: u64,
    earliest_reward_claim_time: Slot,
    bump_seed_staking_program: u8,
    pool_owner_authority: Pubkey,
    admin_authority: Pubkey,
    accounts: &mut Vec<AccountInfo>,
) -> (r: Result<Vec<TokenAction>, ProgramError>)
    ensures
        carried_out(
            spec_run_init_staking_pool(
                *program_id,
                supply,
                sub_supply,
                duration,
                earliest_reward_claim_time,
                bump_seed_staking_program,
                pool_owner_authority,
                admin_authority,
                old(accounts)@,
            ),
            r,
            old(accounts)@,
            final(accounts)@,
        ),
{
    let reward_supply = token_at(accounts, 1);
    let sub_reward_supply = token_at(accounts, 3);
    let derived = derived_at(accounts, 5, bump_seed_staking_program, program_id);
    process_init_staking_pool(
        program_id,
        supply,
        sub_supply,
        duration,
        earliest_reward_claim_time,
        bump_seed_staking_program,
        pool_owner_authority,
        admin_authority,
        accounts,
        reward_supply,
        sub_reward_supply,
        derived,
    )
}

/// A deposit at the tick of the clock account.
pub open spec fn spec_run_deposit(program_id: Pubkey, amount: u64, accounts: Seq<AccountInfo>)
    -> Result<Outcome, ProgramError> {
    stores_both(spec_process_deposit(program_id, amount, accounts, spec_clock_at(accounts, 3)))
}

fn run_deposit(program_id: &Pubkey, amount: u64, accounts: &mut Vec<AccountInfo>) -> (r: Result<
    Vec<TokenAction>,
    ProgramError,
>)
    ensures
        carried_out(
            spec_run_deposit(*program_id, amount, old(accounts)@),
            r,
            old(accounts)@,
            final(accounts)@,
        ),
{
    let clock = clock_at(accounts, 3);
    let r = process_deposit(program_id, amount, accounts, clock);
    no_actions(r)
}

/// A withdrawal at the tick of the clock account.
pub open spec fn spec_run_withdraw(program_id: Pubkey, amount: u64, accounts: Seq<AccountInfo>)
    -> Result<Outcome, ProgramError> {
    stores_both(spec_process_withdraw(program_id, amount, accounts, spec_clock_at(accounts, 3)))
}

fn run_withdraw(program_id: &Pubkey, amount: u64, accounts: &mut Vec<AccountInfo>) -> (r: Result<
    Vec<TokenAction>,
    ProgramError,
>)
    ensures
        carried_out(
            spec_run_withdraw(*program_id, amount, old(accounts)@),
            r,
            old(accounts)@,
            final(accounts)@,
        ),
{
    let clock = clock_at(accounts, 3);
    let r = process_withdraw(program_id, amount, accounts, clock);
    no_actions(r)
}

/// A claim at the tick of the clock account, paid out under the authority
/// derived from the pool's address and seed byte.
pub open spec fn spec_run_claim_reward(program_id: Pubkey, accounts: Seq<AccountInfo>) -> Result<
    Outcome,
    ProgramError,
> {
    match spec_process_claim_reward(
        program_id,
        accounts,
        spec_clock_at(accounts, 6),
        spec_derived_at(accounts, 2, spec_bump_at(accounts, 2), program_id),
    ) {
        Err(e) => Err(e),
        Ok(None) => Ok((Map::empty(), Seq::empty())),
        Ok(Some(((account_data, pool_data), actions))) => Ok(
            (map![1int => account_data, 2int => pool_data], actions),
        ),
    }
}

fn run_claim_reward(program_id: &Pubkey, accounts: &mut Vec<AccountInfo>) -> (r: Result<
    Vec<TokenAction>,
    ProgramError,
>)
    ensures
        carried_out(
            spec_run_claim_reward(*program_id, old(accounts)@),
            r,
            old(accounts)@,
            final(accounts)@,
        ),
{
    let clock = clock_at(accounts, 6);
    let bump = bump_at(accounts, 2);
    let derived = derived_at(accounts, 2, bump, program_id);
    process_claim_reward(program_id, accounts, clock, derived)
}

/// A change of the reward supply at the tick of the clock account, with
/// the supplies as the token program reads them.
pub open spec fn spec_run_change_reward_supply(
    program_id: Pubkey,
    amount: i64,
    sub_amount: Option<i64>,
    accounts: Seq<AccountInfo>,
) -> Result<Outcome, ProgramError> {
    stores_and_pays(
        spec_process_change_reward_supply(
            program_id,
            amount,
            sub_amount,
            accounts,
            spec_token_at(accounts, 2),
            spec_token_at(accounts, 4),
            spec_clock_at(accounts, 10),
        ),
        1,
    )
}

fn run_change_reward_supply(
    program_id: &Pubkey,
    amount: i64,
    sub_amount: Option<i64>,
    accounts: &mut Vec<AccountInfo>,
) -> (r: Result<Vec<TokenAction>, ProgramError>)
    ensures
        carried_out(
            spec_run_change_reward_supply(*program_id, amount, sub_amount, old(accounts)@),
            r,
            old(accounts)@,
            final(accounts)@,
        ),
{
    let reward_supply = token_at(accounts, 2);
    let sub_reward_supply = token_at(accounts, 4);
    let clock = clock_at(accounts, 10);
    process_change_reward_supply(
        program_id,
        amount,
        sub_amount,
        accounts,
        reward_supply,
        sub_reward_supply,
        clock,
    )
}

/// A change of the duration at the tick of the clock account.
pub open spec fn spec_run_change_duration(program_id: Pubkey, amount: i64, accounts: Seq<AccountInfo>)
    -> Result<Outcome, ProgramError> {
    stores_one(
        spec_process_change_duration(program_id, amount, accounts, spec_clock_at(accounts, 2)),
        1,
    )
}

fn run_change_duration(program_id: &Pubkey, amount: i64, accounts: &mut Vec<AccountInfo>) -> (r:
    Result<Vec<TokenAction>, ProgramError>)
    ensures
        carried_out(
            spec_run_change_duration(*program_id, amount, old(accounts)@),
            r,
            old(accounts)@,
            final(accounts)@,
        ),
{
    let clock = clock_at(accounts, 2);
    let r = process_change_duration(program_id, amount, accounts, clock);
    no_actions(r)
}

/// The addition of the secondary reward at the tick of the clock account.
pub open spec fn spec_run_add_sub_reward_pool(
    program_id: Pubkey,
    amount: u64,
    accounts: Seq<AccountInfo>,
) -> Result<Outcome, ProgramError> {
    stores_and_pays(
        spec_process_add_sub_reward_pool(
            program_id,
            amount,
            accounts,
            spec_token_at(accounts, 3),
            spec_derived_at(accounts, 2, spec_bump_at(accounts, 2), program_id),
            spec_clock_at(accounts, 9),
        ),
        2,
    )
}

fn run_add_sub_reward_pool(program_id: &Pubkey, amount: u64, accounts: &mut Vec<AccountInfo>) -> (r:
    Result<Vec<TokenAction>, ProgramError>)
    ensures
        carried_out(
            spec_run_add_sub_reward_pool(*program_id, amount, old(accounts)@),
            r,
            old(accounts)@,
            final(accounts)@,
        ),
{
    let sub_reward_supply = token_at(accounts, 3);
    let bump = bump_at(accounts, 2);
    let derived = derived_at(accounts, 2, bump, program_id);
    let clock = clock_at(accounts, 9);
    process_add_sub_reward_pool(program_id, amount, accounts, sub_reward_supply, derived, clock)
}

/// The outcome of the operation that `input` encodes on the accounts
/// given. The tick is read from the clock account of the operation, token
/// accounts are read by the token program, and the derived authority is
/// the address the host derives from the pool's address and seed byte.
pub open spec fn spec_process_instruction(
    program_id: Pubkey,
    accounts: Seq<AccountInfo>,
    input: Seq<u8>,
) -> Result<Outcome, ProgramError> {
    match StakingInstruction::spec_unpack(input) {
        Err(e) => Err(e),
        Ok(instruction) => match instruction {
            StakingInstruction::InitStakingPool {
                supply,
                sub_supply,
                duration,
                earliest_reward_claim_time,
                bump_seed_staking_program,
                pool_owner_authority,
                admin_authority,
            } => spec_run_init_staking_pool(
                program_id,
                supply,
                sub_supply,
                duration,
                earliest_reward_claim_time,
                bump_seed_staking_program,
                pool_owner_authority,
                admin_authority,
                accounts,
            ),
            StakingInstruction::CreateStakeAccount => stores_one(
                spec_process_create_stake_account(program_id, accounts),
                0,
            ),
            StakingInstruction::Deposit(amount) => spec_run_deposit(program_id, amount, accounts),
            StakingInstruction::Withdraw(amount) => spec_run_withdraw(
                program_id,
                amount,
                accounts,
            ),
            StakingInstruction::ClaimReward => spec_run_claim_reward(program_id, accounts),
            StakingInstruction::UpdateEarliestRewardClaimTime(time) => stores_one(
                spec_process_update_earliest_reward_claim_time(program_id, time, accounts),
                1,
            ),
            StakingInstruction::ChangeRewardSupply(amount, sub_amount) =>
                spec_run_change_reward_supply(program_id, amount, sub_amount, accounts),
            StakingInstruction::ChangeOwner(new_owner) => stores_one(
                spec_process_change_owner(program_id, new_owner, accounts),
                1,
            ),
            StakingInstruction::ChangeDuration(amount) => spec_run_change_duration(
                program_id,
                amount,
                accounts,
            ),
            StakingInstruction::AddSubRewardPool(amount) => spec_run_add_sub_reward_pool(
                program_id,
                amount,
                accounts,
            ),
            StakingInstruction::ChangeAdmin(new_admin) => stores_one(
                spec_process_change_admin(program_id, new_admin, accounts),
                1,
            ),
        },
    }
}

/// Decodes an operation and carries it out on the accounts given: stores
/// the records that change and gives back the transfers that the host has
/// to make. An operation that fails changes nothing.
pub fn process_instruction(program_id: &Pubkey, accounts: &mut Vec<AccountInfo>, input: &[u8]) -> (r:
    Result<Vec<TokenAction>, ProgramError>)
    ensures
        carried_out(
            spec_process_instruction(*program_id, old(accounts)@, input@),
            r,
            old(accounts)@,
            final(accounts)@,
        ),
{
    let instruction = StakingInstruction::unpack(input)?;
    match instruction {
        StakingInstruction::InitStakingPool {
            supply,
            sub_supply,
            duration,
            earliest_reward_claim_time,
            bump_seed_staking_program,
            pool_owner_authority,
            admin_authority,
        } => run_init_staking_pool(
            program_id,
            supply,
            sub_supply,
            duration,
            earliest_reward_claim_time,
            bump_seed_staking_program,
            pool_owner_authority,
            admin_authority,
            accounts,
        ),
        StakingInstruction::CreateStakeAccount => {
            let r = process_create_stake_account(program_id, accounts);
            no_actions(r)
        },
        StakingInstruction::Deposit(amount) => run_deposit(program_id, amount, accounts),
        StakingInstruction::Withdraw(amount) => run_withdraw(program_id, amount, accounts),
        StakingInstruction::ClaimReward => run_claim_reward(program_id, accounts),
        StakingInstruction::UpdateEarliestRewardClaimTime(time) => {
            let r = process_update_earliest_reward_claim_time(program_id, time, accounts);
            no_actions(r)
        },
        StakingInstruction::ChangeRewardSupply(amount, sub_amount) => run_change_reward_supply(
            program_id,
            amount,
            sub_amount,
            accounts,
        ),
        StakingInstruction::ChangeOwner(new_owner) => {
            let r = process_change_owner(program_id, new_owner, accounts);
            no_actions(r)
        },
        StakingInstruction::ChangeDuration(amount) => run_change_duration(
            program_id,
            amount,
            accounts,
        ),
        StakingInstruction::AddSubRewardPool(amount) => run_add_sub_reward_pool(
            program_id,
            amount,
            accounts,
        ),
        StakingInstruction::ChangeAdmin(new_admin) => {
            let r = process_change_admin(program_id, new_admin, accounts);
            no_actions(r)
        },
    }
}

} // verus!
