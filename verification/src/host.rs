//! What the host's own libraries compute from accounts and addresses.
//!
//! Nothing in this file is proved. Each function here calls one function of
//! the host's libraries. Its contract says what the call returns where a few
//! lines can say it, and binds the result to a name where they cannot; what
//! the rest of the library proves about a named result, it proves for every
//! value it may have.

use crate::codec::le_value;
use crate::pubkey::{spec_clock_id, Pubkey};
use vstd::prelude::*;

verus! {

/// The address that the host derives for a program from a 32-byte seed and a
/// seed byte, or `None` where these give no valid address.
pub uninterp spec fn program_address_of(seed: Seq<u8>, bump: u8, program_id: Seq<u8>) -> Option<
    Seq<u8>,
>;

/// The address that the host finds for a program from a 32-byte seed, with
/// the seed byte that leads to it, or `None` where no seed byte does.
pub uninterp spec fn found_program_address_of(seed: Seq<u8>, program_id: Seq<u8>) -> Option<
    (Seq<u8>, u8),
>;

/// The tick that a clock account holds: the number in the first 8 bytes of
/// its data, least significant byte first. The account must have the
/// address of the host's clock and at least the 40 bytes of a clock; what
/// follows them is not read.
pub open spec fn clock_slot_of(key: Seq<u8>, data: Seq<u8>) -> Option<u64> {
    if key == spec_clock_id()@ && data.len() >= 40 {
        Some(le_value(data.subrange(0, 8)) as u64)
    } else {
        None
    }
}

/// Mint and balance of the token account that the data holds, or `None`
/// where the data is not an initialized token account.
pub uninterp spec fn token_account_of(data: Seq<u8>) -> Option<(Seq<u8>, u64)>;

/// Calls `solana_program::pubkey::Pubkey::create_program_address` with the
/// seeds `[seed, [bump]]`. The contract claims only that the result is a
/// function of the three arguments; with seeds this short the one failure
/// the call has is that of seeds that give no valid address.
#[verifier::external_body]
pub(crate) fn create_program_address(seed: &Pubkey, bump: u8, program_id: &Pubkey) -> (r: Option<
    Pubkey,
>)
    ensures
        match r {
            Some(k) => program_address_of(seed@, bump, program_id@) == Some(k@),
            None => program_address_of(seed@, bump, program_id@) is None,
        },
{
    let id = solana_program::pubkey::Pubkey::new_from_array(program_id.0);
    match solana_program::pubkey::Pubkey::create_program_address(&[&seed.0, &[bump]], &id) {
        Ok(address) => Some(Pubkey(address.to_bytes())),
        Err(_) => None,
    }
}

/// Calls `solana_program::pubkey::Pubkey::try_find_program_address` with the
/// one seed `seed`. The contract claims only that the result is a function
/// of the two arguments.
#[verifier::external_body]
pub(crate) fn find_program_address(seed: &Pubkey, program_id: &Pubkey) -> (r: Option<(Pubkey, u8)>)
    ensures
        match r {
            Some((k, bump)) => found_program_address_of(seed@, program_id@) == Some((k@, bump)),
            None => found_program_address_of(seed@, program_id@) is None,
        },
{
    let id = solana_program::pubkey::Pubkey::new_from_array(program_id.0);
    match solana_program::pubkey::Pubkey::try_find_program_address(&[&seed.0], &id) {
        Some((address, bump)) => Some((Pubkey(address.to_bytes()), bump)),
        None => None,
    }
}

/// Calls `solana_program::sysvar::Sysvar::from_account_info` for the clock,
/// on an account with the given address and data, and takes the tick out of
/// the result. The contract claims what the call's source shows: it refuses
/// any address but the clock's, then reads five 8-byte integers from the
/// front of the data, the tick first, in little-endian order, and fails
/// only where the data ends before them.
#[verifier::external_body]
pub(crate) fn clock_slot(key: &Pubkey, data: &Vec<u8>) -> (r: Option<u64>)
    ensures
        r == clock_slot_of(key@, data@),
{
    let id = solana_program::pubkey::Pubkey::new_from_array(key.0);
    let owner = solana_program::sysvar::id();
    let mut lamports: u64 = 0;
    let mut bytes: Vec<u8> = data.clone();
    let info = solana_program::account_info::AccountInfo::new(
        &id, false, false, &mut lamports, &mut bytes, &owner, false, 0,
    );
    match <solana_program::clock::Clock as solana_program::sysvar::Sysvar>::from_account_info(&info) {
        Ok(clock) => Some(clock.slot),
        Err(_) => None,
    }
}

/// Calls `solana_program::program_pack::Pack::unpack` for
/// `spl_token::state::Account` and takes mint and balance out of the
/// result. The contract claims only that the result is a function of the
/// data.
#[verifier::external_body]
pub(crate) fn token_account(data: &Vec<u8>) -> (r: Option<(Pubkey, u64)>)
    ensures
        match r {
            Some((mint, amount)) => token_account_of(data@) == Some((mint@, amount)),
            None => token_account_of(data@) is None,
        },
{
    match <spl_token::state::Account as solana_program::program_pack::Pack>::unpack(data) {
        Ok(account) => Some((Pubkey(account.mint.to_bytes()), account.amount)),
        Err(_) => None,
    }
}

} // verus!
