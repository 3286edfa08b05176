//! The operations of the program on the wire: one opcode byte, then the
//! arguments, integers little-endian; and the account lists that go with them.

use crate::codec::{
    from_twos, get_array, get_le, i64_bits, i64_from_bits, le_bytes, le_value, lemma_le_bytes_len,
    lemma_le_value_bound, lemma_le_value_of_bytes, lemma_pow256_values, lemma_twos_round_trip,
    put_array, put_le, twos, zeros,
};
use crate::error::{ProgramError, StakingError};
use crate::host::{find_program_address, found_program_address_of};
use crate::pubkey::{
    clock_id, rent_id, spec_clock_id, spec_rent_id, spec_token_program_id, token_program_id, Pubkey,
};
use crate::state::staking_pool::Slot;
use vstd::prelude::*;

verus! {

/// An operation of the staking program, with the accounts it expects.
#[derive(Clone, Copy, Debug, PartialEq)]
pub enum StakingInstruction {
    /// Sets up a pool that spends `supply` over `duration` ticks.
    ///
    /// 0. `[signer]` Transfer reward token authority.
    /// 1. `[writable]` Reward token supply.
    /// 2. `[writable]` Reward token pool, uninitialized.
    /// 3. `[writable, optional]` Sub reward token supply.
    /// 4. `[writable, optional]` Sub reward token pool, uninitialized.
    /// 5. `[writable]` Staking pool, uninitialized.
    /// 6. `[]` Reward token mint.
    /// 7. `[optional]` Sub reward token mint.
    /// 8. `[]` Derived authority that owns the reward token pool.
    /// 9. `[]` Rent account.
    /// 10. `[]` Token program.
    InitStakingPool {
        supply: u64,
        sub_supply: Option<u64>,
        duration: u64,
        earliest_reward_claim_time: Slot,
        bump_seed_staking_program: u8,
        pool_owner_authority: Pubkey,
        admin_authority: Pubkey,
    },
    /// Sets up a depositor record.
    ///
    /// 0. `[writable]` Stake account, uninitialized.
    /// 1. `[]` Staking pool.
    /// 2. `[]` Stake account owner.
    /// 3. `[]` Rent account.
    CreateStakeAccount,
    /// Stakes an amount.
    ///
    /// 0. `[signer]` Authority.
    /// 1. `[writable]` Stake account.
    /// 2. `[writable]` Staking pool.
    /// 3. `[]` Clock account.
    Deposit(u64),
    /// Takes an amount out.
    ///
    /// 0. `[signer]` Authority.
    /// 1. `[writable]` Stake account.
    /// 2. `[writable]` Staking pool.
    /// 3. `[]` Clock account.
    Withdraw(u64),
    /// Pays out the whole units of a record's unclaimed reward.
    ///
    /// 0. `[signer]` Stake account owner.
    /// 1. `[writable]` Stake account.
    /// 2. `[writable]` Staking pool.
    /// 3. `[writable]` Reward token pool.
    /// 4. `[writable]` Reward destination.
    /// 5. `[]` Derived authority of the staking pool.
    /// 6. `[]` Clock account.
    /// 7. `[]` Token program.
    /// 8. `[writable, optional]` Sub reward token pool.
    /// 9. `[writable, optional]` Sub reward destination.
    ClaimReward,
    /// Sets the tick before which claims pay nothing.
    ///
    /// 0. `[signer]` Admin authority.
    /// 1. `[writable]` Staking pool.
    UpdateEarliestRewardClaimTime(Slot),
    /// Adds to the reward supply, or takes from it.
    ///
    /// 0. `[signer]` Transfer reward token authority.
    /// 1. `[writable]` Staking pool.
    /// 2. `[writable]` Reward token supply.
    /// 3. `[writable]` Reward token pool.
    /// 4. `[writable, optional]` Sub reward token supply.
    /// 5. `[writable, optional]` Sub reward token pool.
    /// 6. `[]` Derived authority of the staking pool.
    /// 7. `[]` Reward token mint.
    /// 8. `[optional]` Sub reward token mint.
    /// 9. `[]` Token program.
    /// 10. `[]` Clock account.
    ChangeRewardSupply(i64, Option<i64>),
    /// Hands the pool to a new owner.
    ///
    /// 0. `[signer]` Current owner.
    /// 1. `[writable]` Staking pool.
    ChangeOwner(Pubkey),
    /// Moves the end of the schedule.
    ///
    /// 0. `[signer]` Admin authority.
    /// 1. `[writable]` Staking pool.
    /// 2. `[]` Clock account.
    ChangeDuration(i64),
    /// Adds the secondary reward.
    ///
    /// 0. `[signer]` Admin authority.
    /// 1. `[signer]` Transfer sub reward token authority.
    /// 2. `[writable]` Staking pool.
    /// 3. `[writable]` Sub reward token supply.
    /// 4. `[writable]` Sub reward token pool.
    /// 5. `[]` Sub reward token mint.
    /// 6. `[]` Derived authority that owns the reward token pool.
    /// 7. `[]` Token program.
    /// 8. `[]` Rent account.
    /// 9. `[]` Clock account.
    AddSubRewardPool(u64),
    /// Hands the administration of the pool to a new admin.
    ///
    /// 0. `[signer]` Current admin.
    /// 1. `[writable]` Staking pool.
    ChangeAdmin(Pubkey),
}

/// The failure of every malformed instruction.
pub open spec fn unpack_error() -> ProgramError {
    ProgramError::Staking(StakingError::InstructionUnpackError)
}

/// The wire form of an optional unsigned number: a flag byte and 8 bytes,
/// all zero where there is none.
pub open spec fn option_u64_bytes(x: Option<u64>) -> Seq<u8> {
    match x {
        Some(n) => seq![1u8] + le_bytes(n as nat, 8),
        None => zeros(9),
    }
}

/// The wire form of an optional signed number.
pub open spec fn option_i64_bytes(x: Option<i64>) -> Seq<u8> {
    match x {
        Some(n) => seq![1u8] + le_bytes(twos(n), 8),
        None => zeros(9),
    }
}

/// The optional unsigned number in 9 bytes of wire form, given a valid flag.
pub open spec fn option_u64_of(field: Seq<u8>) -> Option<u64> {
    if field[0] == 0 {
        None
    } else {
        Some(le_value(field.subrange(1, 9)) as u64)
    }
}

/// The optional signed number in 9 bytes of wire form, given a valid flag.
pub open spec fn option_i64_of(field: Seq<u8>) -> Option<i64> {
    if field[0] == 0 {
        None
    } else {
        Some(from_twos(le_value(field.subrange(1, 9))))
    }
}

fn unpack_pubkey(input: &[u8], at: usize) -> (r: Result<(Pubkey, usize), ProgramError>)
    requires
        at <= input.len(),
    ensures
        match r {
            Ok((key, next)) => {
                &&& at + 32 <= input.len()
                &&& next == at + 32
                &&& key == Pubkey::spec_from_bytes(input@.subrange(at as int, at + 32))
            },
            Err(e) => input.len() < at + 32 && e == unpack_error(),
        },
{
    if input.len() - at < 32 {
        return Err(ProgramError::Staking(StakingError::InstructionUnpackError));
    }
    Ok((Pubkey::new_from_array(get_array::<32>(input, at)), at + 32))
}

fn unpack_u64(input: &[u8], at: usize) -> (r: Result<(u64, usize), ProgramError>)
    requires
        at <= input.len(),
    ensures
        match r {
            Ok((value, next)) => {
                &&& at + 8 <= input.len()
                &&& next == at + 8
                &&& value == le_value(input@.subrange(at as int, at + 8))
            },
            Err(e) => input.len() < at + 8 && e == unpack_error(),
        },
{
    if input.len() - at < 8 {
        return Err(ProgramError::Staking(StakingError::InstructionUnpackError));
    }
    proof {
        lemma_pow256_values();
        lemma_le_value_bound(input@.subrange(at as int, at + 8));
    }
    Ok((get_le(input, at, 8) as u64, at + 8))
}

fn unpack_i64(input: &[u8], at: usize) -> (r: Result<(i64, usize), ProgramError>)
    requires
        at <= input.len(),
    ensures
        match r {
            Ok((value, next)) => {
                &&& at + 8 <= input.len()
                &&& next == at + 8
                &&& value == from_twos(le_value(input@.subrange(at as int, at + 8)))
            },
            Err(e) => input.len() < at + 8 && e == unpack_error(),
        },
{
    let (bits, next) = unpack_u64(input, at)?;
    Ok((i64_from_bits(bits), next))
}

fn unpack_u8(input: &[u8], at: usize) -> (r: Result<(u8, usize), ProgramError>)
    requires
        at <= input.len(),
    ensures
        match r {
            Ok((value, next)) => {
                &&& at + 1 <= input.len()
                &&& next == at + 1
                &&& value == input@[at as int]
            },
            Err(e) => input.len() < at + 1 && e == unpack_error(),
        },
{
    if input.len() - at < 1 {
        return Err(ProgramError::Staking(StakingError::InstructionUnpackError));
    }
    Ok((input[at], at + 1))
}

fn unpack_option_u64(input: &[u8], at: usize) -> (r: Result<(Option<u64>, usize), ProgramError>)
    requires
        at <= input.len(),
    ensures
        match r {
            Ok((value, next)) => {
                &&& at + 9 <= input.len()
                &&& next == at + 9
                &&& input@[at as int] <= 1
                &&& value == option_u64_of(input@.subrange(at as int, at + 9))
            },
            Err(e) => (input.len() < at + 9 || input@[at as int] > 1) && e == unpack_error(),
        },
{
    if input.len() - at < 9 {
        return Err(ProgramError::Staking(StakingError::InstructionUnpackError));
    }
    proof {
        assert(input@.subrange(at as int, at + 9).subrange(1, 9) =~= input@.subrange(
            at + 1,
            at + 9,
        ));
    }
    let flag = input[at];
    if flag == 0 {
        Ok((None, at + 9))
    } else if flag == 1 {
        let (value, next) = unpack_u64(input, at + 1)?;
        Ok((Some(value), next))
    } else {
        Err(ProgramError::Staking(StakingError::InstructionUnpackError))
    }
}

fn unpack_option_i64(input: &[u8], at: usize) -> (r: Result<(Option<i64>, usize), ProgramError>)
    requires
        at <= input.len(),
    ensures
        match r {
            Ok((value, next)) => {
                &&& at + 9 <= input.len()
                &&& next == at + 9
                &&& input@[at as int] <= 1
                &&& value == option_i64_of(input@.subrange(at as int, at + 9))
            },
            Err(e) => (input.len() < at + 9 || input@[at as int] > 1) && e == unpack_error(),
        },
{
    if input.len() - at < 9 {
        return Err(ProgramError::Staking(StakingError::InstructionUnpackError));
    }
    proof {
        assert(input@.subrange(at as int, at + 9).subrange(1, 9) =~= input@.subrange(
            at + 1,
            at + 9,
        ));
    }
    let flag = input[at];
    if flag == 0 {
        Ok((None, at + 9))
    } else if flag == 1 {
        let (value, next) = unpack_i64(input, at + 1)?;
        Ok((Some(value), next))
    } else {
        Err(ProgramError::Staking(StakingError::InstructionUnpackError))
    }
}

fn pack_option_u64(buf: &mut Vec<u8>, x: Option<u64>)
    ensures
        final(buf)@ == old(buf)@ + option_u64_bytes(x),
{
    match x {
        None => {
            let absent: [u8; 9] = [0u8; 9];
            assert(absent@ =~= zeros(9));
            put_array(buf, &absent);
        },
        Some(n) => {
            let ghost before = buf@;
            buf.push(1);
            put_le(buf, n as u128, 8);
            assert(buf@ =~= before + (seq![1u8] + le_bytes(n as nat, 8)));
        },
    }
}

fn pack_option_i64(buf: &mut Vec<u8>, x: Option<i64>)
    ensures
        final(buf)@ == old(buf)@ + option_i64_bytes(x),
{
    match x {
        None => {
            let absent: [u8; 9] = [0u8; 9];
            assert(absent@ =~= zeros(9));
            put_array(buf, &absent);
        },
        Some(n) => {
            let ghost before = buf@;
            buf.push(1);
            put_le(buf, i64_bits(n) as u128, 8);
            assert(buf@ =~= before + (seq![1u8] + le_bytes(twos(n), 8)));
        },
    }
}

impl StakingInstruction {
    /// The wire form: the opcode byte, then the arguments in order.
    pub open spec fn spec_pack(self) -> Seq<u8> {
        match self {
            StakingInstruction::InitStakingPool {
                supply,
                sub_supply,
                duration,
                earliest_reward_claim_time,
                bump_seed_staking_program,
                pool_owner_authority,
                admin_authority,
            } => seq![0u8] + le_bytes(supply as nat, 8) + option_u64_bytes(sub_supply) + le_bytes(
                duration as nat,
                8,
            ) + le_bytes(earliest_reward_claim_time as nat, 8) + seq![bump_seed_staking_program]
                + pool_owner_authority@ + admin_authority@,
            StakingInstruction::CreateStakeAccount => seq![1u8],
            StakingInstruction::Deposit(amount) => seq![2u8] + le_bytes(amount as nat, 8),
            StakingInstruction::Withdraw(amount) => seq![3u8] + le_bytes(amount as nat, 8),
            StakingInstruction::ClaimReward => seq![4u8],
            StakingInstruction::UpdateEarliestRewardClaimTime(slot) => seq![5u8] + le_bytes(
                slot as nat,
                8,
            ),
            StakingInstruction::ChangeRewardSupply(amount, sub_amount) => seq![6u8] + le_bytes(
                twos(amount),
                8,
            ) + option_i64_bytes(sub_amount),
            StakingInstruction::ChangeOwner(new_owner) => seq![7u8] + new_owner@,
            StakingInstruction::ChangeDuration(amount) => seq![8u8] + le_bytes(twos(amount), 8),
            StakingInstruction::AddSubRewardPool(amount) => seq![9u8] + le_bytes(amount as nat, 8),
            StakingInstruction::ChangeAdmin(new_admin) => seq![10u8] + new_admin@,
        }
    }

    /// The wire form of the operation.
    pub fn pack(&self) -> (buf: Vec<u8>)
        ensures
            buf@ == self.spec_pack(),
    {
        let mut buf: Vec<u8> = Vec::new();
        match *self {
            StakingInstruction::InitStakingPool {
                supply,
                sub_supply,
                duration,
                earliest_reward_claim_time,
                bump_seed_staking_program,
                pool_owner_authority,
                admin_authority,
            } => {
                buf.push(0);
                assert(buf@ =~= seq![0u8]);
                put_le(&mut buf, supply as u128, 8);
                pack_option_u64(&mut buf, sub_supply);
                put_le(&mut buf, duration as u128, 8);
                put_le(&mut buf, earliest_reward_claim_time as u128, 8);
                let ghost before = buf@;
                buf.push(bump_seed_staking_program);
                assert(buf@ =~= before + seq![bump_seed_staking_program]);
                put_array(&mut buf, &pool_owner_authority.0);
                put_array(&mut buf, &admin_authority.0);
            },
            StakingInstruction::CreateStakeAccount => {
                buf.push(1);
                assert(buf@ =~= seq![1u8]);
            },
            StakingInstruction::Deposit(amount) => {
                buf.push(2);
                assert(buf@ =~= seq![2u8]);
                put_le(&mut buf, amount as u128, 8);
            },
            StakingInstruction::Withdraw(amount) => {
                buf.push(3);
                assert(buf@ =~= seq![3u8]);
                put_le(&mut buf, amount as u128, 8);
            },
            StakingInstruction::ClaimReward => {
                buf.push(4);
                assert(buf@ =~= seq![4u8]);
            },
            StakingInstruction::UpdateEarliestRewardClaimTime(slot) => {
                buf.push(5);
                assert(buf@ =~= seq![5u8]);
                put_le(&mut buf, slot as u128, 8);
            },
            StakingInstruction::ChangeRewardSupply(amount, sub_amount) => {
                buf.push(6);
                assert(buf@ =~= seq![6u8]);
                put_le(&mut buf, i64_bits(amount) as u128, 8);
                pack_option_i64(&mut buf, sub_amount);
            },
            StakingInstruction::ChangeOwner(new_owner) => {
                buf.push(7);
                assert(buf@ =~= seq![7u8]);
                put_array(&mut buf, &new_owner.0);
            },
            StakingInstruction::ChangeDuration(amount) => {
                buf.push(8);
                assert(buf@ =~= seq![8u8]);
                put_le(&mut buf, i64_bits(amount) as u128, 8);
            },
            StakingInstruction::AddSubRewardPool(amount) => {
                buf.push(9);
                assert(buf@ =~= seq![9u8]);
                put_le(&mut buf, amount as u128, 8);
            },
            StakingInstruction::ChangeAdmin(new_admin) => {
                buf.push(10);
                assert(buf@ =~= seq![10u8]);
                put_array(&mut buf, &new_admin.0);
            },
        };
        buf
    }

    /// The operation that bytes stand for. The bytes must have an opcode
    /// this program knows, exactly the length its arguments take, and flags
    /// of 0 or 1 before optional arguments. An absent optional argument may
    /// be followed by any 8 bytes.
    pub open spec fn spec_unpack(input: Seq<u8>) -> Result<StakingInstruction, ProgramError> {
        if input.len() == 0 {
            Err(unpack_error())
        } else if input[0] == 0 && input.len() == 99 && input[9] <= 1 {
            Ok(
                StakingInstruction::InitStakingPool {
                    supply: le_value(input.subrange(1, 9)) as u64,
                    sub_supply: option_u64_of(input.subrange(9, 18)),
                    duration: le_value(input.subrange(18, 26)) as u64,
                    earliest_reward_claim_time: le_value(input.subrange(26, 34)) as u64,
                    bump_seed_staking_program: input[34],
                    pool_owner_authority: Pubkey::spec_from_bytes(input.subrange(35, 67)),
                    admin_authority: Pubkey::spec_from_bytes(input.subrange(67, 99)),
                },
            )
        } else if input[0] == 1 && input.len() == 1 {
            Ok(StakingInstruction::CreateStakeAccount)
        } else if input[0] == 2 && input.len() == 9 {
            Ok(StakingInstruction::Deposit(le_value(input.subrange(1, 9)) as u64))
        } else if input[0] == 3 && input.len() == 9 {
            Ok(StakingInstruction::Withdraw(le_value(input.subrange(1, 9)) as u64))
        } else if input[0] == 4 && input.len() == 1 {
            Ok(StakingInstruction::ClaimReward)
        } else if input[0] == 5 && input.len() == 9 {
            Ok(
                StakingInstruction::UpdateEarliestRewardClaimTime(
                    le_value(input.subrange(1, 9)) as u64,
                ),
            )
        } else if input[0] == 6 && input.len() == 18 && input[9] <= 1 {
            Ok(
                StakingInstruction::ChangeRewardSupply(
                    from_twos(le_value(input.subrange(1, 9))),
                    option_i64_of(input.subrange(9, 18)),
                ),
            )
        } else if input[0] == 7 && input.len() == 33 {
            Ok(StakingInstruction::ChangeOwner(Pubkey::spec_from_bytes(input.subrange(1, 33))))
        } else if input[0] == 8 && input.len() == 9 {
            Ok(StakingInstruction::ChangeDuration(from_twos(le_value(input.subrange(1, 9)))))
        } else if input[0] == 9 && input.len() == 9 {
            Ok(StakingInstruction::AddSubRewardPool(le_value(input.subrange(1, 9)) as u64))
        } else if input[0] == 10 && input.len() == 33 {
            Ok(StakingInstruction::ChangeAdmin(Pubkey::spec_from_bytes(input.subrange(1, 33))))
        } else {
            Err(unpack_error())
        }
    }

    /// Reads an operation from its wire form.
    pub fn unpack(input: &[u8]) -> (r: Result<StakingInstruction, ProgramError>)
        ensures
            r == StakingInstruction::spec_unpack(input@),
    {
        if input.len() == 0 {
            return Err(ProgramError::Staking(StakingError::InstructionUnpackError));
        }
        let tag = input[0];
        let (instruction, rest) = if tag == 0 {
            let (supply, at) = unpack_u64(input, 1)?;
            let (sub_supply, at) = unpack_option_u64(input, at)?;
            let (duration, at) = unpack_u64(input, at)?;
            let (earliest_reward_claim_time, at) = unpack_u64(input, at)?;
            let (bump_seed_staking_program, at) = unpack_u8(input, at)?;
            let (pool_owner_authority, at) = unpack_pubkey(input, at)?;
            let (admin_authority, at) = unpack_pubkey(input, at)?;
            (
                StakingInstruction::InitStakingPool {
                    supply,
                    sub_supply,
                    duration,
                    earliest_reward_claim_time,
                    bump_seed_staking_program,
                    pool_owner_authority,
                    admin_authority,
                },
                at,
            )
        } else if tag == 1 {
            (StakingInstruction::CreateStakeAccount, 1)
        } else if tag == 2 {
            let (amount, at) = unpack_u64(input, 1)?;
            (StakingInstruction::Deposit(amount), at)
        } else if tag == 3 {
            let (amount, at) = unpack_u64(input, 1)?;
            (StakingInstruction::Withdraw(amount), at)
        } else if tag == 4 {
            (StakingInstruction::ClaimReward, 1)
        } else if tag == 5 {
            let (time, at) = unpack_u64(input, 1)?;
            (StakingInstruction::UpdateEarliestRewardClaimTime(time), at)
        } else if tag == 6 {
            let (amount, at) = unpack_i64(input, 1)?;
            let (sub_amount, at) = unpack_option_i64(input, at)?;
            (StakingInstruction::ChangeRewardSupply(amount, sub_amount), at)
        } else if tag == 7 {
            let (new_owner, at) = unpack_pubkey(input, 1)?;
            (StakingInstruction::ChangeOwner(new_owner), at)
        } else if tag == 8 {
            let (amount, at) = unpack_i64(input, 1)?;
            (StakingInstruction::ChangeDuration(amount), at)
        } else if tag == 9 {
            let (amount, at) = unpack_u64(input, 1)?;
            (StakingInstruction::AddSubRewardPool(amount), at)
        } else if tag == 10 {
            let (new_admin, at) = unpack_pubkey(input, 1)?;
            (StakingInstruction::ChangeAdmin(new_admin), at)
        } else {
            return Err(ProgramError::Staking(StakingError::InstructionUnpackError));
        };
        if rest == input.len() {
            Ok(instruction)
        } else {
            Err(ProgramError::Staking(StakingError::InstructionUnpackError))
        }
    }

    /// Reading back the wire form of an operation gives the operation.
    pub proof fn lemma_unpack_packed(self)
        ensures
            StakingInstruction::spec_unpack(self.spec_pack()) == Ok::<
                StakingInstruction,
                ProgramError,
            >(self),
    {
        let bytes = self.spec_pack();
        lemma_pow256_values();
        match self {
            StakingInstruction::InitStakingPool {
                supply,
                sub_supply,
                duration,
                earliest_reward_claim_time,
                bump_seed_staking_program,
                pool_owner_authority,
                admin_authority,
            } => {
                lemma_le_bytes_len(supply as nat, 8);
                lemma_le_bytes_len(duration as nat, 8);
                lemma_le_bytes_len(earliest_reward_claim_time as nat, 8);
                lemma_option_u64_round_trip(sub_supply);
                Pubkey::lemma_from_bytes(pool_owner_authority);
                Pubkey::lemma_from_bytes(admin_authority);
                assert(bytes.subrange(1, 9) =~= le_bytes(supply as nat, 8));
                assert(bytes.subrange(9, 18) =~= option_u64_bytes(sub_supply));
                assert(bytes.subrange(18, 26) =~= le_bytes(duration as nat, 8));
                assert(bytes.subrange(26, 34) =~= le_bytes(earliest_reward_claim_time as nat, 8));
                assert(bytes.subrange(35, 67) =~= pool_owner_authority@);
                assert(bytes.subrange(67, 99) =~= admin_authority@);
                assert(bytes[9] == option_u64_bytes(sub_supply)[0]);
                assert(bytes[34] == bump_seed_staking_program);
                lemma_le_value_of_bytes(supply as nat, 8);
                lemma_le_value_of_bytes(duration as nat, 8);
                lemma_le_value_of_bytes(earliest_reward_claim_time as nat, 8);
            },
            StakingInstruction::CreateStakeAccount => {},
            StakingInstruction::Deposit(amount) => {
                lemma_u64_field(2, amount);
            },
            StakingInstruction::Withdraw(amount) => {
                lemma_u64_field(3, amount);
            },
            StakingInstruction::ClaimReward => {},
            StakingInstruction::UpdateEarliestRewardClaimTime(slot) => {
                lemma_u64_field(5, slot);
            },
            StakingInstruction::ChangeRewardSupply(amount, sub_amount) => {
                lemma_twos_round_trip(amount);
                lemma_le_bytes_len(twos(amount), 8);
                lemma_le_value_of_bytes(twos(amount), 8);
                lemma_option_i64_round_trip(sub_amount);
                assert(bytes.subrange(1, 9) =~= le_bytes(twos(amount), 8));
                assert(bytes.subrange(9, 18) =~= option_i64_bytes(sub_amount));
                assert(bytes[9] == option_i64_bytes(sub_amount)[0]);
            },
            StakingInstruction::ChangeOwner(new_owner) => {
                Pubkey::lemma_from_bytes(new_owner);
                assert(bytes.subrange(1, 33) =~= new_owner@);
            },
            StakingInstruction::ChangeDuration(amount) => {
                lemma_twos_round_trip(amount);
                lemma_le_bytes_len(twos(amount), 8);
                lemma_le_value_of_bytes(twos(amount), 8);
                assert(bytes.subrange(1, 9) =~= le_bytes(twos(amount), 8));
            },
            StakingInstruction::AddSubRewardPool(amount) => {
                lemma_u64_field(9, amount);
            },
            StakingInstruction::ChangeAdmin(new_admin) => {
                Pubkey::lemma_from_bytes(new_admin);
                assert(bytes.subrange(1, 33) =~= new_admin@);
            },
        }
    }
}

/// An opcode followed by one unsigned number reads back as that number.
proof fn lemma_u64_field(tag: u8, value: u64)
    ensures
        (seq![tag] + le_bytes(value as nat, 8)).len() == 9,
        (seq![tag] + le_bytes(value as nat, 8))[0] == tag,
        le_value((seq![tag] + le_bytes(value as nat, 8)).subrange(1, 9)) == value,
{
    lemma_pow256_values();
    lemma_le_bytes_len(value as nat, 8);
    lemma_le_value_of_bytes(value as nat, 8);
    assert((seq![tag] + le_bytes(value as nat, 8)).subrange(1, 9) =~= le_bytes(value as nat, 8));
}

proof fn lemma_option_u64_round_trip(x: Option<u64>)
    ensures
        option_u64_bytes(x).len() == 9,
        option_u64_bytes(x)[0] <= 1,
        option_u64_of(option_u64_bytes(x)) == x,
{
    if let Some(n) = x {
        lemma_pow256_values();
        lemma_le_bytes_len(n as nat, 8);
        lemma_le_value_of_bytes(n as nat, 8);
        assert(option_u64_bytes(x).subrange(1, 9) =~= le_bytes(n as nat, 8));
    }
}

proof fn lemma_option_i64_round_trip(x: Option<i64>)
    ensures
        option_i64_bytes(x).len() == 9,
        option_i64_bytes(x)[0] <= 1,
        option_i64_of(option_i64_bytes(x)) == x,
{
    if let Some(n) = x {
        lemma_pow256_values();
        lemma_twos_round_trip(n);
        lemma_le_bytes_len(twos(n), 8);
        lemma_le_value_of_bytes(twos(n), 8);
        assert(option_i64_bytes(x).subrange(1, 9) =~= le_bytes(twos(n), 8));
    }
}

/// An account that an instruction names, and what the instruction may do
/// with it.
#[derive(Clone, Copy, Debug, PartialEq, Eq)]
pub struct AccountMeta {
    pub pubkey: Pubkey,
    pub is_signer: bool,
    pub is_writable: bool,
}

impl AccountMeta {
    /// An account that the instruction may change.
    pub fn new(pubkey: Pubkey, is_signer: bool) -> (r: AccountMeta)
        ensures
            r == writable(pubkey, is_signer),
    {
        AccountMeta { pubkey, is_signer, is_writable: true }
    }

    /// An account that the instruction only reads.
    pub fn new_readonly(pubkey: Pubkey, is_signer: bool) -> (r: AccountMeta)
        ensures
            r == readonly(pubkey, is_signer),
    {
        AccountMeta { pubkey, is_signer, is_writable: false }
    }
}

/// An account that the instruction may change.
pub open spec fn writable(pubkey: Pubkey, is_signer: bool) -> AccountMeta {
    AccountMeta { pubkey, is_signer, is_writable: true }
}

/// An account that the instruction only reads.
pub open spec fn readonly(pubkey: Pubkey, is_signer: bool) -> AccountMeta {
    AccountMeta { pubkey, is_signer, is_writable: false }
}

/// An instruction as it is sent to the host: the program, the accounts in
/// the order the operation expects them, and the wire form of the operation.
#[derive(Clone, Debug, PartialEq, Eq)]
pub struct Instruction {
    pub program_id: Pubkey,
    pub accounts: Vec<AccountMeta>,
    pub data: Vec<u8>,
}

/// Whether `instruction` is for `program_id`, names `accounts` and carries
/// `operation`.
pub open spec fn is_instruction(
    instruction: Instruction,
    program_id: Pubkey,
    accounts: Seq<AccountMeta>,
    operation: StakingInstruction,
) -> bool {
    &&& instruction.program_id == program_id
    &&& instruction.accounts@ == accounts
    &&& instruction.data@ == operation.spec_pack()
}

/// The address the host finds for a program from a pool's address, with
/// the seed byte that leads to it.
pub open spec fn spec_derived_authority(staking_pool: Pubkey, program_id: Pubkey) -> Option<
    (Pubkey, u8),
> {
    match found_program_address_of(staking_pool@, program_id@) {
        Some((k, bump)) => Some((Pubkey::spec_from_bytes(k), bump)),
        None => None,
    }
}

fn derived_authority(staking_pool: &Pubkey, program_id: &Pubkey) -> (r: Option<(Pubkey, u8)>)
    ensures
        r == spec_derived_authority(*staking_pool, *program_id),
{
    match find_program_address(staking_pool, program_id) {
        Some((k, bump)) => {
            proof {
                Pubkey::lemma_from_bytes(k);
            }
            Some((k, bump))
        },
        None => None,
    }
}

/// The address that stands in for an account that an instruction leaves out.
pub open spec fn spec_dummy_id() -> Pubkey {
    Pubkey(vstd::array::spec_array_fill_for_copy_type::<u8, 32>(0u8))
}

/// The address that stands in for an account that an instruction leaves out: all zeros.
pub fn dummy_id() -> (r: Pubkey)
    ensures
        r == spec_dummy_id(),
{
    Pubkey([0u8; 32])
}

/// An address, or the stand-in where there is none.
pub open spec fn or_dummy(key: Option<Pubkey>) -> Pubkey {
    match key {
        Some(k) => k,
        None => spec_dummy_id(),
    }
}

fn key_or_dummy(key: Option<Pubkey>) -> (r: Pubkey)
    ensures
        r == or_dummy(key),
{
    match key {
        Some(k) => k,
        None => dummy_id(),
    }
}

/// The instruction with which the owner `old_owner` hands the pool to
/// `new_owner`.
pub fn change_owner(program_id: Pubkey, new_owner: Pubkey, old_owner: Pubkey, staking_pool: Pubkey) -> (r:
    Instruction)
    ensures
        is_instruction(
            r,
            program_id,
            seq![readonly(old_owner, true), writable(staking_pool, false)],
            StakingInstruction::ChangeOwner(new_owner),
        ),
{
    let mut accounts: Vec<AccountMeta> = Vec::new();
    accounts.push(AccountMeta::new_readonly(old_owner, true));
    accounts.push(AccountMeta::new(staking_pool, false));
    assert(accounts@ =~= seq![readonly(old_owner, true), writable(staking_pool, false)]);
    Instruction { program_id, accounts, data: StakingInstruction::ChangeOwner(new_owner).pack() }
}

/// The instruction with which the admin `old_admin` hands the
/// administration of the pool to `new_admin`.
pub fn change_admin(program_id: Pubkey, new_admin: Pubkey, old_admin: Pubkey, staking_pool: Pubkey) -> (r:
    Instruction)
    ensures
        is_instruction(
            r,
            program_id,
            seq![readonly(old_admin, true), writable(staking_pool, false)],
            StakingInstruction::ChangeAdmin(new_admin),
        ),
{
    let mut accounts: Vec<AccountMeta> = Vec::new();
    accounts.push(AccountMeta::new_readonly(old_admin, true));
    accounts.push(AccountMeta::new(staking_pool, false));
    assert(accounts@ =~= seq![readonly(old_admin, true), writable(staking_pool, false)]);
    Instruction { program_id, accounts, data: StakingInstruction::ChangeAdmin(new_admin).pack() }
}

/// The instruction that sets up a pool, or `None` where the host finds no
/// derived authority for the pool. The seed byte of the instruction is the
/// one the host found.
pub fn init_staking_pool(
    program_id: Pubkey,
    supply: u64,
    sub_supply: Option<u64>,
    duration: u64,
    earliest_reward_claim_time: Slot,
    transfer_reward_token_authority: Pubkey,
    reward_token_supply: Pubkey,
    reward_token_pool: Pubkey,
    sub_reward_token_supply: Option<Pubkey>,
    sub_reward_token_pool: Option<Pubkey>,
    staking_pool: Pubkey,
    reward_token_mint: Pubkey,
    sub_reward_token_mint: Option<Pubkey>,
    staking_pool_owner_derived: Pubkey,
    admin_authority: Pubkey,
) -> (r: Option<Instruction>)
    ensures
        match spec_derived_authority(staking_pool, program_id) {
            None => r is None,
            Some((staking_program_derived, bump_seed)) => r is Some && is_instruction(
                r->Some_0,
                program_id,
                seq![
                    readonly(transfer_reward_token_authority, true),
                    writable(reward_token_supply, false),
                    writable(reward_token_pool, false),
                    writable(or_dummy(sub_reward_token_supply), false),
                    writable(or_dummy(sub_reward_token_pool), false),
                    writable(staking_pool, false),
                    readonly(reward_token_mint, false),
                    readonly(or_dummy(sub_reward_token_mint), false),
                    readonly(staking_program_derived, false),
                    readonly(spec_rent_id(), false),
                    readonly(spec_token_program_id(), false),
                ],
                (StakingInstruction::InitStakingPool {
                    supply,
                    sub_supply,
                    duration,
                    earliest_reward_claim_time,
                    bump_seed_staking_program: bump_seed,
                    pool_owner_authority: staking_pool_owner_derived,
                    admin_authority,
                }),
            ),
        },
{
    let (staking_program_derived, bump_seed) = match derived_authority(&staking_pool, &program_id) {
        Some(found) => found,
        None => {
            return None;
        },
    };
    let mut accounts: Vec<AccountMeta> = Vec::new();
    accounts.push(AccountMeta::new_readonly(transfer_reward_token_authority, true));
    accounts.push(AccountMeta::new(reward_token_supply, false));
    accounts.push(AccountMeta::new(reward_token_pool, false));
    accounts.push(AccountMeta::new(key_or_dummy(sub_reward_token_supply), false));
    accounts.push(AccountMeta::new(key_or_dummy(sub_reward_token_pool), false));
    accounts.push(AccountMeta::new(staking_pool, false));
    accounts.push(AccountMeta::new_readonly(reward_token_mint, false));
    accounts.push(AccountMeta::new_readonly(key_or_dummy(sub_reward_token_mint), false));
    accounts.push(AccountMeta::new_readonly(staking_program_derived, false));
    accounts.push(AccountMeta::new_readonly(rent_id(), false));
    accounts.push(AccountMeta::new_readonly(token_program_id(), false));
    assert(accounts@ =~= seq![
        readonly(transfer_reward_token_authority, true),
        writable(reward_token_supply, false),
        writable(reward_token_pool, false),
        writable(or_dummy(sub_reward_token_supply), false),
        writable(or_dummy(sub_reward_token_pool), false),
        writable(staking_pool, false),
        readonly(reward_token_mint, false),
        readonly(or_dummy(sub_reward_token_mint), false),
        readonly(staking_program_derived, false),
        readonly(spec_rent_id(), false),
        readonly(spec_token_program_id(), false),
    ]);
    let data = (StakingInstruction::InitStakingPool {
        supply,
        sub_supply,
        duration,
        earliest_reward_claim_time,
        bump_seed_staking_program: bump_seed,
        pool_owner_authority: staking_pool_owner_derived,
        admin_authority,
    }).pack();
    Some(Instruction { program_id, accounts, data })
}

/// The instruction that sets up a depositor record.
pub fn create_stake_account(
    program_id: Pubkey,
    stake_account: Pubkey,
    staking_pool: Pubkey,
    stake_account_owner: Pubkey,
) -> (r: Instruction)
    ensures
        is_instruction(
            r,
            program_id,
            seq![
                writable(stake_account, false),
                readonly(staking_pool, false),
                readonly(stake_account_owner, false),
                readonly(spec_rent_id(), false),
            ],
            StakingInstruction::CreateStakeAccount,
        ),
{
    let mut accounts: Vec<AccountMeta> = Vec::new();
    accounts.push(AccountMeta::new(stake_account, false));
    accounts.push(AccountMeta::new_readonly(staking_pool, false));
    accounts.push(AccountMeta::new_readonly(stake_account_owner, false));
    accounts.push(AccountMeta::new_readonly(rent_id(), false));
    assert(accounts@ =~= seq![
        writable(stake_account, false),
        readonly(staking_pool, false),
        readonly(stake_account_owner, false),
        readonly(spec_rent_id(), false),
    ]);
    Instruction { program_id, accounts, data: StakingInstruction::CreateStakeAccount.pack() }
}

/// The accounts of a deposit or a withdrawal.
pub open spec fn stake_accounts(authority: Pubkey, stake_account: Pubkey, staking_pool: Pubkey)
    -> Seq<AccountMeta> {
    seq![
        readonly(authority, true),
        writable(stake_account, false),
        writable(staking_pool, false),
        readonly(spec_clock_id(), false),
    ]
}

fn stake_account_metas(authority: Pubkey, stake_account: Pubkey, staking_pool: Pubkey) -> (r: Vec<
    AccountMeta,
>)
    ensures
        r@ == stake_accounts(authority, stake_account, staking_pool),
{
    let mut accounts: Vec<AccountMeta> = Vec::new();
    accounts.push(AccountMeta::new_readonly(authority, true));
    accounts.push(AccountMeta::new(stake_account, false));
    accounts.push(AccountMeta::new(staking_pool, false));
    accounts.push(AccountMeta::new_readonly(clock_id(), false));
    assert(accounts@ =~= stake_accounts(authority, stake_account, staking_pool));
    accounts
}

/// The instruction that stakes `amount`.
pub fn deposit(
    program_id: Pubkey,
    amount: u64,
    authority: Pubkey,
    stake_account: Pubkey,
    staking_pool: Pubkey,
) -> (r: Instruction)
    ensures
        is_instruction(
            r,
            program_id,
            stake_accounts(authority, stake_account, staking_pool),
            StakingInstruction::Deposit(amount),
        ),
{
    Instruction {
        program_id,
        accounts: stake_account_metas(authority, stake_account, staking_pool),
        data: StakingInstruction::Deposit(amount).pack(),
    }
}

/// The instruction that takes `amount` out.
pub fn withdraw(
    program_id: Pubkey,
    amount: u64,
    authority: Pubkey,
    stake_account: Pubkey,
    staking_pool: Pubkey,
) -> (r: Instruction)
    ensures
        is_instruction(
            r,
            program_id,
            stake_accounts(authority, stake_account, staking_pool),
            StakingInstruction::Withdraw(amount),
        ),
{
    Instruction {
        program_id,
        accounts: stake_account_metas(authority, stake_account, staking_pool),
        data: StakingInstruction::Withdraw(amount).pack(),
    }
}

/// The accounts of a claim. The secondary vault and destination follow
/// where both are given.
pub open spec fn claim_accounts(
    stake_account_owner: Pubkey,
    stake_account: Pubkey,
    staking_pool: Pubkey,
    reward_token_pool: Pubkey,
    sub_reward_token_pool: Option<Pubkey>,
    reward_destination: Pubkey,
    sub_reward_destination: Option<Pubkey>,
    staking_program_derived: Pubkey,
) -> Seq<AccountMeta> {
    let required = seq![
        readonly(stake_account_owner, true),
        writable(stake_account, false),
        writable(staking_pool, false),
        writable(reward_token_pool, false),
        writable(reward_destination, false),
        readonly(staking_program_derived, false),
        readonly(spec_clock_id(), false),
        readonly(spec_token_program_id(), false),
    ];
    match (sub_reward_token_pool, sub_reward_destination) {
        (Some(pool), Some(destination)) => required + seq![
            writable(pool, false),
            writable(destination, false),
        ],
        _ => required,
    }
}

/// The instruction that claims a record's reward, or `None` where the host
/// finds no derived authority for the pool.
pub fn claim_reward(
    program_id: Pubkey,
    stake_account_owner: Pubkey,
    stake_account: Pubkey,
    staking_pool: Pubkey,
    reward_token_pool: Pubkey,
    sub_reward_token_pool: Option<Pubkey>,
    reward_destination: Pubkey,
    sub_reward_destination: Option<Pubkey>,
) -> (r: Option<Instruction>)
    ensures
        match spec_derived_authority(staking_pool, program_id) {
            None => r is None,
            Some((staking_program_derived, _)) => r is Some && is_instruction(
                r->Some_0,
                program_id,
                claim_accounts(
                    stake_account_owner,
                    stake_account,
                    staking_pool,
                    reward_token_pool,
                    sub_reward_token_pool,
                    reward_destination,
                    sub_reward_destination,
                    staking_program_derived,
                ),
                StakingInstruction::ClaimReward,
            ),
        },
{
    let (staking_program_derived, _bump_seed) = match derived_authority(&staking_pool, &program_id) {
        Some(found) => found,
        None => {
            return None;
        },
    };
    let mut accounts: Vec<AccountMeta> = Vec::new();
    accounts.push(AccountMeta::new_readonly(stake_account_owner, true));
    accounts.push(AccountMeta::new(stake_account, false));
    accounts.push(AccountMeta::new(staking_pool, false));
    accounts.push(AccountMeta::new(reward_token_pool, false));
    accounts.push(AccountMeta::new(reward_destination, false));
    accounts.push(AccountMeta::new_readonly(staking_program_derived, false));
    accounts.push(AccountMeta::new_readonly(clock_id(), false));
    accounts.push(AccountMeta::new_readonly(token_program_id(), false));
    let ghost required = accounts@;
    assert(required =~= seq![
        readonly(stake_account_owner, true),
        writable(stake_account, false),
        writable(staking_pool, false),
        writable(reward_token_pool, false),
        writable(reward_destination, false),
        readonly(staking_program_derived, false),
        readonly(spec_clock_id(), false),
        readonly(spec_token_program_id(), false),
    ]);
    match (sub_reward_token_pool, sub_reward_destination) {
        (Some(pool), Some(destination)) => {
            accounts.push(AccountMeta::new(pool, false));
            accounts.push(AccountMeta::new(destination, false));
            assert(accounts@ =~= required + seq![
                writable(pool, false),
                writable(destination, false),
            ]);
        },
        _ => {},
    }
    Some(Instruction { program_id, accounts, data: StakingInstruction::ClaimReward.pack() })
}

/// The instruction with which the admin sets the earliest claim tick.
pub fn update_earliest_reward_claim_time(
    program_id: Pubkey,
    time: Slot,
    admin_authority: Pubkey,
    staking_pool: Pubkey,
) -> (r: Instruction)
    ensures
        is_instruction(
            r,
            program_id,
            seq![readonly(admin_authority, true), writable(staking_pool, false)],
            StakingInstruction::UpdateEarliestRewardClaimTime(time),
        ),
{
    let mut accounts: Vec<AccountMeta> = Vec::new();
    accounts.push(AccountMeta::new_readonly(admin_authority, true));
    accounts.push(AccountMeta::new(staking_pool, false));
    assert(accounts@ =~= seq![readonly(admin_authority, true), writable(staking_pool, false)]);
    Instruction {
        program_id,
        accounts,
        data: StakingInstruction::UpdateEarliestRewardClaimTime(time).pack(),
    }
}

/// The instruction that changes the reward supply, or `None` where the
/// host finds no derived authority for the pool.
pub fn change_reward_supply(
    program_id: Pubkey,
    amount: i64,
    sub_amount: Option<i64>,
    transfer_reward_token_authority: Pubkey,
    reward_token_supply: Pubkey,
    reward_token_mint: Pubkey,
    staking_pool: Pubkey,
    reward_token_pool: Pubkey,
    sub_reward_token_supply: Option<Pubkey>,
    sub_reward_token_mint: Option<Pubkey>,
    sub_reward_token_pool: Option<Pubkey>,
) -> (r: Option<Instruction>)
    ensures
        match spec_derived_authority(staking_pool, program_id) {
            None => r is None,
            Some((staking_program_derived, _)) => r is Some && is_instruction(
                r->Some_0,
                program_id,
                seq![
                    readonly(transfer_reward_token_authority, true),
                    writable(staking_pool, false),
                    writable(reward_token_supply, false),
                    writable(reward_token_pool, false),
                    writable(or_dummy(sub_reward_token_supply), false),
                    writable(or_dummy(sub_reward_token_pool), false),
                    readonly(staking_program_derived, false),
                    readonly(reward_token_mint, false),
                    readonly(or_dummy(sub_reward_token_mint), false),
                    readonly(spec_token_program_id(), false),
                    readonly(spec_clock_id(), false),
                ],
                StakingInstruction::ChangeRewardSupply(amount, sub_amount),
            ),
        },
{
    let (staking_program_derived, _bump_seed) = match derived_authority(&staking_pool, &program_id) {
        Some(found) => found,
        None => {
            return None;
        },
    };
    let mut accounts: Vec<AccountMeta> = Vec::new();
    accounts.push(AccountMeta::new_readonly(transfer_reward_token_authority, true));
    accounts.push(AccountMeta::new(staking_pool, false));
    accounts.push(AccountMeta::new(reward_token_supply, false));
    accounts.push(AccountMeta::new(reward_token_pool, false));
    accounts.push(AccountMeta::new(key_or_dummy(sub_reward_token_supply), false));
    accounts.push(AccountMeta::new(key_or_dummy(sub_reward_token_pool), false));
    accounts.push(AccountMeta::new_readonly(staking_program_derived, false));
    accounts.push(AccountMeta::new_readonly(reward_token_mint, false));
    accounts.push(AccountMeta::new_readonly(key_or_dummy(sub_reward_token_mint), false));
    accounts.push(AccountMeta::new_readonly(token_program_id(), false));
    accounts.push(AccountMeta::new_readonly(clock_id(), false));
    assert(accounts@ =~= seq![
        readonly(transfer_reward_token_authority, true),
        writable(staking_pool, false),
        writable(reward_token_supply, false),
        writable(reward_token_pool, false),
        writable(or_dummy(sub_reward_token_supply), false),
        writable(or_dummy(sub_reward_token_pool), false),
        readonly(staking_program_derived, false),
        readonly(reward_token_mint, false),
        readonly(or_dummy(sub_reward_token_mint), false),
        readonly(spec_token_program_id(), false),
        readonly(spec_clock_id(), false),
    ]);
    Some(
        Instruction {
            program_id,
            accounts,
            data: StakingInstruction::ChangeRewardSupply(amount, sub_amount).pack(),
        },
    )
}

/// The instruction with which the admin changes the duration.
pub fn change_duration(
    program_id: Pubkey,
    amount: i64,
    admin_authority: Pubkey,
    staking_pool: Pubkey,
) -> (r: Instruction)
    ensures
        is_instruction(
            r,
            program_id,
            seq![
                readonly(admin_authority, true),
                writable(staking_pool, false),
                readonly(spec_clock_id(), false),
            ],
            StakingInstruction::ChangeDuration(amount),
        ),
{
    let mut accounts: Vec<AccountMeta> = Vec::new();
    accounts.push(AccountMeta::new_readonly(admin_authority, true));
    accounts.push(AccountMeta::new(staking_pool, false));
    accounts.push(AccountMeta::new_readonly(clock_id(), false));
    assert(accounts@ =~= seq![
        readonly(admin_authority, true),
        writable(staking_pool, false),
        readonly(spec_clock_id(), false),
    ]);
    Instruction { program_id, accounts, data: StakingInstruction::ChangeDuration(amount).pack() }
}

/// The instruction that adds the secondary reward, or `None` where the
/// host finds no derived authority for the pool.
pub fn add_sub_reward_pool(
    program_id: Pubkey,
    amount: u64,
    transfer_reward_token_authority: Pubkey,
    admin_authority: Pubkey,
    reward_token_supply: Pubkey,
    reward_token_mint: Pubkey,
    staking_pool: Pubkey,
    reward_token_pool: Pubkey,
) -> (r: Option<Instruction>)
    ensures
        match spec_derived_authority(staking_pool, program_id) {
            None => r is None,
            Some((staking_program_derived, _)) => r is Some && is_instruction(
                r->Some_0,
                program_id,
                seq![
                    readonly(admin_authority, true),
                    readonly(transfer_reward_token_authority, true),
                    writable(staking_pool, false),
                    writable(reward_token_supply, false),
                    writable(reward_token_pool, false),
                    readonly(reward_token_mint, false),
                    readonly(staking_program_derived, false),
                    readonly(spec_token_program_id(), false),
                    readonly(spec_rent_id(), false),
                    readonly(spec_clock_id(), false),
                ],
                StakingInstruction::AddSubRewardPool(amount),
            ),
        },
{
    let (staking_program_derived, _bump_seed) = match derived_authority(&staking_pool, &program_id) {
        Some(found) => found,
        None => {
            return None;
        },
    };
    let mut accounts: Vec<AccountMeta> = Vec::new();
    accounts.push(AccountMeta::new_readonly(admin_authority, true));
    accounts.push(AccountMeta::new_readonly(transfer_reward_token_authority, true));
    accounts.push(AccountMeta::new(staking_pool, false));
    accounts.push(AccountMeta::new(reward_token_supply, false));
    accounts.push(AccountMeta::new(reward_token_pool, false));
    accounts.push(AccountMeta::new_readonly(reward_token_mint, false));
    accounts.push(AccountMeta::new_readonly(staking_program_derived, false));
    accounts.push(AccountMeta::new_readonly(token_program_id(), false));
    accounts.push(AccountMeta::new_readonly(rent_id(), false));
    accounts.push(AccountMeta::new_readonly(clock_id(), false));
    assert(accounts@ =~= seq![
        readonly(admin_authority, true),
        readonly(transfer_reward_token_authority, true),
        writable(staking_pool, false),
        writable(reward_token_supply, false),
        writable(reward_token_pool, false),
        readonly(reward_token_mint, false),
        readonly(staking_program_derived, false),
        readonly(spec_token_program_id(), false),
        readonly(spec_rent_id(), false),
        readonly(spec_clock_id(), false),
    ]);
    Some(
        Instruction { program_id, accounts, data: StakingInstruction::AddSubRewardPool(amount).pack() },
    )
}

} // verus!
