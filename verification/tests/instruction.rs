use port_finance_staking::error::{ProgramError, StakingError};
use port_finance_staking::instruction;
use port_finance_staking::instruction::{AccountMeta, StakingInstruction};
use port_finance_staking::pubkey::{clock_id, rent_id, token_program_id, Pubkey};

const UNPACK_ERROR: ProgramError = ProgramError::Staking(StakingError::InstructionUnpackError);

fn all_kinds() -> Vec<StakingInstruction> {
    vec![
        StakingInstruction::InitStakingPool {
            supply: 0x0102_0304_0506_0708,
            sub_supply: Some(9),
            duration: 1000,
            earliest_reward_claim_time: 77,
            bump_seed_staking_program: 254,
            pool_owner_authority: Pubkey([0x11; 32]),
            admin_authority: Pubkey([0x22; 32]),
        },
        StakingInstruction::InitStakingPool {
            supply: u64::MAX,
            sub_supply: None,
            duration: 0,
            earliest_reward_claim_time: u64::MAX,
            bump_seed_staking_program: 0,
            pool_owner_authority: Pubkey([0; 32]),
            admin_authority: Pubkey([0xff; 32]),
        },
        StakingInstruction::CreateStakeAccount,
        StakingInstruction::Deposit(10),
        StakingInstruction::Withdraw(u64::MAX),
        StakingInstruction::ClaimReward,
        StakingInstruction::UpdateEarliestRewardClaimTime(12345),
        StakingInstruction::ChangeRewardSupply(-160, Some(-320)),
        StakingInstruction::ChangeRewardSupply(i64::MIN, Some(i64::MAX)),
        StakingInstruction::ChangeRewardSupply(i64::MAX, None),
        StakingInstruction::ChangeOwner(Pubkey([0x33; 32])),
        StakingInstruction::ChangeDuration(-1),
        StakingInstruction::ChangeDuration(1000),
        StakingInstruction::AddSubRewardPool(200),
        StakingInstruction::ChangeAdmin(Pubkey([0x44; 32])),
    ]
}

#[test]
fn every_instruction_reads_back() {
    for ins in all_kinds() {
        let bytes = ins.pack();
        assert_eq!(StakingInstruction::unpack(&bytes), Ok(ins));
        // one byte more or one byte less is malformed
        let mut longer = bytes.clone();
        longer.push(0);
        assert_eq!(StakingInstruction::unpack(&longer), Err(UNPACK_ERROR));
        assert_eq!(StakingInstruction::unpack(&bytes[..bytes.len() - 1]), Err(UNPACK_ERROR));
    }
}

#[test]
fn wire_form_is_bit_exact() {
    assert_eq!(StakingInstruction::CreateStakeAccount.pack(), vec![1]);
    assert_eq!(StakingInstruction::ClaimReward.pack(), vec![4]);
    assert_eq!(StakingInstruction::Deposit(10).pack(), vec![2, 10, 0, 0, 0, 0, 0, 0, 0]);
    assert_eq!(
        StakingInstruction::Withdraw(0x0102_0304_0506_0708).pack(),
        vec![3, 8, 7, 6, 5, 4, 3, 2, 1]
    );
    assert_eq!(
        StakingInstruction::UpdateEarliestRewardClaimTime(256).pack(),
        vec![5, 0, 1, 0, 0, 0, 0, 0, 0]
    );
    assert_eq!(
        StakingInstruction::ChangeDuration(-1).pack(),
        vec![8, 255, 255, 255, 255, 255, 255, 255, 255]
    );
    assert_eq!(
        StakingInstruction::AddSubRewardPool(1).pack(),
        vec![9, 1, 0, 0, 0, 0, 0, 0, 0]
    );
    let mut expected = vec![6u8];
    expected.extend_from_slice(&(-160i64).to_le_bytes());
    expected.push(1);
    expected.extend_from_slice(&(-320i64).to_le_bytes());
    assert_eq!(StakingInstruction::ChangeRewardSupply(-160, Some(-320)).pack(), expected);
    let mut expected = vec![6u8];
    expected.extend_from_slice(&7i64.to_le_bytes());
    expected.extend_from_slice(&[0u8; 9]);
    assert_eq!(StakingInstruction::ChangeRewardSupply(7, None).pack(), expected);
    let mut expected = vec![7u8];
    expected.extend_from_slice(&[0x33; 32]);
    assert_eq!(StakingInstruction::ChangeOwner(Pubkey([0x33; 32])).pack(), expected);
    let mut expected = vec![10u8];
    expected.extend_from_slice(&[0x44; 32]);
    assert_eq!(StakingInstruction::ChangeAdmin(Pubkey([0x44; 32])).pack(), expected);
    let init = StakingInstruction::InitStakingPool {
        supply: 100,
        sub_supply: Some(200),
        duration: 1000,
        earliest_reward_claim_time: 5,
        bump_seed_staking_program: 250,
        pool_owner_authority: Pubkey([0x11; 32]),
        admin_authority: Pubkey([0x22; 32]),
    };
    let mut expected = vec![0u8];
    expected.extend_from_slice(&100u64.to_le_bytes());
    expected.push(1);
    expected.extend_from_slice(&200u64.to_le_bytes());
    expected.extend_from_slice(&1000u64.to_le_bytes());
    expected.extend_from_slice(&5u64.to_le_bytes());
    expected.push(250);
    expected.extend_from_slice(&[0x11; 32]);
    expected.extend_from_slice(&[0x22; 32]);
    assert_eq!(expected.len(), 99);
    assert_eq!(init.pack(), expected);
}

#[test]
fn malformed_instructions_are_refused() {
    assert_eq!(StakingInstruction::unpack(&[]), Err(UNPACK_ERROR));
    assert_eq!(StakingInstruction::unpack(&[11]), Err(UNPACK_ERROR));
    assert_eq!(StakingInstruction::unpack(&[255]), Err(UNPACK_ERROR));
    assert_eq!(StakingInstruction::unpack(&[2]), Err(UNPACK_ERROR));
    assert_eq!(StakingInstruction::unpack(&[2, 1, 2, 3, 4, 5, 6, 7]), Err(UNPACK_ERROR));
    assert_eq!(StakingInstruction::unpack(&[1, 0]), Err(UNPACK_ERROR));
    assert_eq!(StakingInstruction::unpack(&[7; 32]), Err(UNPACK_ERROR));
    // a flag other than 0 or 1 before an optional argument
    let mut bytes = StakingInstruction::ChangeRewardSupply(1, Some(2)).pack();
    bytes[9] = 2;
    assert_eq!(StakingInstruction::unpack(&bytes), Err(UNPACK_ERROR));
    // an absent argument is absent whatever follows the flag
    bytes[9] = 0;
    assert_eq!(
        StakingInstruction::unpack(&bytes),
        Ok(StakingInstruction::ChangeRewardSupply(1, None))
    );
    let mut bytes = all_kinds()[0].pack();
    bytes[9] = 7;
    assert_eq!(StakingInstruction::unpack(&bytes), Err(UNPACK_ERROR));
}

#[test]
fn builders_name_the_accounts_in_order() {
    let program = Pubkey([1; 32]);
    let a = Pubkey([2; 32]);
    let b = Pubkey([3; 32]);
    let c = Pubkey([4; 32]);
    let ix = instruction::change_owner(program, a, b, c);
    assert_eq!(ix.program_id, program);
    assert_eq!(
        ix.accounts,
        vec![AccountMeta::new_readonly(b, true), AccountMeta::new(c, false)]
    );
    assert_eq!(ix.data, StakingInstruction::ChangeOwner(a).pack());
    let ix = instruction::change_admin(program, a, b, c);
    assert_eq!(
        ix.accounts,
        vec![AccountMeta::new_readonly(b, true), AccountMeta::new(c, false)]
    );
    assert_eq!(ix.data, StakingInstruction::ChangeAdmin(a).pack());
    let ix = instruction::create_stake_account(program, a, b, c);
    assert_eq!(
        ix.accounts,
        vec![
            AccountMeta::new(a, false),
            AccountMeta::new_readonly(b, false),
            AccountMeta::new_readonly(c, false),
            AccountMeta::new_readonly(rent_id(), false),
        ]
    );
    assert_eq!(ix.data, vec![1]);
    let ix = instruction::deposit(program, 5, a, b, c);
    assert_eq!(
        ix.accounts,
        vec![
            AccountMeta::new_readonly(a, true),
            AccountMeta::new(b, false),
            AccountMeta::new(c, false),
            AccountMeta::new_readonly(clock_id(), false),
        ]
    );
    assert_eq!(ix.data, StakingInstruction::Deposit(5).pack());
    let ix = instruction::withdraw(program, 6, a, b, c);
    assert_eq!(ix.accounts.len(), 4);
    assert_eq!(ix.data, StakingInstruction::Withdraw(6).pack());
    let ix = instruction::update_earliest_reward_claim_time(program, 9, a, b);
    assert_eq!(
        ix.accounts,
        vec![AccountMeta::new_readonly(a, true), AccountMeta::new(b, false)]
    );
    assert_eq!(ix.data, StakingInstruction::UpdateEarliestRewardClaimTime(9).pack());
    let ix = instruction::change_duration(program, -3, a, b);
    assert_eq!(
        ix.accounts,
        vec![
            AccountMeta::new_readonly(a, true),
            AccountMeta::new(b, false),
            AccountMeta::new_readonly(clock_id(), false),
        ]
    );
    assert_eq!(ix.data, StakingInstruction::ChangeDuration(-3).pack());
}

#[test]
fn builders_use_the_address_the_host_derives() {
    let program = port_finance_staking::pubkey::staking_program_id();
    let pool = Pubkey([9; 32]);
    let (derived, bump) = solana_program::pubkey::Pubkey::find_program_address(
        &[&pool.0],
        &solana_program::pubkey::Pubkey::new_from_array(program.0),
    );
    let derived = Pubkey(derived.to_bytes());
    assert_ne!(derived, pool);
    let k = |n: u8| Pubkey([n; 32]);
    let ix = instruction::init_staking_pool(
        program, 100, None, 1000, 3, k(1), k(2), k(3), None, None, pool, k(4), None, k(5), k(6),
    )
    .unwrap();
    let dummy = instruction::dummy_id();
    assert_eq!(
        ix.accounts,
        vec![
            AccountMeta::new_readonly(k(1), true),
            AccountMeta::new(k(2), false),
            AccountMeta::new(k(3), false),
            AccountMeta::new(dummy, false),
            AccountMeta::new(dummy, false),
            AccountMeta::new(pool, false),
            AccountMeta::new_readonly(k(4), false),
            AccountMeta::new_readonly(dummy, false),
            AccountMeta::new_readonly(derived, false),
            AccountMeta::new_readonly(rent_id(), false),
            AccountMeta::new_readonly(token_program_id(), false),
        ]
    );
    assert_eq!(
        StakingInstruction::unpack(&ix.data),
        Ok(StakingInstruction::InitStakingPool {
            supply: 100,
            sub_supply: None,
            duration: 1000,
            earliest_reward_claim_time: 3,
            bump_seed_staking_program: bump,
            pool_owner_authority: k(5),
            admin_authority: k(6),
        })
    );
    let ix = instruction::claim_reward(program, k(1), k(2), pool, k(3), Some(k(4)), k(5), Some(k(6)))
        .unwrap();
    assert_eq!(
        ix.accounts,
        vec![
            AccountMeta::new_readonly(k(1), true),
            AccountMeta::new(k(2), false),
            AccountMeta::new(pool, false),
            AccountMeta::new(k(3), false),
            AccountMeta::new(k(5), false),
            AccountMeta::new_readonly(derived, false),
            AccountMeta::new_readonly(clock_id(), false),
            AccountMeta::new_readonly(token_program_id(), false),
            AccountMeta::new(k(4), false),
            AccountMeta::new(k(6), false),
        ]
    );
    // the secondary accounts follow only where both are given
    let ix = instruction::claim_reward(program, k(1), k(2), pool, k(3), Some(k(4)), k(5), None)
        .unwrap();
    assert_eq!(ix.accounts.len(), 8);
    let ix = instruction::change_reward_supply(
        program, -5, Some(6), k(1), k(2), k(3), pool, k(4), Some(k(5)), Some(k(6)), Some(k(7)),
    )
    .unwrap();
    assert_eq!(
        ix.accounts,
        vec![
            AccountMeta::new_readonly(k(1), true),
            AccountMeta::new(pool, false),
            AccountMeta::new(k(2), false),
            AccountMeta::new(k(4), false),
            AccountMeta::new(k(5), false),
            AccountMeta::new(k(7), false),
            AccountMeta::new_readonly(derived, false),
            AccountMeta::new_readonly(k(3), false),
            AccountMeta::new_readonly(k(6), false),
            AccountMeta::new_readonly(token_program_id(), false),
            AccountMeta::new_readonly(clock_id(), false),
        ]
    );
    assert_eq!(ix.data, StakingInstruction::ChangeRewardSupply(-5, Some(6)).pack());
    let ix = instruction::add_sub_reward_pool(program, 7, k(1), k(2), k(3), k(4), pool, k(5)).unwrap();
    assert_eq!(
        ix.accounts,
        vec![
            AccountMeta::new_readonly(k(2), true),
            AccountMeta::new_readonly(k(1), true),
            AccountMeta::new(pool, false),
            AccountMeta::new(k(3), false),
            AccountMeta::new(k(5), false),
            AccountMeta::new_readonly(k(4), false),
            AccountMeta::new_readonly(derived, false),
            AccountMeta::new_readonly(token_program_id(), false),
            AccountMeta::new_readonly(rent_id(), false),
            AccountMeta::new_readonly(clock_id(), false),
        ]
    );
    assert_eq!(ix.data, StakingInstruction::AddSubRewardPool(7).pack());
}
