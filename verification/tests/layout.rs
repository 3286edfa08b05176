use port_finance_staking::codec::{from_le, get_array, get_le, i64_bits, i64_from_bits, put_array, put_le, to_le, write_front};
use port_finance_staking::error::{ProgramError, StakingError};
use port_finance_staking::math::decimal::{Decimal, WAD};
use port_finance_staking::math::uint192::U192;
use port_finance_staking::pubkey::Pubkey;
use port_finance_staking::state::options::{
    pack_option_decimal, pack_option_key, unpack_option_decimal, unpack_option_key,
};
use port_finance_staking::state::stake_account::{Reward, StakeAccount};
use port_finance_staking::state::staking_pool::{CumulativeRate, RatePerSlot, StakingPool};

fn sample_pool() -> StakingPool {
    StakingPool {
        version: 1,
        owner_authority: Pubkey([0x11; 32]),
        admin_authority: Pubkey([0x22; 32]),
        reward_token_pool: Pubkey([0x33; 32]),
        last_update: 0x0102_0304_0506_0708,
        end_time: 1010,
        duration: 1000,
        earliest_reward_claim_time: 7,
        rate_per_slot: RatePerSlot {
            reward: Decimal::from_percent(10),
            sub_reward: Some(Decimal::from_percent(20)),
        },
        cumulative_rate: CumulativeRate {
            reward: Decimal::from_u64(3),
            sub_reward: Some(Decimal::zero()),
        },
        pool_size: 15,
        bump_seed_staking_program: 254,
        sub_reward_token_pool: Some(Pubkey([0x44; 32])),
        reserve_fields3: [0; 32],
        reserve_fields4: [0; 29],
    }
}

fn sample_account() -> StakeAccount {
    StakeAccount {
        version: 1,
        start_rate: CumulativeRate { reward: Decimal::from_u64(3), sub_reward: None },
        owner: Pubkey([0x55; 32]),
        pool_pubkey: Pubkey([0x66; 32]),
        deposited_amount: 0x0a0b_0c0d,
        unclaimed_reward_wads: Reward {
            reward: Decimal::from_percent(50),
            sub_reward: Some(Decimal::from_percent(25)),
        },
        reserve_fields2: [0; 32],
        reserve_fields3: [0; 32],
        reserve_fields4: [0; 30],
    }
}

#[test]
fn little_endian_helpers() {
    let mut buf = vec![9u8];
    put_le(&mut buf, 0x0102_0304, 4);
    put_array(&mut buf, &[7u8, 8]);
    assert_eq!(buf, vec![9, 4, 3, 2, 1, 7, 8]);
    assert_eq!(get_le(&buf, 1, 4), 0x0102_0304);
    assert_eq!(get_le(&buf, 0, 0), 0);
    assert_eq!(get_array::<2>(&buf, 5), [7, 8]);
    assert_eq!(to_le::<8>(u64::MAX as u128 - 1), (u64::MAX - 1).to_le_bytes());
    assert_eq!(to_le::<3>(0x0102_0304), [4, 3, 2]);
    assert_eq!(from_le::<16>(&u128::MAX.to_le_bytes()), u128::MAX);
    assert_eq!(from_le::<8>(&12345u64.to_le_bytes()), 12345);
    let mut dst = [1u8, 2, 3, 4, 5];
    write_front(&mut dst, &vec![9, 8]);
    assert_eq!(dst, [9, 8, 3, 4, 5]);
    for x in [0i64, 1, -1, i64::MAX, i64::MIN, -123456789] {
        assert_eq!(i64_bits(x).to_le_bytes(), x.to_le_bytes());
        assert_eq!(i64_from_bits(i64_bits(x)), x);
    }
}

#[test]
fn optional_fields_have_a_flag_and_a_fixed_region() {
    let mut key = [0xaau8; 33];
    pack_option_key(&Some(Pubkey([7u8; 32])), &mut key);
    assert_eq!(key[0], 1);
    assert_eq!(&key[1..], &[7u8; 32]);
    assert_eq!(unpack_option_key(&key), Ok(Some(Pubkey([7u8; 32]))));
    pack_option_key(&None, &mut key);
    assert_eq!(key, [0u8; 33]);
    assert_eq!(unpack_option_key(&key), Ok(None));
    key[0] = 2;
    assert_eq!(unpack_option_key(&key), Err(ProgramError::InvalidAccountData));
    // an absent value is absent whatever the region holds
    let mut stale = [9u8; 33];
    stale[0] = 0;
    assert_eq!(unpack_option_key(&stale), Ok(None));

    let mut number = [0xaau8; 17];
    pack_option_decimal(&Some(Decimal::one()), &mut number);
    assert_eq!(number[0], 1);
    assert_eq!(&number[1..], &(WAD as u128).to_le_bytes());
    assert_eq!(unpack_option_decimal(&number), Ok(Some(Decimal::one())));
    pack_option_decimal(&None, &mut number);
    assert_eq!(number, [0u8; 17]);
    assert_eq!(unpack_option_decimal(&number), Ok(None));
    number[0] = 255;
    assert_eq!(unpack_option_decimal(&number), Err(ProgramError::InvalidAccountData));
}

#[test]
fn staking_pool_layout_is_bit_exact() {
    assert_eq!(StakingPool::LEN, 298);
    assert_eq!(StakingPool::get_packed_len(), 298);
    let pool = sample_pool();
    let mut data = vec![0xeeu8; 298];
    StakingPool::pack(pool, &mut data).unwrap();
    assert_eq!(data[0], 1);
    assert_eq!(&data[1..33], &[0x11u8; 32]);
    assert_eq!(&data[33..65], &[0x22u8; 32]);
    assert_eq!(&data[65..97], &[0x33u8; 32]);
    assert_eq!(&data[97..105], &[8, 7, 6, 5, 4, 3, 2, 1]);
    assert_eq!(&data[105..113], &1010u64.to_le_bytes());
    assert_eq!(&data[113..121], &1000u64.to_le_bytes());
    assert_eq!(&data[121..129], &7u64.to_le_bytes());
    assert_eq!(&data[129..145], &(WAD as u128 / 10).to_le_bytes());
    assert_eq!(&data[145..161], &(3 * WAD as u128).to_le_bytes());
    assert_eq!(&data[161..169], &15u64.to_le_bytes());
    assert_eq!(data[169], 254);
    assert_eq!(data[170], 1);
    assert_eq!(&data[171..203], &[0x44u8; 32]);
    assert_eq!(data[203], 1);
    assert_eq!(&data[204..220], &(WAD as u128 / 5).to_le_bytes());
    assert_eq!(data[220], 1);
    assert_eq!(&data[221..237], &[0u8; 16]);
    // the reserved bytes are left as they were
    assert_eq!(&data[237..], &[0xeeu8; 61]);
    assert_eq!(StakingPool::unpack(&data), Ok(pool));
    assert_eq!(StakingPool::unpack_from_slice(&data), Ok(pool));
}

#[test]
fn staking_pool_round_trip_without_secondary_reward() {
    let mut pool = sample_pool();
    pool.sub_reward_token_pool = None;
    pool.rate_per_slot.sub_reward = None;
    pool.cumulative_rate.sub_reward = None;
    let mut data = vec![0xeeu8; 298];
    pool.pack_into_slice(&mut data);
    assert_eq!(&data[170..237], &[0u8; 67]);
    assert_eq!(StakingPool::unpack(&data), Ok(pool));
}

#[test]
fn staking_pool_unpack_rejects_bad_data() {
    let pool = sample_pool();
    let mut data = vec![0u8; 298];
    StakingPool::pack(pool, &mut data).unwrap();
    assert_eq!(StakingPool::unpack(&data[..297]), Err(ProgramError::InvalidAccountData));
    let mut longer = data.clone();
    longer.push(0);
    assert_eq!(StakingPool::unpack(&longer), Err(ProgramError::InvalidAccountData));
    assert_eq!(StakingPool::unpack_from_slice(&longer), Ok(pool));
    for (at, value) in [(0usize, 2u8), (170, 2), (203, 3), (220, 255)] {
        let mut bad = data.clone();
        bad[at] = value;
        assert_eq!(StakingPool::unpack(&bad), Err(ProgramError::InvalidAccountData));
    }
    let zero = vec![0u8; 298];
    assert_eq!(StakingPool::unpack(&zero), Err(ProgramError::UninitializedAccount));
    assert_eq!(StakingPool::unpack_unchecked(&zero), Ok(StakingPool::default()));
}

#[test]
fn staking_pool_pack_refuses_what_does_not_fit() {
    let mut pool = sample_pool();
    let mut short = vec![0u8; 297];
    assert_eq!(StakingPool::pack(pool, &mut short), Err(ProgramError::InvalidAccountData));
    pool.cumulative_rate.reward = Decimal(U192 { hi: 1, mid: 0, lo: 0 });
    assert!(!pool.is_packable());
    let mut data = vec![5u8; 298];
    assert_eq!(
        StakingPool::pack(pool, &mut data),
        Err(ProgramError::Staking(StakingError::MathOverflow))
    );
    assert_eq!(data, vec![5u8; 298]);
}

#[test]
fn stake_account_layout_is_bit_exact() {
    assert_eq!(StakeAccount::LEN, 233);
    assert_eq!(StakeAccount::get_packed_len(), 233);
    let account = sample_account();
    let mut data = vec![0xeeu8; 233];
    StakeAccount::pack(account, &mut data).unwrap();
    assert_eq!(data[0], 1);
    assert_eq!(&data[1..17], &(3 * WAD as u128).to_le_bytes());
    assert_eq!(&data[17..49], &[0x55u8; 32]);
    assert_eq!(&data[49..81], &[0x66u8; 32]);
    assert_eq!(&data[81..89], &0x0a0b_0c0du64.to_le_bytes());
    assert_eq!(&data[89..105], &(WAD as u128 / 2).to_le_bytes());
    assert_eq!(&data[105..122], &[0u8; 17]);
    assert_eq!(data[122], 1);
    assert_eq!(&data[123..139], &(WAD as u128 / 4).to_le_bytes());
    assert_eq!(&data[139..], &[0xeeu8; 94]);
    assert_eq!(StakeAccount::unpack(&data), Ok(account));
}

#[test]
fn stake_account_unpack_rejects_bad_data() {
    let account = sample_account();
    let mut data = vec![0u8; 233];
    StakeAccount::pack(account, &mut data).unwrap();
    assert_eq!(StakeAccount::unpack(&data[..232]), Err(ProgramError::InvalidAccountData));
    for (at, value) in [(0usize, 2u8), (105, 2), (122, 7)] {
        let mut bad = data.clone();
        bad[at] = value;
        assert_eq!(StakeAccount::unpack(&bad), Err(ProgramError::InvalidAccountData));
    }
    let zero = vec![0u8; 233];
    assert_eq!(StakeAccount::unpack(&zero), Err(ProgramError::UninitializedAccount));
    assert_eq!(StakeAccount::unpack_unchecked(&zero), Ok(StakeAccount::default()));
    let mut wide = account;
    wide.unclaimed_reward_wads.reward = Decimal::from_u128(u128::MAX);
    let mut kept = vec![3u8; 233];
    assert_eq!(
        StakeAccount::pack(wide, &mut kept),
        Err(ProgramError::Staking(StakingError::MathOverflow))
    );
    assert_eq!(kept, vec![3u8; 233]);
}
