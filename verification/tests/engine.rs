use port_finance_staking::error::{ProgramError, StakingError};
use port_finance_staking::math::decimal::{Decimal, WAD};
use port_finance_staking::math::uint192::U192;
use port_finance_staking::pubkey::Pubkey;
use port_finance_staking::state::settlement::{settle_claim, settle_deposit, settle_withdraw};
use port_finance_staking::state::stake_account::{Reward, StakeAccount, PROGRAM_VERSION};
use port_finance_staking::state::staking_pool::{CumulativeRate, RatePerSlot, StakingPool};

fn staking(e: StakingError) -> ProgramError {
    ProgramError::Staking(e)
}

fn new_pool(supply: u64, sub_supply: Option<u64>, duration: u64, earliest: u64) -> StakingPool {
    let mut pool = StakingPool::default();
    pool.init(
        Pubkey([1u8; 32]),
        Pubkey([2u8; 32]),
        Pubkey([3u8; 32]),
        sub_supply.map(|_| Pubkey([4u8; 32])),
        duration,
        supply,
        sub_supply,
        earliest,
        255,
    )
    .unwrap();
    pool
}

fn new_account() -> StakeAccount {
    let mut account = StakeAccount::default();
    account.init(Pubkey([9u8; 32]), Pubkey([8u8; 32])).unwrap();
    account
}

fn scaled(v: u128) -> Decimal {
    Decimal::from_scaled_val(v)
}

#[test]
fn single_depositor_claims_a_tenth_after_a_tenth_of_the_time() {
    let mut pool = new_pool(100, None, 1000, 0);
    let mut account = new_account();
    settle_deposit(&mut pool, &mut account, 10, 10).unwrap();
    assert_eq!(pool.end_time, 1010);
    assert_eq!(pool.last_update, 10);
    assert_eq!(pool.pool_size, 10);
    assert_eq!(account.deposited_amount, 10);
    let paid = settle_claim(&mut pool, &mut account, 110).unwrap();
    assert_eq!(paid, (10, None));
    assert_eq!(account.unclaimed_reward_wads.reward, Decimal::zero());
    assert_eq!(pool.cumulative_rate.reward, Decimal::from_u64(1));
    assert_eq!(account.start_rate, pool.cumulative_rate);
}

#[test]
fn depositing_zero_fails_and_changes_nothing() {
    let mut pool = new_pool(100, None, 1000, 0);
    let mut account = new_account();
    let pool_before = pool;
    let account_before = account;
    let r = settle_deposit(&mut pool, &mut account, 10, 0);
    assert_eq!(r, Err(staking(StakingError::StakeDepositsZero)));
    assert_eq!(pool, pool_before);
    assert_eq!(account, account_before);
    assert_eq!(pool.deposit(10, 0), Err(staking(StakingError::StakeDepositsZero)));
    assert_eq!(
        account.deposit(CumulativeRate::default(), 0),
        Err(staking(StakingError::StakeDepositsZero))
    );
}

#[test]
fn withdrawing_zero_or_too_much_fails_and_changes_nothing() {
    let mut pool = new_pool(100, None, 1000, 0);
    let mut account = new_account();
    settle_deposit(&mut pool, &mut account, 10, 10).unwrap();
    let pool_before = pool;
    let account_before = account;
    assert_eq!(
        settle_withdraw(&mut pool, &mut account, 15, 0),
        Err(staking(StakingError::StakeWithdrawsZero))
    );
    assert_eq!(
        settle_withdraw(&mut pool, &mut account, 15, 11),
        Err(staking(StakingError::InvalidWithdrawAmountError))
    );
    // the pool has enough, the record has not
    let mut other = new_account();
    assert_eq!(
        settle_withdraw(&mut pool, &mut other, 15, 1),
        Err(staking(StakingError::InvalidWithdrawAmountError))
    );
    assert_eq!(pool, pool_before);
    assert_eq!(account, account_before);
    settle_withdraw(&mut pool, &mut account, 15, 10).unwrap();
    assert_eq!(pool.pool_size, 0);
    assert_eq!(account.deposited_amount, 0);
    // five ticks at 0.1 per tick, all to the one depositor
    assert_eq!(account.unclaimed_reward_wads.reward, Decimal::from_percent(50));
}

#[test]
fn init_requires_supply_and_duration() {
    let mut pool = StakingPool::default();
    let before = pool;
    let k = Pubkey([1u8; 32]);
    assert_eq!(
        pool.init(k, k, k, None, 1000, 0, None, 0, 1),
        Err(staking(StakingError::InvalidSupplyError))
    );
    assert_eq!(
        pool.init(k, k, k, None, 0, 100, None, 0, 1),
        Err(staking(StakingError::InvalidDurationError))
    );
    assert_eq!(
        pool.init(k, k, k, None, 0, 0, None, 0, 1),
        Err(staking(StakingError::InvalidSupplyError))
    );
    assert_eq!(pool, before);
    assert!(!pool.is_initialized());
    pool.init(k, k, k, Some(Pubkey([5u8; 32])), 1000, 100, Some(200), 7, 9).unwrap();
    assert!(pool.is_initialized());
    assert_eq!(pool.version, PROGRAM_VERSION);
    assert_eq!(
        pool.rate_per_slot,
        RatePerSlot {
            reward: Decimal::from_percent(10),
            sub_reward: Some(Decimal::from_percent(20))
        }
    );
    assert_eq!(pool.cumulative_rate.sub_reward, Some(Decimal::zero()));
    assert_eq!(pool.earliest_reward_claim_time, 7);
    assert_eq!(pool.bump_seed_staking_program, 9);
    assert_eq!(pool.end_time, 0);
}

#[test]
fn rate_per_slot_operations() {
    assert_eq!(
        RatePerSlot::init(100, Some(200), 1000),
        Ok(RatePerSlot {
            reward: Decimal::from_percent(10),
            sub_reward: Some(Decimal::from_percent(20))
        })
    );
    assert_eq!(
        RatePerSlot::init(100, None, 0),
        Err(staking(StakingError::MathOverflow))
    );
    let rate = RatePerSlot {
        reward: scaled(2 * WAD as u128 + 5),
        sub_reward: Some(scaled(3 * WAD as u128 + 7)),
    };
    assert_eq!(rate.try_floor_u64(), Ok((2, Some(3))));
    assert_eq!(
        rate.try_mul(3),
        Ok(RatePerSlot {
            reward: scaled(6 * WAD as u128 + 15),
            sub_reward: Some(scaled(9 * WAD as u128 + 21)),
        })
    );
    assert_eq!(
        rate.try_div(2),
        Ok(RatePerSlot {
            reward: scaled(WAD as u128 + 2),
            sub_reward: Some(scaled(WAD as u128 + WAD as u128 / 2 + 3)),
        })
    );
    assert_eq!(rate.try_div(0), Err(staking(StakingError::MathOverflow)));
    let mut cleared = rate;
    cleared.clear();
    assert_eq!(
        cleared,
        RatePerSlot { reward: Decimal::zero(), sub_reward: Some(Decimal::zero()) }
    );
    let mut single = RatePerSlot { reward: Decimal::one(), sub_reward: None };
    single.clear();
    assert_eq!(single, RatePerSlot::default());
    // the secondary stream is scaled up before it is divided, and that can fail
    let wide = RatePerSlot {
        reward: Decimal::one(),
        sub_reward: Some(Decimal(U192 { hi: 1 << 62, mid: 0, lo: 0 })),
    };
    assert_eq!(wide.try_div(2), Err(staking(StakingError::MathOverflow)));
    assert_eq!(wide.try_mul(1), Err(staking(StakingError::MathOverflow)));
}

#[test]
fn accumulate_rate_shares_emission_among_the_staked() {
    let index = CumulativeRate { reward: Decimal::from_u64(1), sub_reward: Some(Decimal::zero()) };
    let rate = RatePerSlot {
        reward: Decimal::from_percent(10),
        sub_reward: Some(Decimal::from_percent(20)),
    };
    assert_eq!(
        index.accumulate_rate(&rate, 100, 10),
        Ok(CumulativeRate {
            reward: Decimal::from_u64(2),
            sub_reward: Some(Decimal::from_u64(2)),
        })
    );
    // nothing staked: the index stays
    assert_eq!(index.accumulate_rate(&rate, 100, 0), Ok(index));
    // no time: the index stays
    assert_eq!(index.accumulate_rate(&rate, 0, 10), Ok(index));
    // rounding down: 0.1 * 1 / 3
    assert_eq!(
        index.accumulate_rate(&rate, 1, 3).unwrap().reward,
        scaled(WAD as u128 + 33_333_333_333_333_333)
    );
    // a density without a secondary stream ends the secondary index
    let plain = RatePerSlot { reward: Decimal::from_percent(10), sub_reward: None };
    assert_eq!(index.accumulate_rate(&plain, 100, 10).unwrap().sub_reward, None);
}

#[test]
fn index_never_falls_over_a_series_of_settlements() {
    let mut pool = new_pool(1_000_003, Some(77), 997, 0);
    let mut account = new_account();
    settle_deposit(&mut pool, &mut account, 5, 13).unwrap();
    let mut last = pool.cumulative_rate;
    for now in [5u64, 6, 6, 40, 41, 500, 1001, 1002, 5000] {
        let index = pool.claim_reward(now).unwrap();
        assert!(index.reward >= last.reward);
        assert!(index.sub_reward.unwrap() >= last.sub_reward.unwrap());
        assert_eq!(index, pool.cumulative_rate);
        last = index;
    }
    // past the end nothing accrues
    assert_eq!(pool.last_update, pool.end_time);
    let end = pool.cumulative_rate;
    pool.claim_reward(9999).unwrap();
    assert_eq!(pool.cumulative_rate, end);
}

#[test]
fn clock_regression_is_an_error() {
    let mut pool = new_pool(100, None, 1000, 0);
    let mut account = new_account();
    settle_deposit(&mut pool, &mut account, 10, 10).unwrap();
    pool.claim_reward(50).unwrap();
    let before = pool;
    assert_eq!(pool.claim_reward(49), Err(staking(StakingError::InvalidCurrentTimeError)));
    assert_eq!(
        pool.withdraw(49, 1),
        Err(staking(StakingError::InvalidCurrentTimeError))
    );
    assert_eq!(pool, before);
}

#[test]
fn depositors_are_credited_what_was_emitted() {
    // three depositors, 7 + 11 + 13 = 31 staked, all from tick 0
    let mut pool = new_pool(1000, Some(333), 100, 0);
    let stakes = [7u64, 11, 13];
    let mut accounts = [new_account(), new_account(), new_account()];
    for (account, stake) in accounts.iter_mut().zip(stakes.iter()) {
        settle_deposit(&mut pool, account, 0, *stake).unwrap();
    }
    let before = pool.cumulative_rate;
    let index = pool.claim_reward(37).unwrap();
    let mut credited: u128 = 0;
    let mut sub_credited: u128 = 0;
    let mut paid: u128 = 0;
    for account in accounts.iter_mut() {
        let whole = account.claim_reward(index).unwrap();
        let left = account.unclaimed_reward_wads;
        credited += whole.0 as u128 * WAD as u128 + left.reward.to_scaled_val().unwrap();
        sub_credited += whole.1.unwrap() as u128 * WAD as u128
            + left.sub_reward.unwrap().to_scaled_val().unwrap();
        paid += whole.0 as u128;
    }
    let emitted = pool.rate_per_slot.reward.try_mul(37).unwrap().to_scaled_val().unwrap();
    let sub_emitted =
        pool.rate_per_slot.sub_reward.unwrap().try_mul(37).unwrap().to_scaled_val().unwrap();
    assert!(credited <= emitted);
    assert!(emitted < credited + 31);
    assert!(sub_credited <= sub_emitted);
    assert!(sub_emitted < sub_credited + 31);
    // in whole units each depositor loses less than one
    assert!(paid * (WAD as u128) <= emitted);
    assert!(emitted < (paid + 3) * (WAD as u128) + 31);
    assert_eq!(emitted, 370 * WAD as u128);
    assert_eq!(paid, 83 + 131 + 155);
    assert!(before.reward < index.reward);
}

#[test]
fn second_claim_at_the_same_tick_pays_nothing() {
    let mut pool = new_pool(1000, Some(500), 300, 0);
    let mut account = new_account();
    settle_deposit(&mut pool, &mut account, 3, 7).unwrap();
    let first = settle_claim(&mut pool, &mut account, 100).unwrap();
    assert_eq!(first, (323, Some(161)));
    let pool_after = pool;
    let account_after = account;
    let second = settle_claim(&mut pool, &mut account, 100).unwrap();
    assert_eq!(second, (0, Some(0)));
    assert_eq!(pool, pool_after);
    assert_eq!(account, account_after);
}

#[test]
fn fractions_are_carried_from_claim_to_claim() {
    // the index rises by 0.3 per step for a stake of 1: 0.3, 0.6, 0.9, 1.2, ...
    let step = scaled(300_000_000_000_000_000);
    let mut split = new_account();
    split.deposit(CumulativeRate::default(), 1).unwrap();
    let mut single = split;
    let mut index = CumulativeRate::default();
    let mut paid = 0;
    for _ in 0..10 {
        index.reward = index.reward.try_add(step).unwrap();
        paid += split.claim_reward(index).unwrap().0;
    }
    let at_once = single.claim_reward(index).unwrap().0;
    assert_eq!(paid, 3);
    assert_eq!(at_once, 3);
    assert_eq!(split.unclaimed_reward_wads, single.unclaimed_reward_wads);
    assert_eq!(split.unclaimed_reward_wads.reward, Decimal::zero());
}

#[test]
fn settling_on_the_way_can_cost_the_index_a_fraction() {
    // one unit per tick shared by three: 1/3 and 2/3 round down separately
    let mut stepwise = new_pool(1000, None, 1000, 0);
    let mut account = new_account();
    settle_deposit(&mut stepwise, &mut account, 0, 3).unwrap();
    let mut direct = stepwise;
    let mut account_direct = account;
    let a = settle_claim(&mut stepwise, &mut account, 1).unwrap().0;
    let b = settle_claim(&mut stepwise, &mut account, 3).unwrap().0;
    let c = settle_claim(&mut direct, &mut account_direct, 3).unwrap().0;
    assert!(stepwise.cumulative_rate.reward < direct.cumulative_rate.reward);
    assert_eq!(direct.cumulative_rate.reward, Decimal::from_u64(1));
    assert_eq!(stepwise.cumulative_rate.reward, scaled(999_999_999_999_999_999));
    assert_eq!((a, b, c), (0, 2, 3));
}

#[test]
fn schedule_restarts_with_the_first_deposit_into_an_empty_pool() {
    let mut pool = new_pool(100, None, 1000, 0);
    let mut account = new_account();
    settle_deposit(&mut pool, &mut account, 10, 10).unwrap();
    assert_eq!((pool.last_update, pool.end_time), (10, 1010));
    settle_deposit(&mut pool, &mut account, 20, 5).unwrap();
    assert_eq!((pool.last_update, pool.end_time, pool.pool_size), (20, 1010, 15));
    assert_eq!(account.deposited_amount, 15);
    assert_eq!(account.unclaimed_reward_wads.reward, Decimal::from_u64(1));
    // a deposit too late for the clock to hold the end fails
    let mut late = new_pool(100, None, 1000, 0);
    assert_eq!(
        late.deposit(u64::MAX - 999, 1),
        Err(staking(StakingError::MathOverflow))
    );
    assert_eq!(late.deposit(u64::MAX - 1000, 1).map(|_| late.end_time), Ok(u64::MAX));
    // a stake that overflows the total fails
    assert_eq!(pool.deposit(30, u64::MAX), Err(staking(StakingError::MathOverflow)));
}

#[test]
fn extending_an_unstarted_pool_keeps_its_supply() {
    let mut pool = new_pool(100, Some(200), 1000, 0);
    let supply_before = pool.rate_per_slot.try_mul(1000).unwrap();
    pool.extend_duration(1000, 1).unwrap();
    assert_eq!(
        pool.rate_per_slot,
        RatePerSlot {
            reward: Decimal::from_percent(5),
            sub_reward: Some(Decimal::from_percent(10))
        }
    );
    assert_eq!(pool.end_time, 0);
    assert_eq!(pool.duration, 2000);
    assert_eq!(pool.rate_per_slot.try_mul(2000).unwrap(), supply_before);
    // the result does not depend on the tick
    let mut later = new_pool(100, Some(200), 1000, 0);
    later.extend_duration(1000, 999_999).unwrap();
    assert_eq!(later, pool);
    let before = pool;
    assert_eq!(pool.extend_duration(i64::MAX, 1).map(|_| pool.duration), Ok(2000 + i64::MAX as u64));
    let mut full = before;
    full.duration = u64::MAX;
    assert_eq!(full.extend_duration(1, 1), Err(staking(StakingError::MathOverflow)));
    assert_eq!(full.duration, u64::MAX);
    assert_eq!(before.duration, 2000);
}

#[test]
fn shortening_an_unstarted_pool_keeps_its_supply() {
    let mut pool = new_pool(100, None, 1000, 0);
    assert_eq!(pool.extend_duration(-500, 1), Ok(()));
    assert_eq!(pool.duration, 500);
    assert_eq!(pool.rate_per_slot.reward, Decimal::from_percent(20));
    assert_eq!(pool.rate_per_slot.sub_reward, None);
    assert_eq!(pool.end_time, 0);
    assert_eq!(pool.last_update, 0);
    assert_eq!(pool.rate_per_slot.try_mul(500).unwrap().reward, Decimal::from_u64(100));
    // both streams are spread anew
    let mut dual = new_pool(100, Some(200), 1000, 0);
    dual.extend_duration(-999, 1).unwrap();
    assert_eq!(dual.duration, 1);
    assert_eq!(
        dual.rate_per_slot,
        RatePerSlot {
            reward: Decimal::from_u64(100),
            sub_reward: Some(Decimal::from_u64(200))
        }
    );
    // a duration of zero, or below it, is refused and nothing changes
    let before = pool;
    assert_eq!(pool.extend_duration(-500, 1), Err(staking(StakingError::MathOverflow)));
    assert_eq!(pool.extend_duration(-501, 1), Err(staking(StakingError::MathOverflow)));
    assert_eq!(pool.extend_duration(i64::MIN, 1), Err(staking(StakingError::MathOverflow)));
    assert_eq!(pool, before);
    // no change is no change
    pool.extend_duration(0, 1).unwrap();
    assert_eq!(pool, before);
}

#[test]
fn changing_the_duration_of_a_running_pool() {
    let mut pool = new_pool(100, Some(200), 1000, 0);
    let mut account = new_account();
    settle_deposit(&mut pool, &mut account, 1, 10).unwrap();
    let mut longer = pool;
    longer.extend_duration(1000, 1).unwrap();
    assert_eq!(
        longer.rate_per_slot,
        RatePerSlot {
            reward: Decimal::from_percent(5),
            sub_reward: Some(Decimal::from_percent(10))
        }
    );
    assert_eq!((longer.end_time, longer.duration), (2001, 2000));
    let mut shorter = pool;
    shorter.extend_duration(-500, 1).unwrap();
    assert_eq!(shorter.rate_per_slot.reward, Decimal::from_percent(20));
    assert_eq!((shorter.end_time, shorter.duration), (501, 500));
    // the end cannot move to the present or before it
    let mut gone = pool;
    assert_eq!(gone.extend_duration(-1000, 1), Err(staking(StakingError::InvalidArgumentError)));
    assert_eq!(gone.extend_duration(-5000, 1), Err(staking(StakingError::InvalidArgumentError)));
    assert_eq!(gone.extend_duration(i64::MIN, 1), Err(staking(StakingError::InvalidArgumentError)));
    assert_eq!(gone, pool);
    gone.extend_duration(-999, 1).unwrap();
    assert_eq!((gone.end_time, gone.duration), (2, 1));
    assert_eq!(gone.rate_per_slot.reward, Decimal::from_u64(100));
}

#[test]
fn an_ended_pool_can_only_be_extended() {
    let mut pool = new_pool(100, Some(200), 1000, 0);
    let mut account = new_account();
    settle_deposit(&mut pool, &mut account, 10, 10).unwrap();
    let before = pool;
    for now in [1010u64, 1500] {
        let mut ended = before;
        assert_eq!(ended.extend_duration(0, now), Err(staking(StakingError::InvalidArgumentError)));
        assert_eq!(ended.extend_duration(-1, now), Err(staking(StakingError::InvalidArgumentError)));
        assert_eq!(ended, before);
        ended.extend_duration(1000, now).unwrap();
        assert_eq!((ended.end_time, ended.duration), (2010, 2000));
        assert_eq!(
            ended.rate_per_slot,
            RatePerSlot { reward: Decimal::zero(), sub_reward: Some(Decimal::zero()) }
        );
        assert_eq!(ended.last_update, 1010);
        assert_eq!(ended.cumulative_rate.reward, Decimal::from_u64(10));
    }
}

#[test]
fn changing_the_reward_supply() {
    let mut pool = new_pool(100, Some(200), 1000, 0);
    let mut account = new_account();
    settle_deposit(&mut pool, &mut account, 10, 10).unwrap();
    // at tick 810 there are 200 ticks and 20 units left to emit
    let mut more = pool;
    more.update_reward_supply(80, Some(160), 810).unwrap();
    assert_eq!(
        more.rate_per_slot,
        RatePerSlot {
            reward: Decimal::from_percent(50),
            sub_reward: Some(Decimal::from_percent(100))
        }
    );
    assert_eq!(more.last_update, 810);
    let mut less = pool;
    less.update_reward_supply(-10, Some(-20), 810).unwrap();
    assert_eq!(
        less.rate_per_slot,
        RatePerSlot {
            reward: Decimal::from_percent(5),
            sub_reward: Some(Decimal::from_percent(10))
        }
    );
    // taking out exactly what is left stops the emission
    let mut none = pool;
    none.update_reward_supply(-20, None, 810).unwrap();
    assert_eq!(none.rate_per_slot.reward, Decimal::zero());
    assert_eq!(none.rate_per_slot.sub_reward, Some(Decimal::from_percent(20)));
    // taking out more fails
    let mut over = pool;
    assert_eq!(
        over.update_reward_supply(-21, None, 810),
        Err(staking(StakingError::ReduceRewardTooMuch))
    );
    assert_eq!(
        over.update_reward_supply(1, Some(-41), 810),
        Err(staking(StakingError::ReduceRewardTooMuch))
    );
    // after the end, or at it, nothing can be spread
    assert_eq!(
        over.update_reward_supply(1, None, 1011),
        Err(staking(StakingError::InvalidArgumentError))
    );
    assert_eq!(
        over.update_reward_supply(1, None, 1010),
        Err(staking(StakingError::MathOverflow))
    );
    assert_eq!(over, pool);
    // a secondary change needs a secondary stream
    let mut plain = new_pool(100, None, 1000, 0);
    settle_deposit(&mut plain, &mut new_account(), 10, 10).unwrap();
    let before = plain;
    for sub in [-5i64, 0, 5] {
        assert_eq!(
            plain.update_reward_supply(100, Some(sub), 510),
            Err(staking(StakingError::InvalidArgumentError))
        );
    }
    assert_eq!(plain, before);
    plain.update_reward_supply(100, None, 510).unwrap();
    assert_eq!(
        plain.rate_per_slot,
        RatePerSlot { reward: Decimal::from_percent(30), sub_reward: None }
    );
    // each stream follows its own change
    let mut mixed = pool;
    mixed.update_reward_supply(80, Some(-20), 810).unwrap();
    assert_eq!(
        mixed.rate_per_slot,
        RatePerSlot {
            reward: Decimal::from_percent(50),
            sub_reward: Some(Decimal::from_percent(10))
        }
    );
}

#[test]
fn removing_more_supply_than_remains_is_refused() {
    // 200 units over 1000 ticks; after 300 ticks 140 remain
    let mut pool = new_pool(200, None, 1000, 0);
    settle_deposit(&mut pool, &mut new_account(), 0, 10).unwrap();
    let before = pool;
    assert_eq!(
        pool.update_reward_supply(-160, None, 300),
        Err(staking(StakingError::ReduceRewardTooMuch))
    );
    assert_eq!(pool, before);
    pool.update_reward_supply(-140, None, 300).unwrap();
    assert_eq!(pool.rate_per_slot.reward, Decimal::zero());
}

#[test]
fn adding_the_secondary_reward_once() {
    let mut pool = new_pool(100, None, 1000, 0);
    let mut account = new_account();
    settle_deposit(&mut pool, &mut account, 10, 10).unwrap();
    assert_eq!(settle_claim(&mut pool, &mut account, 110), Ok((10, None)));
    let vault = Pubkey([77u8; 32]);
    pool.add_sub_reward(200, 110, vault).unwrap();
    assert_eq!(pool.sub_reward_token_pool, Some(vault));
    assert_eq!(pool.cumulative_rate.sub_reward, Some(Decimal::zero()));
    assert_eq!(
        pool.rate_per_slot.sub_reward,
        Some(Decimal::from_u64(200).try_div(900).unwrap())
    );
    let before = pool;
    assert_eq!(
        pool.add_sub_reward(1, 111, vault),
        Err(staking(StakingError::AlreadyHasSubReward))
    );
    assert_eq!(pool, before);
    // a depositor from before the activation earns the secondary reward from zero
    assert_eq!(account.start_rate.sub_reward, None);
    assert_eq!(settle_claim(&mut pool, &mut account, 210), Ok((10, Some(22))));
    assert_eq!(account.start_rate.sub_reward, pool.cumulative_rate.sub_reward);
    // at the end, or after it, no secondary reward can be added
    let mut ended = new_pool(100, None, 1000, 0);
    settle_deposit(&mut ended, &mut new_account(), 10, 10).unwrap();
    assert_eq!(
        ended.add_sub_reward(1, 1011, vault),
        Err(staking(StakingError::InvalidArgumentError))
    );
    assert_eq!(ended.add_sub_reward(1, 1010, vault), Err(staking(StakingError::MathOverflow)));
}

#[test]
fn a_lower_index_is_an_invalid_current_rate() {
    let mut account = new_account();
    let high = CumulativeRate { reward: Decimal::from_u64(2), sub_reward: None };
    let low = CumulativeRate { reward: Decimal::from_u64(1), sub_reward: None };
    account.deposit(high, 5).unwrap();
    let before = account;
    assert_eq!(
        account.claim_reward(low),
        Err(staking(StakingError::InvalidCurrentRateError))
    );
    assert_eq!(
        account.deposit(low, 1),
        Err(staking(StakingError::InvalidCurrentRateError))
    );
    assert_eq!(
        account.withdraw(low, 1),
        Err(staking(StakingError::InvalidCurrentRateError))
    );
    assert_eq!(account, before);
}

#[test]
fn reward_arithmetic() {
    let a = Reward { reward: Decimal::from_u64(5), sub_reward: Some(Decimal::from_u64(7)) };
    let b = Reward { reward: Decimal::from_u64(2), sub_reward: Some(Decimal::from_u64(3)) };
    let plain = Reward { reward: Decimal::from_u64(1), sub_reward: None };
    assert_eq!(
        a.try_add(b),
        Ok(Reward { reward: Decimal::from_u64(7), sub_reward: Some(Decimal::from_u64(10)) })
    );
    assert_eq!(
        a.try_sub(b),
        Ok(Reward { reward: Decimal::from_u64(3), sub_reward: Some(Decimal::from_u64(4)) })
    );
    assert_eq!(b.try_sub(a), Err(staking(StakingError::MathOverflow)));
    assert_eq!(a.try_add(plain).unwrap().sub_reward, None);
    assert_eq!(Reward::from((3u64, Some(4u64))), Reward::from_whole(3, Some(4)));
    assert_eq!(
        Reward::from_whole(3, None),
        Reward { reward: Decimal::from_u64(3), sub_reward: None }
    );
    let mut balance = plain;
    balance.accumulate_reward(b).unwrap();
    assert_eq!(
        balance,
        Reward { reward: Decimal::from_u64(3), sub_reward: Some(Decimal::from_u64(3)) }
    );
    let x = Reward {
        reward: Decimal::from_scaled_val(2 * WAD as u128 + 9),
        sub_reward: Some(Decimal::from_scaled_val(WAD as u128 - 1)),
    };
    assert_eq!(x.try_floor_u64(), Ok((2, Some(0))));
    let top = Decimal(U192 { hi: u64::MAX, mid: u64::MAX, lo: u64::MAX });
    let mut full = Reward { reward: top, sub_reward: None };
    let kept = full;
    assert_eq!(
        full.accumulate_reward(plain),
        Err(staking(StakingError::MathOverflow))
    );
    assert_eq!(full, kept);
}

#[test]
fn stake_account_init_sets_owner_and_pool() {
    let mut account = StakeAccount::default();
    assert!(!account.is_initialized());
    account.init(Pubkey([5u8; 32]), Pubkey([6u8; 32])).unwrap();
    assert!(account.is_initialized());
    assert_eq!(account.version, PROGRAM_VERSION);
    assert_eq!(account.owner, Pubkey([5u8; 32]));
    assert_eq!(account.pool_pubkey, Pubkey([6u8; 32]));
    assert_eq!(account.deposited_amount, 0);
}

#[test]
fn records_are_credited_what_was_emitted() {
    let rate = RatePerSlot {
        reward: Decimal::from_u64(1000).try_div(7).unwrap(),
        sub_reward: Some(Decimal::from_u64(333).try_div(11).unwrap()),
    };
    let start = CumulativeRate {
        reward: scaled(123_456_789),
        sub_reward: Some(scaled(987_654_321)),
    };
    let stakes = [7u64, 11, 13, 1, 999];
    let pool_size: u64 = stakes.iter().sum();
    let elapsed = 37;
    let index = start.accumulate_rate(&rate, elapsed, pool_size).unwrap();
    let mut credited = 0u128;
    let mut sub_credited = 0u128;
    let mut whole = 0u128;
    for stake in stakes.iter() {
        let mut record = new_account();
        record.start_rate = start;
        record.deposited_amount = *stake;
        let before = record;
        let reward = record.calculate_reward(index).unwrap();
        assert_eq!(record, before);
        credited += reward.reward.to_scaled_val().unwrap();
        sub_credited += reward.sub_reward.unwrap().to_scaled_val().unwrap();
        whole += reward.reward.try_floor_u64().unwrap() as u128;
    }
    let emitted = rate.reward.try_mul(elapsed).unwrap().to_scaled_val().unwrap();
    let sub_emitted = rate.sub_reward.unwrap().try_mul(elapsed).unwrap().to_scaled_val().unwrap();
    assert!(credited <= emitted && emitted - credited < pool_size as u128);
    assert!(sub_credited <= sub_emitted && sub_emitted - sub_credited < pool_size as u128);
    let wad = WAD as u128;
    assert!(whole * wad <= emitted);
    assert!(emitted < whole * wad + stakes.len() as u128 * (wad - 1) + pool_size as u128);
}

#[test]
fn a_claim_pays_whole_units_and_keeps_the_fraction_in_both_streams() {
    let mut record = new_account();
    record.deposited_amount = 3;
    record.start_rate = CumulativeRate {
        reward: scaled(WAD as u128 / 4),
        sub_reward: Some(scaled(WAD as u128 / 8)),
    };
    record.unclaimed_reward_wads = Reward {
        reward: scaled(WAD as u128 / 2),
        sub_reward: Some(scaled(WAD as u128 - 1)),
    };
    let index = CumulativeRate {
        reward: scaled(WAD as u128),
        sub_reward: Some(scaled(WAD as u128 / 8 + 1)),
    };
    let before = record;
    // 0.5 + 3 * 0.75 = 2.75, and (1 - 1e-18) + 3e-18 = 1 + 2e-18
    assert_eq!(record.claim_reward(index), Ok((2, Some(1))));
    assert_eq!(
        record.unclaimed_reward_wads,
        Reward { reward: Decimal::from_percent(75), sub_reward: Some(scaled(2)) }
    );
    assert_eq!(record.start_rate, index);
    assert_eq!(record.deposited_amount, before.deposited_amount);
    assert_eq!((record.owner, record.pool_pubkey, record.version), (before.owner, before.pool_pubkey, before.version));
    // a record from before the secondary reward counts it from zero
    let mut early = new_account();
    early.deposited_amount = 4;
    let index = CumulativeRate {
        reward: Decimal::zero(),
        sub_reward: Some(Decimal::from_percent(30)),
    };
    assert_eq!(early.claim_reward(index), Ok((0, Some(1))));
    assert_eq!(early.unclaimed_reward_wads.sub_reward, Some(Decimal::from_percent(20)));
    // more whole units than 64 bits hold
    let mut rich = new_account();
    rich.deposited_amount = u64::MAX;
    let kept = rich;
    let high = CumulativeRate { reward: Decimal::from_u64(2), sub_reward: None };
    assert_eq!(rich.claim_reward(high), Err(staking(StakingError::MathOverflow)));
    assert_eq!(rich, kept);
}

#[test]
fn a_cut_fails_exactly_where_it_exceeds_the_density() {
    let mut pool = new_pool(100, None, 1000, 0);
    settle_deposit(&mut pool, &mut new_account(), 0, 10).unwrap();
    // 300 ticks to go at tick 700; the density is 0.1, so 30 units are left
    for (amount, ok) in [(-29i64, true), (-30, true), (-31, false), (i64::MIN, false)] {
        let mut cut = pool;
        let r = cut.update_reward_supply(amount, None, 700);
        if ok {
            assert_eq!(r, Ok(()));
            let change = Decimal::from_u64(amount.unsigned_abs()).try_div(300).unwrap();
            assert_eq!(
                cut.rate_per_slot.reward,
                Decimal::from_percent(10).try_sub(change).unwrap()
            );
            assert_eq!(cut.last_update, 700);
        } else {
            assert_eq!(r, Err(staking(StakingError::ReduceRewardTooMuch)));
            assert_eq!(cut, pool);
        }
    }
}
