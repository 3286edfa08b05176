//! What holds of the engine whatever the inputs: the cumulative index never
//! falls, depositors are credited what was emitted and no more, a second
//! claim at the same tick pays nothing, and fractions of a unit are carried
//! from one claim to the next.

use crate::error::{math_overflow, ProgramError, StakingError};
use crate::math::decimal::{Decimal, WAD};
use crate::math::uint192::modulus;
use crate::processor::{
    spec_check_supply, spec_load_pool, spec_process_change_reward_supply, takes_away, AccountInfo,
    TokenAccount, TokenAction,
};
use crate::pubkey::Pubkey;
use crate::state::settlement::{spec_settle_claim, spec_settle_deposit, spec_settle_withdraw};
use crate::state::stake_account::{owed, value_or_zero, Reward, StakeAccount};
use crate::state::staking_pool::{
    magnitude, mark_time, CumulativeRate, RatePerSlot, Slot, StakingPool,
};
use vstd::prelude::*;

verus! {

/// The ticks a pool settles when it is brought up to `now`.
pub open spec fn elapsed(pool: StakingPool, now: Slot) -> nat {
    (mark_time(now, pool.end_time) - pool.last_update) as nat
}

/// What an index gains over `ticks` ticks at `density`, shared by `staked` units.
pub open spec fn gain(density: nat, ticks: nat, staked: nat) -> nat {
    (density * ticks) / staked
}

/// The index after a settlement, in numbers: with something staked, the
/// primary index rises by the emission of the elapsed ticks per staked unit,
/// rounded down, and so does the secondary index where the pool has one.
pub proof fn lemma_advance_index(pool: StakingPool, now: Slot)
    requires
        pool.spec_advance(now) is Ok,
    ensures
        ({
            let after = pool.spec_advance(now)->Ok_0;
            let ticks = elapsed(pool, now);
            let staked = pool.pool_size as nat;
            &&& mark_time(now, pool.end_time) >= pool.last_update
            &&& after.last_update == mark_time(now, pool.end_time)
            &&& after.pool_size == pool.pool_size
            &&& after.rate_per_slot == pool.rate_per_slot
            &&& after.end_time == pool.end_time
            &&& staked == 0 ==> after.cumulative_rate == pool.cumulative_rate
            &&& staked > 0 ==> {
                &&& pool.rate_per_slot.reward@ * ticks < modulus()
                &&& after.cumulative_rate.reward@ == pool.cumulative_rate.reward@ + gain(
                    pool.rate_per_slot.reward@,
                    ticks,
                    staked,
                )
                &&& after.cumulative_rate.sub_reward is Some <==> (pool.cumulative_rate.sub_reward is Some
                    && pool.rate_per_slot.sub_reward is Some)
                &&& after.cumulative_rate.sub_reward is Some ==> {
                    &&& pool.rate_per_slot.sub_reward->Some_0@ * ticks < modulus()
                    &&& after.cumulative_rate.sub_reward->Some_0@
                        == pool.cumulative_rate.sub_reward->Some_0@ + gain(
                        pool.rate_per_slot.sub_reward->Some_0@,
                        ticks,
                        staked,
                    )
                }
            }
        }),
{
    let ticks = elapsed(pool, now);
    let staked = pool.pool_size as nat;
    if staked > 0 {
        let rate = pool.rate_per_slot;
        let total = rate.spec_try_mul(ticks as u64)->Ok_0;
        let per_unit = total.spec_try_div(pool.pool_size)->Ok_0;
        let r = rate.reward@;
        assert(r * ticks >= 0) by (nonlinear_arith);
        Decimal::lemma_from_scaled(r * ticks);
        lemma_quotient_bounds(r * ticks, staked);
        Decimal::lemma_from_scaled((r * ticks) / staked);
        Decimal::lemma_from_scaled(pool.cumulative_rate.reward@ + per_unit.reward@);
        if let Some(s) = rate.sub_reward {
            let w = WAD as nat;
            assert(s@ * ticks <= s@ * ticks * w) by (nonlinear_arith)
                requires
                    w >= 1,
            ;
            Decimal::lemma_from_scaled(s@ * ticks);
            lemma_quotient_bounds(s@ * ticks, staked);
            Decimal::lemma_from_scaled((s@ * ticks) / staked);
            if let Some(c) = pool.cumulative_rate.sub_reward {
                Decimal::lemma_from_scaled(c@ + per_unit.sub_reward->Some_0@);
            }
        }
    }
}

/// A quotient rounded down, times the divisor, misses the dividend by less
/// than the divisor.
pub proof fn lemma_quotient_bounds(x: nat, d: nat)
    requires
        d > 0,
    ensures
        x / d <= x,
        (x / d) * d <= x < (x / d) * d + d,
{
    vstd::arithmetic::div_mod::lemma_fundamental_div_mod(x as int, d as int);
    vstd::arithmetic::div_mod::lemma_mod_pos_bound(x as int, d as int);
    let q = x / d;
    assert(d * q == q * d) by (nonlinear_arith);
    assert(q <= q * d) by (nonlinear_arith)
        requires
            d >= 1,
            q >= 0,
    ;
}

/// Settling never lowers the cumulative index, in either stream.
pub proof fn lemma_index_never_falls(pool: StakingPool, now: Slot)
    requires
        pool.spec_advance(now) is Ok,
    ensures
        pool.spec_advance(now)->Ok_0.cumulative_rate.reward@ >= pool.cumulative_rate.reward@,
        pool.spec_advance(now)->Ok_0.cumulative_rate.sub_reward is Some ==> {
            &&& pool.cumulative_rate.sub_reward is Some
            &&& pool.spec_advance(now)->Ok_0.cumulative_rate.sub_reward->Some_0@
                >= pool.cumulative_rate.sub_reward->Some_0@
        },
{
    lemma_advance_index(pool, now);
}

/// The ledger after it is settled at each tick of `ticks` in turn.
pub open spec fn advance_through(pool: StakingPool, ticks: Seq<Slot>) -> Result<
    StakingPool,
    ProgramError,
>
    decreases ticks.len(),
{
    if ticks.len() == 0 {
        Ok(pool)
    } else {
        match pool.spec_advance(ticks[0]) {
            Err(e) => Err(e),
            Ok(next) => advance_through(next, ticks.skip(1)),
        }
    }
}

/// Over any sequence of settlements the primary index never falls.
pub proof fn lemma_index_monotonic(pool: StakingPool, ticks: Seq<Slot>)
    requires
        advance_through(pool, ticks) is Ok,
    ensures
        advance_through(pool, ticks)->Ok_0.cumulative_rate.reward@ >= pool.cumulative_rate.reward@,
    decreases ticks.len(),
{
    if ticks.len() > 0 {
        let next = pool.spec_advance(ticks[0])->Ok_0;
        lemma_index_never_falls(pool, ticks[0]);
        lemma_index_monotonic(next, ticks.skip(1));
    }
}

/// The sum of the stakes.
pub open spec fn total_staked(deposits: Seq<u64>) -> nat
    decreases deposits.len(),
{
    if deposits.len() == 0 {
        0
    } else {
        (deposits.last() as nat) + total_staked(deposits.drop_last())
    }
}

/// What the stakes earn together, fractions included, while the index of
/// one stream rises from `start` to `current`.
pub open spec fn total_owed(current: nat, start: nat, deposits: Seq<u64>) -> nat
    decreases deposits.len(),
{
    if deposits.len() == 0 {
        0
    } else {
        (match owed(current, start, deposits.last()) {
            Ok(x) => x@,
            Err(_) => 0,
        }) + total_owed(current, start, deposits.drop_last())
    }
}

/// The whole units the stakes are paid together when each claims what it
/// earned while the index rose from `start` to `current`.
pub open spec fn total_paid(current: nat, start: nat, deposits: Seq<u64>) -> nat
    decreases deposits.len(),
{
    if deposits.len() == 0 {
        0
    } else {
        (match owed(current, start, deposits.last()) {
            Ok(x) => x@ / (WAD as nat),
            Err(_) => 0,
        }) + total_paid(current, start, deposits.drop_last())
    }
}

/// With the index risen by `rise`, no stake's settlement fails as long as
/// `rise` times all that is staked fits, and together they earn exactly
/// `rise` per staked unit; the whole units paid fall short of that by less
/// than one unit per stake.
proof fn lemma_total_owed(start: nat, rise: nat, deposits: Seq<u64>)
    requires
        rise * total_staked(deposits) < modulus(),
    ensures
        forall|i: int| 0 <= i < deposits.len() ==> owed(start + rise, start, #[trigger] deposits[i]) is Ok,
        total_owed(start + rise, start, deposits) == rise * total_staked(deposits),
        total_paid(start + rise, start, deposits) * WAD <= total_owed(start + rise, start, deposits),
        total_owed(start + rise, start, deposits) <= total_paid(start + rise, start, deposits) * WAD
            + deposits.len() * (WAD - 1),
    decreases deposits.len(),
{
    if deposits.len() > 0 {
        let d = deposits.last() as nat;
        let rest = deposits.drop_last();
        let s = total_staked(rest);
        assert(rise * (d + s) == rise * d + rise * s && rise * d >= 0 && rise * s >= 0)
            by (nonlinear_arith);
        lemma_total_owed(start, rise, rest);
        Decimal::lemma_from_scaled(rise * d);
        assert(owed(start + rise, start, deposits.last()) is Ok);
        assert forall|i: int| 0 <= i < deposits.len() implies owed(
            start + rise,
            start,
            #[trigger] deposits[i],
        ) is Ok by {
            if i < deposits.len() - 1 {
                assert(rest[i] == deposits[i]);
            }
        }
        lemma_quotient_bounds(rise * d, WAD as nat);
        let p = total_paid(start + rise, start, rest);
        let q = (rise * d) / (WAD as nat);
        let w = WAD as nat;
        let n = rest.len();
        assert((q + p) * w == q * w + p * w) by (nonlinear_arith);
    } else {
        assert(rise * 0 == 0) by (nonlinear_arith);
    }
}

/// Between two settlements of a pool its depositors are credited, together,
/// what the pool emitted in the ticks between: never more, and less by under
/// one scaled unit per staked unit, which the rounding of the index keeps
/// back. Paid out in whole units, each depositor loses less than one unit
/// more. No depositor's settlement fails on the pool's account.
///
/// `deposits` are the stakes of all depositors of the pool, each settled at
/// the pool's index before; they add up to what the ledger says is staked.
pub proof fn lemma_conservation(pool: StakingPool, now: Slot, deposits: Seq<u64>)
    requires
        pool.pool_size > 0,
        total_staked(deposits) == pool.pool_size,
        pool.spec_advance(now) is Ok,
    ensures
        ({
            let before = pool.cumulative_rate.reward@;
            let after = pool.spec_advance(now)->Ok_0.cumulative_rate.reward@;
            let emitted = pool.rate_per_slot.reward@ * elapsed(pool, now);
            &&& forall|i: int|
                0 <= i < deposits.len() ==> owed(after, before, #[trigger] deposits[i]) is Ok
            &&& total_owed(after, before, deposits) <= emitted
            &&& emitted < total_owed(after, before, deposits) + pool.pool_size
            &&& total_paid(after, before, deposits) * WAD <= emitted
            &&& emitted < total_paid(after, before, deposits) * WAD + deposits.len() * (WAD - 1)
                + pool.pool_size
        }),
        pool.spec_advance(now)->Ok_0.cumulative_rate.sub_reward is Some ==> ({
            let before = pool.cumulative_rate.sub_reward->Some_0@;
            let after = pool.spec_advance(now)->Ok_0.cumulative_rate.sub_reward->Some_0@;
            let emitted = pool.rate_per_slot.sub_reward->Some_0@ * elapsed(pool, now);
            &&& forall|i: int|
                0 <= i < deposits.len() ==> owed(after, before, #[trigger] deposits[i]) is Ok
            &&& total_owed(after, before, deposits) <= emitted
            &&& emitted < total_owed(after, before, deposits) + pool.pool_size
            &&& total_paid(after, before, deposits) * WAD <= emitted
            &&& emitted < total_paid(after, before, deposits) * WAD + deposits.len() * (WAD - 1)
                + pool.pool_size
        }),
{
    lemma_advance_index(pool, now);
    let ticks = elapsed(pool, now);
    let staked = pool.pool_size as nat;
    let before = pool.cumulative_rate.reward@;
    let emitted = pool.rate_per_slot.reward@ * ticks;
    assert(emitted >= 0) by (nonlinear_arith)
        requires
            emitted == pool.rate_per_slot.reward@ * ticks,
    ;
    let rise = gain(pool.rate_per_slot.reward@, ticks, staked);
    lemma_quotient_bounds(emitted as nat, staked);
    lemma_total_owed(before, rise, deposits);
    if pool.spec_advance(now)->Ok_0.cumulative_rate.sub_reward is Some {
        let sub_before = pool.cumulative_rate.sub_reward->Some_0@;
        let sub_emitted = pool.rate_per_slot.sub_reward->Some_0@ * ticks;
        assert(sub_emitted >= 0) by (nonlinear_arith)
            requires
                sub_emitted == pool.rate_per_slot.sub_reward->Some_0@ * ticks,
        ;
        let sub_rise = gain(pool.rate_per_slot.sub_reward->Some_0@, ticks, staked);
        lemma_quotient_bounds(sub_emitted as nat, staked);
        lemma_total_owed(sub_before, sub_rise, deposits);
    }
}

/// A ledger that was just settled at a tick is not changed by settling it
/// at that tick again.
pub proof fn lemma_advance_twice(pool: StakingPool, now: Slot)
    requires
        pool.spec_advance(now) is Ok,
    ensures
        pool.spec_advance(now)->Ok_0.spec_advance(now) == pool.spec_advance(now),
{
    lemma_advance_index(pool, now);
    let p = pool.spec_advance(now)->Ok_0;
    if p.pool_size > 0 {
        let rate = p.rate_per_slot;
        let staked = p.pool_size as nat;
        let c = p.cumulative_rate;
        assert(rate.reward@ * 0 == 0) by (nonlinear_arith);
        Decimal::lemma_from_scaled(0);
        assert(0nat / staked == 0) by (nonlinear_arith)
            requires
                staked > 0,
        ;
        let total = rate.spec_try_mul(0)->Ok_0;
        if let Some(s) = rate.sub_reward {
            assert(s@ * 0 * WAD == 0 && s@ * 0 == 0) by (nonlinear_arith);
            assert(0 * WAD == 0);
        }
        assert(rate.spec_try_mul(0) is Ok);
        assert(total.reward@ == 0);
        let per_unit = total.spec_try_div(p.pool_size)->Ok_0;
        assert(total.spec_try_div(p.pool_size) is Ok);
        assert(per_unit.reward@ == 0);
        c.reward.lemma_view_bound();
        if let Some(a) = c.sub_reward {
            a.lemma_view_bound();
            assert(per_unit.sub_reward is Some);
            assert(per_unit.sub_reward->Some_0@ == 0);
        }
        assert(c.spec_accumulate_rate(rate, 0, p.pool_size) == Ok::<CumulativeRate, ProgramError>(c));
    }
}

/// A second claim at the same tick, with no deposit or withdrawal between,
/// pays nothing in either stream and leaves ledger and record as they were.
pub proof fn lemma_second_claim_pays_nothing(pool: StakingPool, account: StakeAccount, now: Slot)
    requires
        spec_settle_claim(pool, account, now) is Ok,
    ensures
        ({
            let (p, a, paid) = spec_settle_claim(pool, account, now)->Ok_0;
            spec_settle_claim(p, a, now) == Ok::<
                (StakingPool, StakeAccount, (u64, Option<u64>)),
                ProgramError,
            >(
                (
                    p,
                    a,
                    (
                        0u64,
                        match paid.1 {
                            Some(_) => Some(0u64),
                            None => None,
                        },
                    ),
                ),
            )
        }),
{
    lemma_advance_twice(pool, now);
    let p = pool.spec_advance(now)->Ok_0;
    let index = p.cumulative_rate;
    lemma_claim_again(account, index);
}

/// A record that just claimed at an index claims nothing more at that index.
pub proof fn lemma_claim_again(account: StakeAccount, index: CumulativeRate)
    requires
        account.spec_claim_reward(index) is Ok,
    ensures
        ({
            let (a, paid) = account.spec_claim_reward(index)->Ok_0;
            a.spec_claim_reward(index) == Ok::<(StakeAccount, (u64, Option<u64>)), ProgramError>(
                (
                    a,
                    (
                        0u64,
                        match paid.1 {
                            Some(_) => Some(0u64),
                            None => None,
                        },
                    ),
                ),
            )
        }),
{
    let (a, paid) = account.spec_claim_reward(index)->Ok_0;
    let balance = account.spec_settle(index)->Ok_0;
    let d = a.deposited_amount;
    let w = WAD as nat;
    assert(0 * d == 0) by (nonlinear_arith);
    Decimal::lemma_from_scaled(0);
    // primary stream
    let f = balance.reward@ % w;
    Decimal::lemma_from_scaled(f);
    assert(f / w == 0 && f % w == f) by (nonlinear_arith)
        requires
            0 <= f < w,
    ;
    let owed_again = a.spec_calculate_reward(index)->Ok_0;
    assert(a.spec_calculate_reward(index) is Ok);
    assert(owed_again.reward@ == 0);
    if let Some(s) = balance.sub_reward {
        let fs = s@ % w;
        Decimal::lemma_from_scaled(fs);
        assert(fs / w == 0 && fs % w == fs) by (nonlinear_arith)
            requires
                0 <= fs < w,
        ;
        assert(index.sub_reward is Some);
        assert(owed_again.sub_reward is Some);
        assert(owed_again.sub_reward->Some_0@ == 0);
    } else {
        assert(index.sub_reward is None);
    }
    let again = a.spec_settle(index)->Ok_0;
    assert(a.spec_settle(index) is Ok);
    assert(again == a.unclaimed_reward_wads);
    assert(again.spec_fraction() == a.unclaimed_reward_wads);
}

/// What a record holds and what a claim pays, in numbers, for the primary
/// stream: the balance grows by what the stake earned, its whole units are
/// paid, its remainder stays.
pub proof fn lemma_claim_primary(account: StakeAccount, index: CumulativeRate)
    requires
        account.spec_claim_reward(index) is Ok,
    ensures
        ({
            let (a, paid) = account.spec_claim_reward(index)->Ok_0;
            let balance = account.unclaimed_reward_wads.reward@ + (index.reward@
                - account.start_rate.reward@) * account.deposited_amount;
            &&& index.reward@ >= account.start_rate.reward@
            &&& balance < modulus()
            &&& paid.0 == balance / (WAD as int)
            &&& a.unclaimed_reward_wads.reward@ == balance % (WAD as int)
            &&& a.start_rate == index
            &&& a.deposited_amount == account.deposited_amount
        }),
{
    let rise = (index.reward@ - account.start_rate.reward@) as nat;
    let d = account.deposited_amount as nat;
    assert(rise * d >= 0) by (nonlinear_arith);
    Decimal::lemma_from_scaled(rise * d);
    let balance = account.unclaimed_reward_wads.reward@ + rise * d;
    Decimal::lemma_from_scaled(balance);
    vstd::arithmetic::div_mod::lemma_mod_pos_bound(balance as int, WAD as int);
    Decimal::lemma_from_scaled(balance % (WAD as nat));
}

/// The same for the secondary stream, where the index has one. A record
/// without a secondary snapshot or balance counts from zero.
pub proof fn lemma_claim_secondary(account: StakeAccount, index: CumulativeRate)
    requires
        account.spec_claim_reward(index) is Ok,
        index.sub_reward is Some,
    ensures
        ({
            let (a, paid) = account.spec_claim_reward(index)->Ok_0;
            let start = value_or_zero(account.start_rate.sub_reward);
            let balance = value_or_zero(account.unclaimed_reward_wads.sub_reward) + (
            index.sub_reward->Some_0@ - start) * account.deposited_amount;
            &&& index.sub_reward->Some_0@ >= start
            &&& balance < modulus()
            &&& paid.1 == Some((balance / (WAD as int)) as u64)
            &&& balance / (WAD as int) <= u64::MAX
            &&& a.unclaimed_reward_wads.sub_reward is Some
            &&& a.unclaimed_reward_wads.sub_reward->Some_0@ == balance % (WAD as int)
        }),
{
    let start = value_or_zero(account.start_rate.sub_reward);
    let rise = (index.sub_reward->Some_0@ - start) as nat;
    let d = account.deposited_amount as nat;
    assert(rise * d >= 0) by (nonlinear_arith);
    Decimal::lemma_from_scaled(rise * d);
    let balance = value_or_zero(account.unclaimed_reward_wads.sub_reward) + rise * d;
    Decimal::lemma_from_scaled(balance);
    vstd::arithmetic::div_mod::lemma_mod_pos_bound(balance as int, WAD as int);
    Decimal::lemma_from_scaled(balance % (WAD as nat));
}

/// Whole units taken out early are not lost: the units of a balance and the
/// units of its remainder plus a later credit add up to the units of the
/// balance plus that credit.
pub proof fn lemma_units_carry(balance: nat, credit: nat)
    ensures
        balance / (WAD as nat) + (balance % (WAD as nat) + credit) / (WAD as nat) == (balance
            + credit) / (WAD as nat),
        (balance % (WAD as nat) + credit) % (WAD as nat) == (balance + credit) % (WAD as nat),
{
    let w = WAD as int;
    let q1 = (balance as int) / w;
    let f1 = (balance as int) % w;
    let x = f1 + credit;
    let q2 = x / w;
    let f2 = x % w;
    vstd::arithmetic::div_mod::lemma_fundamental_div_mod(balance as int, w);
    vstd::arithmetic::div_mod::lemma_fundamental_div_mod(x, w);
    vstd::arithmetic::div_mod::lemma_mod_pos_bound(balance as int, w);
    vstd::arithmetic::div_mod::lemma_mod_pos_bound(x, w);
    assert(balance + credit == (q1 + q2) * w + f2) by (nonlinear_arith)
        requires
            balance == w * q1 + f1,
            f1 + credit == w * q2 + f2,
    ;
    vstd::arithmetic::div_mod::lemma_fundamental_div_mod_converse(
        (balance + credit) as int,
        w,
        q1 + q2,
        f2,
    );
}

/// Two claims, at an index on the way and at the index reached, pay together
/// exactly what one claim at the index reached pays, and leave the same
/// remainder in the record: the fraction that the first claim could not pay
/// is carried into the second. This holds of each stream that both indexes
/// have.
pub proof fn lemma_split_claim_pays_the_same(
    account: StakeAccount,
    mid: CumulativeRate,
    last: CumulativeRate,
)
    requires
        account.spec_claim_reward(mid) is Ok,
        account.spec_claim_reward(mid)->Ok_0.0.spec_claim_reward(last) is Ok,
        account.spec_claim_reward(last) is Ok,
    ensures
        ({
            let (a1, paid1) = account.spec_claim_reward(mid)->Ok_0;
            let (a2, paid2) = a1.spec_claim_reward(last)->Ok_0;
            let (b, paid) = account.spec_claim_reward(last)->Ok_0;
            &&& paid1.0 + paid2.0 == paid.0
            &&& a2.unclaimed_reward_wads.reward == b.unclaimed_reward_wads.reward
            &&& a2.start_rate == b.start_rate
            &&& a2.deposited_amount == b.deposited_amount
            &&& mid.sub_reward is Some && last.sub_reward is Some ==> {
                &&& paid1.1 is Some && paid2.1 is Some && paid.1 is Some
                &&& paid1.1->Some_0 + paid2.1->Some_0 == paid.1->Some_0
                &&& a2.unclaimed_reward_wads.sub_reward == b.unclaimed_reward_wads.sub_reward
            }
        }),
{
    lemma_split_claim_primary(account, mid, last);
    if mid.sub_reward is Some && last.sub_reward is Some {
        lemma_split_claim_secondary(account, mid, last);
    }
}

/// A credit for the rise of an index in two steps is the credit for the
/// whole rise, and the whole units paid on the way are not lost.
proof fn lemma_two_steps(u0: nat, s: nat, m: nat, l: nat, d: nat)
    requires
        s <= m <= l,
    ensures
        (l - s) * d == (m - s) * d + (l - m) * d,
        (m - s) * d >= 0,
        (l - m) * d >= 0,
        ({
            let first = u0 + (m - s) * d;
            let second = first % (WAD as int) + (l - m) * d;
            let whole = u0 + (l - s) * d;
            &&& first / (WAD as int) + second / (WAD as int) == whole / (WAD as int)
            &&& second % (WAD as int) == whole % (WAD as int)
        }),
{
    assert((l - s) * d == (m - s) * d + (l - m) * d) by (nonlinear_arith);
    assert((m - s) * d >= 0 && (l - m) * d >= 0) by (nonlinear_arith)
        requires
            m >= s,
            l >= m,
            d >= 0,
    ;
    lemma_units_carry((u0 + (m - s) * d) as nat, ((l - m) * d) as nat);
}

proof fn lemma_split_claim_primary(account: StakeAccount, mid: CumulativeRate, last: CumulativeRate)
    requires
        account.spec_claim_reward(mid) is Ok,
        account.spec_claim_reward(mid)->Ok_0.0.spec_claim_reward(last) is Ok,
        account.spec_claim_reward(last) is Ok,
    ensures
        ({
            let (a1, paid1) = account.spec_claim_reward(mid)->Ok_0;
            let (a2, paid2) = a1.spec_claim_reward(last)->Ok_0;
            let (b, paid) = account.spec_claim_reward(last)->Ok_0;
            &&& paid1.0 + paid2.0 == paid.0
            &&& a2.unclaimed_reward_wads.reward == b.unclaimed_reward_wads.reward
            &&& a2.start_rate == b.start_rate
            &&& a2.deposited_amount == b.deposited_amount
        }),
{
    let a1 = account.spec_claim_reward(mid)->Ok_0.0;
    let a2 = a1.spec_claim_reward(last)->Ok_0.0;
    let b = account.spec_claim_reward(last)->Ok_0.0;
    lemma_claim_primary(account, mid);
    lemma_claim_primary(a1, last);
    lemma_claim_primary(account, last);
    lemma_two_steps(
        account.unclaimed_reward_wads.reward@,
        account.start_rate.reward@,
        mid.reward@,
        last.reward@,
        account.deposited_amount as nat,
    );
    a2.unclaimed_reward_wads.reward.lemma_view_bound();
    b.unclaimed_reward_wads.reward.lemma_view_bound();
}

proof fn lemma_split_claim_secondary(
    account: StakeAccount,
    mid: CumulativeRate,
    last: CumulativeRate,
)
    requires
        account.spec_claim_reward(mid) is Ok,
        account.spec_claim_reward(mid)->Ok_0.0.spec_claim_reward(last) is Ok,
        account.spec_claim_reward(last) is Ok,
        mid.sub_reward is Some,
        last.sub_reward is Some,
    ensures
        ({
            let (a1, paid1) = account.spec_claim_reward(mid)->Ok_0;
            let (a2, paid2) = a1.spec_claim_reward(last)->Ok_0;
            let (b, paid) = account.spec_claim_reward(last)->Ok_0;
            &&& paid1.1 is Some && paid2.1 is Some && paid.1 is Some
            &&& paid1.1->Some_0 + paid2.1->Some_0 == paid.1->Some_0
            &&& a2.unclaimed_reward_wads.sub_reward == b.unclaimed_reward_wads.sub_reward
        }),
{
    let a1 = account.spec_claim_reward(mid)->Ok_0.0;
    let a2 = a1.spec_claim_reward(last)->Ok_0.0;
    let b = account.spec_claim_reward(last)->Ok_0.0;
    lemma_claim_secondary(account, mid);
    lemma_claim_primary(account, mid);
    lemma_claim_secondary(a1, last);
    lemma_claim_secondary(account, last);
    lemma_two_steps(
        value_or_zero(account.unclaimed_reward_wads.sub_reward),
        value_or_zero(account.start_rate.sub_reward),
        mid.sub_reward->Some_0@,
        last.sub_reward->Some_0@,
        account.deposited_amount as nat,
    );
    a2.unclaimed_reward_wads.sub_reward->Some_0.lemma_view_bound();
    b.unclaimed_reward_wads.sub_reward->Some_0.lemma_view_bound();
}

/// Settling a pool at a tick on the way never puts its primary index ahead
/// of where one settlement at the later tick puts it: each settlement rounds
/// the index down, so two of them may fall short of one.
pub proof fn lemma_split_settlement_never_ahead(pool: StakingPool, first: Slot, second: Slot)
    requires
        pool.spec_advance(first) is Ok,
        pool.spec_advance(first)->Ok_0.spec_advance(second) is Ok,
        pool.spec_advance(second) is Ok,
    ensures
        pool.spec_advance(first)->Ok_0.spec_advance(second)->Ok_0.cumulative_rate.reward@
            <= pool.spec_advance(second)->Ok_0.cumulative_rate.reward@,
        pool.spec_advance(first)->Ok_0.spec_advance(second)->Ok_0.last_update == pool.spec_advance(
            second,
        )->Ok_0.last_update,
{
    let early = pool.spec_advance(first)->Ok_0;
    lemma_advance_index(pool, first);
    lemma_advance_index(early, second);
    lemma_advance_index(pool, second);
    if pool.pool_size > 0 {
        let r = pool.rate_per_slot.reward@;
        let staked = pool.pool_size as nat;
        let e1 = elapsed(pool, first);
        let e2 = elapsed(early, second);
        assert(elapsed(pool, second) == e1 + e2);
        assert(r * (e1 + e2) == r * e1 + r * e2 && r * e1 >= 0 && r * e2 >= 0) by (nonlinear_arith);
        lemma_quotient_bounds(r * e1, staked);
        lemma_quotient_bounds(r * e2, staked);
        lemma_quotient_bounds(r * (e1 + e2), staked);
        let q1 = (r * e1) / staked;
        let q2 = (r * e2) / staked;
        let q = (r * (e1 + e2)) / staked;
        assert(q1 + q2 <= q) by (nonlinear_arith)
            requires
                q1 * staked + q2 * staked < q * staked + staked,
                staked > 0,
        ;
    }
}

/// Claiming at a tick on the way and again at a later tick pays at least as
/// much as one claim at the later tick, in fact the same, wherever the two
/// settlements of the pool reach the index that the one settlement reaches.
pub proof fn lemma_split_claims_lose_nothing(
    pool: StakingPool,
    account: StakeAccount,
    first: Slot,
    second: Slot,
)
    requires
        spec_settle_claim(pool, account, first) is Ok,
        spec_settle_claim(
            spec_settle_claim(pool, account, first)->Ok_0.0,
            spec_settle_claim(pool, account, first)->Ok_0.1,
            second,
        ) is Ok,
        spec_settle_claim(pool, account, second) is Ok,
        spec_settle_claim(
            spec_settle_claim(pool, account, first)->Ok_0.0,
            spec_settle_claim(pool, account, first)->Ok_0.1,
            second,
        )->Ok_0.0.cumulative_rate == spec_settle_claim(pool, account, second)->Ok_0.0.cumulative_rate,
    ensures
        ({
            let (early, a1, paid1) = spec_settle_claim(pool, account, first)->Ok_0;
            let (late, a2, paid2) = spec_settle_claim(early, a1, second)->Ok_0;
            let (q, b, paid) = spec_settle_claim(pool, account, second)->Ok_0;
            &&& paid1.0 + paid2.0 >= paid.0
            &&& paid1.0 + paid2.0 == paid.0
            &&& a2.unclaimed_reward_wads.reward == b.unclaimed_reward_wads.reward
        }),
{
    let early = pool.spec_advance(first)->Ok_0;
    let late = early.spec_advance(second)->Ok_0;
    lemma_split_claim_pays_the_same(account, early.cumulative_rate, late.cumulative_rate);
}

/// What every ledger that the engine produces satisfies: it is settled no
/// further than its schedule runs, and its index has a secondary stream
/// exactly where its emission has one.
pub open spec fn well_formed(pool: StakingPool) -> bool {
    &&& pool.last_update <= pool.end_time
    &&& pool.cumulative_rate.sub_reward is Some <==> pool.rate_per_slot.sub_reward is Some
}

/// A ledger that was never used is well formed, and so is every pool set
/// up from it.
pub proof fn lemma_init_well_formed(
    pool: StakingPool,
    owner_authority: Pubkey,
    admin_authority: Pubkey,
    reward_token_pool: Pubkey,
    sub_reward_token_pool: Option<Pubkey>,
    duration: u64,
    supply: u64,
    sub_supply: Option<u64>,
    earliest_reward_claim_time: Slot,
    bump_seed_staking_program: u8,
)
    requires
        pool.last_update <= pool.end_time,
        pool.spec_init(
            owner_authority,
            admin_authority,
            reward_token_pool,
            sub_reward_token_pool,
            duration,
            supply,
            sub_supply,
            earliest_reward_claim_time,
            bump_seed_staking_program,
        ) is Ok,
    ensures
        well_formed(
            pool.spec_init(
                owner_authority,
                admin_authority,
                reward_token_pool,
                sub_reward_token_pool,
                duration,
                supply,
                sub_supply,
                earliest_reward_claim_time,
                bump_seed_staking_program,
            )->Ok_0,
        ),
{
}

/// Settling keeps a ledger well formed, and a secondary stream that is
/// there stays.
pub proof fn lemma_advance_well_formed(pool: StakingPool, now: Slot)
    requires
        well_formed(pool),
        pool.spec_advance(now) is Ok,
    ensures
        well_formed(pool.spec_advance(now)->Ok_0),
        pool.spec_advance(now)->Ok_0.cumulative_rate.sub_reward is Some
            <==> pool.cumulative_rate.sub_reward is Some,
{
    lemma_advance_index(pool, now);
}

/// Deposits keep a ledger well formed.
pub proof fn lemma_deposit_well_formed(pool: StakingPool, now: Slot, amount: u64)
    requires
        well_formed(pool),
        pool.spec_deposit(now, amount) is Ok,
    ensures
        well_formed(pool.spec_deposit(now, amount)->Ok_0),
{
    if pool.pool_size != 0 {
        lemma_advance_well_formed(pool, now);
    }
}

/// Withdrawals keep a ledger well formed.
pub proof fn lemma_withdraw_well_formed(pool: StakingPool, now: Slot, amount: u64)
    requires
        well_formed(pool),
        pool.spec_withdraw(now, amount) is Ok,
    ensures
        well_formed(pool.spec_withdraw(now, amount)->Ok_0),
{
    lemma_advance_well_formed(pool, now);
}

/// Changes of the reward supply keep a ledger well formed, and a secondary
/// stream that is there stays.
pub proof fn lemma_update_reward_supply_well_formed(
    pool: StakingPool,
    amount: i64,
    sub_amount: Option<i64>,
    now: Slot,
)
    requires
        well_formed(pool),
        pool.spec_update_reward_supply(amount, sub_amount, now) is Ok,
    ensures
        well_formed(pool.spec_update_reward_supply(amount, sub_amount, now)->Ok_0),
        pool.spec_update_reward_supply(amount, sub_amount, now)->Ok_0.rate_per_slot.sub_reward is Some
            <==> pool.rate_per_slot.sub_reward is Some,
{
    lemma_advance_well_formed(pool, now);
}

/// Adding the secondary reward keeps a ledger well formed; from then on it
/// has a secondary stream.
pub proof fn lemma_add_sub_reward_well_formed(
    pool: StakingPool,
    amount: u64,
    now: Slot,
    token_pool: Pubkey,
)
    requires
        well_formed(pool),
        pool.spec_add_sub_reward(amount, now, token_pool) is Ok,
    ensures
        well_formed(pool.spec_add_sub_reward(amount, now, token_pool)->Ok_0),
        pool.spec_add_sub_reward(amount, now, token_pool)->Ok_0.rate_per_slot.sub_reward is Some,
        pool.spec_add_sub_reward(amount, now, token_pool)->Ok_0.sub_reward_token_pool == Some(
            token_pool,
        ),
{
    lemma_advance_well_formed(pool, now);
}

/// Changes of the duration keep a ledger well formed, and a secondary
/// stream that is there stays.
pub proof fn lemma_extend_duration_well_formed(pool: StakingPool, extend_amount: i64, now: Slot)
    requires
        well_formed(pool),
        pool.spec_extend_duration(extend_amount, now) is Ok,
    ensures
        well_formed(pool.spec_extend_duration(extend_amount, now)->Ok_0),
        pool.spec_extend_duration(extend_amount, now)->Ok_0.rate_per_slot.sub_reward is Some
            <==> pool.rate_per_slot.sub_reward is Some,
{
    if pool.end_time != 0 {
        lemma_advance_well_formed(pool, now);
        let settled = pool.spec_advance(now)->Ok_0;
        if now < pool.end_time {
            let after = pool.spec_extend_duration(extend_amount, now)->Ok_0;
            let time_to_end = (pool.end_time - now) as u64;
            let left = settled.rate_per_slot.spec_try_mul(time_to_end)->Ok_0;
            let floors = left.spec_try_floor_u64()->Ok_0;
            let end_time = crate::state::staking_pool::shifted(pool.end_time, extend_amount)->Ok_0;
            let duration = crate::state::staking_pool::shifted(pool.duration, extend_amount)->Ok_0;
            let cleared = StakingPool {
                end_time,
                duration,
                rate_per_slot: settled.rate_per_slot.spec_clear(),
                ..settled
            };
            assert(well_formed(cleared));
            let sub = match floors.1 {
                Some(s) => Some(crate::state::staking_pool::signed(s)->Ok_0),
                None => None,
            };
            lemma_update_reward_supply_well_formed(
                cleared,
                crate::state::staking_pool::signed(floors.0)->Ok_0,
                sub,
                now,
            );
        }
    }
}

/// What is staked in the pool and what one depositor has staked rise and
/// fall together: a deposit adds the amount to both, a withdrawal takes it
/// from both, a claim changes neither. So the ledger's total stays the sum
/// of the stakes of its depositors.
pub proof fn lemma_stakes_move_together(
    pool: StakingPool,
    account: StakeAccount,
    now: Slot,
    amount: u64,
)
    ensures
        spec_settle_deposit(pool, account, now, amount) matches Ok((p, a)) ==> {
            &&& p.pool_size == pool.pool_size + amount
            &&& a.deposited_amount == account.deposited_amount + amount
            &&& a.start_rate == p.cumulative_rate
        },
        spec_settle_withdraw(pool, account, now, amount) matches Ok((p, a)) ==> {
            &&& p.pool_size == pool.pool_size - amount
            &&& a.deposited_amount == account.deposited_amount - amount
            &&& a.start_rate == p.cumulative_rate
        },
        spec_settle_claim(pool, account, now) matches Ok((p, a, paid)) ==> {
            &&& p.pool_size == pool.pool_size
            &&& a.deposited_amount == account.deposited_amount
            &&& a.start_rate == p.cumulative_rate
        },
{
    if pool.spec_advance(now) is Ok {
        lemma_advance_index(pool, now);
    }
}

/// The index after `ticks` ticks at density `rate` among `staked` units, in
/// numbers: each stream that goes on rises by its emission per staked unit,
/// rounded down.
pub proof fn lemma_accumulate_index(
    start: CumulativeRate,
    rate: RatePerSlot,
    ticks: u64,
    staked: u64,
)
    requires
        staked > 0,
        start.spec_accumulate_rate(rate, ticks, staked) is Ok,
    ensures
        ({
            let index = start.spec_accumulate_rate(rate, ticks, staked)->Ok_0;
            &&& rate.reward@ * ticks < modulus()
            &&& index.reward@ == start.reward@ + gain(rate.reward@, ticks as nat, staked as nat)
            &&& index.sub_reward is Some <==> (start.sub_reward is Some && rate.sub_reward is Some)
            &&& index.sub_reward is Some ==> {
                &&& rate.sub_reward->Some_0@ * ticks < modulus()
                &&& index.sub_reward->Some_0@ == start.sub_reward->Some_0@ + gain(
                    rate.sub_reward->Some_0@,
                    ticks as nat,
                    staked as nat,
                )
            }
        }),
{
    let total = rate.spec_try_mul(ticks)->Ok_0;
    let per_unit = total.spec_try_div(staked)->Ok_0;
    let r = rate.reward@;
    let t = ticks as nat;
    let n = staked as nat;
    assert(r * t >= 0) by (nonlinear_arith);
    Decimal::lemma_from_scaled(r * t);
    lemma_quotient_bounds(r * t, n);
    Decimal::lemma_from_scaled((r * t) / n);
    Decimal::lemma_from_scaled(start.reward@ + per_unit.reward@);
    if let Some(s) = rate.sub_reward {
        let w = WAD as nat;
        assert(s@ * t <= s@ * t * w) by (nonlinear_arith)
            requires
                w >= 1,
        ;
        Decimal::lemma_from_scaled(s@ * t);
        lemma_quotient_bounds(s@ * t, n);
        Decimal::lemma_from_scaled((s@ * t) / n);
        if let Some(c) = start.sub_reward {
            Decimal::lemma_from_scaled(c@ + per_unit.sub_reward->Some_0@);
        }
    }
}

/// The stakes of records, in their order.
pub open spec fn stakes_of(records: Seq<StakeAccount>) -> Seq<u64> {
    Seq::new(records.len(), |i: int| records[i].deposited_amount)
}

/// What the calculation of a record's reward credits to a stream: the
/// primary stream, or the secondary one; nothing where it fails.
pub open spec fn credit_of(r: Result<Reward, ProgramError>, secondary: bool) -> nat {
    match r {
        Ok(reward) => if secondary {
            value_or_zero(reward.sub_reward)
        } else {
            reward.reward@
        },
        Err(_) => 0,
    }
}

/// What the records are credited together in one stream when each
/// calculates its reward at `index`, fractions included.
pub open spec fn total_credited(
    records: Seq<StakeAccount>,
    index: CumulativeRate,
    secondary: bool,
) -> nat
    decreases records.len(),
{
    if records.len() == 0 {
        0
    } else {
        credit_of(records.last().spec_calculate_reward(index), secondary) + total_credited(
            records.drop_last(),
            index,
            secondary,
        )
    }
}

/// The whole units in what the records are credited, each rounded down on
/// its own.
pub open spec fn total_whole(records: Seq<StakeAccount>, index: CumulativeRate, secondary: bool)
    -> nat
    decreases records.len(),
{
    if records.len() == 0 {
        0
    } else {
        credit_of(records.last().spec_calculate_reward(index), secondary) / (WAD as nat)
            + total_whole(records.drop_last(), index, secondary)
    }
}

/// Records that were all settled at `start` earn, at an index that has
/// risen by `rise` (and `sub_rise` in the secondary stream), exactly the
/// rise per staked unit. None of their calculations fails.
proof fn lemma_credited(
    records: Seq<StakeAccount>,
    start: CumulativeRate,
    index: CumulativeRate,
    rise: nat,
    sub_rise: nat,
)
    requires
        forall|i: int| 0 <= i < records.len() ==> (#[trigger] records[i]).start_rate == start,
        index.reward@ == start.reward@ + rise,
        rise * total_staked(stakes_of(records)) < modulus(),
        index.sub_reward is Some ==> {
            &&& start.sub_reward is Some
            &&& index.sub_reward->Some_0@ == start.sub_reward->Some_0@ + sub_rise
            &&& sub_rise * total_staked(stakes_of(records)) < modulus()
        },
    ensures
        forall|i: int|
            0 <= i < records.len() ==> (#[trigger] records[i]).spec_calculate_reward(index) is Ok,
        total_credited(records, index, false) == total_owed(
            index.reward@,
            start.reward@,
            stakes_of(records),
        ),
        total_whole(records, index, false) == total_paid(
            index.reward@,
            start.reward@,
            stakes_of(records),
        ),
        index.sub_reward is Some ==> {
            &&& total_credited(records, index, true) == total_owed(
                index.sub_reward->Some_0@,
                start.sub_reward->Some_0@,
                stakes_of(records),
            )
            &&& total_whole(records, index, true) == total_paid(
                index.sub_reward->Some_0@,
                start.sub_reward->Some_0@,
                stakes_of(records),
            )
        },
    decreases records.len(),
{
    if records.len() > 0 {
        let rest = records.drop_last();
        let last = records.last();
        let d = last.deposited_amount as nat;
        let s = total_staked(stakes_of(rest));
        assert(stakes_of(records).drop_last() =~= stakes_of(rest));
        assert(stakes_of(records).last() == last.deposited_amount);
        assert(rise * (d + s) == rise * d + rise * s && rise * d >= 0 && rise * s >= 0)
            by (nonlinear_arith);
        assert(sub_rise * (d + s) == sub_rise * d + sub_rise * s && sub_rise * d >= 0 && sub_rise
            * s >= 0) by (nonlinear_arith);
        assert forall|i: int| 0 <= i < rest.len() implies (#[trigger] rest[i]).start_rate
            == start by {
            assert(rest[i] == records[i]);
        }
        lemma_credited(rest, start, index, rise, sub_rise);
        Decimal::lemma_from_scaled(rise * d);
        if index.sub_reward is Some {
            Decimal::lemma_from_scaled(sub_rise * d);
        }
        assert(last.start_rate == start);
        assert(last.spec_calculate_reward(index) is Ok);
        assert forall|i: int| 0 <= i < records.len() implies (#[trigger] records[i]).spec_calculate_reward(
            index,
        ) is Ok by {
            if i < records.len() - 1 {
                assert(rest[i] == records[i]);
            }
        }
    }
}

/// Conservation, of the records themselves: records that hold all that is
/// staked in a pool and were all settled at the index `start` are credited
/// together, at the index that `ticks` ticks at density `rate` lead to, what
/// was emitted in those ticks: never more, and less by under one scaled
/// unit per staked unit. In whole units each record loses less than one
/// unit more. No record's calculation fails. This holds of the primary
/// stream, and of the secondary one where the index has it.
pub proof fn lemma_records_conservation(
    records: Seq<StakeAccount>,
    start: CumulativeRate,
    rate: RatePerSlot,
    ticks: u64,
    pool_size: u64,
)
    requires
        pool_size > 0,
        forall|i: int| 0 <= i < records.len() ==> (#[trigger] records[i]).start_rate == start,
        total_staked(stakes_of(records)) == pool_size,
        start.spec_accumulate_rate(rate, ticks, pool_size) is Ok,
    ensures
        ({
            let index = start.spec_accumulate_rate(rate, ticks, pool_size)->Ok_0;
            let emitted = rate.reward@ * ticks;
            &&& forall|i: int|
                0 <= i < records.len() ==> (#[trigger] records[i]).spec_calculate_reward(index) is Ok
            &&& total_credited(records, index, false) <= emitted
            &&& emitted < total_credited(records, index, false) + pool_size
            &&& total_whole(records, index, false) * WAD <= emitted
            &&& emitted < total_whole(records, index, false) * WAD + records.len() * (WAD - 1)
                + pool_size
        }),
        start.spec_accumulate_rate(rate, ticks, pool_size)->Ok_0.sub_reward is Some ==> ({
            let index = start.spec_accumulate_rate(rate, ticks, pool_size)->Ok_0;
            let emitted = rate.sub_reward->Some_0@ * ticks;
            &&& total_credited(records, index, true) <= emitted
            &&& emitted < total_credited(records, index, true) + pool_size
            &&& total_whole(records, index, true) * WAD <= emitted
            &&& emitted < total_whole(records, index, true) * WAD + records.len() * (WAD - 1)
                + pool_size
        }),
{
    lemma_accumulate_index(start, rate, ticks, pool_size);
    let index = start.spec_accumulate_rate(rate, ticks, pool_size)->Ok_0;
    let staked = pool_size as nat;
    let t = ticks as nat;
    let emitted = rate.reward@ * t;
    let rise = gain(rate.reward@, t, staked);
    lemma_quotient_bounds(emitted, staked);
    let sub_rise = if index.sub_reward is Some {
        gain(rate.sub_reward->Some_0@, t, staked)
    } else {
        0
    };
    if index.sub_reward is Some {
        let sub_emitted = rate.sub_reward->Some_0@ * t;
        lemma_quotient_bounds(sub_emitted, staked);
        lemma_total_owed(start.sub_reward->Some_0@, sub_rise, stakes_of(records));
    }
    lemma_total_owed(start.reward@, rise, stakes_of(records));
    lemma_credited(records, start, index, rise, sub_rise);
    assert(stakes_of(records).len() == records.len());
}

/// What a record holds in a stream once it is settled at an index: what it
/// held, and what its stake earned while the index rose from its snapshot.
pub open spec fn claim_balance(unclaimed: nat, current: nat, start: nat, deposited: u64) -> int {
    unclaimed + (current - start) * deposited
}

/// The claim, in numbers, for both streams. Where the index is not below
/// the record's snapshot and the balance has no more whole units than 64
/// bits hold, the claim succeeds: it pays the whole units of the balance,
/// keeps the fraction, which is below one unit, moves the snapshot to the
/// index and leaves everything else in the record as it was. A record
/// without a secondary snapshot or balance counts both from zero.
pub proof fn lemma_claim_formula(account: StakeAccount, index: CumulativeRate)
    requires
        index.reward@ >= account.start_rate.reward@,
        claim_balance(
            account.unclaimed_reward_wads.reward@,
            index.reward@,
            account.start_rate.reward@,
            account.deposited_amount,
        ) / (WAD as int) <= u64::MAX,
        index.sub_reward is Some ==> {
            &&& index.sub_reward->Some_0@ >= value_or_zero(account.start_rate.sub_reward)
            &&& claim_balance(
                value_or_zero(account.unclaimed_reward_wads.sub_reward),
                index.sub_reward->Some_0@,
                value_or_zero(account.start_rate.sub_reward),
                account.deposited_amount,
            ) / (WAD as int) <= u64::MAX
        },
    ensures
        ({
            let balance = claim_balance(
                account.unclaimed_reward_wads.reward@,
                index.reward@,
                account.start_rate.reward@,
                account.deposited_amount,
            );
            let sub_balance = if index.sub_reward is Some {
                claim_balance(
                    value_or_zero(account.unclaimed_reward_wads.sub_reward),
                    index.sub_reward->Some_0@,
                    value_or_zero(account.start_rate.sub_reward),
                    account.deposited_amount,
                )
            } else {
                0
            };
            &&& 0 <= balance % (WAD as int) < WAD
            &&& 0 <= sub_balance % (WAD as int) < WAD
            &&& account.spec_claim_reward(index) == Ok::<
                (StakeAccount, (u64, Option<u64>)),
                ProgramError,
            >(
                (
                    StakeAccount {
                        start_rate: index,
                        unclaimed_reward_wads: Reward {
                            reward: Decimal::from_scaled((balance % (WAD as int)) as nat),
                            sub_reward: if index.sub_reward is Some {
                                Some(Decimal::from_scaled((sub_balance % (WAD as int)) as nat))
                            } else {
                                None
                            },
                        },
                        ..account
                    },
                    (
                        (balance / (WAD as int)) as u64,
                        if index.sub_reward is Some {
                            Some((sub_balance / (WAD as int)) as u64)
                        } else {
                            None
                        },
                    ),
                ),
            )
            &&& Decimal::from_scaled((balance % (WAD as int)) as nat)@ == balance % (WAD as int)
            &&& Decimal::from_scaled((sub_balance % (WAD as int)) as nat)@ == sub_balance % (
            WAD as int)
        }),
{
    let d = account.deposited_amount;
    lemma_stream_claim(
        account.unclaimed_reward_wads.reward@,
        index.reward@,
        account.start_rate.reward@,
        d,
    );
    if index.sub_reward is Some {
        lemma_stream_claim(
            value_or_zero(account.unclaimed_reward_wads.sub_reward),
            index.sub_reward->Some_0@,
            value_or_zero(account.start_rate.sub_reward),
            d,
        );
    } else {
        Decimal::lemma_from_scaled(0);
    }
}

/// One stream of a claim: the earnings and the balance fit, and balance,
/// whole units and fraction are what the numbers say.
proof fn lemma_stream_claim(unclaimed: nat, current: nat, start: nat, deposited: u64)
    requires
        unclaimed < modulus(),
        current >= start,
        claim_balance(unclaimed, current, start, deposited) / (WAD as int) <= u64::MAX,
    ensures
        ({
            let earned = ((current - start) * deposited) as nat;
            let balance = claim_balance(unclaimed, current, start, deposited);
            &&& (current - start) * deposited >= 0
            &&& balance == unclaimed + earned
            &&& balance < modulus()
            &&& owed(current, start, deposited) == Ok::<Decimal, ProgramError>(
                Decimal::from_scaled(earned),
            )
            &&& Decimal::from_scaled(earned)@ == earned
            &&& Decimal::from_scaled(balance as nat)@ == balance
            &&& 0 <= balance % (WAD as int) < WAD
            &&& Decimal::from_scaled((balance % (WAD as int)) as nat)@ == balance % (WAD as int)
        }),
{
    let rise = (current - start) as nat;
    let d = deposited as nat;
    assert(rise * d >= 0) by (nonlinear_arith);
    let balance = unclaimed + rise * d;
    vstd::arithmetic::div_mod::lemma_fundamental_div_mod(balance as int, WAD as int);
    vstd::arithmetic::div_mod::lemma_mod_pos_bound(balance as int, WAD as int);
    Decimal::lemma_from_scaled(rise * d);
    Decimal::lemma_from_scaled(balance);
    Decimal::lemma_from_scaled(balance % (WAD as nat));
}

/// The rule for taking supply away from the primary stream, where the
/// schedule still runs and the ledger can be settled: the cut per tick is
/// the size of the change spread over the ticks that are left, rounded
/// down. A cut above the density takes too much, and fails; any other
/// lowers the density by the cut, so that it never falls below zero.
pub proof fn lemma_reduce_rule(pool: StakingPool, amount: i64, now: Slot)
    requires
        amount <= 0,
        now < pool.end_time,
        pool.spec_advance(now) is Ok,
    ensures
        ({
            let settled = pool.spec_advance(now)->Ok_0;
            let cut = ((magnitude(amount) * WAD) as nat) / ((pool.end_time - now) as nat);
            let density = pool.rate_per_slot.reward@;
            &&& cut > density ==> pool.spec_update_reward_supply(amount, None, now) == Err::<
                StakingPool,
                ProgramError,
            >(ProgramError::Staking(StakingError::ReduceRewardTooMuch))
            &&& cut <= density ==> {
                &&& pool.spec_update_reward_supply(amount, None, now) == Ok::<
                    StakingPool,
                    ProgramError,
                >(
                    StakingPool {
                        rate_per_slot: RatePerSlot {
                            reward: Decimal::from_scaled((density - cut) as nat),
                            sub_reward: pool.rate_per_slot.sub_reward,
                        },
                        ..settled
                    },
                )
                &&& Decimal::from_scaled((density - cut) as nat)@ == density - cut
            }
        }),
{
    lemma_advance_index(pool, now);
    let cut = ((magnitude(amount) * WAD) as nat) / ((pool.end_time - now) as nat);
    let density = pool.rate_per_slot.reward@;
    pool.rate_per_slot.reward.lemma_view_bound();
    if cut <= density {
        Decimal::lemma_from_scaled((density - cut) as nat);
    }
}

/// A change of the reward supply that passes every check of the accounts
/// and then fails in the engine fails as the engine does. It asks for no
/// transfer and stores nothing.
pub proof fn lemma_failed_supply_change(
    program_id: Pubkey,
    amount: i64,
    sub_amount: Option<i64>,
    accounts: Seq<AccountInfo>,
    reward_supply: Option<TokenAccount>,
    sub_reward_supply: Option<TokenAccount>,
    now: Slot,
)
    requires
        amount != 0,
        accounts.len() >= 11,
        spec_load_pool(accounts[1].data@) is Ok,
        accounts[0].is_signer,
        takes_away(amount, sub_amount) ==> accounts[0].key == spec_load_pool(
            accounts[1].data@,
        )->Ok_0.admin_authority,
        spec_check_supply(reward_supply, amount, accounts[7].key) is Ok,
        accounts[1].owner == program_id,
        spec_load_pool(accounts[1].data@)->Ok_0.reward_token_pool == accounts[3].key,
        spec_load_pool(accounts[1].data@)->Ok_0.spec_update_reward_supply(
            amount,
            sub_amount,
            now,
        ) is Err,
    ensures
        spec_process_change_reward_supply(
            program_id,
            amount,
            sub_amount,
            accounts,
            reward_supply,
            sub_reward_supply,
            Some(now),
        ) == Err::<(Seq<u8>, Seq<TokenAction>), ProgramError>(
            spec_load_pool(accounts[1].data@)->Ok_0.spec_update_reward_supply(
                amount,
                sub_amount,
                now,
            )->Err_0,
        ),
{
}

/// A change of duration before the first deposit, in numbers. It succeeds
/// exactly where the new duration is a tick count above zero and the total
/// supply fits (for the secondary stream, also when scaled up by 10^18).
/// Then each density is the total supply spread over the new duration,
/// rounded down, so that the total supply is kept but for under one scaled
/// unit per tick; nothing else in the ledger changes, and the tick at
/// which the change is made does not matter.
pub proof fn lemma_extend_unstarted(pool: StakingPool, extend_amount: i64, now: Slot, other: Slot)
    requires
        pool.end_time == 0,
    ensures
        ({
            let new_duration = pool.duration + extend_amount;
            let supply = pool.rate_per_slot.reward@ * pool.duration;
            let sub_supply = value_or_zero(pool.rate_per_slot.sub_reward) * pool.duration;
            let fits = {
                &&& 0 < new_duration <= u64::MAX
                &&& supply < modulus()
                &&& sub_supply * WAD < modulus()
            };
            let r = pool.spec_extend_duration(extend_amount, now);
            &&& r == pool.spec_extend_duration(extend_amount, other)
            &&& !fits ==> r == Err::<StakingPool, ProgramError>(math_overflow())
            &&& fits ==> {
                &&& r == Ok::<StakingPool, ProgramError>(
                    StakingPool {
                        duration: new_duration as u64,
                        rate_per_slot: RatePerSlot {
                            reward: Decimal::from_scaled((supply / new_duration) as nat),
                            sub_reward: match pool.rate_per_slot.sub_reward {
                                Some(_) => Some(
                                    Decimal::from_scaled((sub_supply / new_duration) as nat),
                                ),
                                None => None,
                            },
                        },
                        ..pool
                    },
                )
                &&& Decimal::from_scaled((supply / new_duration) as nat)@ == supply / new_duration
                &&& Decimal::from_scaled((sub_supply / new_duration) as nat)@ == sub_supply
                    / new_duration
                &&& (supply / new_duration) * new_duration <= supply < (supply / new_duration)
                    * new_duration + new_duration
                &&& (sub_supply / new_duration) * new_duration <= sub_supply < (sub_supply
                    / new_duration) * new_duration + new_duration
            }
        }),
{
    let new_duration = pool.duration + extend_amount;
    let r = pool.rate_per_slot.reward@;
    let t = pool.duration as nat;
    let w = WAD as nat;
    assert(r * t >= 0) by (nonlinear_arith);
    let s = value_or_zero(pool.rate_per_slot.sub_reward);
    assert(s * t >= 0 && s * t <= s * t * w) by (nonlinear_arith)
        requires
            w >= 1,
    ;
    if 0 < new_duration <= u64::MAX {
        if r * t < modulus() {
            Decimal::lemma_from_scaled(r * t);
            lemma_quotient_bounds(r * t, new_duration as nat);
            Decimal::lemma_from_scaled((r * t) / (new_duration as nat));
        }
        if s * t * w < modulus() {
            Decimal::lemma_from_scaled(s * t);
            lemma_quotient_bounds(s * t, new_duration as nat);
            Decimal::lemma_from_scaled((s * t) / (new_duration as nat));
        }
    }
}

} // verus!
