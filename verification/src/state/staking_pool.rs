//! The pool ledger: how much is staked, how fast rewards are emitted, and how
//! much every staked unit has earned since the pool began.

use crate::codec::{
    get_array, get_le, le_bytes, le_value, lemma_le_bytes_len, lemma_le_value_bound,
    lemma_le_value_of_bytes, lemma_pow256_values, put_array, put_le, write_front,
};
use crate::error::{math_overflow, ProgramError, ProgramResult, StakingError};
use crate::math::decimal::{Decimal, WAD};
use crate::state::options::{
    option_decimal_bytes, option_key_bytes, option_packable, pack_option_decimal, pack_option_key,
    spec_unpack_option_decimal, spec_unpack_option_key, unpack_option_decimal, unpack_option_key,
};
use crate::math::uint192::modulus;
use crate::pubkey::Pubkey;
use crate::state::stake_account::{PROGRAM_VERSION, UNINITIALIZED_VERSION};
use vstd::prelude::*;

verus! {

/// A tick of the host's clock.
pub type Slot = u64;

/// Emission density: reward units emitted per tick, for the primary reward
/// and, once it is activated, for the secondary one.
#[derive(Copy, Clone, Debug, PartialEq, Eq)]
pub struct RatePerSlot {
    pub reward: Decimal,
    pub sub_reward: Option<Decimal>,
}

impl Default for RatePerSlot {
    fn default() -> (r: RatePerSlot)
        ensures
            r == (RatePerSlot { reward: Decimal::from_scaled(0), sub_reward: None }),
    {
        RatePerSlot { reward: Decimal::zero(), sub_reward: None }
    }
}

impl RatePerSlot {
    /// The density that spends `supply` evenly over `duration` ticks.
    pub open spec fn spec_init(supply: u64, sub_supply: Option<u64>, duration: u64) -> Result<
        RatePerSlot,
        ProgramError,
    > {
        if duration == 0 {
            Err(math_overflow())
        } else {
            Ok(
                RatePerSlot {
                    reward: Decimal::from_scaled(((supply * WAD) as nat) / (duration as nat)),
                    sub_reward: match sub_supply {
                        Some(x) => Some(
                            Decimal::from_scaled(((x * WAD) as nat) / (duration as nat)),
                        ),
                        None => None,
                    },
                },
            )
        }
    }

    /// The density that spends `supply` evenly over `duration` ticks; a duration of zero fails.
    pub fn init(supply: u64, sub_supply: Option<u64>, duration: u64) -> (r: Result<
        RatePerSlot,
        ProgramError,
    >)
        ensures
            r == RatePerSlot::spec_init(supply, sub_supply, duration),
    {
        let reward = Decimal::from_u64(supply).try_div(duration)?;
        let sub_reward = match sub_supply {
            Some(x) => Some(Decimal::from_u64(x).try_div(duration)?),
            None => None,
        };
        Ok(RatePerSlot { reward, sub_reward })
    }

    /// Both densities rounded down to whole units.
    pub open spec fn spec_try_floor_u64(self) -> Result<(u64, Option<u64>), ProgramError> {
        match self.reward.spec_try_floor_u64() {
            Err(e) => Err(e),
            Ok(reward) => match self.sub_reward {
                None => Ok((reward, None)),
                Some(s) => match s.spec_try_floor_u64() {
                    Err(e) => Err(e),
                    Ok(sub) => Ok((reward, Some(sub))),
                },
            },
        }
    }

    /// Rounds both densities down to whole units.
    pub fn try_floor_u64(&self) -> (r: Result<(u64, Option<u64>), ProgramError>)
        ensures
            r == self.spec_try_floor_u64(),
    {
        let reward = self.reward.try_floor_u64()?;
        let sub_reward = match &self.sub_reward {
            Some(s) => Some(s.try_floor_u64()?),
            None => None,
        };
        Ok((reward, sub_reward))
    }

    /// The density with every stream that is present set to zero.
    pub open spec fn spec_clear(self) -> RatePerSlot {
        RatePerSlot {
            reward: Decimal::from_scaled(0),
            sub_reward: match self.sub_reward {
                Some(_) => Some(Decimal::from_scaled(0)),
                None => None,
            },
        }
    }

    /// Sets every stream that is present to zero.
    pub fn clear(&mut self)
        ensures
            *final(self) == old(self).spec_clear(),
    {
        self.reward = Decimal::zero();
        self.sub_reward = match self.sub_reward {
            Some(_) => Some(Decimal::zero()),
            None => None,
        };
    }

    /// The density divided by a whole number, each stream rounded down.
    /// The secondary stream is first scaled up by 10^18, and that must fit.
    pub open spec fn spec_try_div(self, rhs: u64) -> Result<RatePerSlot, ProgramError> {
        if rhs == 0 {
            Err(math_overflow())
        } else {
            match self.sub_reward {
                None => Ok(
                    RatePerSlot {
                        reward: Decimal::from_scaled(self.reward@ / (rhs as nat)),
                        sub_reward: None,
                    },
                ),
                Some(s) => if s@ * WAD < modulus() {
                    Ok(
                        RatePerSlot {
                            reward: Decimal::from_scaled(self.reward@ / (rhs as nat)),
                            sub_reward: Some(Decimal::from_scaled(s@ / (rhs as nat))),
                        },
                    )
                } else {
                    Err(math_overflow())
                },
            }
        }
    }

    /// Divides each stream by a whole number.
    pub fn try_div(self, rhs: u64) -> (r: Result<RatePerSlot, ProgramError>)
        ensures
            r == self.spec_try_div(rhs),
    {
        let reward = self.reward.try_div(rhs)?;
        let sub_reward = match self.sub_reward {
            Some(s) => {
                proof {
                    lemma_scaled_quotient(s@, rhs as nat);
                }
                Some(s.try_div_decimal(Decimal::from_u64(rhs))?)
            },
            None => None,
        };
        Ok(RatePerSlot { reward, sub_reward })
    }

    /// The density times a whole number. The product of the secondary stream
    /// must still fit when scaled up by 10^18.
    pub open spec fn spec_try_mul(self, rhs: u64) -> Result<RatePerSlot, ProgramError> {
        if self.reward@ * rhs >= modulus() {
            Err(math_overflow())
        } else {
            match self.sub_reward {
                None => Ok(
                    RatePerSlot {
                        reward: Decimal::from_scaled(self.reward@ * (rhs as nat)),
                        sub_reward: None,
                    },
                ),
                Some(s) => if s@ * rhs * WAD < modulus() {
                    Ok(
                        RatePerSlot {
                            reward: Decimal::from_scaled(self.reward@ * (rhs as nat)),
                            sub_reward: Some(Decimal::from_scaled(s@ * (rhs as nat))),
                        },
                    )
                } else {
                    Err(math_overflow())
                },
            }
        }
    }

    /// Multiplies each stream by a whole number.
    pub fn try_mul(self, rhs: u64) -> (r: Result<RatePerSlot, ProgramError>)
        ensures
            r == self.spec_try_mul(rhs),
    {
        proof {
            assert(self.reward@ * rhs >= 0) by (nonlinear_arith);
        }
        let reward = self.reward.try_mul(rhs)?;
        let sub_reward = match self.sub_reward {
            Some(s) => {
                proof {
                    lemma_scaled_product(s@, rhs as nat);
                }
                Some(s.try_mul_decimal(Decimal::from_u64(rhs))?)
            },
            None => None,
        };
        Ok(RatePerSlot { reward, sub_reward })
    }
}

/// Scaling dividend and divisor by 10^18 leaves the quotient as it was.
pub proof fn lemma_scaled_quotient(s: nat, rhs: nat)
    ensures
        rhs > 0 ==> (s * (WAD as nat)) / (rhs * (WAD as nat)) == s / rhs,
        rhs * (WAD as nat) == 0 <==> rhs == 0,
{
    let w = WAD as nat;
    if rhs > 0 {
        let q = s / rhs;
        let r = s % rhs;
        vstd::arithmetic::div_mod::lemma_fundamental_div_mod(s as int, rhs as int);
        assert(s * w == q * (rhs * w) + r * w && 0 <= r * w < rhs * w) by (nonlinear_arith)
            requires
                s == rhs * q + r,
                0 <= r < rhs,
                w > 0,
        ;
        vstd::arithmetic::div_mod::lemma_fundamental_div_mod_converse(
            (s * w) as int,
            (rhs * w) as int,
            q as int,
            (r * w) as int,
        );
    }
    assert(rhs * w == 0 <==> rhs == 0) by (nonlinear_arith)
        requires
            w > 0,
            rhs >= 0,
    ;
}

/// Multiplying by a whole number scaled by 10^18 and dividing by 10^18 again
/// is multiplying by the whole number.
pub proof fn lemma_scaled_product(s: nat, rhs: nat)
    ensures
        (s * (rhs * (WAD as nat))) / (WAD as nat) == s * rhs,
        s * (rhs * (WAD as nat)) == s * rhs * (WAD as nat),
{
    let w = WAD as nat;
    assert(s * (rhs * w) == (s * rhs) * w) by (nonlinear_arith);
    vstd::arithmetic::div_mod::lemma_fundamental_div_mod_converse(
        ((s * rhs) * w) as int,
        w as int,
        (s * rhs) as int,
        0,
    );
}

/// Cumulative index: what one staked unit has earned since the pool began,
/// for each reward stream.
#[derive(Copy, Clone, Debug, PartialEq, Eq)]
pub struct CumulativeRate {
    pub reward: Decimal,
    pub sub_reward: Option<Decimal>,
}

impl Default for CumulativeRate {
    fn default() -> (r: CumulativeRate)
        ensures
            r == (CumulativeRate { reward: Decimal::from_scaled(0), sub_reward: None }),
    {
        CumulativeRate { reward: Decimal::zero(), sub_reward: None }
    }
}

impl CumulativeRate {
    /// The index after `time_elapsed` ticks at density `rate`, shared among
    /// `pool_size` staked units. With nothing staked the index stays as it is.
    /// The secondary stream goes on only where index and density both have it.
    pub open spec fn spec_accumulate_rate(
        self,
        rate: RatePerSlot,
        time_elapsed: u64,
        pool_size: u64,
    ) -> Result<CumulativeRate, ProgramError> {
        if pool_size == 0 {
            Ok(self)
        } else {
            match rate.spec_try_mul(time_elapsed) {
                Err(e) => Err(e),
                Ok(total) => match total.spec_try_div(pool_size) {
                    Err(e) => Err(e),
                    Ok(per_unit) => if self.reward@ + per_unit.reward@ >= modulus() {
                        Err(math_overflow())
                    } else {
                        match (self.sub_reward, per_unit.sub_reward) {
                            (Some(a), Some(b)) => if a@ + b@ >= modulus() {
                                Err(math_overflow())
                            } else {
                                Ok(
                                    CumulativeRate {
                                        reward: Decimal::from_scaled(
                                            self.reward@ + per_unit.reward@,
                                        ),
                                        sub_reward: Some(Decimal::from_scaled(a@ + b@)),
                                    },
                                )
                            },
                            _ => Ok(
                                CumulativeRate {
                                    reward: Decimal::from_scaled(self.reward@ + per_unit.reward@),
                                    sub_reward: None,
                                },
                            ),
                        }
                    },
                },
            }
        }
    }

    /// The index after `time_elapsed` ticks at density `rate` with `pool_size` staked.
    pub fn accumulate_rate(&self, rate: &RatePerSlot, time_elapsed: u64, pool_size: u64) -> (r:
        Result<CumulativeRate, ProgramError>)
        ensures
            r == self.spec_accumulate_rate(*rate, time_elapsed, pool_size),
    {
        if pool_size == 0 {
            return Ok(*self);
        }
        let total = rate.try_mul(time_elapsed)?;
        let per_unit = total.try_div(pool_size)?;
        let reward = self.reward.try_add(per_unit.reward)?;
        let sub_reward = match (self.sub_reward, per_unit.sub_reward) {
            (Some(a), Some(b)) => Some(a.try_add(b)?),
            _ => None,
        };
        Ok(CumulativeRate { reward, sub_reward })
    }
}

/// The size of a signed change, as an unsigned number.
pub open spec fn magnitude(x: i64) -> u64 {
    if x >= 0 {
        x as u64
    } else {
        (-x) as u64
    }
}

pub(crate) fn abs_u64(x: i64) -> (r: u64)
    ensures
        r == magnitude(x),
{
    if x >= 0 {
        x as u64
    } else if x == i64::MIN {
        0x8000_0000_0000_0000
    } else {
        (-x) as u64
    }
}

/// The tick up to which a pool is settled at `now`: never past its end.
pub open spec fn mark_time(now: Slot, end_time: Slot) -> Slot {
    if now <= end_time {
        now
    } else {
        end_time
    }
}

/// A tick moved by a signed number of ticks, where the result is a tick.
pub open spec fn shifted(t: u64, by: i64) -> Result<u64, ProgramError> {
    if 0 <= t + by <= u64::MAX {
        Ok((t + by) as u64)
    } else {
        Err(math_overflow())
    }
}

fn shift(t: u64, by: i64) -> (r: Result<u64, ProgramError>)
    ensures
        r == shifted(t, by),
{
    let size = abs_u64(by);
    let moved = if by >= 0 {
        t.checked_add(size)
    } else {
        t.checked_sub(size)
    };
    match moved {
        Some(v) => Ok(v),
        None => Err(ProgramError::Staking(StakingError::MathOverflow)),
    }
}

/// A whole amount as a signed number, where it fits.
pub open spec fn signed(x: u64) -> Result<i64, ProgramError> {
    if x <= i64::MAX {
        Ok(x as i64)
    } else {
        Err(math_overflow())
    }
}

fn to_signed(x: u64) -> (r: Result<i64, ProgramError>)
    ensures
        r == signed(x),
{
    if x <= 0x7fff_ffff_ffff_ffff {
        Ok(x as i64)
    } else {
        Err(ProgramError::Staking(StakingError::MathOverflow))
    }
}

/// The density of one stream after its supply changes by `amount`, spread
/// over the `time_to_end` ticks that are left. A rise that does not fit is an
/// overflow; a cut below zero takes too much.
pub open spec fn changed_density(density: nat, amount: i64, time_to_end: u64) -> Result<
    Decimal,
    ProgramError,
> {
    let change = ((magnitude(amount) * WAD) as nat) / (time_to_end as nat);
    if amount > 0 {
        if density + change < modulus() {
            Ok(Decimal::from_scaled(density + change))
        } else {
            Err(math_overflow())
        }
    } else {
        if density >= change {
            Ok(Decimal::from_scaled((density - change) as nat))
        } else {
            Err(ProgramError::Staking(StakingError::ReduceRewardTooMuch))
        }
    }
}

fn change_density(density: Decimal, amount: i64, change: Decimal) -> (r: Result<
    Decimal,
    ProgramError,
>)
    ensures
        amount > 0 ==> r == density.spec_try_add(change),
        amount <= 0 && density@ >= change@ ==> r == Ok::<Decimal, ProgramError>(
            Decimal::from_scaled((density@ - change@) as nat),
        ),
        amount <= 0 && density@ < change@ ==> r == Err::<Decimal, ProgramError>(
            ProgramError::Staking(StakingError::ReduceRewardTooMuch),
        ),
{
    proof {
        density.lemma_view_bound();
    }
    if amount > 0 {
        density.try_add(change)
    } else {
        match density.try_sub(change) {
            Ok(d) => Ok(d),
            Err(_) => Err(ProgramError::Staking(StakingError::ReduceRewardTooMuch)),
        }
    }
}

/// The pool ledger.
#[derive(Clone, Copy, Debug, Default, PartialEq)]
pub struct StakingPool {
    /// Version of the record; zero until it is initialized.
    pub version: u8,
    /// Who may deposit and withdraw for depositors, and hand the pool on.
    pub owner_authority: Pubkey,
    /// Who may change the schedule and take supply out.
    pub admin_authority: Pubkey,
    /// The vault that holds the primary reward.
    pub reward_token_pool: Pubkey,
    /// The tick up to which the cumulative index is settled.
    pub last_update: Slot,
    /// The tick at which emission ends; zero until the first deposit.
    pub end_time: Slot,
    pub duration: u64,
    pub earliest_reward_claim_time: Slot,
    pub rate_per_slot: RatePerSlot,
    pub cumulative_rate: CumulativeRate,
    /// The sum of what all depositors have staked.
    pub pool_size: u64,
    pub bump_seed_staking_program: u8,
    /// The vault that holds the secondary reward, once there is one.
    pub sub_reward_token_pool: Option<Pubkey>,
    pub reserve_fields3: [u8; 32],
    pub reserve_fields4: [u8; 29],
}

impl StakingPool {
    /// Whether the ledger was ever initialized.
    pub open spec fn spec_is_initialized(self) -> bool {
        self.version != UNINITIALIZED_VERSION
    }

    /// Whether the ledger was ever initialized.
    pub fn is_initialized(&self) -> (r: bool)
        ensures
            r == self.spec_is_initialized(),
    {
        self.version != UNINITIALIZED_VERSION
    }

    /// The ledger of a new pool that spends `supply` over `duration` ticks.
    pub open spec fn spec_init(
        self,
        owner_authority: Pubkey,
        admin_authority: Pubkey,
        reward_token_pool_pubkey: Pubkey,
        sub_reward_token_pool_pubkey: Option<Pubkey>,
        duration: u64,
        supply: u64,
        sub_supply: Option<u64>,
        earliest_reward_claim_time: Slot,
        bump_seed_staking_program: u8,
    ) -> Result<StakingPool, ProgramError> {
        if supply == 0 {
            Err(ProgramError::Staking(StakingError::InvalidSupplyError))
        } else if duration == 0 {
            Err(ProgramError::Staking(StakingError::InvalidDurationError))
        } else {
            match RatePerSlot::spec_init(supply, sub_supply, duration) {
                Err(e) => Err(e),
                Ok(rate) => Ok(
                    StakingPool {
                        version: PROGRAM_VERSION,
                        owner_authority,
                        admin_authority,
                        reward_token_pool: reward_token_pool_pubkey,
                        duration,
                        rate_per_slot: rate,
                        earliest_reward_claim_time,
                        bump_seed_staking_program,
                        sub_reward_token_pool: sub_reward_token_pool_pubkey,
                        cumulative_rate: CumulativeRate {
                            reward: self.cumulative_rate.reward,
                            sub_reward: match sub_supply {
                                Some(_) => Some(Decimal::from_scaled(0)),
                                None => None,
                            },
                        },
                        ..self
                    },
                ),
            }
        }
    }

    /// Sets up the ledger of a new pool, or fails and leaves it as it was.
    /// A pool needs a supply and a duration that are not zero.
    pub fn init(
        &mut self,
        owner_authority: Pubkey,
        admin_authority: Pubkey,
        reward_token_pool_pubkey: Pubkey,
        sub_reward_token_pool_pubkey: Option<Pubkey>,
        duration: u64,
        supply: u64,
        sub_supply: Option<u64>,
        earliest_reward_claim_time: Slot,
        bump_seed_staking_program: u8,
    ) -> (r: ProgramResult)
        ensures
            match old(self).spec_init(
                owner_authority,
                admin_authority,
                reward_token_pool_pubkey,
                sub_reward_token_pool_pubkey,
                duration,
                supply,
                sub_supply,
                earliest_reward_claim_time,
                bump_seed_staking_program,
            ) {
                Ok(after) => r == Ok::<(), ProgramError>(()) && *final(self) == after,
                Err(e) => r == Err::<(), ProgramError>(e) && *final(self) == *old(self),
            },
            r is Ok <==> supply != 0 && duration != 0,
    {
        if supply == 0 {
            return Err(ProgramError::Staking(StakingError::InvalidSupplyError));
        }
        if duration == 0 {
            return Err(ProgramError::Staking(StakingError::InvalidDurationError));
        }
        let rate = RatePerSlot::init(supply, sub_supply, duration)?;
        self.version = PROGRAM_VERSION;
        self.owner_authority = owner_authority;
        self.admin_authority = admin_authority;
        self.reward_token_pool = reward_token_pool_pubkey;
        self.duration = duration;
        self.rate_per_slot = rate;
        self.earliest_reward_claim_time = earliest_reward_claim_time;
        self.bump_seed_staking_program = bump_seed_staking_program;
        self.sub_reward_token_pool = sub_reward_token_pool_pubkey;
        self.cumulative_rate.sub_reward = match sub_supply {
            Some(_) => Some(Decimal::zero()),
            None => None,
        };
        Ok(())
    }

    /// The ledger settled up to `current_time`, or up to the end of the
    /// schedule if that comes first. A clock that runs backwards is an error.
    pub open spec fn spec_advance(self, current_time: Slot) -> Result<StakingPool, ProgramError> {
        let mark = mark_time(current_time, self.end_time);
        if mark < self.last_update {
            Err(ProgramError::Staking(StakingError::InvalidCurrentTimeError))
        } else {
            match self.cumulative_rate.spec_accumulate_rate(
                self.rate_per_slot,
                (mark - self.last_update) as u64,
                self.pool_size,
            ) {
                Err(e) => Err(e),
                Ok(rate) => Ok(StakingPool { last_update: mark, cumulative_rate: rate, ..self }),
            }
        }
    }

    fn advance(self, current_time: Slot) -> (r: Result<StakingPool, ProgramError>)
        ensures
            r == self.spec_advance(current_time),
    {
        let mark = if current_time <= self.end_time {
            current_time
        } else {
            self.end_time
        };
        if mark < self.last_update {
            return Err(ProgramError::Staking(StakingError::InvalidCurrentTimeError));
        }
        let rate = self.cumulative_rate.accumulate_rate(
            &self.rate_per_slot,
            mark - self.last_update,
            self.pool_size,
        )?;
        let mut after = self;
        after.last_update = mark;
        after.cumulative_rate = rate;
        Ok(after)
    }

    /// Settles the ledger up to `current_time` and gives the cumulative
    /// index, or fails and leaves the ledger as it was.
    pub fn claim_reward(&mut self, current_time: Slot) -> (r: Result<CumulativeRate, ProgramError>)
        ensures
            match old(self).spec_advance(current_time) {
                Ok(after) => {
                    &&& r == Ok::<CumulativeRate, ProgramError>(after.cumulative_rate)
                    &&& *final(self) == after
                },
                Err(e) => {
                    &&& r == Err::<CumulativeRate, ProgramError>(e)
                    &&& *final(self) == *old(self)
                },
            },
    {
        let after = (*self).advance(current_time)?;
        *self = after;
        Ok(after.cumulative_rate)
    }

    /// The emission density after the supply changes by `amount` (and the
    /// secondary supply by `sub_amount`) with `time_to_end` ticks to go.
    /// A secondary change needs a secondary stream: on a pool without one it
    /// is an invalid argument.
    pub open spec fn spec_changed_rate(
        rate: RatePerSlot,
        amount: i64,
        sub_amount: Option<i64>,
        time_to_end: u64,
    ) -> Result<RatePerSlot, ProgramError> {
        if time_to_end == 0 {
            Err(math_overflow())
        } else {
            match changed_density(rate.reward@, amount, time_to_end) {
                Err(e) => Err(e),
                Ok(reward) => match (sub_amount, rate.sub_reward) {
                    (None, _) => Ok(RatePerSlot { reward, sub_reward: rate.sub_reward }),
                    (Some(_), None) => Err(
                        ProgramError::Staking(StakingError::InvalidArgumentError),
                    ),
                    (Some(sub), Some(density)) => match changed_density(
                        density@,
                        sub,
                        time_to_end,
                    ) {
                        Err(e) => Err(e),
                        Ok(d) => Ok(RatePerSlot { reward, sub_reward: Some(d) }),
                    },
                },
            }
        }
    }

    fn changed_rate(rate: RatePerSlot, amount: i64, sub_amount: Option<i64>, time_to_end: u64) -> (r:
        Result<RatePerSlot, ProgramError>)
        ensures
            r == StakingPool::spec_changed_rate(rate, amount, sub_amount, time_to_end),
    {
        let change = Decimal::from_u64(abs_u64(amount)).try_div(time_to_end)?;
        let sub_change = match sub_amount {
            Some(x) => Some(Decimal::from_u64(abs_u64(x)).try_div(time_to_end)?),
            None => None,
        };
        proof {
            Decimal::lemma_from_scaled(((magnitude(amount) * WAD) as nat) / (time_to_end as nat));
            vstd::arithmetic::div_mod::lemma_div_is_ordered_by_denominator(
                (magnitude(amount) * WAD) as int,
                1,
                time_to_end as int,
            );
            if let Some(x) = sub_amount {
                Decimal::lemma_from_scaled(((magnitude(x) * WAD) as nat) / (time_to_end as nat));
                vstd::arithmetic::div_mod::lemma_div_is_ordered_by_denominator(
                    (magnitude(x) * WAD) as int,
                    1,
                    time_to_end as int,
                );
            }
        }
        let reward = change_density(rate.reward, amount, change)?;
        let sub_reward = match (sub_amount, sub_change) {
            (Some(sub), Some(c)) => match rate.sub_reward {
                Some(density) => Some(change_density(density, sub, c)?),
                None => {
                    return Err(ProgramError::Staking(StakingError::InvalidArgumentError));
                },
            },
            _ => rate.sub_reward,
        };
        Ok(RatePerSlot { reward, sub_reward })
    }

    /// The ledger after the reward supply changes by `amount` at
    /// `current_time`: settled, and with the change spread over the ticks
    /// that are left.
    pub open spec fn spec_update_reward_supply(
        self,
        amount: i64,
        sub_amount: Option<i64>,
        current_time: Slot,
    ) -> Result<StakingPool, ProgramError> {
        if self.end_time < current_time {
            Err(ProgramError::Staking(StakingError::InvalidArgumentError))
        } else {
            match self.spec_advance(current_time) {
                Err(e) => Err(e),
                Ok(settled) => match StakingPool::spec_changed_rate(
                    settled.rate_per_slot,
                    amount,
                    sub_amount,
                    (self.end_time - current_time) as u64,
                ) {
                    Err(e) => Err(e),
                    Ok(rate) => Ok(StakingPool { rate_per_slot: rate, ..settled }),
                },
            }
        }
    }

    fn with_reward_supply(self, amount: i64, sub_amount: Option<i64>, current_time: Slot) -> (r:
        Result<StakingPool, ProgramError>)
        ensures
            r == self.spec_update_reward_supply(amount, sub_amount, current_time),
    {
        if self.end_time < current_time {
            return Err(ProgramError::Staking(StakingError::InvalidArgumentError));
        }
        let time_to_end = self.end_time - current_time;
        let mut after = self.advance(current_time)?;
        let rate = StakingPool::changed_rate(after.rate_per_slot, amount, sub_amount, time_to_end)?;
        after.rate_per_slot = rate;
        Ok(after)
    }

    /// Changes the reward supply, or fails and leaves the ledger as it was.
    pub fn update_reward_supply(
        &mut self,
        amount: i64,
        sub_amount: Option<i64>,
        current_time: Slot,
    ) -> (r: ProgramResult)
        ensures
            match old(self).spec_update_reward_supply(amount, sub_amount, current_time) {
                Ok(after) => r == Ok::<(), ProgramError>(()) && *final(self) == after,
                Err(e) => r == Err::<(), ProgramError>(e) && *final(self) == *old(self),
            },
    {
        let after = (*self).with_reward_supply(amount, sub_amount, current_time)?;
        *self = after;
        Ok(())
    }

    /// The ledger after a secondary reward of `amount` is added at
    /// `current_time`: settled, with a secondary index that starts at zero
    /// and a secondary density that spends `amount` by the end.
    pub open spec fn spec_add_sub_reward(self, amount: u64, current_time: Slot, token_pool: Pubkey)
        -> Result<StakingPool, ProgramError> {
        if self.sub_reward_token_pool is Some {
            Err(ProgramError::Staking(StakingError::AlreadyHasSubReward))
        } else {
            match self.spec_advance(current_time) {
                Err(e) => Err(e),
                Ok(settled) => if self.end_time < current_time {
                    Err(ProgramError::Staking(StakingError::InvalidArgumentError))
                } else if self.end_time == current_time {
                    Err(math_overflow())
                } else {
                    Ok(
                        StakingPool {
                            sub_reward_token_pool: Some(token_pool),
                            cumulative_rate: CumulativeRate {
                                reward: settled.cumulative_rate.reward,
                                sub_reward: Some(Decimal::from_scaled(0)),
                            },
                            rate_per_slot: RatePerSlot {
                                reward: settled.rate_per_slot.reward,
                                sub_reward: Some(
                                    Decimal::from_scaled(
                                        ((amount * WAD) as nat) / ((self.end_time
                                            - current_time) as nat),
                                    ),
                                ),
                            },
                            ..settled
                        },
                    )
                },
            }
        }
    }

    /// Adds the secondary reward, once, or fails and leaves the ledger as it was.
    pub fn add_sub_reward(&mut self, amount: u64, current_time: Slot, token_pool: Pubkey) -> (r:
        ProgramResult)
        ensures
            match old(self).spec_add_sub_reward(amount, current_time, token_pool) {
                Ok(after) => r == Ok::<(), ProgramError>(()) && *final(self) == after,
                Err(e) => r == Err::<(), ProgramError>(e) && *final(self) == *old(self),
            },
    {
        if self.sub_reward_token_pool.is_some() {
            return Err(ProgramError::Staking(StakingError::AlreadyHasSubReward));
        }
        let mut after = (*self).advance(current_time)?;
        if self.end_time < current_time {
            return Err(ProgramError::Staking(StakingError::InvalidArgumentError));
        }
        let time_to_end = self.end_time - current_time;
        let density = Decimal::from_u64(amount).try_div(time_to_end)?;
        after.sub_reward_token_pool = Some(token_pool);
        after.cumulative_rate.sub_reward = Some(Decimal::zero());
        after.rate_per_slot.sub_reward = Some(density);
        *self = after;
        Ok(())
    }

    /// The ledger after its duration changes by `extend_amount` ticks.
    ///
    /// Before the first deposit the total supply is kept and spread over the
    /// new duration, which may be longer or shorter but not zero. While the
    /// schedule runs, what has not been emitted yet, in whole units, is
    /// spread over the ticks left until the new end; the end may not move to
    /// the present or before it. After the end the schedule can only be
    /// extended, and emits nothing until supply is added.
    pub open spec fn spec_extend_duration(self, extend_amount: i64, current_time: Slot) -> Result<
        StakingPool,
        ProgramError,
    > {
        if self.end_time == 0 {
            match shifted(self.duration, extend_amount) {
                Err(e) => Err(e),
                Ok(duration) => match self.rate_per_slot.spec_try_mul(self.duration) {
                    Err(e) => Err(e),
                    Ok(supply) => match supply.spec_try_div(duration) {
                        Err(e) => Err(e),
                        Ok(rate) => Ok(StakingPool { duration, rate_per_slot: rate, ..self }),
                    },
                },
            }
        } else {
            match self.spec_advance(current_time) {
                Err(e) => Err(e),
                Ok(settled) => if current_time < self.end_time {
                    self.spec_extend_active(settled, extend_amount, current_time)
                } else if extend_amount <= 0 {
                    Err(ProgramError::Staking(StakingError::InvalidArgumentError))
                } else {
                    match (shifted(self.end_time, extend_amount), shifted(
                        self.duration,
                        extend_amount,
                    )) {
                        (Ok(end_time), Ok(duration)) => Ok(
                            StakingPool {
                                end_time,
                                duration,
                                rate_per_slot: settled.rate_per_slot.spec_clear(),
                                ..settled
                            },
                        ),
                        _ => Err(math_overflow()),
                    }
                },
            }
        }
    }

    /// The running schedule's part of `spec_extend_duration`, from the
    /// ledger `settled` up to `current_time`.
    pub open spec fn spec_extend_active(
        self,
        settled: StakingPool,
        extend_amount: i64,
        current_time: Slot,
    ) -> Result<StakingPool, ProgramError> {
        let time_to_end = (self.end_time - current_time) as u64;
        if extend_amount < 0 && magnitude(extend_amount) >= time_to_end {
            Err(ProgramError::Staking(StakingError::InvalidArgumentError))
        } else {
            match settled.rate_per_slot.spec_try_mul(time_to_end) {
                Err(e) => Err(e),
                Ok(left) => match left.spec_try_floor_u64() {
                    Err(e) => Err(e),
                    Ok((reward, sub_reward)) => match (
                        signed(reward),
                        match sub_reward {
                            Some(s) => signed(s),
                            None => Ok(0i64),
                        },
                        shifted(self.end_time, extend_amount),
                        shifted(self.duration, extend_amount),
                    ) {
                        (Ok(amount), Ok(sub), Ok(end_time), Ok(duration)) => (StakingPool {
                            end_time,
                            duration,
                            rate_per_slot: settled.rate_per_slot.spec_clear(),
                            ..settled
                        }).spec_update_reward_supply(
                            amount,
                            match sub_reward {
                                Some(_) => Some(sub),
                                None => None,
                            },
                            current_time,
                        ),
                        _ => Err(math_overflow()),
                    },
                },
            }
        }
    }

    fn with_duration(self, extend_amount: i64, current_time: Slot) -> (r: Result<
        StakingPool,
        ProgramError,
    >)
        ensures
            r == self.spec_extend_duration(extend_amount, current_time),
    {
        if self.end_time == 0 {
            let duration = shift(self.duration, extend_amount)?;
            let supply = self.rate_per_slot.try_mul(self.duration)?;
            let rate = supply.try_div(duration)?;
            let mut after = self;
            after.duration = duration;
            after.rate_per_slot = rate;
            return Ok(after);
        }
        let mut after = self.advance(current_time)?;
        if current_time < self.end_time {
            let time_to_end = self.end_time - current_time;
            if extend_amount < 0 && abs_u64(extend_amount) >= time_to_end {
                return Err(ProgramError::Staking(StakingError::InvalidArgumentError));
            }
            let left = after.rate_per_slot.try_mul(time_to_end)?;
            let (reward, sub_reward) = left.try_floor_u64()?;
            let amount = to_signed(reward)?;
            let sub_amount = match sub_reward {
                Some(s) => Some(to_signed(s)?),
                None => None,
            };
            after.end_time = shift(self.end_time, extend_amount)?;
            after.duration = shift(self.duration, extend_amount)?;
            after.rate_per_slot.clear();
            after.with_reward_supply(amount, sub_amount, current_time)
        } else {
            if extend_amount <= 0 {
                return Err(ProgramError::Staking(StakingError::InvalidArgumentError));
            }
            after.end_time = shift(self.end_time, extend_amount)?;
            after.duration = shift(self.duration, extend_amount)?;
            after.rate_per_slot.clear();
            Ok(after)
        }
    }

    /// Changes the duration, or fails and leaves the ledger as it was.
    pub fn extend_duration(&mut self, extend_amount: i64, current_time: Slot) -> (r: ProgramResult)
        ensures
            match old(self).spec_extend_duration(extend_amount, current_time) {
                Ok(after) => r == Ok::<(), ProgramError>(()) && *final(self) == after,
                Err(e) => r == Err::<(), ProgramError>(e) && *final(self) == *old(self),
            },
    {
        let after = (*self).with_duration(extend_amount, current_time)?;
        *self = after;
        Ok(())
    }

    /// The ledger after `amount` is staked at `current_time`. The deposit
    /// into an empty pool starts the schedule; any other settles the ledger
    /// first.
    pub open spec fn spec_deposit(self, current_time: Slot, amount: u64) -> Result<
        StakingPool,
        ProgramError,
    > {
        if amount == 0 {
            Err(ProgramError::Staking(StakingError::StakeDepositsZero))
        } else if self.pool_size == 0 {
            if current_time + self.duration > u64::MAX {
                Err(math_overflow())
            } else {
                Ok(
                    StakingPool {
                        end_time: (current_time + self.duration) as u64,
                        last_update: current_time,
                        pool_size: amount,
                        ..self
                    },
                )
            }
        } else {
            match self.spec_advance(current_time) {
                Err(e) => Err(e),
                Ok(settled) => if settled.pool_size + amount > u64::MAX {
                    Err(math_overflow())
                } else {
                    Ok(StakingPool { pool_size: (settled.pool_size + amount) as u64, ..settled })
                },
            }
        }
    }

    /// Stakes `amount` and gives the cumulative index at which the deposit
    /// counts, or fails and leaves the ledger as it was.
    pub fn deposit(&mut self, current_time: Slot, amount: u64) -> (r: Result<
        CumulativeRate,
        ProgramError,
    >)
        ensures
            match old(self).spec_deposit(current_time, amount) {
                Ok(after) => {
                    &&& r == Ok::<CumulativeRate, ProgramError>(after.cumulative_rate)
                    &&& *final(self) == after
                },
                Err(e) => {
                    &&& r == Err::<CumulativeRate, ProgramError>(e)
                    &&& *final(self) == *old(self)
                },
            },
    {
        if amount == 0 {
            return Err(ProgramError::Staking(StakingError::StakeDepositsZero));
        }
        let mut after = *self;
        if self.pool_size == 0 {
            after.end_time = match current_time.checked_add(self.duration) {
                Some(t) => t,
                None => {
                    return Err(ProgramError::Staking(StakingError::MathOverflow));
                },
            };
            after.last_update = current_time;
        } else {
            after = (*self).advance(current_time)?;
        }
        after.pool_size = match after.pool_size.checked_add(amount) {
            Some(s) => s,
            None => {
                return Err(ProgramError::Staking(StakingError::MathOverflow));
            },
        };
        *self = after;
        Ok(after.cumulative_rate)
    }

    /// The ledger after `amount` is taken out at `current_time`.
    pub open spec fn spec_withdraw(self, current_time: Slot, amount: u64) -> Result<
        StakingPool,
        ProgramError,
    > {
        if amount == 0 {
            Err(ProgramError::Staking(StakingError::StakeWithdrawsZero))
        } else {
            match self.spec_advance(current_time) {
                Err(e) => Err(e),
                Ok(settled) => if settled.pool_size < amount {
                    Err(ProgramError::Staking(StakingError::InvalidWithdrawAmountError))
                } else {
                    Ok(StakingPool { pool_size: (settled.pool_size - amount) as u64, ..settled })
                },
            }
        }
    }

    /// Takes `amount` out and gives the cumulative index at which the
    /// withdrawal counts, or fails and leaves the ledger as it was.
    pub fn withdraw(&mut self, current_time: Slot, amount: u64) -> (r: Result<
        CumulativeRate,
        ProgramError,
    >)
        ensures
            match old(self).spec_withdraw(current_time, amount) {
                Ok(after) => {
                    &&& r == Ok::<CumulativeRate, ProgramError>(after.cumulative_rate)
                    &&& *final(self) == after
                },
                Err(e) => {
                    &&& r == Err::<CumulativeRate, ProgramError>(e)
                    &&& *final(self) == *old(self)
                },
            },
    {
        if amount == 0 {
            return Err(ProgramError::Staking(StakingError::StakeWithdrawsZero));
        }
        let mut after = (*self).advance(current_time)?;
        after.pool_size = match after.pool_size.checked_sub(amount) {
            Some(s) => s,
            None => {
                return Err(ProgramError::Staking(StakingError::InvalidWithdrawAmountError));
            },
        };
        *self = after;
        Ok(after.cumulative_rate)
    }
}

/// The stored form of a pool ledger: 298 bytes, of which the last 61 are
/// reserved. Integers are little-endian; a number is its scaled value in 16
/// bytes.
///
/// | offset | bytes | field |
/// |---|---|---|
/// | 0 | 1 | version |
/// | 1 | 32 | owner authority |
/// | 33 | 32 | admin authority |
/// | 65 | 32 | reward vault |
/// | 97 | 8 | last settled tick |
/// | 105 | 8 | end tick |
/// | 113 | 8 | duration |
/// | 121 | 8 | earliest claim tick |
/// | 129 | 16 | emission density |
/// | 145 | 16 | cumulative index |
/// | 161 | 8 | total staked |
/// | 169 | 1 | seed byte of the derived authority |
/// | 170 | 33 | secondary reward vault, optional |
/// | 203 | 17 | secondary emission density, optional |
/// | 220 | 17 | secondary cumulative index, optional |
/// | 237 | 61 | reserved |
impl StakingPool {
    /// Number of bytes of the stored form.
    pub const LEN: usize = 298;

    /// Number of bytes of the stored form that hold fields.
    pub const USED: usize = 237;

    /// Number of bytes of the stored form.
    pub fn get_packed_len() -> (r: usize)
        ensures
            r == 298,
    {
        298
    }

    /// Every number of the ledger fits its 128-bit field.
    pub open spec fn spec_packable(self) -> bool {
        &&& self.rate_per_slot.reward.spec_packable()
        &&& self.cumulative_rate.reward.spec_packable()
        &&& option_packable(self.rate_per_slot.sub_reward)
        &&& option_packable(self.cumulative_rate.sub_reward)
    }

    /// Whether every number of the ledger fits its 128-bit field.
    pub fn is_packable(&self) -> (r: bool)
        ensures
            r == self.spec_packable(),
    {
        self.rate_per_slot.reward.is_packable() && self.cumulative_rate.reward.is_packable() && (
        match &self.rate_per_slot.sub_reward {
            Some(d) => d.is_packable(),
            None => true,
        }) && (match &self.cumulative_rate.sub_reward {
            Some(d) => d.is_packable(),
            None => true,
        })
    }

    /// The 237 bytes that hold the fields.
    pub open spec fn spec_packed(self) -> Seq<u8> {
        seq![self.version] + self.owner_authority@ + self.admin_authority@
            + self.reward_token_pool@ + le_bytes(self.last_update as nat, 8) + le_bytes(
            self.end_time as nat,
            8,
        ) + le_bytes(self.duration as nat, 8) + le_bytes(self.earliest_reward_claim_time as nat, 8)
            + le_bytes(self.rate_per_slot.reward@, 16) + le_bytes(self.cumulative_rate.reward@, 16)
            + le_bytes(self.pool_size as nat, 8) + seq![self.bump_seed_staking_program]
            + option_key_bytes(self.sub_reward_token_pool) + option_decimal_bytes(
            self.rate_per_slot.sub_reward,
        ) + option_decimal_bytes(self.cumulative_rate.sub_reward)
    }

    /// The fields take 237 bytes.
    pub proof fn lemma_packed_len(self)
        ensures
            self.spec_packed().len() == 237,
    {
        self.lemma_field_lens();
    }

    proof fn lemma_field_lens(self)
        ensures
            self.owner_authority@.len() == 32,
            self.admin_authority@.len() == 32,
            self.reward_token_pool@.len() == 32,
            le_bytes(self.last_update as nat, 8).len() == 8,
            le_bytes(self.end_time as nat, 8).len() == 8,
            le_bytes(self.duration as nat, 8).len() == 8,
            le_bytes(self.earliest_reward_claim_time as nat, 8).len() == 8,
            le_bytes(self.rate_per_slot.reward@, 16).len() == 16,
            le_bytes(self.cumulative_rate.reward@, 16).len() == 16,
            le_bytes(self.pool_size as nat, 8).len() == 8,
            option_key_bytes(self.sub_reward_token_pool).len() == 33,
            option_decimal_bytes(self.rate_per_slot.sub_reward).len() == 17,
            option_decimal_bytes(self.cumulative_rate.sub_reward).len() == 17,
    {
        lemma_le_bytes_len(self.last_update as nat, 8);
        lemma_le_bytes_len(self.end_time as nat, 8);
        lemma_le_bytes_len(self.duration as nat, 8);
        lemma_le_bytes_len(self.earliest_reward_claim_time as nat, 8);
        lemma_le_bytes_len(self.rate_per_slot.reward@, 16);
        lemma_le_bytes_len(self.cumulative_rate.reward@, 16);
        lemma_le_bytes_len(self.pool_size as nat, 8);
        if let Some(d) = self.rate_per_slot.sub_reward {
            lemma_le_bytes_len(d@, 16);
        }
        if let Some(d) = self.cumulative_rate.sub_reward {
            lemma_le_bytes_len(d@, 16);
        }
    }

    /// Writes the fields over the first 237 bytes of `dst` and leaves the
    /// reserved bytes, and whatever follows them, as they were.
    pub fn pack_into_slice(&self, dst: &mut [u8])
        requires
            self.spec_packable(),
            old(dst).len() >= 298,
        ensures
            final(dst)@ == self.spec_packed() + old(dst)@.subrange(237, old(dst).len() as int),
    {
        let mut buf: Vec<u8> = Vec::new();
        let mut number: [u8; 16] = [0u8; 16];
        let mut key: [u8; 33] = [0u8; 33];
        let mut optional: [u8; 17] = [0u8; 17];
        buf.push(self.version);
        assert(buf@ =~= seq![self.version]);
        put_array(&mut buf, &self.owner_authority.0);
        put_array(&mut buf, &self.admin_authority.0);
        put_array(&mut buf, &self.reward_token_pool.0);
        put_le(&mut buf, self.last_update as u128, 8);
        put_le(&mut buf, self.end_time as u128, 8);
        put_le(&mut buf, self.duration as u128, 8);
        put_le(&mut buf, self.earliest_reward_claim_time as u128, 8);
        self.rate_per_slot.reward.pack_into_slice(&mut number);
        put_array(&mut buf, &number);
        self.cumulative_rate.reward.pack_into_slice(&mut number);
        put_array(&mut buf, &number);
        put_le(&mut buf, self.pool_size as u128, 8);
        let ghost before = buf@;
        buf.push(self.bump_seed_staking_program);
        assert(buf@ =~= before + seq![self.bump_seed_staking_program]);
        pack_option_key(&self.sub_reward_token_pool, &mut key);
        put_array(&mut buf, &key);
        pack_option_decimal(&self.rate_per_slot.sub_reward, &mut optional);
        put_array(&mut buf, &optional);
        pack_option_decimal(&self.cumulative_rate.sub_reward, &mut optional);
        put_array(&mut buf, &optional);
        proof {
            self.lemma_packed_len();
        }
        write_front(dst, &buf);
    }

    /// The ledger that stored bytes hold. A version this program does not
    /// know, or an optional field whose flag is neither 0 nor 1, makes the
    /// bytes invalid. The reserved bytes are not read.
    pub open spec fn spec_unpack_from_slice(src: Seq<u8>) -> Result<StakingPool, ProgramError> {
        if src[0] > PROGRAM_VERSION {
            Err(ProgramError::InvalidAccountData)
        } else {
            match (
                spec_unpack_option_decimal(src.subrange(203, 220)),
                spec_unpack_option_decimal(src.subrange(220, 237)),
                spec_unpack_option_key(src.subrange(170, 203)),
            ) {
                (Ok(sub_rate), Ok(sub_index), Ok(sub_pool)) => Ok(
                    StakingPool {
                        version: src[0],
                        owner_authority: Pubkey::spec_from_bytes(src.subrange(1, 33)),
                        admin_authority: Pubkey::spec_from_bytes(src.subrange(33, 65)),
                        reward_token_pool: Pubkey::spec_from_bytes(src.subrange(65, 97)),
                        last_update: le_value(src.subrange(97, 105)) as u64,
                        end_time: le_value(src.subrange(105, 113)) as u64,
                        duration: le_value(src.subrange(113, 121)) as u64,
                        earliest_reward_claim_time: le_value(src.subrange(121, 129)) as u64,
                        rate_per_slot: RatePerSlot {
                            reward: Decimal::from_scaled(le_value(src.subrange(129, 145))),
                            sub_reward: sub_rate,
                        },
                        cumulative_rate: CumulativeRate {
                            reward: Decimal::from_scaled(le_value(src.subrange(145, 161))),
                            sub_reward: sub_index,
                        },
                        pool_size: le_value(src.subrange(161, 169)) as u64,
                        bump_seed_staking_program: src[169],
                        sub_reward_token_pool: sub_pool,
                        reserve_fields3: vstd::array::spec_array_fill_for_copy_type::<u8, 32>(
                            0u8,
                        ),
                        reserve_fields4: vstd::array::spec_array_fill_for_copy_type::<u8, 29>(
                            0u8,
                        ),
                    },
                ),
                _ => Err(ProgramError::InvalidAccountData),
            }
        }
    }

    /// Reads a ledger from at least 298 stored bytes.
    pub fn unpack_from_slice(src: &[u8]) -> (r: Result<StakingPool, ProgramError>)
        requires
            src.len() >= 298,
        ensures
            r == StakingPool::spec_unpack_from_slice(src@),
    {
        let version = src[0];
        if version > PROGRAM_VERSION {
            return Err(ProgramError::InvalidAccountData);
        }
        let owner_authority = Pubkey::new_from_array(get_array::<32>(src, 1));
        let admin_authority = Pubkey::new_from_array(get_array::<32>(src, 33));
        let reward_token_pool = Pubkey::new_from_array(get_array::<32>(src, 65));
        proof {
            lemma_pow256_values();
            lemma_le_value_bound(src@.subrange(97, 105));
            lemma_le_value_bound(src@.subrange(105, 113));
            lemma_le_value_bound(src@.subrange(113, 121));
            lemma_le_value_bound(src@.subrange(121, 129));
            lemma_le_value_bound(src@.subrange(161, 169));
        }
        let last_update = get_le(src, 97, 8) as u64;
        let end_time = get_le(src, 105, 8) as u64;
        let duration = get_le(src, 113, 8) as u64;
        let earliest_reward_claim_time = get_le(src, 121, 8) as u64;
        let reward = Decimal::unpack_from_slice(&get_array::<16>(src, 129))?;
        let sub_rate = unpack_option_decimal(&get_array::<17>(src, 203))?;
        let index = Decimal::unpack_from_slice(&get_array::<16>(src, 145))?;
        let sub_index = unpack_option_decimal(&get_array::<17>(src, 220))?;
        let pool_size = get_le(src, 161, 8) as u64;
        let bump_seed_staking_program = src[169];
        let sub_reward_token_pool = unpack_option_key(&get_array::<33>(src, 170))?;
        Ok(
            StakingPool {
                version,
                owner_authority,
                admin_authority,
                reward_token_pool,
                last_update,
                end_time,
                duration,
                earliest_reward_claim_time,
                rate_per_slot: RatePerSlot { reward, sub_reward: sub_rate },
                cumulative_rate: CumulativeRate { reward: index, sub_reward: sub_index },
                pool_size,
                bump_seed_staking_program,
                sub_reward_token_pool,
                reserve_fields3: [0u8; 32],
                reserve_fields4: [0u8; 29],
            },
        )
    }

    /// What `pack` leaves in a buffer that held `before`: the fields, then
    /// the reserved bytes as they were. The buffer must have the exact
    /// length, and every number of the ledger must fit its field.
    pub open spec fn spec_pack(src: StakingPool, before: Seq<u8>) -> Result<Seq<u8>, ProgramError> {
        if before.len() != 298 {
            Err(ProgramError::InvalidAccountData)
        } else if !src.spec_packable() {
            Err(math_overflow())
        } else {
            Ok(src.spec_packed() + before.subrange(237, 298))
        }
    }

    /// Stores the ledger in `dst`, or fails and leaves `dst` as it was.
    pub fn pack(src: StakingPool, dst: &mut [u8]) -> (r: ProgramResult)
        ensures
            match StakingPool::spec_pack(src, old(dst)@) {
                Ok(bytes) => r == Ok::<(), ProgramError>(()) && final(dst)@ == bytes,
                Err(e) => r == Err::<(), ProgramError>(e) && final(dst)@ == old(dst)@,
            },
    {
        if dst.len() != 298 {
            return Err(ProgramError::InvalidAccountData);
        }
        if !src.is_packable() {
            return Err(ProgramError::Staking(StakingError::MathOverflow));
        }
        src.pack_into_slice(dst);
        Ok(())
    }

    /// The ledger that a buffer of the exact length holds, initialized or not.
    pub open spec fn spec_unpack_unchecked(input: Seq<u8>) -> Result<StakingPool, ProgramError> {
        if input.len() != 298 {
            Err(ProgramError::InvalidAccountData)
        } else {
            StakingPool::spec_unpack_from_slice(input)
        }
    }

    /// Reads a ledger, initialized or not, from a buffer of the exact length.
    pub fn unpack_unchecked(input: &[u8]) -> (r: Result<StakingPool, ProgramError>)
        ensures
            r == StakingPool::spec_unpack_unchecked(input@),
    {
        if input.len() != 298 {
            return Err(ProgramError::InvalidAccountData);
        }
        StakingPool::unpack_from_slice(input)
    }

    /// The initialized ledger that a buffer of the exact length holds.
    pub open spec fn spec_unpack(input: Seq<u8>) -> Result<StakingPool, ProgramError> {
        match StakingPool::spec_unpack_unchecked(input) {
            Err(e) => Err(e),
            Ok(pool) => if pool.spec_is_initialized() {
                Ok(pool)
            } else {
                Err(ProgramError::UninitializedAccount)
            },
        }
    }

    /// Reads an initialized ledger from a buffer of the exact length.
    pub fn unpack(input: &[u8]) -> (r: Result<StakingPool, ProgramError>)
        ensures
            r == StakingPool::spec_unpack(input@),
    {
        let pool = StakingPool::unpack_unchecked(input)?;
        if pool.is_initialized() {
            Ok(pool)
        } else {
            Err(ProgramError::UninitializedAccount)
        }
    }

    /// The ledger with its reserved fields set to zero, as it comes out of
    /// the stored form.
    pub open spec fn spec_stored(self) -> StakingPool {
        StakingPool {
            reserve_fields3: vstd::array::spec_array_fill_for_copy_type::<u8, 32>(0u8),
            reserve_fields4: vstd::array::spec_array_fill_for_copy_type::<u8, 29>(0u8),
            ..self
        }
    }

    /// Reading back what was written gives the ledger that was written,
    /// whatever follows the fields in the buffer.
    pub proof fn lemma_unpack_packed(self, tail: Seq<u8>)
        requires
            self.spec_packable(),
            self.version <= PROGRAM_VERSION,
        ensures
            StakingPool::spec_unpack_from_slice(self.spec_packed() + tail) == Ok::<
                StakingPool,
                ProgramError,
            >(self.spec_stored()),
    {
        let src = self.spec_packed() + tail;
        self.lemma_field_lens();
        lemma_pow256_values();
        assert(src[0] == self.version);
        assert(src[169] == self.bump_seed_staking_program);
        assert(src.subrange(1, 33) =~= self.owner_authority@);
        assert(src.subrange(33, 65) =~= self.admin_authority@);
        assert(src.subrange(65, 97) =~= self.reward_token_pool@);
        assert(src.subrange(97, 105) =~= le_bytes(self.last_update as nat, 8));
        assert(src.subrange(105, 113) =~= le_bytes(self.end_time as nat, 8));
        assert(src.subrange(113, 121) =~= le_bytes(self.duration as nat, 8));
        assert(src.subrange(121, 129) =~= le_bytes(self.earliest_reward_claim_time as nat, 8));
        assert(src.subrange(129, 145) =~= le_bytes(self.rate_per_slot.reward@, 16));
        assert(src.subrange(145, 161) =~= le_bytes(self.cumulative_rate.reward@, 16));
        assert(src.subrange(161, 169) =~= le_bytes(self.pool_size as nat, 8));
        assert(src.subrange(170, 203) =~= option_key_bytes(self.sub_reward_token_pool));
        assert(src.subrange(203, 220) =~= option_decimal_bytes(self.rate_per_slot.sub_reward));
        assert(src.subrange(220, 237) =~= option_decimal_bytes(self.cumulative_rate.sub_reward));
        Pubkey::lemma_from_bytes(self.owner_authority);
        Pubkey::lemma_from_bytes(self.admin_authority);
        Pubkey::lemma_from_bytes(self.reward_token_pool);
        lemma_le_value_of_bytes(self.last_update as nat, 8);
        lemma_le_value_of_bytes(self.end_time as nat, 8);
        lemma_le_value_of_bytes(self.duration as nat, 8);
        lemma_le_value_of_bytes(self.earliest_reward_claim_time as nat, 8);
        lemma_le_value_of_bytes(self.pool_size as nat, 8);
        lemma_le_value_of_bytes(self.rate_per_slot.reward@, 16);
        lemma_le_value_of_bytes(self.cumulative_rate.reward@, 16);
        self.rate_per_slot.reward.lemma_view_bound();
        self.cumulative_rate.reward.lemma_view_bound();
        crate::state::options::lemma_option_key_round_trip(self.sub_reward_token_pool);
        crate::state::options::lemma_option_decimal_round_trip(self.rate_per_slot.sub_reward);
        crate::state::options::lemma_option_decimal_round_trip(self.cumulative_rate.sub_reward);
    }
}

} // verus!
