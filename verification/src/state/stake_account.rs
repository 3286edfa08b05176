//! The depositor record: what one depositor has staked in one pool, the
//! cumulative index at which it was last settled, and the reward it has
//! earned and not yet claimed.

use crate::codec::{
    get_array, get_le, le_bytes, le_value, lemma_le_bytes_len, lemma_le_value_bound,
    lemma_le_value_of_bytes, lemma_pow256_values, put_array, put_le, write_front,
};
use crate::error::{math_overflow, ProgramError, ProgramResult, StakingError};
use crate::state::options::{
    lemma_option_decimal_round_trip, option_decimal_bytes, option_packable, pack_option_decimal,
    spec_unpack_option_decimal, unpack_option_decimal,
};
use crate::math::decimal::{Decimal, WAD};
use crate::math::uint192::modulus;
use crate::pubkey::Pubkey;
use crate::state::staking_pool::CumulativeRate;
use vstd::prelude::*;

verus! {

/// Version written into every record this program initializes.
pub const PROGRAM_VERSION: u8 = 1;

/// Version of a record that was never initialized: accounts start zeroed.
pub const UNINITIALIZED_VERSION: u8 = 0;

/// An amount of reward in each stream, fractions included.
#[derive(Copy, Clone, Debug, PartialEq, Eq)]
pub struct Reward {
    pub reward: Decimal,
    pub sub_reward: Option<Decimal>,
}

impl Default for Reward {
    fn default() -> (r: Reward)
        ensures
            r == (Reward { reward: Decimal::from_scaled(0), sub_reward: None }),
    {
        Reward { reward: Decimal::zero(), sub_reward: None }
    }
}

/// The scaled value of an optional stream, zero where it is absent.
pub open spec fn value_or_zero(d: Option<Decimal>) -> nat {
    match d {
        Some(x) => x@,
        None => 0,
    }
}

impl Reward {
    /// A reward of whole units.
    pub open spec fn spec_from_whole(reward: u64, sub_reward: Option<u64>) -> Reward {
        Reward {
            reward: Decimal::spec_from_u64(reward),
            sub_reward: match sub_reward {
                Some(x) => Some(Decimal::spec_from_u64(x)),
                None => None,
            },
        }
    }

    /// A reward of whole units.
    pub fn from_whole(reward: u64, sub_reward: Option<u64>) -> (r: Reward)
        ensures
            r == Reward::spec_from_whole(reward, sub_reward),
    {
        Reward {
            reward: Decimal::from_u64(reward),
            sub_reward: match sub_reward {
                Some(x) => Some(Decimal::from_u64(x)),
                None => None,
            },
        }
    }

    /// The difference, stream by stream. The secondary stream of the result
    /// is present where both sides have one.
    pub open spec fn spec_try_sub(self, rhs: Reward) -> Result<Reward, ProgramError> {
        if self.reward@ < rhs.reward@ {
            Err(math_overflow())
        } else {
            match (self.sub_reward, rhs.sub_reward) {
                (Some(a), Some(b)) => if a@ < b@ {
                    Err(math_overflow())
                } else {
                    Ok(
                        Reward {
                            reward: Decimal::from_scaled((self.reward@ - rhs.reward@) as nat),
                            sub_reward: Some(Decimal::from_scaled((a@ - b@) as nat)),
                        },
                    )
                },
                _ => Ok(
                    Reward {
                        reward: Decimal::from_scaled((self.reward@ - rhs.reward@) as nat),
                        sub_reward: None,
                    },
                ),
            }
        }
    }

    /// Subtracts stream by stream, or fails where a result would be negative.
    pub fn try_sub(self, rhs: Reward) -> (r: Result<Reward, ProgramError>)
        ensures
            r == self.spec_try_sub(rhs),
    {
        proof {
            self.reward.lemma_view_bound();
        }
        let reward = self.reward.try_sub(rhs.reward)?;
        let sub_reward = match (self.sub_reward, rhs.sub_reward) {
            (Some(a), Some(b)) => {
                proof {
                    a.lemma_view_bound();
                }
                Some(a.try_sub(b)?)
            },
            _ => None,
        };
        Ok(Reward { reward, sub_reward })
    }

    /// The sum, stream by stream. The secondary stream of the result is
    /// present where both sides have one.
    pub open spec fn spec_try_add(self, rhs: Reward) -> Result<Reward, ProgramError> {
        if self.reward@ + rhs.reward@ >= modulus() {
            Err(math_overflow())
        } else {
            match (self.sub_reward, rhs.sub_reward) {
                (Some(a), Some(b)) => if a@ + b@ >= modulus() {
                    Err(math_overflow())
                } else {
                    Ok(
                        Reward {
                            reward: Decimal::from_scaled(self.reward@ + rhs.reward@),
                            sub_reward: Some(Decimal::from_scaled(a@ + b@)),
                        },
                    )
                },
                _ => Ok(
                    Reward {
                        reward: Decimal::from_scaled(self.reward@ + rhs.reward@),
                        sub_reward: None,
                    },
                ),
            }
        }
    }

    /// Adds stream by stream, or fails on overflow.
    pub fn try_add(self, rhs: Reward) -> (r: Result<Reward, ProgramError>)
        ensures
            r == self.spec_try_add(rhs),
    {
        let reward = self.reward.try_add(rhs.reward)?;
        let sub_reward = match (self.sub_reward, rhs.sub_reward) {
            (Some(a), Some(b)) => Some(a.try_add(b)?),
            _ => None,
        };
        Ok(Reward { reward, sub_reward })
    }

    /// The balance after `reward` is credited to it. A balance without a
    /// secondary stream gets one, from zero, when the credit brings one; the
    /// result has a secondary stream exactly where the credit has one.
    pub open spec fn spec_accumulate_reward(self, reward: Reward) -> Result<Reward, ProgramError> {
        if self.reward@ + reward.reward@ >= modulus() {
            Err(math_overflow())
        } else {
            match reward.sub_reward {
                None => Ok(
                    Reward {
                        reward: Decimal::from_scaled(self.reward@ + reward.reward@),
                        sub_reward: None,
                    },
                ),
                Some(b) => if value_or_zero(self.sub_reward) + b@ >= modulus() {
                    Err(math_overflow())
                } else {
                    Ok(
                        Reward {
                            reward: Decimal::from_scaled(self.reward@ + reward.reward@),
                            sub_reward: Some(
                                Decimal::from_scaled(value_or_zero(self.sub_reward) + b@),
                            ),
                        },
                    )
                },
            }
        }
    }

    /// Credits `reward` to the balance, or fails and leaves it as it was.
    pub fn accumulate_reward(&mut self, reward: Reward) -> (r: ProgramResult)
        ensures
            match old(self).spec_accumulate_reward(reward) {
                Ok(sum) => r == Ok::<(), ProgramError>(()) && *final(self) == sum,
                Err(e) => r == Err::<(), ProgramError>(e) && *final(self) == *old(self),
            },
    {
        let primary = self.reward.try_add(reward.reward)?;
        let secondary = match reward.sub_reward {
            None => None,
            Some(b) => {
                let a = match self.sub_reward {
                    Some(a) => a,
                    None => Decimal::zero(),
                };
                Some(a.try_add(b)?)
            },
        };
        self.reward = primary;
        self.sub_reward = secondary;
        Ok(())
    }

    /// Both streams rounded down to whole units.
    pub open spec fn spec_try_floor_u64(self) -> Result<(u64, Option<u64>), ProgramError> {
        match self.reward.spec_try_floor_u64() {
            Err(e) => Err(e),
            Ok(reward) => match self.sub_reward {
                None => Ok((reward, None)),
                Some(s) => match s.spec_try_floor_u64() {
                    Err(e) => Err(e),
                    Ok(sub) => Ok((reward, Some(sub))),
                },
            },
        }
    }

    /// Rounds both streams down to whole units.
    pub fn try_floor_u64(&self) -> (r: Result<(u64, Option<u64>), ProgramError>)
        ensures
            r == self.spec_try_floor_u64(),
    {
        let reward = self.reward.try_floor_u64()?;
        let sub_reward = match &self.sub_reward {
            Some(s) => Some(s.try_floor_u64()?),
            None => None,
        };
        Ok((reward, sub_reward))
    }

    /// What is left of each stream once the whole units are taken out.
    pub open spec fn spec_fraction(self) -> Reward {
        Reward {
            reward: Decimal::from_scaled(self.reward@ % (WAD as nat)),
            sub_reward: match self.sub_reward {
                Some(s) => Some(Decimal::from_scaled(s@ % (WAD as nat))),
                None => None,
            },
        }
    }
}

impl From<(u64, Option<u64>)> for Reward {
    fn from(whole: (u64, Option<u64>)) -> (r: Reward) {
        Reward::from_whole(whole.0, whole.1)
    }
}

impl vstd::std_specs::convert::FromSpecImpl<(u64, Option<u64>)> for Reward {
    open spec fn obeys_from_spec() -> bool {
        true
    }

    open spec fn from_spec(whole: (u64, Option<u64>)) -> Reward {
        Reward::spec_from_whole(whole.0, whole.1)
    }
}

/// What `deposited` staked units earn while the index of one stream rises
/// from `start` to `current`. An index below its start, or a product that
/// does not fit, is an invalid current rate.
pub open spec fn owed(current: nat, start: nat, deposited: u64) -> Result<Decimal, ProgramError> {
    if current >= start && (current - start) * deposited < modulus() {
        Ok(Decimal::from_scaled(((current - start) * deposited) as nat))
    } else {
        Err(ProgramError::Staking(StakingError::InvalidCurrentRateError))
    }
}

fn earned(current: Decimal, start: Decimal, deposited: u64) -> (r: Result<Decimal, ProgramError>)
    ensures
        r == owed(current@, start@, deposited),
{
    proof {
        current.lemma_view_bound();
    }
    let rise = match current.try_sub(start) {
        Ok(d) => d,
        Err(_) => {
            return Err(ProgramError::Staking(StakingError::InvalidCurrentRateError));
        },
    };
    proof {
        Decimal::lemma_from_scaled((current@ - start@) as nat);
        assert((current@ - start@) * deposited >= 0) by (nonlinear_arith)
            requires
                current@ >= start@,
        ;
    }
    match rise.try_mul(deposited) {
        Ok(d) => Ok(d),
        Err(_) => Err(ProgramError::Staking(StakingError::InvalidCurrentRateError)),
    }
}

/// One depositor's stake in one pool.
#[derive(Clone, Copy, Debug, Default, PartialEq)]
pub struct StakeAccount {
    /// Version of the record; zero until it is initialized.
    pub version: u8,
    /// The pool's cumulative index when this record was last settled.
    pub start_rate: CumulativeRate,
    pub owner: Pubkey,
    pub pool_pubkey: Pubkey,
    pub deposited_amount: u64,
    /// Reward earned and not yet claimed, fractions included.
    pub unclaimed_reward_wads: Reward,
    pub reserve_fields2: [u8; 32],
    pub reserve_fields3: [u8; 32],
    pub reserve_fields4: [u8; 30],
}

impl StakeAccount {
    /// Whether the record was ever initialized.
    pub open spec fn spec_is_initialized(self) -> bool {
        self.version != UNINITIALIZED_VERSION
    }

    /// Whether the record was ever initialized.
    pub fn is_initialized(&self) -> (r: bool)
        ensures
            r == self.spec_is_initialized(),
    {
        self.version != UNINITIALIZED_VERSION
    }

    /// Ties the record to its owner and its pool.
    pub fn init(&mut self, owner: Pubkey, pool: Pubkey) -> (r: ProgramResult)
        ensures
            r == Ok::<(), ProgramError>(()),
            *final(self) == (StakeAccount {
                owner,
                version: PROGRAM_VERSION,
                pool_pubkey: pool,
                ..*old(self)
            }),
    {
        self.owner = owner;
        self.version = PROGRAM_VERSION;
        self.pool_pubkey = pool;
        Ok(())
    }

    /// What the stake has earned since the record was last settled, given
    /// the pool's index now. A record that has no secondary snapshot yet
    /// counts the secondary stream from zero.
    pub open spec fn spec_calculate_reward(self, rate: CumulativeRate) -> Result<
        Reward,
        ProgramError,
    > {
        match owed(rate.reward@, self.start_rate.reward@, self.deposited_amount) {
            Err(e) => Err(e),
            Ok(reward) => match rate.sub_reward {
                None => Ok(Reward { reward, sub_reward: None }),
                Some(current) => match owed(
                    current@,
                    value_or_zero(self.start_rate.sub_reward),
                    self.deposited_amount,
                ) {
                    Err(e) => Err(e),
                    Ok(sub) => Ok(Reward { reward, sub_reward: Some(sub) }),
                },
            },
        }
    }

    /// What the stake has earned since the record was last settled; the
    /// record itself is not changed.
    pub fn calculate_reward(&self, rate: CumulativeRate) -> (r: Result<Reward, ProgramError>)
        ensures
            r == self.spec_calculate_reward(rate),
    {
        let reward = earned(rate.reward, self.start_rate.reward, self.deposited_amount)?;
        let sub_reward = match rate.sub_reward {
            None => None,
            Some(current) => {
                let start = match self.start_rate.sub_reward {
                    Some(s) => s,
                    None => Decimal::zero(),
                };
                Some(earned(current, start, self.deposited_amount)?)
            },
        };
        Ok(Reward { reward, sub_reward })
    }

    /// The balance of unclaimed reward once the record is settled against `rate`.
    pub open spec fn spec_settle(self, rate: CumulativeRate) -> Result<Reward, ProgramError> {
        match self.spec_calculate_reward(rate) {
            Err(e) => Err(e),
            Ok(reward) => self.unclaimed_reward_wads.spec_accumulate_reward(reward),
        }
    }

    fn settle(&self, rate: CumulativeRate) -> (r: Result<Reward, ProgramError>)
        ensures
            r == self.spec_settle(rate),
    {
        let reward = self.calculate_reward(rate)?;
        let mut balance = self.unclaimed_reward_wads;
        balance.accumulate_reward(reward)?;
        Ok(balance)
    }

    /// The record after a deposit of `amount` at index `current_rate`.
    pub open spec fn spec_deposit(self, current_rate: CumulativeRate, amount: u64) -> Result<
        StakeAccount,
        ProgramError,
    > {
        if amount == 0 {
            Err(ProgramError::Staking(StakingError::StakeDepositsZero))
        } else {
            match self.spec_settle(current_rate) {
                Err(e) => Err(e),
                Ok(balance) => if self.deposited_amount + amount > u64::MAX {
                    Err(math_overflow())
                } else {
                    Ok(
                        StakeAccount {
                            unclaimed_reward_wads: balance,
                            deposited_amount: (self.deposited_amount + amount) as u64,
                            start_rate: current_rate,
                            ..self
                        },
                    )
                },
            }
        }
    }

    /// Settles the record and adds `amount` to the stake, or fails and leaves
    /// the record as it was.
    pub fn deposit(&mut self, current_rate: CumulativeRate, amount: u64) -> (r: ProgramResult)
        ensures
            match old(self).spec_deposit(current_rate, amount) {
                Ok(after) => r == Ok::<(), ProgramError>(()) && *final(self) == after,
                Err(e) => r == Err::<(), ProgramError>(e) && *final(self) == *old(self),
            },
    {
        if amount == 0 {
            return Err(ProgramError::Staking(StakingError::StakeDepositsZero));
        }
        let balance = self.settle(current_rate)?;
        let deposited = match self.deposited_amount.checked_add(amount) {
            Some(d) => d,
            None => {
                return Err(ProgramError::Staking(StakingError::MathOverflow));
            },
        };
        self.unclaimed_reward_wads = balance;
        self.deposited_amount = deposited;
        self.start_rate = current_rate;
        Ok(())
    }

    /// The record after a withdrawal of `amount` at index `current_rate`.
    pub open spec fn spec_withdraw(self, current_rate: CumulativeRate, amount: u64) -> Result<
        StakeAccount,
        ProgramError,
    > {
        if amount == 0 {
            Err(ProgramError::Staking(StakingError::StakeWithdrawsZero))
        } else {
            match self.spec_settle(current_rate) {
                Err(e) => Err(e),
                Ok(balance) => if self.deposited_amount < amount {
                    Err(ProgramError::Staking(StakingError::InvalidWithdrawAmountError))
                } else {
                    Ok(
                        StakeAccount {
                            unclaimed_reward_wads: balance,
                            deposited_amount: (self.deposited_amount - amount) as u64,
                            start_rate: current_rate,
                            ..self
                        },
                    )
                },
            }
        }
    }

    /// Settles the record and takes `amount` out of the stake, or fails and
    /// leaves the record as it was.
    pub fn withdraw(&mut self, current_rate: CumulativeRate, amount: u64) -> (r: ProgramResult)
        ensures
            match old(self).spec_withdraw(current_rate, amount) {
                Ok(after) => r == Ok::<(), ProgramError>(()) && *final(self) == after,
                Err(e) => r == Err::<(), ProgramError>(e) && *final(self) == *old(self),
            },
    {
        if amount == 0 {
            return Err(ProgramError::Staking(StakingError::StakeWithdrawsZero));
        }
        let balance = self.settle(current_rate)?;
        let deposited = match self.deposited_amount.checked_sub(amount) {
            Some(d) => d,
            None => {
                return Err(ProgramError::Staking(StakingError::InvalidWithdrawAmountError));
            },
        };
        self.unclaimed_reward_wads = balance;
        self.deposited_amount = deposited;
        self.start_rate = current_rate;
        Ok(())
    }

    /// The record after a claim at index `current_rate`, and the whole units
    /// paid out per stream. The fractions stay in the record.
    pub open spec fn spec_claim_reward(self, current_rate: CumulativeRate) -> Result<
        (StakeAccount, (u64, Option<u64>)),
        ProgramError,
    > {
        match self.spec_settle(current_rate) {
            Err(e) => Err(e),
            Ok(balance) => match balance.spec_try_floor_u64() {
                Err(e) => Err(e),
                Ok(paid) => Ok(
                    (
                        StakeAccount {
                            unclaimed_reward_wads: balance.spec_fraction(),
                            start_rate: current_rate,
                            ..self
                        },
                        paid,
                    ),
                ),
            },
        }
    }

    /// Settles the record and pays out the whole units of its balance, or
    /// fails and leaves the record as it was.
    pub fn claim_reward(&mut self, current_rate: CumulativeRate) -> (r: Result<
        (u64, Option<u64>),
        ProgramError,
    >)
        ensures
            match old(self).spec_claim_reward(current_rate) {
                Ok((after, paid)) => {
                    &&& r == Ok::<(u64, Option<u64>), ProgramError>(paid)
                    &&& *final(self) == after
                },
                Err(e) => {
                    &&& r == Err::<(u64, Option<u64>), ProgramError>(e)
                    &&& *final(self) == *old(self)
                },
            },
    {
        let balance = self.settle(current_rate)?;
        let (rest, paid) = balance.take_whole()?;
        self.unclaimed_reward_wads = rest;
        self.start_rate = current_rate;
        Ok(paid)
    }
}

/// A number's whole units, and what is left of it without them.
fn split_whole(d: Decimal) -> (r: Result<(Decimal, u64), ProgramError>)
    ensures
        match d.spec_try_floor_u64() {
            Ok(whole) => r == Ok::<(Decimal, u64), ProgramError>(
                (Decimal::from_scaled(d@ % (WAD as nat)), whole),
            ),
            Err(e) => r == Err::<(Decimal, u64), ProgramError>(e),
        },
{
    let whole = d.try_floor_u64()?;
    proof {
        lemma_fraction(d@);
        d.lemma_view_bound();
        Decimal::lemma_from_scaled((whole as nat) * (WAD as nat));
    }
    let rest = d.try_sub(Decimal::from_u64(whole))?;
    Ok((rest, whole))
}

impl Reward {
    /// The whole units of each stream, and the balance without them.
    fn take_whole(self) -> (r: Result<(Reward, (u64, Option<u64>)), ProgramError>)
        ensures
            match self.spec_try_floor_u64() {
                Ok(paid) => r == Ok::<(Reward, (u64, Option<u64>)), ProgramError>(
                    (self.spec_fraction(), paid),
                ),
                Err(e) => r == Err::<(Reward, (u64, Option<u64>)), ProgramError>(e),
            },
    {
        let (reward, whole) = split_whole(self.reward)?;
        match self.sub_reward {
            None => Ok((Reward { reward, sub_reward: None }, (whole, None))),
            Some(s) => {
                let (sub, sub_whole) = split_whole(s)?;
                Ok((Reward { reward, sub_reward: Some(sub) }, (whole, Some(sub_whole))))
            },
        }
    }
}

/// A value less its whole units is its remainder modulo 10^18.
pub proof fn lemma_fraction(v: nat)
    ensures
        (v / (WAD as nat)) * (WAD as nat) <= v,
        v - (v / (WAD as nat)) * (WAD as nat) == v % (WAD as nat),
{
    vstd::arithmetic::div_mod::lemma_fundamental_div_mod(v as int, WAD as int);
    vstd::arithmetic::div_mod::lemma_mod_pos_bound(v as int, WAD as int);
    assert((WAD as int) * ((v as int) / (WAD as int)) == ((v as int) / (WAD as int)) * (WAD as int))
        by (nonlinear_arith);
}

/// The stored form of a depositor record: 233 bytes, of which the last 94
/// are reserved. Integers are little-endian; a number is its scaled value in
/// 16 bytes.
///
/// | offset | bytes | field |
/// |---|---|---|
/// | 0 | 1 | version |
/// | 1 | 16 | index at the last settlement |
/// | 17 | 32 | owner |
/// | 49 | 32 | pool |
/// | 81 | 8 | staked amount |
/// | 89 | 16 | unclaimed reward |
/// | 105 | 17 | secondary index at the last settlement, optional |
/// | 122 | 17 | secondary unclaimed reward, optional |
/// | 139 | 94 | reserved |
impl StakeAccount {
    /// Number of bytes of the stored form.
    pub const LEN: usize = 233;

    /// Number of bytes of the stored form that hold fields.
    pub const USED: usize = 139;

    /// Number of bytes of the stored form.
    pub fn get_packed_len() -> (r: usize)
        ensures
            r == 233,
    {
        233
    }

    /// Every number of the record fits its 128-bit field.
    pub open spec fn spec_packable(self) -> bool {
        &&& self.start_rate.reward.spec_packable()
        &&& self.unclaimed_reward_wads.reward.spec_packable()
        &&& option_packable(self.start_rate.sub_reward)
        &&& option_packable(self.unclaimed_reward_wads.sub_reward)
    }

    /// Whether every number of the record fits its 128-bit field.
    pub fn is_packable(&self) -> (r: bool)
        ensures
            r == self.spec_packable(),
    {
        self.start_rate.reward.is_packable() && self.unclaimed_reward_wads.reward.is_packable() && (
        match &self.start_rate.sub_reward {
            Some(d) => d.is_packable(),
            None => true,
        }) && (match &self.unclaimed_reward_wads.sub_reward {
            Some(d) => d.is_packable(),
            None => true,
        })
    }

    /// The 139 bytes that hold the fields.
    pub open spec fn spec_packed(self) -> Seq<u8> {
        seq![self.version] + le_bytes(self.start_rate.reward@, 16) + self.owner@
            + self.pool_pubkey@ + le_bytes(self.deposited_amount as nat, 8) + le_bytes(
            self.unclaimed_reward_wads.reward@,
            16,
        ) + option_decimal_bytes(self.start_rate.sub_reward) + option_decimal_bytes(
            self.unclaimed_reward_wads.sub_reward,
        )
    }

    /// The fields take 139 bytes.
    pub proof fn lemma_packed_len(self)
        ensures
            self.spec_packed().len() == 139,
    {
        self.lemma_field_lens();
    }

    proof fn lemma_field_lens(self)
        ensures
            self.owner@.len() == 32,
            self.pool_pubkey@.len() == 32,
            le_bytes(self.start_rate.reward@, 16).len() == 16,
            le_bytes(self.deposited_amount as nat, 8).len() == 8,
            le_bytes(self.unclaimed_reward_wads.reward@, 16).len() == 16,
            option_decimal_bytes(self.start_rate.sub_reward).len() == 17,
            option_decimal_bytes(self.unclaimed_reward_wads.sub_reward).len() == 17,
    {
        lemma_le_bytes_len(self.start_rate.reward@, 16);
        lemma_le_bytes_len(self.deposited_amount as nat, 8);
        lemma_le_bytes_len(self.unclaimed_reward_wads.reward@, 16);
        if let Some(d) = self.start_rate.sub_reward {
            lemma_le_bytes_len(d@, 16);
        }
        if let Some(d) = self.unclaimed_reward_wads.sub_reward {
            lemma_le_bytes_len(d@, 16);
        }
    }

    /// Writes the fields over the first 139 bytes of `dst` and leaves the
    /// reserved bytes, and whatever follows them, as they were.
    pub fn pack_into_slice(&self, dst: &mut [u8])
        requires
            self.spec_packable(),
            old(dst).len() >= 233,
        ensures
            final(dst)@ == self.spec_packed() + old(dst)@.subrange(139, old(dst).len() as int),
    {
        let mut buf: Vec<u8> = Vec::new();
        let mut number: [u8; 16] = [0u8; 16];
        let mut optional: [u8; 17] = [0u8; 17];
        buf.push(self.version);
        assert(buf@ =~= seq![self.version]);
        self.start_rate.reward.pack_into_slice(&mut number);
        put_array(&mut buf, &number);
        put_array(&mut buf, &self.owner.0);
        put_array(&mut buf, &self.pool_pubkey.0);
        put_le(&mut buf, self.deposited_amount as u128, 8);
        self.unclaimed_reward_wads.reward.pack_into_slice(&mut number);
        put_array(&mut buf, &number);
        pack_option_decimal(&self.start_rate.sub_reward, &mut optional);
        put_array(&mut buf, &optional);
        pack_option_decimal(&self.unclaimed_reward_wads.sub_reward, &mut optional);
        put_array(&mut buf, &optional);
        proof {
            self.lemma_packed_len();
        }
        write_front(dst, &buf);
    }

    /// The record that stored bytes hold. A version this program does not
    /// know, or an optional field whose flag is neither 0 nor 1, makes the
    /// bytes invalid. The reserved bytes are not read.
    pub open spec fn spec_unpack_from_slice(src: Seq<u8>) -> Result<StakeAccount, ProgramError> {
        if src[0] > PROGRAM_VERSION {
            Err(ProgramError::InvalidAccountData)
        } else {
            match (
                spec_unpack_option_decimal(src.subrange(105, 122)),
                spec_unpack_option_decimal(src.subrange(122, 139)),
            ) {
                (Ok(sub_start), Ok(sub_unclaimed)) => Ok(
                    StakeAccount {
                        version: src[0],
                        start_rate: CumulativeRate {
                            reward: Decimal::from_scaled(le_value(src.subrange(1, 17))),
                            sub_reward: sub_start,
                        },
                        owner: Pubkey::spec_from_bytes(src.subrange(17, 49)),
                        pool_pubkey: Pubkey::spec_from_bytes(src.subrange(49, 81)),
                        deposited_amount: le_value(src.subrange(81, 89)) as u64,
                        unclaimed_reward_wads: Reward {
                            reward: Decimal::from_scaled(le_value(src.subrange(89, 105))),
                            sub_reward: sub_unclaimed,
                        },
                        reserve_fields2: vstd::array::spec_array_fill_for_copy_type::<u8, 32>(
                            0u8,
                        ),
                        reserve_fields3: vstd::array::spec_array_fill_for_copy_type::<u8, 32>(
                            0u8,
                        ),
                        reserve_fields4: vstd::array::spec_array_fill_for_copy_type::<u8, 30>(
                            0u8,
                        ),
                    },
                ),
                _ => Err(ProgramError::InvalidAccountData),
            }
        }
    }

    /// Reads a record from at least 233 stored bytes.
    pub fn unpack_from_slice(src: &[u8]) -> (r: Result<StakeAccount, ProgramError>)
        requires
            src.len() >= 233,
        ensures
            r == StakeAccount::spec_unpack_from_slice(src@),
    {
        let version = src[0];
        if version > PROGRAM_VERSION {
            return Err(ProgramError::InvalidAccountData);
        }
        let start = Decimal::unpack_from_slice(&get_array::<16>(src, 1))?;
        let sub_start = unpack_option_decimal(&get_array::<17>(src, 105))?;
        let owner = Pubkey::new_from_array(get_array::<32>(src, 17));
        let pool_pubkey = Pubkey::new_from_array(get_array::<32>(src, 49));
        proof {
            lemma_pow256_values();
            lemma_le_value_bound(src@.subrange(81, 89));
        }
        let deposited_amount = get_le(src, 81, 8) as u64;
        let reward = Decimal::unpack_from_slice(&get_array::<16>(src, 89))?;
        let sub_reward = unpack_option_decimal(&get_array::<17>(src, 122))?;
        Ok(
            StakeAccount {
                version,
                start_rate: CumulativeRate { reward: start, sub_reward: sub_start },
                owner,
                pool_pubkey,
                deposited_amount,
                unclaimed_reward_wads: Reward { reward, sub_reward },
                reserve_fields2: [0u8; 32],
                reserve_fields3: [0u8; 32],
                reserve_fields4: [0u8; 30],
            },
        )
    }

    /// What `pack` leaves in a buffer that held `before`: the fields, then
    /// the reserved bytes as they were. The buffer must have the exact
    /// length, and every number of the record must fit its field.
    pub open spec fn spec_pack(src: StakeAccount, before: Seq<u8>) -> Result<Seq<u8>, ProgramError> {
        if before.len() != 233 {
            Err(ProgramError::InvalidAccountData)
        } else if !src.spec_packable() {
            Err(math_overflow())
        } else {
            Ok(src.spec_packed() + before.subrange(139, 233))
        }
    }

    /// Stores the record in `dst`, or fails and leaves `dst` as it was.
    pub fn pack(src: StakeAccount, dst: &mut [u8]) -> (r: ProgramResult)
        ensures
            match StakeAccount::spec_pack(src, old(dst)@) {
                Ok(bytes) => r == Ok::<(), ProgramError>(()) && final(dst)@ == bytes,
                Err(e) => r == Err::<(), ProgramError>(e) && final(dst)@ == old(dst)@,
            },
    {
        if dst.len() != 233 {
            return Err(ProgramError::InvalidAccountData);
        }
        if !src.is_packable() {
            return Err(ProgramError::Staking(StakingError::MathOverflow));
        }
        src.pack_into_slice(dst);
        Ok(())
    }

    /// The record that a buffer of the exact length holds, initialized or not.
    pub open spec fn spec_unpack_unchecked(input: Seq<u8>) -> Result<StakeAccount, ProgramError> {
        if input.len() != 233 {
            Err(ProgramError::InvalidAccountData)
        } else {
            StakeAccount::spec_unpack_from_slice(input)
        }
    }

    /// Reads a record, initialized or not, from a buffer of the exact length.
    pub fn unpack_unchecked(input: &[u8]) -> (r: Result<StakeAccount, ProgramError>)
        ensures
            r == StakeAccount::spec_unpack_unchecked(input@),
    {
        if input.len() != 233 {
            return Err(ProgramError::InvalidAccountData);
        }
        StakeAccount::unpack_from_slice(input)
    }

    /// The initialized record that a buffer of the exact length holds.
    pub open spec fn spec_unpack(input: Seq<u8>) -> Result<StakeAccount, ProgramError> {
        match StakeAccount::spec_unpack_unchecked(input) {
            Err(e) => Err(e),
            Ok(account) => if account.spec_is_initialized() {
                Ok(account)
            } else {
                Err(ProgramError::UninitializedAccount)
            },
        }
    }

    /// Reads an initialized record from a buffer of the exact length.
    pub fn unpack(input: &[u8]) -> (r: Result<StakeAccount, ProgramError>)
        ensures
            r == StakeAccount::spec_unpack(input@),
    {
        let account = StakeAccount::unpack_unchecked(input)?;
        if account.is_initialized() {
            Ok(account)
        } else {
            Err(ProgramError::UninitializedAccount)
        }
    }

    /// The record with its reserved fields set to zero, as it comes out of
    /// the stored form.
    pub open spec fn spec_stored(self) -> StakeAccount {
        StakeAccount {
            reserve_fields2: vstd::array::spec_array_fill_for_copy_type::<u8, 32>(0u8),
            reserve_fields3: vstd::array::spec_array_fill_for_copy_type::<u8, 32>(0u8),
            reserve_fields4: vstd::array::spec_array_fill_for_copy_type::<u8, 30>(0u8),
            ..self
        }
    }

    /// Reading back what was written gives the record that was written,
    /// whatever follows the fields in the buffer.
    pub proof fn lemma_unpack_packed(self, tail: Seq<u8>)
        requires
            self.spec_packable(),
            self.version <= PROGRAM_VERSION,
        ensures
            StakeAccount::spec_unpack_from_slice(self.spec_packed() + tail) == Ok::<
                StakeAccount,
                ProgramError,
            >(self.spec_stored()),
    {
        let src = self.spec_packed() + tail;
        self.lemma_field_lens();
        lemma_pow256_values();
        assert(src[0] == self.version);
        assert(src.subrange(1, 17) =~= le_bytes(self.start_rate.reward@, 16));
        assert(src.subrange(17, 49) =~= self.owner@);
        assert(src.subrange(49, 81) =~= self.pool_pubkey@);
        assert(src.subrange(81, 89) =~= le_bytes(self.deposited_amount as nat, 8));
        assert(src.subrange(89, 105) =~= le_bytes(self.unclaimed_reward_wads.reward@, 16));
        assert(src.subrange(105, 122) =~= option_decimal_bytes(self.start_rate.sub_reward));
        assert(src.subrange(122, 139) =~= option_decimal_bytes(
            self.unclaimed_reward_wads.sub_reward,
        ));
        Pubkey::lemma_from_bytes(self.owner);
        Pubkey::lemma_from_bytes(self.pool_pubkey);
        lemma_le_value_of_bytes(self.deposited_amount as nat, 8);
        lemma_le_value_of_bytes(self.start_rate.reward@, 16);
        lemma_le_value_of_bytes(self.unclaimed_reward_wads.reward@, 16);
        self.start_rate.reward.lemma_view_bound();
        self.unclaimed_reward_wads.reward.lemma_view_bound();
        lemma_option_decimal_round_trip(self.start_rate.sub_reward);
        lemma_option_decimal_round_trip(self.unclaimed_reward_wads.sub_reward);
    }
}

} // verus!
