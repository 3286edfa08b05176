//! Unsigned fixed-point numbers with 18 decimal places.
//!
//! A `Decimal` holds its value times 10^18 in 192 bits, wide enough for the
//! product of two 64-bit amounts before the division that follows it. No
//! operation wraps or panics: one whose result does not fit fails.

use crate::codec::{from_le, le_bytes, le_value, to_le};
use crate::error::{math_overflow, ProgramError, StakingError};
use crate::math::uint192::{modulus, U192};
use vstd::prelude::*;

verus! {

/// Number of decimal places.
pub const SCALE: usize = 18;

/// The scaled value of one.
pub const WAD: u64 = 1_000_000_000_000_000_000;

/// The scaled value of one half.
pub const HALF_WAD: u64 = 500_000_000_000_000_000;

/// The scaled value of one percent.
pub const PERCENT_SCALER: u64 = 10_000_000_000_000_000;

/// A fixed-point number; its view is the value times 10^18.
#[derive(Clone, Copy, Debug, PartialEq, Eq, Structural, PartialOrd, Ord, Hash)]
pub struct Decimal(pub U192);

impl View for Decimal {
    type V = nat;

    open spec fn view(&self) -> nat {
        self.0@
    }
}

/// A result of checked arithmetic: the number where it fits in 192 bits.
pub open spec fn checked(n: int) -> Result<Decimal, ProgramError> {
    if 0 <= n < modulus() {
        Ok(Decimal::from_scaled(n as nat))
    } else {
        Err(math_overflow())
    }
}

/// A conversion to whole units: the number where it fits in 64 bits.
pub open spec fn checked_u64(n: nat) -> Result<u64, ProgramError> {
    if n <= u64::MAX {
        Ok(n as u64)
    } else {
        Err(math_overflow())
    }
}

impl Decimal {
    /// The number with a given scaled value below 2^192.
    pub open spec fn from_scaled(n: nat) -> Decimal {
        Decimal(U192::from_nat(n))
    }

    /// Every number has a scaled value below 2^192, and is the only one with it.
    pub proof fn lemma_view_bound(self)
        ensures
            self@ < modulus(),
            Decimal::from_scaled(self@) == self,
    {
        self.0.lemma_view_bound();
    }

    /// `from_scaled` is the inverse of the view.
    pub proof fn lemma_from_scaled(n: nat)
        requires
            n < modulus(),
        ensures
            Decimal::from_scaled(n)@ == n,
    {
        U192::lemma_from_nat(n);
    }

    /// The number one.
    pub fn one() -> (r: Decimal)
        ensures
            r@ == WAD,
    {
        Decimal(U192::from_u64(WAD))
    }

    /// The number zero.
    pub fn zero() -> (r: Decimal)
        ensures
            r@ == 0,
            r == Decimal::from_scaled(0),
    {
        Decimal(U192::zero())
    }

    /// A number of hundredths.
    pub fn from_percent(percent: u8) -> (r: Decimal)
        ensures
            r@ == percent * PERCENT_SCALER,
    {
        Decimal(U192::from_u64((percent as u64) * PERCENT_SCALER))
    }

    /// The number with the given scaled value.
    pub fn from_scaled_val(scaled_val: u128) -> (r: Decimal)
        ensures
            r@ == scaled_val,
            r == Decimal::from_scaled(scaled_val as nat),
    {
        let r = Decimal(U192::from_u128(scaled_val));
        proof {
            r.lemma_view_bound();
        }
        r
    }

    /// The scaled value, where it fits in 128 bits.
    pub open spec fn spec_to_scaled_val(self) -> Result<u128, ProgramError> {
        if self@ <= u128::MAX {
            Ok(self@ as u128)
        } else {
            Err(math_overflow())
        }
    }

    /// The scaled value in 128 bits, or an overflow.
    pub fn to_scaled_val(&self) -> (r: Result<u128, ProgramError>)
        ensures
            r == self.spec_to_scaled_val(),
    {
        match self.0.to_u128() {
            Some(v) => Ok(v),
            None => Err(ProgramError::Staking(StakingError::MathOverflow)),
        }
    }

    /// A whole number of units.
    pub open spec fn spec_from_u64(val: u64) -> Decimal {
        Decimal::from_scaled((val as nat) * (WAD as nat))
    }

    /// A whole number of units.
    pub fn from_u64(val: u64) -> (r: Decimal)
        ensures
            r == Decimal::spec_from_u64(val),
            r@ == val * WAD,
    {
        let r = Decimal(U192::from_u128((val as u128) * (WAD as u128)));
        proof {
            r.lemma_view_bound();
        }
        r
    }

    /// A whole number of units.
    pub fn from_u128(val: u128) -> (r: Decimal)
        ensures
            r@ == val * WAD,
            r == Decimal::from_scaled((val as nat) * (WAD as nat)),
    {
        let hi: u128 = val / 0x1_0000_0000_0000_0000;
        let lo: u128 = val % 0x1_0000_0000_0000_0000;
        let hi_part = U192::from_u128(hi * (WAD as u128));
        let lo_part = U192::from_u128(lo * (WAD as u128));
        let shifted = U192 { hi: hi_part.mid, mid: hi_part.lo, lo: 0 };
        let (sum, carry) = shifted.add_carry(lo_part, false);
        let r = Decimal(sum);
        proof {
            assert(val * WAD == (hi * 0x1_0000_0000_0000_0000 + lo) * WAD);
            assert(shifted@ == (hi * WAD) * 0x1_0000_0000_0000_0000);
            assert(shifted@ + lo_part@ == val * WAD);
            assert(val * WAD < modulus());
            r.lemma_view_bound();
        }
        r
    }

    /// The number rounded to the nearest whole unit, halves upwards.
    pub open spec fn spec_try_round_u64(self) -> Result<u64, ProgramError> {
        if self@ + HALF_WAD < modulus() {
            checked_u64(((self@ + HALF_WAD) as nat) / (WAD as nat))
        } else {
            Err(math_overflow())
        }
    }

    /// Rounds to the nearest whole unit, halves upwards.
    pub fn try_round_u64(&self) -> (r: Result<u64, ProgramError>)
        ensures
            r == self.spec_try_round_u64(),
    {
        let sum = match self.0.checked_add(U192::from_u64(HALF_WAD)) {
            Some(s) => s,
            None => {
                return Err(ProgramError::Staking(StakingError::MathOverflow));
            },
        };
        proof {
            U192::lemma_from_nat((self@ + HALF_WAD) as nat);
        }
        let (q, _) = sum.div_rem_u64(WAD);
        match q.to_u64() {
            Some(v) => Ok(v),
            None => Err(ProgramError::Staking(StakingError::MathOverflow)),
        }
    }

    /// The number rounded up to a whole unit.
    pub open spec fn spec_try_ceil_u64(self) -> Result<u64, ProgramError> {
        if self@ + WAD - 1 < modulus() {
            checked_u64(((self@ + WAD - 1) as nat) / (WAD as nat))
        } else {
            Err(math_overflow())
        }
    }

    /// Rounds up to a whole unit.
    pub fn try_ceil_u64(&self) -> (r: Result<u64, ProgramError>)
        ensures
            r == self.spec_try_ceil_u64(),
    {
        let sum = match self.0.checked_add(U192::from_u64(WAD - 1)) {
            Some(s) => s,
            None => {
                return Err(ProgramError::Staking(StakingError::MathOverflow));
            },
        };
        proof {
            U192::lemma_from_nat((self@ + WAD - 1) as nat);
        }
        let (q, _) = sum.div_rem_u64(WAD);
        match q.to_u64() {
            Some(v) => Ok(v),
            None => Err(ProgramError::Staking(StakingError::MathOverflow)),
        }
    }

    /// The number rounded down to a whole unit.
    pub open spec fn spec_try_floor_u64(self) -> Result<u64, ProgramError> {
        checked_u64(self@ / (WAD as nat))
    }

    /// Rounds down to a whole unit.
    pub fn try_floor_u64(&self) -> (r: Result<u64, ProgramError>)
        ensures
            r == self.spec_try_floor_u64(),
    {
        let (q, _) = self.0.div_rem_u64(WAD);
        match q.to_u64() {
            Some(v) => Ok(v),
            None => Err(ProgramError::Staking(StakingError::MathOverflow)),
        }
    }

    /// The sum, where it fits.
    pub open spec fn spec_try_add(self, rhs: Decimal) -> Result<Decimal, ProgramError> {
        checked((self@ + rhs@) as int)
    }

    /// Adds, or fails on overflow.
    pub fn try_add(self, rhs: Decimal) -> (r: Result<Decimal, ProgramError>)
        ensures
            r == self.spec_try_add(rhs),
    {
        match self.0.checked_add(rhs.0) {
            Some(v) => Ok(Decimal(v)),
            None => Err(ProgramError::Staking(StakingError::MathOverflow)),
        }
    }

    /// The difference, where it is not negative.
    pub open spec fn spec_try_sub(self, rhs: Decimal) -> Result<Decimal, ProgramError> {
        checked(self@ - rhs@)
    }

    /// Subtracts, or fails where the result would be negative.
    pub fn try_sub(self, rhs: Decimal) -> (r: Result<Decimal, ProgramError>)
        ensures
            r == self.spec_try_sub(rhs),
    {
        proof {
            self.lemma_view_bound();
        }
        match self.0.checked_sub(rhs.0) {
            Some(v) => Ok(Decimal(v)),
            None => Err(ProgramError::Staking(StakingError::MathOverflow)),
        }
    }

    /// The product with a whole number, where it fits.
    pub open spec fn spec_try_mul(self, rhs: u64) -> Result<Decimal, ProgramError> {
        checked(self@ * rhs)
    }

    /// Multiplies by a whole number, or fails on overflow.
    pub fn try_mul(self, rhs: u64) -> (r: Result<Decimal, ProgramError>)
        ensures
            r == self.spec_try_mul(rhs),
    {
        proof {
            assert(self@ * rhs >= 0) by (nonlinear_arith);
        }
        match self.0.mul_u64(rhs) {
            Some(v) => Ok(Decimal(v)),
            None => Err(ProgramError::Staking(StakingError::MathOverflow)),
        }
    }

    /// The product of two numbers, rounded down, where the product of their
    /// scaled values fits.
    pub open spec fn spec_try_mul_decimal(self, rhs: Decimal) -> Result<Decimal, ProgramError> {
        if self@ * rhs@ < modulus() {
            Ok(Decimal::from_scaled((self@ * rhs@) / (WAD as nat)))
        } else {
            Err(math_overflow())
        }
    }

    /// Multiplies by a number and rounds down, or fails on overflow.
    pub fn try_mul_decimal(self, rhs: Decimal) -> (r: Result<Decimal, ProgramError>)
        ensures
            r == self.spec_try_mul_decimal(rhs),
    {
        let product = match self.0.checked_mul(rhs.0) {
            Some(p) => p,
            None => {
                return Err(ProgramError::Staking(StakingError::MathOverflow));
            },
        };
        proof {
            U192::lemma_from_nat(self@ * rhs@);
        }
        let (q, _) = product.div_rem_u64(WAD);
        proof {
            q.lemma_view_bound();
        }
        Ok(Decimal(q))
    }

    /// The quotient by a whole number, rounded down; division by zero fails.
    pub open spec fn spec_try_div(self, rhs: u64) -> Result<Decimal, ProgramError> {
        if rhs == 0 {
            Err(math_overflow())
        } else {
            Ok(Decimal::from_scaled(self@ / (rhs as nat)))
        }
    }

    /// Divides by a whole number and rounds down, or fails on division by zero.
    pub fn try_div(self, rhs: u64) -> (r: Result<Decimal, ProgramError>)
        ensures
            r == self.spec_try_div(rhs),
    {
        if rhs == 0 {
            return Err(ProgramError::Staking(StakingError::MathOverflow));
        }
        let (q, _) = self.0.div_rem_u64(rhs);
        proof {
            q.lemma_view_bound();
        }
        Ok(Decimal(q))
    }

    /// The quotient of two numbers, rounded down. It fails where the divisor
    /// is zero or the dividend's scaled value times 10^18 does not fit.
    pub open spec fn spec_try_div_decimal(self, rhs: Decimal) -> Result<Decimal, ProgramError> {
        if self@ * WAD < modulus() && rhs@ != 0 {
            Ok(Decimal::from_scaled((self@ * (WAD as nat)) / rhs@))
        } else {
            Err(math_overflow())
        }
    }

    /// Divides by a number and rounds down, or fails on overflow or division by zero.
    pub fn try_div_decimal(self, rhs: Decimal) -> (r: Result<Decimal, ProgramError>)
        ensures
            r == self.spec_try_div_decimal(rhs),
    {
        let scaled = match self.0.mul_u64(WAD) {
            Some(p) => p,
            None => {
                return Err(ProgramError::Staking(StakingError::MathOverflow));
            },
        };
        proof {
            U192::lemma_from_nat(self@ * (WAD as nat));
        }
        match scaled.checked_div(rhs.0) {
            Some(q) => Ok(Decimal(q)),
            None => Err(ProgramError::Staking(StakingError::MathOverflow)),
        }
    }

    /// Number of bytes of the packed form.
    pub const LEN: usize = 16;

    /// The packed form holds the scaled value in 128 bits.
    pub open spec fn spec_packable(self) -> bool {
        self@ <= u128::MAX
    }

    /// Whether the scaled value fits in 128 bits.
    pub fn is_packable(&self) -> (r: bool)
        ensures
            r == self.spec_packable(),
    {
        self.0.to_u128().is_some()
    }

    /// Writes the scaled value in 16 bytes, least significant first.
    pub fn pack_into_slice(&self, dst: &mut [u8; 16])
        requires
            self.spec_packable(),
        ensures
            final(dst)@ == le_bytes(self@, 16),
    {
        match self.0.to_u128() {
            Some(v) => {
                *dst = to_le::<16>(v);
            },
            None => {},
        }
    }

    /// The number whose scaled value the 16 bytes hold.
    pub fn unpack_from_slice(src: &[u8; 16]) -> (r: Result<Decimal, ProgramError>)
        ensures
            r == Ok::<Decimal, ProgramError>(Decimal::from_scaled(le_value(src@))),
            le_value(src@) <= u128::MAX,
    {
        Ok(Decimal::from_scaled_val(from_le::<16>(src)))
    }

    /// Whether `self` is below `other`.
    pub fn lt(&self, other: &Decimal) -> (r: bool)
        ensures
            r == (self@ < other@),
    {
        self.0.lt(other.0)
    }
}

impl Default for Decimal {
    fn default() -> (r: Decimal)
        ensures
            r@ == 0,
    {
        Decimal::zero()
    }
}

impl From<u64> for Decimal {
    fn from(val: u64) -> (r: Decimal) {
        Decimal::from_u64(val)
    }
}

impl vstd::std_specs::convert::FromSpecImpl<u64> for Decimal {
    open spec fn obeys_from_spec() -> bool {
        true
    }

    open spec fn from_spec(val: u64) -> Decimal {
        Decimal::spec_from_u64(val)
    }
}

} // verus!
