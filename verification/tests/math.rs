use port_finance_staking::error::{ProgramError, StakingError};
use port_finance_staking::math::decimal::{Decimal, HALF_WAD, PERCENT_SCALER, WAD};
use port_finance_staking::math::uint192::U192;

const OVERFLOW: ProgramError = ProgramError::Staking(StakingError::MathOverflow);

fn max192() -> U192 {
    U192 { hi: u64::MAX, mid: u64::MAX, lo: u64::MAX }
}

fn scaled(v: u128) -> Decimal {
    Decimal::from_scaled_val(v)
}

#[test]
fn u192_add_carries_across_limbs() {
    let a = U192 { hi: 0, mid: u64::MAX, lo: u64::MAX };
    let one = U192::from_u64(1);
    assert_eq!(a.checked_add(one), Some(U192 { hi: 1, mid: 0, lo: 0 }));
    assert_eq!(max192().checked_add(one), None);
    assert_eq!(max192().checked_add(U192::zero()), Some(max192()));
}

#[test]
fn u192_sub_borrows_across_limbs() {
    let a = U192 { hi: 1, mid: 0, lo: 0 };
    let one = U192::from_u64(1);
    assert_eq!(a.checked_sub(one), Some(U192 { hi: 0, mid: u64::MAX, lo: u64::MAX }));
    assert_eq!(U192::zero().checked_sub(one), None);
    assert_eq!(a.checked_sub(a), Some(U192::zero()));
}

#[test]
fn u192_mul_matches_u128_products() {
    let a: u128 = 0xffff_ffff_ffff_ffff;
    let p = U192::from_u128(a).checked_mul(U192::from_u128(a)).unwrap();
    assert_eq!(p.to_u128(), Some(a * a));
    // (2^64)^2 = 2^128
    let b = U192 { hi: 0, mid: 1, lo: 0 };
    assert_eq!(b.checked_mul(b), Some(U192 { hi: 1, mid: 0, lo: 0 }));
    // 2^128 * 2^64 = 2^192 does not fit
    let c = U192 { hi: 1, mid: 0, lo: 0 };
    assert_eq!(c.checked_mul(b), None);
    assert_eq!(max192().checked_mul(U192::from_u64(1)), Some(max192()));
    assert_eq!(max192().checked_mul(U192::from_u64(2)), None);
    assert_eq!(max192().checked_mul(U192::zero()), Some(U192::zero()));
}

#[test]
fn u192_mul_u64_and_shift() {
    let a = U192 { hi: 0, mid: 0, lo: u64::MAX };
    assert_eq!(a.mul_u64(u64::MAX).unwrap().to_u128(), Some((u64::MAX as u128) * (u64::MAX as u128)));
    assert_eq!(U192 { hi: 1, mid: 2, lo: 3 }.shl_limb(), None);
    assert_eq!(U192 { hi: 0, mid: 2, lo: 3 }.shl_limb(), Some(U192 { hi: 2, mid: 3, lo: 0 }));
}

#[test]
fn u192_division_by_one_limb() {
    let a = U192 { hi: 7, mid: 11, lo: 13 };
    let (q, r) = a.div_rem_u64(1);
    assert_eq!((q, r), (a, 0));
    let (q, r) = U192::from_u128(1_000_000_000_000_000_000_000_007).div_rem_u64(1_000_000_000);
    assert_eq!(q.to_u128(), Some(1_000_000_000_000_000));
    assert_eq!(r, 7);
    // 2^128 / 3 = 0x5555...5555 (128 bits) remainder 1
    let (q, r) = U192 { hi: 1, mid: 0, lo: 0 }.div_rem_u64(3);
    assert_eq!(q, U192 { hi: 0, mid: 0x5555_5555_5555_5555, lo: 0x5555_5555_5555_5555 });
    assert_eq!(r, 1);
}

#[test]
fn u192_long_division() {
    let a = U192 { hi: 0x1234, mid: 0x5678, lo: 0x9abc };
    let d = U192 { hi: 0, mid: 3, lo: 5 };
    let (q, r) = a.div_rem(d);
    // q * d + r == a and r < d
    let back = q.checked_mul(d).unwrap().checked_add(r).unwrap();
    assert_eq!(back, a);
    assert!(r.lt(d));
    // dividing by a larger number gives zero
    let (q, r) = d.div_rem(a);
    assert_eq!(q, U192::zero());
    assert_eq!(r, d);
    // the largest divisor
    let (q, r) = max192().div_rem(max192());
    assert_eq!(q, U192::from_u64(1));
    assert_eq!(r, U192::zero());
    let top = U192 { hi: 0x8000_0000_0000_0000, mid: 0, lo: 1 };
    let (q, r) = max192().div_rem(top);
    assert_eq!(q, U192::from_u64(1));
    assert_eq!(r, U192 { hi: 0x7fff_ffff_ffff_ffff, mid: u64::MAX, lo: u64::MAX - 1 });
    assert_eq!(a.checked_div(U192::zero()), None);
    assert_eq!(U192::from_u128(100).checked_div(U192::from_u128(7)), Some(U192::from_u64(14)));
}

#[test]
fn u192_agrees_with_u128_arithmetic() {
    let samples: [u128; 7] = [
        0,
        1,
        999,
        0xffff_ffff_ffff_ffff,
        0x1_0000_0000_0000_0000,
        0xdead_beef_0123_4567_89ab_cdef,
        u128::MAX / 3,
    ];
    for &x in samples.iter() {
        for &y in samples.iter() {
            let a = U192::from_u128(x);
            let b = U192::from_u128(y);
            assert_eq!(a.lt(b), x < y);
            assert_eq!(a.checked_add(b).unwrap().to_u128(), x.checked_add(y));
            match a.checked_sub(b) {
                Some(d) => assert_eq!(d.to_u128(), Some(x - y)),
                None => assert!(x < y),
            }
            if y != 0 {
                let (q, r) = a.div_rem(b);
                assert_eq!(q.to_u128(), Some(x / y));
                assert_eq!(r.to_u128(), Some(x % y));
            }
            if let Some(p) = x.checked_mul(y) {
                assert_eq!(a.checked_mul(b).unwrap().to_u128(), Some(p));
            }
        }
    }
}

#[test]
fn u192_order_is_numeric() {
    let small = U192 { hi: 0, mid: 9, lo: 9 };
    let big = U192 { hi: 1, mid: 0, lo: 0 };
    assert!(small < big);
    assert!(small.lt(big));
    assert!(!big.lt(small));
    assert!(!big.lt(big));
    assert!(U192 { hi: 0, mid: 1, lo: 0 } > U192 { hi: 0, mid: 0, lo: u64::MAX });
}

#[test]
fn u192_conversions() {
    assert_eq!(U192::from_u64(5).to_u64(), Some(5));
    assert_eq!(U192 { hi: 0, mid: 1, lo: 0 }.to_u64(), None);
    assert_eq!(U192::from_u128(u128::MAX).to_u128(), Some(u128::MAX));
    assert_eq!(U192 { hi: 1, mid: 0, lo: 0 }.to_u128(), None);
    assert!(U192::zero().is_zero());
    assert!(!U192::from_u64(1).is_zero());
}

#[test]
fn decimal_constants() {
    assert_eq!(WAD, 1_000_000_000_000_000_000);
    assert_eq!(HALF_WAD, WAD / 2);
    assert_eq!(PERCENT_SCALER, WAD / 100);
    assert_eq!(Decimal::one(), scaled(WAD as u128));
    assert_eq!(Decimal::zero(), scaled(0));
    assert_eq!(Decimal::default(), Decimal::zero());
    assert_eq!(Decimal::LEN, 16);
}

#[test]
fn decimal_from_whole_and_percent() {
    assert_eq!(Decimal::from_u64(3), scaled(3 * WAD as u128));
    assert_eq!(Decimal::from(3u64), scaled(3 * WAD as u128));
    assert_eq!(Decimal::from_u64(u64::MAX).to_scaled_val(), Ok(u64::MAX as u128 * WAD as u128));
    assert_eq!(Decimal::from_percent(5), scaled(50_000_000_000_000_000));
    assert_eq!(Decimal::from_percent(100), Decimal::one());
    assert_eq!(Decimal::from_percent(255), scaled(2_550_000_000_000_000_000));
    // u128::MAX whole units need more than 128 bits
    let big = Decimal::from_u128(u128::MAX);
    assert_eq!(big.to_scaled_val(), Err(OVERFLOW));
    assert_eq!(big.try_div(WAD), Ok(Decimal::from_scaled_val(u128::MAX)));
}

#[test]
fn decimal_rounding() {
    let x = scaled(2 * WAD as u128 + 499_999_999_999_999_999);
    assert_eq!(x.try_floor_u64(), Ok(2));
    assert_eq!(x.try_round_u64(), Ok(2));
    assert_eq!(x.try_ceil_u64(), Ok(3));
    let half = scaled(2 * WAD as u128 + HALF_WAD as u128);
    assert_eq!(half.try_round_u64(), Ok(3));
    let whole = scaled(7 * WAD as u128);
    assert_eq!(whole.try_floor_u64(), Ok(7));
    assert_eq!(whole.try_ceil_u64(), Ok(7));
    assert_eq!(whole.try_round_u64(), Ok(7));
    assert_eq!(Decimal::zero().try_ceil_u64(), Ok(0));
    // more whole units than 64 bits hold
    let big = Decimal::from_u128(u64::MAX as u128 + 1);
    assert_eq!(big.try_floor_u64(), Err(OVERFLOW));
    assert_eq!(big.try_ceil_u64(), Err(OVERFLOW));
    assert_eq!(big.try_round_u64(), Err(OVERFLOW));
    assert_eq!(Decimal::from_u64(u64::MAX).try_floor_u64(), Ok(u64::MAX));
    // the largest number cannot be rounded up
    let top = Decimal(U192 { hi: u64::MAX, mid: u64::MAX, lo: u64::MAX });
    assert_eq!(top.try_ceil_u64(), Err(OVERFLOW));
    assert_eq!(top.try_round_u64(), Err(OVERFLOW));
}

#[test]
fn decimal_add_and_sub() {
    let a = Decimal::from_u64(5);
    let b = Decimal::from_percent(50);
    assert_eq!(a.try_add(b), Ok(scaled(5_500_000_000_000_000_000)));
    assert_eq!(a.try_sub(b), Ok(scaled(4_500_000_000_000_000_000)));
    assert_eq!(b.try_sub(a), Err(OVERFLOW));
    assert_eq!(a.try_sub(a), Ok(Decimal::zero()));
    let top = Decimal(U192 { hi: u64::MAX, mid: u64::MAX, lo: u64::MAX });
    assert_eq!(top.try_add(scaled(1)), Err(OVERFLOW));
    assert_eq!(top.try_add(Decimal::zero()), Ok(top));
}

#[test]
fn decimal_mul_and_div_by_whole_numbers() {
    let rate = Decimal::from_u64(100).try_div(1000).unwrap();
    assert_eq!(rate, Decimal::from_percent(10));
    assert_eq!(rate.try_mul(100), Ok(Decimal::from_u64(10)));
    assert_eq!(Decimal::from_u64(1).try_div(3), Ok(scaled(333_333_333_333_333_333)));
    assert_eq!(Decimal::from_u64(1).try_div(0), Err(OVERFLOW));
    assert_eq!(Decimal::zero().try_div(0), Err(OVERFLOW));
    let top = Decimal(U192 { hi: u64::MAX, mid: u64::MAX, lo: u64::MAX });
    assert_eq!(top.try_mul(2), Err(OVERFLOW));
    assert_eq!(top.try_mul(1), Ok(top));
    assert_eq!(top.try_mul(0), Ok(Decimal::zero()));
}

#[test]
fn decimal_mul_and_div_by_decimals() {
    let a = Decimal::from_percent(150);
    let b = Decimal::from_percent(50);
    assert_eq!(a.try_mul_decimal(b), Ok(Decimal::from_percent(75)));
    assert_eq!(a.try_div_decimal(b), Ok(Decimal::from_u64(3)));
    assert_eq!(a.try_div_decimal(Decimal::zero()), Err(OVERFLOW));
    // rounding is downwards: 1 / 3 * 3 < 1
    let third = Decimal::one().try_div_decimal(Decimal::from_u64(3)).unwrap();
    assert_eq!(third, scaled(333_333_333_333_333_333));
    assert_eq!(third.try_mul_decimal(Decimal::from_u64(3)), Ok(scaled(999_999_999_999_999_999)));
    // the product of two 64-bit amounts fits before the division
    let m = Decimal::from_u64(u64::MAX);
    assert_eq!(
        m.try_mul_decimal(Decimal::from_u64(2)).unwrap().to_scaled_val(),
        Ok(2 * (u64::MAX as u128) * (WAD as u128))
    );
    // a dividend that no longer fits once scaled up fails
    let wide = Decimal(U192 { hi: 1 << 62, mid: 0, lo: 0 });
    assert_eq!(wide.try_div_decimal(Decimal::one()), Err(OVERFLOW));
    assert_eq!(wide.try_div(1), Ok(wide));
}

#[test]
fn decimal_order() {
    assert!(Decimal::from_percent(99).lt(&Decimal::one()));
    assert!(!Decimal::one().lt(&Decimal::one()));
    assert!(Decimal::from_percent(99) < Decimal::one());
    assert!(Decimal::from_u128(u128::MAX) > Decimal::from_u64(u64::MAX));
}

#[test]
fn decimal_packs_scaled_value_little_endian() {
    let mut field = [0xffu8; 16];
    Decimal::from_u64(1).pack_into_slice(&mut field);
    assert_eq!(field, (WAD as u128).to_le_bytes());
    assert_eq!(Decimal::unpack_from_slice(&field), Ok(Decimal::one()));
    let all = [0xffu8; 16];
    assert_eq!(Decimal::unpack_from_slice(&all), Ok(Decimal::from_scaled_val(u128::MAX)));
    assert!(Decimal::from_scaled_val(u128::MAX).is_packable());
    assert!(!Decimal::from_u128(u128::MAX).is_packable());
}

#[test]
fn error_codes_and_messages() {
    assert_eq!(StakingError::InstructionUnpackError.code(), 0);
    assert_eq!(StakingError::MathOverflow.code(), 3);
    assert_eq!(StakingError::StakeDepositsZero.code(), 4);
    assert_eq!(StakingError::InvalidCurrentTimeError.code(), 9);
    assert_eq!(StakingError::InvalidSigner.code(), 14);
    assert_eq!(StakingError::ReduceRewardTooMuch.code(), 25);
    assert_eq!(StakingError::AlreadyHasSubReward.code(), 26);
    for code in 0..27u32 {
        let e = StakingError::from_code(code).unwrap();
        assert_eq!(e.code(), code);
        assert!(!e.message().is_empty());
    }
    assert_eq!(StakingError::from_code(27), None);
    assert_eq!(StakingError::MathOverflow.message(), "Math operation overflow");
    assert_eq!(
        StakingError::ReduceRewardTooMuch.message(),
        "Cannot reduce reward smaller than zero"
    );
    assert_eq!(StakingError::type_of(), "Staking Error");
    assert_eq!(ProgramError::from(StakingError::InvalidSigner), ProgramError::Staking(StakingError::InvalidSigner));
    assert_eq!(ProgramError::Staking(StakingError::InvalidSigner).custom_code(), Some(14));
    assert_eq!(ProgramError::InvalidAccountData.custom_code(), None);
}
