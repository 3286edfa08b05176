//! Optional fields in stored records: one flag byte, then a region of fixed
//! width that holds the value, or zeros where there is none.

use crate::codec::{
    get_array, le_bytes, le_value, lemma_le_bytes_len, lemma_le_value_of_bytes, lemma_pow256_values,
    zeros,
};
use crate::error::ProgramError;
use crate::math::decimal::Decimal;
use crate::pubkey::Pubkey;
use vstd::prelude::*;

verus! {

/// The stored form of an optional address.
pub open spec fn option_key_bytes(key: Option<Pubkey>) -> Seq<u8> {
    match key {
        Some(k) => seq![1u8] + k@,
        None => seq![0u8] + zeros(32),
    }
}

/// The optional address that 33 stored bytes hold; a flag other than 0 or 1
/// is invalid.
pub open spec fn spec_unpack_option_key(src: Seq<u8>) -> Result<Option<Pubkey>, ProgramError> {
    if src[0] == 0 {
        Ok(None)
    } else if src[0] == 1 {
        Ok(Some(Pubkey::spec_from_bytes(src.subrange(1, 33))))
    } else {
        Err(ProgramError::InvalidAccountData)
    }
}

/// The stored form of an optional number.
pub open spec fn option_decimal_bytes(d: Option<Decimal>) -> Seq<u8> {
    match d {
        Some(x) => seq![1u8] + le_bytes(x@, 16),
        None => seq![0u8] + zeros(16),
    }
}

/// The optional number that 17 stored bytes hold; a flag other than 0 or 1
/// is invalid.
pub open spec fn spec_unpack_option_decimal(src: Seq<u8>) -> Result<Option<Decimal>, ProgramError> {
    if src[0] == 0 {
        Ok(None)
    } else if src[0] == 1 {
        Ok(Some(Decimal::from_scaled(le_value(src.subrange(1, 17)))))
    } else {
        Err(ProgramError::InvalidAccountData)
    }
}

/// Whether an optional number fits its stored form.
pub open spec fn option_packable(d: Option<Decimal>) -> bool {
    match d {
        Some(x) => x.spec_packable(),
        None => true,
    }
}

/// Writes an optional address into its 33 bytes.
pub fn pack_option_key(src: &Option<Pubkey>, dst: &mut [u8; 33])
    ensures
        final(dst)@ == option_key_bytes(*src),
{
    match src {
        Some(key) => {
            dst[0] = 1;
            let mut i: usize = 0;
            while i < 32
                invariant
                    i <= 32,
                    dst@[0] == 1,
                    forall|j: int| 0 <= j < i ==> dst@[1 + j] == key@[j],
                decreases 32 - i,
            {
                dst[1 + i] = key.0[i];
                i = i + 1;
            }
            assert(dst@ =~= seq![1u8] + key@);
        },
        None => {
            *dst = [0u8; 33];
            assert(dst@ =~= seq![0u8] + zeros(32));
        },
    }
}

/// Reads an optional address from its 33 bytes.
pub fn unpack_option_key(src: &[u8; 33]) -> (r: Result<Option<Pubkey>, ProgramError>)
    ensures
        r == spec_unpack_option_key(src@),
{
    if src[0] == 0 {
        Ok(None)
    } else if src[0] == 1 {
        Ok(Some(Pubkey::new_from_array(get_array::<32>(src.as_slice(), 1))))
    } else {
        Err(ProgramError::InvalidAccountData)
    }
}

/// Writes an optional number into its 17 bytes.
pub fn pack_option_decimal(src: &Option<Decimal>, dst: &mut [u8; 17])
    requires
        option_packable(*src),
    ensures
        final(dst)@ == option_decimal_bytes(*src),
{
    match src {
        Some(x) => {
            let mut field: [u8; 16] = [0u8; 16];
            x.pack_into_slice(&mut field);
            dst[0] = 1;
            let mut i: usize = 0;
            while i < 16
                invariant
                    i <= 16,
                    dst@[0] == 1,
                    forall|j: int| 0 <= j < i ==> dst@[1 + j] == field@[j],
                decreases 16 - i,
            {
                dst[1 + i] = field[i];
                i = i + 1;
            }
            assert(dst@ =~= seq![1u8] + field@);
        },
        None => {
            *dst = [0u8; 17];
            assert(dst@ =~= seq![0u8] + zeros(16));
        },
    }
}

/// Reads an optional number from its 17 bytes.
pub fn unpack_option_decimal(src: &[u8; 17]) -> (r: Result<Option<Decimal>, ProgramError>)
    ensures
        r == spec_unpack_option_decimal(src@),
{
    if src[0] == 0 {
        Ok(None)
    } else if src[0] == 1 {
        let field = get_array::<16>(src.as_slice(), 1);
        let value = Decimal::unpack_from_slice(&field)?;
        Ok(Some(value))
    } else {
        Err(ProgramError::InvalidAccountData)
    }
}

/// Reading back a stored optional address gives the address.
pub proof fn lemma_option_key_round_trip(key: Option<Pubkey>)
    ensures
        option_key_bytes(key).len() == 33,
        spec_unpack_option_key(option_key_bytes(key)) == Ok::<Option<Pubkey>, ProgramError>(key),
{
    if let Some(k) = key {
        Pubkey::lemma_from_bytes(k);
        assert(option_key_bytes(key).subrange(1, 33) =~= k@);
    }
}

/// Reading back a stored optional number gives the number.
pub proof fn lemma_option_decimal_round_trip(d: Option<Decimal>)
    requires
        option_packable(d),
    ensures
        option_decimal_bytes(d).len() == 17,
        spec_unpack_option_decimal(option_decimal_bytes(d)) == Ok::<Option<Decimal>, ProgramError>(
            d,
        ),
{
    if let Some(x) = d {
        lemma_le_bytes_len(x@, 16);
        lemma_pow256_values();
        lemma_le_value_of_bytes(x@, 16);
        x.lemma_view_bound();
        assert(option_decimal_bytes(d).subrange(1, 17) =~= le_bytes(x@, 16));
    }
}

} // verus!
