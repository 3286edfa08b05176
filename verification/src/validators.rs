//! Checks of arguments given as text: whether a text is a whole number that
//! fits in 64 bits.

use vstd::prelude::*;
use vstd::string::StrSliceExecFns;
use vstd::string::StringExecFns;

verus! {

/// Whether a character is a decimal digit.
pub open spec fn is_digit(c: char) -> bool {
    '0' <= c <= '9'
}

/// The number that decimal digits stand for.
pub open spec fn digits_value(s: Seq<char>) -> nat
    decreases s.len(),
{
    if s.len() == 0 {
        0
    } else {
        digits_value(s.drop_last()) * 10 + ((s.last() as u32 - '0' as u32) as nat)
    }
}

/// Whether a text is one or more decimal digits that stand for a number of
/// at most `limit`.
pub open spec fn is_decimal_at_most(s: Seq<char>, limit: nat) -> bool {
    &&& s.len() > 0
    &&& forall|i: int| 0 <= i < s.len() ==> is_digit(#[trigger] s[i])
    &&& digits_value(s) <= limit
}

/// Whether a text is an unsigned 64-bit number: decimal digits, with `+`
/// before them or nothing, that stand for a number of at most 2^64 - 1.
pub open spec fn spec_is_u64(s: Seq<char>) -> bool {
    if s.len() > 0 && s[0] == '+' {
        is_decimal_at_most(s.skip(1), u64::MAX as nat)
    } else {
        is_decimal_at_most(s, u64::MAX as nat)
    }
}

/// Whether a text is a signed 64-bit number: decimal digits, with `+` or
/// `-` before them or nothing, that stand for a number from -2^63 to
/// 2^63 - 1.
pub open spec fn spec_is_i64(s: Seq<char>) -> bool {
    if s.len() > 0 && s[0] == '-' {
        is_decimal_at_most(s.skip(1), 0x8000_0000_0000_0000)
    } else if s.len() > 0 && s[0] == '+' {
        is_decimal_at_most(s.skip(1), i64::MAX as nat)
    } else {
        is_decimal_at_most(s, i64::MAX as nat)
    }
}

/// Whether the characters of `s` from `from` on are decimal digits that
/// stand for at most `limit`.
fn decimal_at_most(s: &str, from: usize, limit: u64) -> (r: bool)
    requires
        from <= s@.len(),
    ensures
        r == is_decimal_at_most(s@.skip(from as int), limit as nat),
{
    let n = s.unicode_len();
    let ghost digits = s@.skip(from as int);
    if from == n {
        return false;
    }
    let cap: u128 = (limit as u128) + 1;
    let mut acc: u128 = 0;
    let mut i: usize = from;
    while i < n
        invariant
            from <= i <= n,
            n == s@.len(),
            digits == s@.skip(from as int),
            cap == limit + 1,
            forall|j: int| 0 <= j < i - from ==> is_digit(#[trigger] digits[j]),
            acc == (if digits_value(digits.take(i - from)) > limit {
                cap as nat
            } else {
                digits_value(digits.take(i - from))
            }),
        decreases n - i,
    {
        let c = s.get_char(i);
        let code: u32 = c as u32;
        if code < 48 || code > 57 {
            assert(!is_digit(digits[i - from]));
            return false;
        }
        proof {
            let next = digits.take(i - from + 1);
            assert(next.drop_last() =~= digits.take(i - from));
            assert(next.last() == c);
        }
        let value: u128 = acc * 10 + ((code - 48) as u128);
        acc = if value > (limit as u128) {
            cap
        } else {
            value
        };
        i = i + 1;
    }
    assert(digits.take(n - from) =~= digits);
    acc <= (limit as u128)
}

/// Accepts a text that is a signed 64-bit number, and says what was given
/// where it is not.
pub fn is_i64(amount: &str) -> (r: Result<(), String>)
    ensures
        r is Ok <==> spec_is_i64(amount@),
        r matches Err(message) ==> message@
            == "Unable to parse input amount as integer or float, provided: "@ + amount@,
{
    let n = amount.unicode_len();
    let accepted = if n > 0 && amount.get_char(0) == '-' {
        decimal_at_most(amount, 1, 0x8000_0000_0000_0000)
    } else if n > 0 && amount.get_char(0) == '+' {
        decimal_at_most(amount, 1, 0x7fff_ffff_ffff_ffff)
    } else {
        assert(amount@.skip(0) =~= amount@);
        decimal_at_most(amount, 0, 0x7fff_ffff_ffff_ffff)
    };
    if accepted {
        Ok(())
    } else {
        Err(
            String::from_str(
                "Unable to parse input amount as integer or float, provided: ",
            ).concat(amount),
        )
    }
}

/// Accepts a text that is an unsigned 64-bit number, and says what was
/// given where it is not.
pub fn is_u64(amount: &str) -> (r: Result<(), String>)
    ensures
        r is Ok <==> spec_is_u64(amount@),
        r matches Err(message) ==> message@
            == "Unable to parse input amount as u64 integer, provided: "@ + amount@,
{
    let n = amount.unicode_len();
    let accepted = if n > 0 && amount.get_char(0) == '+' {
        decimal_at_most(amount, 1, 0xffff_ffff_ffff_ffff)
    } else {
        assert(amount@.skip(0) =~= amount@);
        decimal_at_most(amount, 0, 0xffff_ffff_ffff_ffff)
    };
    if accepted {
        Ok(())
    } else {
        Err(String::from_str("Unable to parse input amount as u64 integer, provided: ").concat(amount))
    }
}

} // verus!
