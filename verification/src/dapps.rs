//! What the provider adapters compute between their calls: the value a
//! transaction carries, amounts that come in hexadecimal, and the figures of
//! an Across deposit.

use vstd::prelude::*;
use crate::amount::{decimal_text, decimal_value, format_u128, is_decimal, parse_u128};
use crate::text::{owned, str_equal, to_chars};
use crate::utils::is_native;

verus! {

/// The value that a transaction carries: the amount sent where the token
/// sent is the native asset, else nothing.
pub open spec fn carried_value(from_token_address: Seq<char>, amount: Seq<char>) -> Seq<char> {
    if is_native(from_token_address) {
        amount
    } else {
        "0"@
    }
}

/// The value that a transaction carries.
pub fn native_value(from_token_address: &str, amount: &str) -> (value: String)
    ensures
        value@ == carried_value(from_token_address@, amount@),
{
    if str_equal(from_token_address, "0x0000000000000000000000000000000000000000") || str_equal(
        from_token_address,
        "0xeeeeeeeeeeeeeeeeeeeeeeeeeeeeeeeeeeeeeeee",
    ) {
        owned(amount)
    } else {
        owned("0")
    }
}

/// Whether `c` is a hexadecimal digit.
pub open spec fn is_hex(c: char) -> bool {
    ('0' <= c && c <= '9') || ('a' <= c && c <= 'f') || ('A' <= c && c <= 'F')
}

/// The number a hexadecimal digit stands for; 0 for any other character.
pub open spec fn hex_digit_of(c: char) -> nat {
    if '0' <= c && c <= '9' {
        ((c as u8) - 48) as nat
    } else if 'a' <= c && c <= 'f' {
        ((c as u8) - 87) as nat
    } else if 'A' <= c && c <= 'F' {
        ((c as u8) - 55) as nat
    } else {
        0
    }
}

/// Whether every character of `s` is a hexadecimal digit.
pub open spec fn is_hex_text(s: Seq<char>) -> bool {
    forall|i: int| 0 <= i < s.len() ==> is_hex(#[trigger] s[i])
}

/// The number that the digits of `s` write in base sixteen.
pub open spec fn hex_value(s: Seq<char>) -> nat
    decreases s.len(),
{
    if s.len() == 0 {
        0
    } else {
        hex_value(s.drop_last()) * 16 + hex_digit_of(s.last())
    }
}

/// `s` without a `0x` in front.
pub open spec fn without_prefix(s: Seq<char>) -> Seq<char> {
    if s.len() >= 2 && s[0] == '0' && s[1] == 'x' {
        s.subrange(2, s.len() as int)
    } else {
        s
    }
}

/// The number that a hexadecimal text stands for: hexadecimal digits, at
/// least one, with or without `0x` in front, whose value fits 128 bits.
pub open spec fn hex_amount(s: Seq<char>) -> Option<u128> {
    let digits = without_prefix(s);
    if digits.len() > 0 && is_hex_text(digits) && hex_value(digits) <= u128::MAX {
        Some(hex_value(digits) as u128)
    } else {
        None
    }
}

/// A text never stands for less than one of its prefixes.
proof fn lemma_hex_prefix(s: Seq<char>, k: int)
    requires
        0 <= k <= s.len(),
    ensures
        hex_value(s.subrange(0, k)) <= hex_value(s),
    decreases s.len() - k,
{
    if k == s.len() {
        assert(s.subrange(0, k) =~= s);
    } else {
        lemma_hex_prefix(s.drop_last(), k);
        assert(s.drop_last().subrange(0, k) =~= s.subrange(0, k));
    }
}

/// Reads a hexadecimal digit.
fn read_hex_digit(c: char) -> (d: Option<u8>)
    ensures
        d is Some <==> is_hex(c),
        d matches Some(v) ==> v == hex_digit_of(c) && v < 16,
{
    if '0' <= c && c <= '9' {
        Some((c as u8) - 48)
    } else if 'a' <= c && c <= 'f' {
        Some((c as u8) - 87)
    } else if 'A' <= c && c <= 'F' {
        Some((c as u8) - 55)
    } else {
        None
    }
}

/// Reads an amount that is written in hexadecimal.
pub fn parse_hex_amount(s: &str) -> (r: Option<u128>)
    ensures
        r == hex_amount(s@),
{
    let v = to_chars(s);
    let start: usize = if v.len() >= 2 && v[0] == '0' && v[1] == 'x' {
        2
    } else {
        0
    };
    if start == v.len() {
        return None;
    }
    let ghost digits = s@.subrange(start as int, s@.len() as int);
    let mut acc: u128 = 0;
    let mut i: usize = start;
    proof {
        assert(digits.subrange(0, 0) =~= Seq::<char>::empty());
        if start == 0 {
            assert(digits =~= s@);
        }
        assert(without_prefix(s@) == digits);
    }
    while i < v.len()
        invariant
            start <= i <= v.len(),
            start < v.len(),
            v@ == s@,
            digits == s@.subrange(start as int, s@.len() as int),
            without_prefix(s@) == digits,
            is_hex_text(digits.subrange(0, i - start)),
            acc == hex_value(digits.subrange(0, i - start)),
        decreases v.len() - i,
    {
        let c = v[i];
        proof {
            let next = digits.subrange(0, i + 1 - start);
            assert(next.drop_last() =~= digits.subrange(0, i - start));
            assert(next.last() == c);
            assert(digits[i - start] == c);
            lemma_hex_prefix(digits, i + 1 - start);
        }
        let d = match read_hex_digit(c) {
            Some(d) => d,
            None => {
                return None;
            },
        };
        let shifted = match acc.checked_mul(16) {
            Some(x) => x,
            None => {
                return None;
            },
        };
        let grown = match shifted.checked_add(d as u128) {
            Some(x) => x,
            None => {
                return None;
            },
        };
        proof {
            let next = digits.subrange(0, i + 1 - start);
            assert forall|k: int| 0 <= k < next.len() implies is_hex(#[trigger] next[k]) by {
                if k < i - start {
                    assert(next[k] == digits.subrange(0, i - start)[k]);
                }
            }
        }
        acc = grown;
        i = i + 1;
    }
    proof {
        assert(digits.subrange(0, digits.len() as int) =~= digits);
    }
    Some(acc)
}

/// An amount that is written in hexadecimal, in decimal.
pub fn hex_to_decimal(s: &str) -> (r: Option<String>)
    ensures
        match r {
            Some(t) => hex_amount(s@) is Some && t@ == decimal_text(hex_amount(s@)->0 as nat),
            None => hex_amount(s@) is None,
        },
{
    match parse_hex_amount(s) {
        Some(v) => Some(format_u128(v)),
        None => None,
    }
}

/// Why an Across deposit cannot be quoted.
#[derive(Clone, Copy, Debug, PartialEq, Eq)]
pub enum AcrossError {
    InvalidAmount,
    InvalidRelayFee,
    InvalidMinDeposit,
    InvalidMaxDeposit,
    /// The fee is more than the amount.
    FeeExceedsAmount,
    /// The amount is not above the least or not below the most that can be
    /// deposited at once.
    OutOfLimits,
}

/// The number a decimal text stands for, where it fits 128 bits.
pub open spec fn number_of(s: Seq<char>) -> Option<u128> {
    if is_decimal(s) && decimal_value(s) <= u128::MAX {
        Some(decimal_value(s) as u128)
    } else {
        None
    }
}

/// What an Across deposit pays out: the amount less the relay fee, provided
/// that the amount lies strictly between the limits. The first of the four
/// texts that is no number is reported, in the order amount, fee, least,
/// most.
pub open spec fn across_amount_out(
    amount: Seq<char>,
    relay_fee_total: Seq<char>,
    min_deposit: Seq<char>,
    max_deposit_instant: Seq<char>,
) -> Result<u128, AcrossError> {
    match (
        number_of(amount),
        number_of(relay_fee_total),
        number_of(min_deposit),
        number_of(max_deposit_instant),
    ) {
        (None, _, _, _) => Err(AcrossError::InvalidAmount),
        (Some(_), None, _, _) => Err(AcrossError::InvalidRelayFee),
        (Some(_), Some(_), None, _) => Err(AcrossError::InvalidMinDeposit),
        (Some(_), Some(_), Some(_), None) => Err(AcrossError::InvalidMaxDeposit),
        (Some(a), Some(fee), Some(least), Some(most)) => if fee > a {
            Err(AcrossError::FeeExceedsAmount)
        } else if !(a > least && a < most) {
            Err(AcrossError::OutOfLimits)
        } else {
            Ok((a - fee) as u128)
        },
    }
}

/// Computes what an Across deposit pays out.
pub fn quote_across_deposit(
    amount: &str,
    relay_fee_total: &str,
    min_deposit: &str,
    max_deposit_instant: &str,
) -> (r: Result<String, AcrossError>)
    ensures
        match r {
            Ok(t) => across_amount_out(
                amount@,
                relay_fee_total@,
                min_deposit@,
                max_deposit_instant@,
            ) is Ok && t@ == decimal_text(
                across_amount_out(
                    amount@,
                    relay_fee_total@,
                    min_deposit@,
                    max_deposit_instant@,
                )->Ok_0 as nat,
            ),
            Err(e) => across_amount_out(
                amount@,
                relay_fee_total@,
                min_deposit@,
                max_deposit_instant@,
            ) == Err::<u128, AcrossError>(e),
        },
{
    let a = match parse_u128(amount) {
        Some(v) => v,
        None => {
            return Err(AcrossError::InvalidAmount);
        },
    };
    let fee = match parse_u128(relay_fee_total) {
        Some(v) => v,
        None => {
            return Err(AcrossError::InvalidRelayFee);
        },
    };
    let least = match parse_u128(min_deposit) {
        Some(v) => v,
        None => {
            return Err(AcrossError::InvalidMinDeposit);
        },
    };
    let most = match parse_u128(max_deposit_instant) {
        Some(v) => v,
        None => {
            return Err(AcrossError::InvalidMaxDeposit);
        },
    };
    if fee > a {
        return Err(AcrossError::FeeExceedsAmount);
    }
    if !(a > least && a < most) {
        return Err(AcrossError::OutOfLimits);
    }
    Ok(format_u128(a - fee))
}

} // verus!
