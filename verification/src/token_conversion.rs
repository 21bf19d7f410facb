//! Between base units and the decimal notation of a token amount.
//!
//! The arithmetic is that of 96-bit decimal numbers of the crate
//! `rust_decimal`; this module prepares its input and reads its output.

use vstd::prelude::*;
use std::str::FromStr;
use rust_decimal::Decimal;
use crate::amount::{decimal_text, format_u128, pow10};
use crate::fixed_point::pow10_u128;
use crate::text::{owned, split, split_on};

verus! {

/// The most decimals for which ten to their power is a 96-bit decimal.
pub const MAX_DECIMALS: u8 = 28;

/// What dividing the decimal number that `amount` writes by `divisor` gives:
/// the quotient as text, nothing where the quotient cannot be had, or the
/// reason why `amount` is no decimal number.
pub uninterp spec fn decimal_quotient(amount: Seq<char>, divisor: u128) -> Result<
    Option<Seq<char>>,
    Seq<char>,
>;

/// What multiplying the decimal number that `amount` writes by `factor`
/// gives: the product as text, nothing where the product does not fit, or the
/// reason why `amount` is no decimal number.
pub uninterp spec fn decimal_product(amount: Seq<char>, factor: u128) -> Result<
    Option<Seq<char>>,
    Seq<char>,
>;

/// The outcome of a decimal operation by the characters of its texts.
pub open spec fn outcome_view(r: Result<Option<String>, String>) -> Result<
    Option<Seq<char>>,
    Seq<char>,
> {
    match r {
        Ok(Some(t)) => Ok(Some(t@)),
        Ok(None) => Ok(None),
        Err(e) => Err(e@),
    }
}

/// Divides a decimal number given as text by a whole number.
///
/// Trusted: `Decimal::from_str`, `Decimal::from` of a `u128`,
/// `Decimal::checked_div` and the `to_string` of a `Decimal` and of its
/// error, of the crate `rust_decimal`. The result depends on the arguments
/// alone. `Decimal::from` panics from two to the 96 on, which is left out.
#[verifier::external_body]
fn decimal_divide(amount: &str, divisor: u128) -> (r: Result<Option<String>, String>)
    requires
        divisor < 0x1_0000_0000_0000_0000_0000_0000,
    ensures
        outcome_view(r) == decimal_quotient(amount@, divisor),
{
    let value = Decimal::from_str(amount).map_err(|e| e.to_string())?;
    Ok(value.checked_div(Decimal::from(divisor)).map(|q| q.to_string()))
}

/// Multiplies a decimal number given as text by a whole number.
///
/// Trusted: `Decimal::from_str`, `Decimal::from` of a `u128`,
/// `Decimal::checked_mul` and the `to_string` of a `Decimal` and of its
/// error, of the crate `rust_decimal`. The result depends on the arguments
/// alone. `Decimal::from` panics from two to the 96 on, which is left out.
#[verifier::external_body]
fn decimal_multiply(amount: &str, factor: u128) -> (r: Result<Option<String>, String>)
    requires
        factor < 0x1_0000_0000_0000_0000_0000_0000,
    ensures
        outcome_view(r) == decimal_product(amount@, factor),
{
    let value = Decimal::from_str(amount).map_err(|e| e.to_string())?;
    Ok(value.checked_mul(Decimal::from(factor)).map(|p| p.to_string()))
}

/// What a conversion makes of the outcome of its decimal operation: the
/// text where there is one, and an error otherwise.
pub open spec fn converted(
    outcome: Result<Option<Seq<char>>, Seq<char>>,
    overflow: Seq<char>,
) -> Result<Seq<char>, Seq<char>> {
    match outcome {
        Ok(Some(t)) => Ok(t),
        Ok(None) => Err(overflow),
        Err(e) => Err(e),
    }
}

/// A conversion's result by the characters of its texts.
pub open spec fn result_view(r: Result<String, String>) -> Result<Seq<char>, Seq<char>> {
    match r {
        Ok(t) => Ok(t@),
        Err(e) => Err(e@),
    }
}

/// Makes a conversion's result of the outcome of its decimal operation.
pub fn settle(outcome: Result<Option<String>, String>, overflow: &str) -> (r: Result<String, String>)
    ensures
        result_view(r) == converted(outcome_view(outcome), overflow@),
{
    match outcome {
        Ok(Some(t)) => Ok(t),
        Ok(None) => Err(owned(overflow)),
        Err(e) => Err(e),
    }
}

/// The part of a decimal text in front of its point.
pub open spec fn integer_part(text: Seq<char>) -> Seq<char> {
    split(text, '.')[0]
}

/// Cuts a decimal text off at its point.
pub fn take_integer_part(text: &str) -> (out: String)
    ensures
        out@ == integer_part(text@),
{
    let parts = split_on(text, '.');
    proof {
        crate::text::lemma_split_join(text@, '.');
    }
    owned(parts[0].as_str())
}

/// What `format_units` gives: for up to 28 decimals, the amount divided by
/// ten to the decimals, in decimal notation.
pub open spec fn units_formatted(amount: u128, decimals: u8) -> Result<Seq<char>, Seq<char>> {
    if decimals > MAX_DECIMALS {
        Err("Unsupported number of decimals"@)
    } else {
        converted(
            decimal_quotient(decimal_text(amount as nat), pow10(decimals as nat) as u128),
            "Division overflowed"@,
        )
    }
}

/// Writes an amount of base units in the decimal notation of its token.
pub fn format_units(amount: u128, decimals: u8) -> (r: Result<String, String>)
    ensures
        result_view(r) == units_formatted(amount, decimals),
{
    if decimals > MAX_DECIMALS {
        return Err(owned("Unsupported number of decimals"));
    }
    let scale = pow10_u128(decimals as u32);
    proof {
        lemma_pow10_28();
        crate::amount::lemma_pow10_grows(decimals as nat, 28);
    }
    let text = format_u128(amount);
    settle(decimal_divide(text.as_str(), scale), "Division overflowed")
}

/// Ten to the 28 is below two to the 96.
proof fn lemma_pow10_28()
    ensures
        pow10(28) == 10000000000000000000000000000,
        pow10(28) < 0x1_0000_0000_0000_0000_0000_0000,
{
    reveal_with_fuel(pow10, 29);
}

/// What `parse_units` gives: for up to 28 decimals, the whole base units of
/// an amount in decimal notation; a fraction of a base unit is cut off.
pub open spec fn units_parsed(amount: Seq<char>, decimals: u8) -> Result<Seq<char>, Seq<char>> {
    if decimals > MAX_DECIMALS {
        Err("Unsupported number of decimals"@)
    } else {
        match converted(
            decimal_product(amount, pow10(decimals as nat) as u128),
            "Multiplication overflowed"@,
        ) {
            Ok(t) => Ok(integer_part(t)),
            Err(e) => Err(e),
        }
    }
}

/// Reads an amount in the decimal notation of its token into base units.
pub fn parse_units(amount_str: &str, decimals: u8) -> (r: Result<String, String>)
    ensures
        result_view(r) == units_parsed(amount_str@, decimals),
{
    if decimals > MAX_DECIMALS {
        return Err(owned("Unsupported number of decimals"));
    }
    let scale = pow10_u128(decimals as u32);
    proof {
        lemma_pow10_28();
        crate::amount::lemma_pow10_grows(decimals as nat, 28);
    }
    match settle(decimal_multiply(amount_str, scale), "Multiplication overflowed") {
        Ok(t) => Ok(take_integer_part(t.as_str())),
        Err(e) => Err(e),
    }
}

} // verus!
