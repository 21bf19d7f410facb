//! Exact arithmetic on amounts: scaling by powers of ten, rounding to a
//! number of decimal places, and writing the result as decimal text.
//!
//! Nothing here uses floating point. A product of two amounts can need 256
//! bits; that one step is done on `U256`.

use vstd::prelude::*;
use vstd::arithmetic::div_mod::{lemma_div_denominator, lemma_div_is_ordered_by_denominator};
use ethers_core::types::U256;
use crate::amount::{decimal_text, digit_char, format_u128, lemma_pow10_grows, pow10};
use crate::text::{append_str, from_chars};

verus! {

/// The whole part of `a * b / d`, where it fits 128 bits.
pub open spec fn mul_div(a: nat, b: nat, d: nat) -> Option<u128> {
    if a * b / d <= u128::MAX {
        Some((a * b / d) as u128)
    } else {
        None
    }
}

/// Multiplies two numbers and divides the product, without losing the bits
/// of the product that do not fit 128.
///
/// Trusted: `U256::from`, the multiplication and the division of `U256`, and
/// `u128::try_from` of a `U256`, as the crate `uint` defines them for
/// `ethers_core::types::U256`. The product of two 128-bit numbers fits 256
/// bits, so the multiplication does not overflow; the division rounds down;
/// the conversion fails exactly when the quotient needs more than 128 bits.
#[verifier::external_body]
pub(crate) fn wide_mul_div(a: u128, b: u128, d: u128) -> (q: Option<u128>)
    requires
        d > 0,
    ensures
        q == mul_div(a as nat, b as nat, d as nat),
{
    let wide = U256::from(a) * U256::from(b) / U256::from(d);
    u128::try_from(wide).ok()
}

/// The largest power of ten that is computed in one piece.
pub const MAX_POWER: u32 = 38;

/// Ten to the 38 fits 128 bits.
pub proof fn lemma_pow10_38()
    ensures
        pow10(38) == 100000000000000000000000000000000000000,
        pow10(38) <= u128::MAX,
{
    reveal_with_fuel(pow10, 39);
}

/// Ten to the power `e`.
pub fn pow10_u128(e: u32) -> (p: u128)
    requires
        e <= MAX_POWER,
    ensures
        p == pow10(e as nat),
        p >= 1,
{
    let mut p: u128 = 1;
    let mut i: u32 = 0;
    while i < e
        invariant
            i <= e <= 38,
            p == pow10(i as nat),
            p >= 1,
        decreases e - i,
    {
        proof {
            lemma_pow10_38();
            lemma_pow10_grows((i + 1) as nat, 38);
        }
        p = p * 10;
        i = i + 1;
    }
    p
}

/// The whole part of `a * b` divided by ten to the `k`.
pub open spec fn scaled(a: nat, b: nat, k: nat) -> nat {
    a * b / pow10(k)
}

/// What `scale_down` returns: the scaled product, unless the product divided
/// by ten to the `k`, or to the 38 where `k` is more, needs more than 128
/// bits.
pub open spec fn scale_down_result(a: nat, b: nat, k: nat) -> Option<u128> {
    let tested = if k <= 38 {
        k
    } else {
        38
    };
    if scaled(a, b, tested) <= u128::MAX {
        Some(scaled(a, b, k) as u128)
    } else {
        None
    }
}

/// Powers of ten multiply by adding exponents.
pub proof fn lemma_pow10_adds(a: nat, b: nat)
    ensures
        pow10(a + b) == pow10(a) * pow10(b),
    decreases a,
{
    if a == 0 {
        assert(pow10(0) == 1);
        assert(pow10(a + b) == 1 * pow10(b));
    } else {
        lemma_pow10_adds((a - 1) as nat, b);
        assert(pow10(a + b) == 10 * pow10((a + b - 1) as nat));
        assert(pow10(a) == 10 * pow10((a - 1) as nat));
        assert(10 * (pow10((a - 1) as nat) * pow10(b)) == (10 * pow10((a - 1) as nat)) * pow10(b))
            by (nonlinear_arith);
    }
}

/// Scales a product down by a power of ten, rounding down.
pub fn scale_down(a: u128, b: u128, k: u32) -> (r: Option<u128>)
    ensures
        r == scale_down_result(a as nat, b as nat, k as nat),
{
    if k <= MAX_POWER {
        let d = pow10_u128(k);
        wide_mul_div(a, b, d)
    } else {
        let d = pow10_u128(MAX_POWER);
        let first = match wide_mul_div(a, b, d) {
            Some(y) => y,
            None => {
                return None;
            },
        };
        let rest: u32 = k - MAX_POWER;
        proof {
            let product: nat = a as nat * b as nat;
            lemma_pow10_adds(38, rest as nat);
            lemma_pow10_grows(0, rest as nat);
            lemma_div_denominator(product as int, pow10(38) as int, pow10(rest as nat) as int);
            assert(scaled(a as nat, b as nat, k as nat) == first as nat / pow10(rest as nat));
        }
        if rest > MAX_POWER {
            proof {
                lemma_pow10_38();
                lemma_pow10_grows(38, (rest - 1) as nat);
                assert(pow10(rest as nat) == 10 * pow10((rest - 1) as nat));
                assert(first < pow10(rest as nat));
                assert(first as nat / pow10(rest as nat) == 0) by (nonlinear_arith)
                    requires
                        first < pow10(rest as nat),
                ;
            }
            Some(0)
        } else {
            let e = pow10_u128(rest);
            Some(first / e)
        }
    }
}

/// The number that `y` tenths round to, halves going up.
pub open spec fn rounded_tenths(y: nat) -> nat {
    (y + 5) / 10
}

/// `a * b` divided by ten to the `e`, to the nearest whole, halves going up.
pub open spec fn scaled_nearest(a: nat, b: nat, e: nat) -> nat {
    if e == 0 {
        a * b
    } else {
        rounded_tenths(scaled(a, b, (e - 1) as nat))
    }
}

/// What `scale_nearest` returns: the rounded quotient, unless the quotient
/// with one more digit does not pass `scale_down`.
pub open spec fn scale_nearest_result(a: nat, b: nat, e: nat) -> Option<u128> {
    if e == 0 {
        scale_down_result(a, b, 0)
    } else {
        match scale_down_result(a, b, (e - 1) as nat) {
            Some(y) => Some(rounded_tenths(y as nat) as u128),
            None => None,
        }
    }
}

/// Where `scale_down` returns a number, it is the scaled product.
pub proof fn lemma_scale_down(a: nat, b: nat, k: nat)
    ensures
        scale_down_result(a, b, k) matches Some(r) ==> r == scaled(a, b, k),
{
    if k > 38 {
        lemma_pow10_grows(38, k);
        lemma_pow10_grows(0, 38);
        lemma_div_is_ordered_by_denominator((a * b) as int, pow10(38) as int, pow10(k) as int);
    }
}

/// Where `scale_nearest` returns a number, it is the nearest whole.
pub proof fn lemma_scale_nearest(a: nat, b: nat, e: nat)
    ensures
        scale_nearest_result(a, b, e) matches Some(r) ==> r == scaled_nearest(a, b, e),
{
    if e == 0 {
        assert(pow10(0) == 1);
        lemma_scale_down(a, b, 0);
    } else {
        lemma_scale_down(a, b, (e - 1) as nat);
    }
}

/// Scales a product down by a power of ten, rounding to the nearest whole.
pub fn scale_nearest(a: u128, b: u128, e: u32) -> (r: Option<u128>)
    ensures
        r == scale_nearest_result(a as nat, b as nat, e as nat),
{
    if e == 0 {
        scale_down(a, b, 0)
    } else {
        match scale_down(a, b, e - 1) {
            Some(y) => {
                let up: u128 = if y % 10 >= 5 {
                    1
                } else {
                    0
                };
                Some(y / 10 + up)
            },
            None => None,
        }
    }
}

/// What is left of `to_amount` after the tolerated shortfall, rounded down.
/// The shortfall is in hundredths of a percent; at a hundred percent or more
/// nothing is left.
pub open spec fn min_amount(to_amount: nat, slippage_bps: nat) -> nat {
    if slippage_bps >= 10000 {
        0
    } else {
        to_amount * ((10000 - slippage_bps) as nat) / 10000
    }
}

/// The least amount to accept never exceeds the quoted amount.
pub proof fn lemma_min_amount_bounded(to_amount: nat, slippage_bps: nat)
    ensures
        min_amount(to_amount, slippage_bps) <= to_amount,
        slippage_bps == 0 ==> min_amount(to_amount, slippage_bps) == to_amount,
{
    if slippage_bps < 10000 {
        let keep = (10000 - slippage_bps) as nat;
        assert(to_amount * keep <= to_amount * 10000) by (nonlinear_arith)
            requires
                keep <= 10000,
        ;
        assert(to_amount * 10000 / 10000 == to_amount) by (nonlinear_arith);
        assert(to_amount * keep / 10000 <= to_amount * 10000 / 10000) by (nonlinear_arith)
            requires
                to_amount * keep <= to_amount * 10000,
        ;
    }
}

/// The least amount to accept for a quoted amount and a tolerated shortfall.
pub fn min_after_slippage(to_amount: u128, slippage_bps: u32) -> (least: u128)
    ensures
        least == min_amount(to_amount as nat, slippage_bps as nat),
        least <= to_amount,
{
    proof {
        lemma_min_amount_bounded(to_amount as nat, slippage_bps as nat);
    }
    if slippage_bps >= 10000 {
        return 0;
    }
    let keep: u128 = (10000 - slippage_bps) as u128;
    match wide_mul_div(to_amount, keep, 10000) {
        Some(least) => least,
        None => to_amount,
    }
}

/// The last `width` decimal digits of `m`, with zeros in front where `m` has
/// fewer.
pub open spec fn padded(m: nat, width: nat) -> Seq<char>
    decreases width,
{
    if width == 0 {
        Seq::empty()
    } else {
        padded(m / 10, (width - 1) as nat).push(digit_char(m % 10))
    }
}

/// `n` divided by ten to the `places`, written with exactly `places` digits
/// behind the point, and without a point where `places` is 0.
pub open spec fn fixed_text(n: nat, places: nat) -> Seq<char> {
    if places == 0 {
        decimal_text(n)
    } else {
        decimal_text(n / pow10(places)) + seq!['.'] + padded(n % pow10(places), places)
    }
}

/// The last `width` digits of `m`.
fn pad_digits(m: u128, width: u32) -> (out: Vec<char>)
    ensures
        out@ == padded(m as nat, width as nat),
    decreases width,
{
    if width == 0 {
        Vec::new()
    } else {
        let mut out = pad_digits(m / 10, width - 1);
        out.push((((m % 10) as u8) + 48) as char);
        out
    }
}

/// Writes `n` as a decimal fraction with `places` digits behind the point.
pub fn format_fixed(n: u128, places: u32) -> (out: String)
    requires
        places <= MAX_POWER,
    ensures
        out@ == fixed_text(n as nat, places as nat),
{
    if places == 0 {
        return format_u128(n);
    }
    let unit = pow10_u128(places);
    let whole = format_u128(n / unit);
    let digits = pad_digits(n % unit, places);
    let behind = from_chars(&digits);
    proof {
        reveal_strlit(".");
        assert("."@ =~= seq!['.']);
    }
    let head = append_str(whole.as_str(), ".");
    append_str(head.as_str(), behind.as_str())
}

} // verus!
