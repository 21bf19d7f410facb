//! Base-unit amounts written as decimal digit strings.
//!
//! An amount is a non-negative integer in a token's smallest denomination.
//! It travels as text so that no precision is lost; this module says what
//! number a text stands for, converts between text and `u128`, and orders
//! amounts of any length by their value.

use vstd::prelude::*;
use crate::text::{to_chars, from_chars};

verus! {

/// Whether `c` is one of `0` to `9`.
pub open spec fn is_digit(c: char) -> bool {
    '0' <= c && c <= '9'
}

/// The number a digit stands for; 0 for any other character.
pub open spec fn digit_of(c: char) -> nat {
    if is_digit(c) {
        ((c as u8) - 48) as nat
    } else {
        0
    }
}

/// The digit that stands for `d`, for `d` below ten.
pub open spec fn digit_char(d: nat) -> char
    recommends
        d < 10,
{
    ((d + 48) as u8) as char
}

/// Whether every character of `s` is a digit. The empty text counts.
pub open spec fn is_decimal(s: Seq<char>) -> bool {
    forall|i: int| 0 <= i < s.len() ==> is_digit(#[trigger] s[i])
}

/// The number that the digits of `s` write in base ten; 0 for the empty text.
pub open spec fn decimal_value(s: Seq<char>) -> nat
    decreases s.len(),
{
    if s.len() == 0 {
        0
    } else {
        decimal_value(s.drop_last()) * 10 + digit_of(s.last())
    }
}

/// The shortest decimal text of `n`: no leading zero, and `"0"` for zero.
pub open spec fn decimal_text(n: nat) -> Seq<char>
    decreases n,
{
    if n < 10 {
        seq![digit_char(n)]
    } else {
        decimal_text(n / 10).push(digit_char(n % 10))
    }
}

/// The number an amount text counts as: its decimal value, and 0 for a text
/// that holds anything but digits.
pub open spec fn amount_value(s: Seq<char>) -> nat {
    if is_decimal(s) {
        decimal_value(s)
    } else {
        0
    }
}

/// A text never stands for less than one of its prefixes.
pub proof fn lemma_value_of_prefix(s: Seq<char>, k: int)
    requires
        0 <= k <= s.len(),
    ensures
        decimal_value(s.subrange(0, k)) <= decimal_value(s),
    decreases s.len() - k,
{
    if k == s.len() {
        assert(s.subrange(0, k) =~= s);
    } else {
        lemma_value_of_prefix(s.drop_last(), k);
        assert(s.drop_last().subrange(0, k) =~= s.subrange(0, k));
    }
}

/// The text of a number is made of digits and stands for that number.
pub proof fn lemma_text_round_trip(n: nat)
    ensures
        is_decimal(decimal_text(n)),
        decimal_value(decimal_text(n)) == n,
        decimal_text(n).len() >= 1,
    decreases n,
{
    if n < 10 {
        let t = decimal_text(n);
        assert(t.len() == 1);
        assert(t[0] == digit_char(n));
        assert(t.drop_last() =~= Seq::<char>::empty());
        assert(decimal_value(t.drop_last()) == 0);
    } else {
        lemma_text_round_trip(n / 10);
        let t = decimal_text(n);
        assert(t.drop_last() =~= decimal_text(n / 10));
        assert(t.last() == digit_char(n % 10));
    }
}

/// Reads a digit.
pub fn parse_digit(c: char) -> (d: Option<u8>)
    ensures
        d is Some <==> is_digit(c),
        d matches Some(v) ==> v == digit_of(c) && v < 10,
{
    if '0' <= c && c <= '9' {
        let b: u8 = c as u8;
        Some(b - 48)
    } else {
        None
    }
}

/// Whether a text holds only digits.
pub fn all_digits(s: &str) -> (yes: bool)
    ensures
        yes == is_decimal(s@),
{
    let v = to_chars(s);
    let mut i: usize = 0;
    while i < v.len()
        invariant
            i <= v.len(),
            v@ == s@,
            forall|k: int| 0 <= k < i ==> is_digit(#[trigger] s@[k]),
        decreases v.len() - i,
    {
        if !('0' <= v[i] && v[i] <= '9') {
            proof {
                assert(!is_digit(s@[i as int]));
            }
            return false;
        }
        i = i + 1;
    }
    true
}

/// Reads a decimal text into a `u128`.
///
/// Succeeds exactly when the text holds only digits and its value fits; the
/// empty text reads as 0.
pub fn parse_u128(s: &str) -> (r: Option<u128>)
    ensures
        r is Some <==> is_decimal(s@) && decimal_value(s@) <= u128::MAX,
        r matches Some(v) ==> v == decimal_value(s@),
{
    let v = to_chars(s);
    let mut acc: u128 = 0;
    let mut i: usize = 0;
    proof {
        assert(s@.subrange(0, 0) =~= Seq::<char>::empty());
    }
    while i < v.len()
        invariant
            i <= v.len(),
            v@ == s@,
            is_decimal(s@.subrange(0, i as int)),
            acc == decimal_value(s@.subrange(0, i as int)),
        decreases v.len() - i,
    {
        let c = v[i];
        proof {
            let next = s@.subrange(0, i + 1);
            assert(next.drop_last() =~= s@.subrange(0, i as int));
            assert(next.last() == c);
            lemma_value_of_prefix(s@, i + 1);
        }
        let d = match parse_digit(c) {
            Some(d) => d,
            None => {
                return None;
            },
        };
        let shifted = match acc.checked_mul(10) {
            Some(x) => x,
            None => {
                return None;
            },
        };
        let grown = match shifted.checked_add(d as u128) {
            Some(x) => x,
            None => {
                return None;
            },
        };
        proof {
            let next = s@.subrange(0, i + 1);
            assert forall|k: int| 0 <= k < next.len() implies is_digit(#[trigger] next[k]) by {
                if k < i {
                    assert(next[k] == s@.subrange(0, i as int)[k]);
                }
            }
        }
        acc = grown;
        i = i + 1;
    }
    proof {
        assert(s@.subrange(0, s@.len() as int) =~= s@);
    }
    Some(acc)
}

/// The digits of `n`, most significant first.
fn digits_of(n: u128) -> (out: Vec<char>)
    ensures
        out@ == decimal_text(n as nat),
    decreases n,
{
    if n < 10 {
        let mut out: Vec<char> = Vec::new();
        out.push(((n as u8) + 48) as char);
        proof {
            assert(out@ =~= decimal_text(n as nat));
        }
        out
    } else {
        let mut out = digits_of(n / 10);
        out.push((((n % 10) as u8) + 48) as char);
        out
    }
}

/// Writes `n` in decimal, without leading zeros.
pub fn format_u128(n: u128) -> (out: String)
    ensures
        out@ == decimal_text(n as nat),
{
    let v = digits_of(n);
    from_chars(&v)
}

/// The number that a chain identifier written as text stands for: digits,
/// with or without one `+` in front, whose value fits a `u64`.
pub open spec fn u64_of_text(s: Seq<char>) -> Option<u64> {
    let digits = if s.len() > 0 && s[0] == '+' {
        s.subrange(1, s.len() as int)
    } else {
        s
    };
    if digits.len() > 0 && is_decimal(digits) && decimal_value(digits) <= u64::MAX {
        Some(decimal_value(digits) as u64)
    } else {
        None
    }
}

/// Reads an unsigned 64-bit number from text.
pub fn parse_u64(s: &str) -> (r: Option<u64>)
    ensures
        r == u64_of_text(s@),
{
    let v = to_chars(s);
    let start: usize = if v.len() > 0 && v[0] == '+' {
        1
    } else {
        0
    };
    if start == v.len() {
        return None;
    }
    let ghost digits = s@.subrange(start as int, s@.len() as int);
    let mut acc: u64 = 0;
    let mut i: usize = start;
    let ghost expected = if digits.len() > 0 && is_decimal(digits) && decimal_value(digits)
        <= u64::MAX {
        Some(decimal_value(digits) as u64)
    } else {
        None
    };
    proof {
        assert(digits.subrange(0, 0) =~= Seq::<char>::empty());
        if start == 0 {
            assert(digits =~= s@);
        }
        assert(u64_of_text(s@) == expected);
    }
    while i < v.len()
        invariant
            start <= i <= v.len(),
            start < v.len(),
            v@ == s@,
            digits == s@.subrange(start as int, s@.len() as int),
            u64_of_text(s@) == expected,
            expected == (if digits.len() > 0 && is_decimal(digits) && decimal_value(digits)
                <= u64::MAX {
                Some(decimal_value(digits) as u64)
            } else {
                None::<u64>
            }),
            is_decimal(digits.subrange(0, i - start)),
            acc == decimal_value(digits.subrange(0, i - start)),
        decreases v.len() - i,
    {
        let c = v[i];
        proof {
            let next = digits.subrange(0, i + 1 - start);
            assert(next.drop_last() =~= digits.subrange(0, i - start));
            assert(next.last() == c);
            assert(digits[i - start] == c);
            lemma_value_of_prefix(digits, i + 1 - start);
        }
        let d = match parse_digit(c) {
            Some(d) => d,
            None => {
                return None;
            },
        };
        let shifted = match acc.checked_mul(10) {
            Some(x) => x,
            None => {
                return None;
            },
        };
        let grown = match shifted.checked_add(d as u64) {
            Some(x) => x,
            None => {
                return None;
            },
        };
        proof {
            let next = digits.subrange(0, i + 1 - start);
            assert forall|k: int| 0 <= k < next.len() implies is_digit(#[trigger] next[k]) by {
                if k < i - start {
                    assert(next[k] == digits.subrange(0, i - start)[k]);
                }
            }
        }
        acc = grown;
        i = i + 1;
    }
    proof {
        assert(digits.subrange(0, digits.len() as int) =~= digits);
    }
    Some(acc)
}

/// Ten to the power `n`.
pub open spec fn pow10(n: nat) -> nat
    decreases n,
{
    if n == 0 {
        1
    } else {
        10 * pow10((n - 1) as nat)
    }
}

/// Powers of ten grow with the exponent.
pub proof fn lemma_pow10_grows(a: nat, b: nat)
    requires
        a <= b,
    ensures
        pow10(a) <= pow10(b),
        pow10(a) >= 1,
    decreases b,
{
    if a == 0 {
        if b > 0 {
            lemma_pow10_grows(0, (b - 1) as nat);
        }
    } else {
        lemma_pow10_grows((a - 1) as nat, (b - 1) as nat);
    }
}

/// A text of `n` characters stands for less than ten to the `n`.
pub proof fn lemma_value_below_pow10(s: Seq<char>)
    ensures
        decimal_value(s) < pow10(s.len()),
    decreases s.len(),
{
    if s.len() > 0 {
        lemma_value_below_pow10(s.drop_last());
    }
}

/// A digit text that starts with a digit other than zero stands for at least
/// ten to the number of digits that follow the first.
pub proof fn lemma_value_at_least_pow10(s: Seq<char>)
    requires
        s.len() >= 1,
        is_digit(s[0]),
        s[0] != '0',
    ensures
        decimal_value(s) >= pow10((s.len() - 1) as nat),
    decreases s.len(),
{
    if s.len() == 1 {
        assert(s.drop_last() =~= Seq::<char>::empty());
        assert(decimal_value(s.drop_last()) == 0);
    } else {
        assert(s.drop_last()[0] == s[0]);
        lemma_value_at_least_pow10(s.drop_last());
    }
}

/// Zeros in front do not change what a text stands for.
pub proof fn lemma_leading_zeros(s: Seq<char>, k: int)
    requires
        0 <= k <= s.len(),
        forall|i: int| 0 <= i < k ==> s[i] == '0',
    ensures
        decimal_value(s.subrange(k, s.len() as int)) == decimal_value(s),
    decreases s.len(),
{
    if k == s.len() {
        assert(s.subrange(k, s.len() as int) =~= Seq::<char>::empty());
        if s.len() > 0 {
            lemma_leading_zeros(s.drop_last(), k - 1);
            assert(s.drop_last().subrange(k - 1, s.len() - 1) =~= Seq::<char>::empty());
        }
    } else {
        lemma_leading_zeros(s.drop_last(), k);
        assert(s.subrange(k, s.len() as int).drop_last() =~= s.drop_last().subrange(k, s.len() - 1));
        assert(s.subrange(k, s.len() as int).last() == s.last());
    }
}

/// Of two digit texts of one length that agree up to a position and differ
/// there, the one with the smaller digit at that position stands for less.
pub proof fn lemma_first_difference_decides(a: Seq<char>, b: Seq<char>, k: int)
    requires
        a.len() == b.len(),
        0 <= k < a.len(),
        is_decimal(a),
        is_decimal(b),
        a.subrange(0, k) == b.subrange(0, k),
        digit_of(a[k]) < digit_of(b[k]),
    ensures
        decimal_value(a) < decimal_value(b),
    decreases a.len(),
{
    if k == a.len() - 1 {
        assert(a.drop_last() =~= a.subrange(0, k));
        assert(b.drop_last() =~= b.subrange(0, k));
    } else {
        assert(a.drop_last().subrange(0, k) =~= a.subrange(0, k));
        assert(b.drop_last().subrange(0, k) =~= b.subrange(0, k));
        lemma_first_difference_decides(a.drop_last(), b.drop_last(), k);
    }
}

/// The digits of an amount text that carry its value: the text without its
/// leading zeros, and nothing at all for a text that is no amount.
pub fn significant_digits(s: &str) -> (out: Vec<char>)
    ensures
        is_decimal(out@),
        out@.len() > 0 ==> out@[0] != '0',
        decimal_value(out@) == amount_value(s@),
{
    let v = to_chars(s);
    let mut out: Vec<char> = Vec::new();
    let mut i: usize = 0;
    while i < v.len()
        invariant
            i <= v.len(),
            v@ == s@,
            out@.len() == 0,
            is_decimal(s@.subrange(0, i as int)),
        decreases v.len() - i,
    {
        if !('0' <= v[i] && v[i] <= '9') {
            proof {
                assert(!is_digit(s@[i as int]));
            }
            return out;
        }
        i = i + 1;
        proof {
            let next = s@.subrange(0, i as int);
            assert forall|k: int| 0 <= k < next.len() implies is_digit(#[trigger] next[k]) by {
                if k < i - 1 {
                    assert(next[k] == s@.subrange(0, i - 1)[k]);
                }
            }
        }
    }
    proof {
        assert(s@.subrange(0, s@.len() as int) =~= s@);
    }
    let mut start: usize = 0;
    while start < v.len() && v[start] == '0'
        invariant
            start <= v.len(),
            forall|k: int| 0 <= k < start ==> v@[k] == '0',
        decreases v.len() - start,
    {
        start = start + 1;
    }
    let mut j: usize = start;
    while j < v.len()
        invariant
            start <= j <= v.len(),
            out@ == v@.subrange(start as int, j as int),
        decreases v.len() - j,
    {
        out.push(v[j]);
        j = j + 1;
        proof {
            assert(out@ =~= v@.subrange(start as int, j as int));
        }
    }
    proof {
        lemma_leading_zeros(v@, start as int);
        assert forall|k: int| 0 <= k < out@.len() implies is_digit(#[trigger] out@[k]) by {
            assert(out@[k] == v@[start + k]);
        }
    }
    out
}

/// Whether the first of two texts of significant digits stands for less.
fn digits_less(a: &Vec<char>, b: &Vec<char>) -> (less: bool)
    requires
        is_decimal(a@),
        is_decimal(b@),
        a@.len() > 0 ==> a@[0] != '0',
        b@.len() > 0 ==> b@[0] != '0',
    ensures
        less == (decimal_value(a@) < decimal_value(b@)),
{
    if a.len() < b.len() {
        proof {
            lemma_value_below_pow10(a@);
            lemma_value_at_least_pow10(b@);
            lemma_pow10_grows(a@.len(), (b@.len() - 1) as nat);
        }
        return true;
    }
    if a.len() > b.len() {
        proof {
            lemma_value_below_pow10(b@);
            lemma_value_at_least_pow10(a@);
            lemma_pow10_grows(b@.len(), (a@.len() - 1) as nat);
        }
        return false;
    }
    let mut i: usize = 0;
    while i < a.len()
        invariant
            i <= a.len(),
            a.len() == b.len(),
            is_decimal(a@),
            is_decimal(b@),
            a@.subrange(0, i as int) == b@.subrange(0, i as int),
        decreases a.len() - i,
    {
        if a[i] != b[i] {
            let below = a[i] < b[i];
            proof {
                assert(is_digit(a@[i as int]) && is_digit(b@[i as int]));
                if below {
                    lemma_first_difference_decides(a@, b@, i as int);
                } else {
                    lemma_first_difference_decides(b@, a@, i as int);
                }
            }
            return below;
        }
        i = i + 1;
        proof {
            assert(a@.subrange(0, i as int) =~= a@.subrange(0, i - 1).push(a@[i - 1]));
            assert(b@.subrange(0, i as int) =~= b@.subrange(0, i - 1).push(b@[i - 1]));
        }
    }
    proof {
        assert(a@.subrange(0, a@.len() as int) =~= a@);
        assert(b@.subrange(0, b@.len() as int) =~= b@);
    }
    false
}

/// Whether amount `a` is smaller than amount `b`, by value and for texts of
/// any length.
pub fn amount_less(a: &str, b: &str) -> (less: bool)
    ensures
        less == (amount_value(a@) < amount_value(b@)),
{
    let da = significant_digits(a);
    let db = significant_digits(b);
    digits_less(&da, &db)
}

} // verus!
