//! A document of structured values, as far as the engine looks into one.

use vstd::prelude::*;
use crate::amount::{decimal_text, format_u128};
use crate::text::append_str;

verus! {

/// A number of a document.
pub enum JsonNumber {
    /// A whole number that is not negative.
    Unsigned(u64),
    /// A whole number below zero.
    Negative(i64),
    /// Any other number, as it is written.
    Other(String),
}

/// A named value of an object.
pub struct Member {
    pub key: String,
    pub value: JsonValue,
}

/// A value of a document.
pub enum JsonValue {
    Null,
    Bool(bool),
    Number(JsonNumber),
    Text(String),
    Array(Vec<JsonValue>),
    Object(Vec<Member>),
}

/// How a whole number is written: in decimal, with a minus sign in front
/// where it is negative.
pub open spec fn integer_text(n: int) -> Seq<char> {
    if n < 0 {
        seq!['-'] + decimal_text((-n) as nat)
    } else {
        decimal_text(n as nat)
    }
}

/// Whether `after` is `before` with its whole numbers written as text: a
/// whole number becomes the text that writes it, the members of an object are
/// treated likewise under their names, and every other value, the items of
/// an array among them, stays as it is.
pub open spec fn big_ints_serialized(before: JsonValue, after: JsonValue) -> bool
    decreases before,
{
    match before {
        JsonValue::Number(JsonNumber::Unsigned(n)) => match after {
            JsonValue::Text(t) => t@ == integer_text(n as int),
            _ => false,
        },
        JsonValue::Number(JsonNumber::Negative(n)) => match after {
            JsonValue::Text(t) => t@ == integer_text(n as int),
            _ => false,
        },
        JsonValue::Object(members) => match after {
            JsonValue::Object(out) => {
                &&& out@.len() == members@.len()
                &&& forall|i: int|
                    0 <= i < members@.len() ==> (#[trigger] out@[i]).key == members@[i].key
                        && big_ints_serialized(members@[i].value, out@[i].value)
            },
            _ => false,
        },
        _ => after == before,
    }
}

/// Writes a whole number.
pub fn write_integer(negative: bool, magnitude: u64) -> (out: String)
    ensures
        out@ == (if negative {
            seq!['-'] + decimal_text(magnitude as nat)
        } else {
            decimal_text(magnitude as nat)
        }),
{
    let digits = format_u128(magnitude as u128);
    if negative {
        proof {
            reveal_strlit("-");
            assert("-"@ =~= seq!['-']);
        }
        append_str("-", digits.as_str())
    } else {
        digits
    }
}

/// Replaces the whole numbers of a document by the text that writes them,
/// in the document itself and in the members of objects, at any depth.
pub fn serialize_big_ints(data: &mut JsonValue)
    ensures
        big_ints_serialized(*old(data), *final(data)),
    decreases *old(data),
{
    let ghost before = *data;
    match data {
        JsonValue::Object(members) => {
            let ghost held = *members;
            let ghost was = members@;
            let mut i: usize = 0;
            while i < members.len()
                invariant
                    i <= members.len(),
                    members@.len() == was.len(),
                    before == JsonValue::Object(held),
                    before == *old(data),
                    was == held@,
                    forall|k: int|
                        0 <= k < i ==> (#[trigger] members@[k]).key == was[k].key
                            && big_ints_serialized(was[k].value, members@[k].value),
                    forall|k: int| i <= k < members@.len() ==> (#[trigger] members@[k]) == was[k],
                decreases members.len() - i,
            {
                proof {
                    assert(members@[i as int] == was[i as int]);
                    assert(before->Object_0 == held);
                    assert(decreases_to!(before => before->Object_0@[i as int].value));
                }
                serialize_big_ints(&mut members[i].value);
                i = i + 1;
            }
        },
        JsonValue::Number(JsonNumber::Unsigned(n)) => {
            let text = write_integer(false, *n);
            *data = JsonValue::Text(text);
        },
        JsonValue::Number(JsonNumber::Negative(n)) => {
            let magnitude: u64 = if *n == i64::MIN {
                9223372036854775808
            } else if *n < 0 {
                (-*n) as u64
            } else {
                *n as u64
            };
            let text = write_integer(*n < 0, magnitude);
            *data = JsonValue::Text(text);
        },
        _ => {},
    }
}

} // verus!
