//! Lenient readers for request fields that callers send as a number or as
//! text.

use vstd::prelude::*;
use crate::amount::{parse_u64, u64_of_text};
use crate::json::{integer_text, write_integer, JsonNumber, JsonValue};
use crate::text::owned;

verus! {

/// The number a text stands for, where it fits 32 bits.
pub open spec fn u32_of_text(s: Seq<char>) -> Option<u32> {
    match u64_of_text(s) {
        Some(n) => if n <= u32::MAX {
            Some(n as u32)
        } else {
            None
        },
        None => None,
    }
}

/// What reading a value as a 32-bit number gives: a whole number that fits,
/// or a text that writes one; else the reason why not.
pub open spec fn as_u32(value: JsonValue) -> Result<u32, Seq<char>> {
    match value {
        JsonValue::Number(JsonNumber::Unsigned(n)) => if n <= u32::MAX {
            Ok(n as u32)
        } else {
            Err("Invalid number for u32"@)
        },
        JsonValue::Number(_) => Err("Invalid number for u32"@),
        JsonValue::Text(s) => match u32_of_text(s@) {
            Some(n) => Ok(n),
            None => Err("Invalid string for u32"@),
        },
        _ => Err("Expected a string or a number"@),
    }
}

/// Reads a text as a 32-bit number.
fn text_to_u32(s: &str) -> (n: Option<u32>)
    ensures
        n == u32_of_text(s@),
{
    match parse_u64(s) {
        Some(n) => {
            if n <= 4294967295 {
                Some(n as u32)
            } else {
                None
            }
        },
        None => None,
    }
}

/// Reads a value that is a number or a text as a 32-bit number.
pub fn string_or_number_to_u32(value: &JsonValue) -> (r: Result<u32, String>)
    ensures
        match r {
            Ok(n) => as_u32(*value) == Ok::<u32, Seq<char>>(n),
            Err(e) => as_u32(*value) == Err::<u32, Seq<char>>(e@),
        },
{
    match value {
        JsonValue::Number(JsonNumber::Unsigned(n)) => {
            if *n <= 4294967295 {
                Ok(*n as u32)
            } else {
                Err(owned("Invalid number for u32"))
            }
        },
        JsonValue::Number(_) => Err(owned("Invalid number for u32")),
        JsonValue::Text(s) => match text_to_u32(s.as_str()) {
            Some(n) => Ok(n),
            None => Err(owned("Invalid string for u32")),
        },
        _ => Err(owned("Expected a string or a number")),
    }
}

/// What reading a value as an optional 32-bit number gives: nothing for the
/// null value, else as for a 32-bit number.
pub open spec fn as_option_u32(value: JsonValue) -> Result<Option<u32>, Seq<char>> {
    match value {
        JsonValue::Null => Ok(None),
        JsonValue::Number(_) => match as_u32(value) {
            Ok(n) => Ok(Some(n)),
            Err(e) => Err(e),
        },
        JsonValue::Text(_) => match as_u32(value) {
            Ok(n) => Ok(Some(n)),
            Err(e) => Err(e),
        },
        _ => Err("Expected a string, number, or null"@),
    }
}

/// Reads a value that is a number, a text or null as an optional 32-bit
/// number.
pub fn string_or_number_to_option_u32(value: &JsonValue) -> (r: Result<Option<u32>, String>)
    ensures
        match r {
            Ok(n) => as_option_u32(*value) == Ok::<Option<u32>, Seq<char>>(n),
            Err(e) => as_option_u32(*value) == Err::<Option<u32>, Seq<char>>(e@),
        },
{
    match value {
        JsonValue::Null => Ok(None),
        JsonValue::Number(_) => match string_or_number_to_u32(value) {
            Ok(n) => Ok(Some(n)),
            Err(e) => Err(e),
        },
        JsonValue::Text(_) => match string_or_number_to_u32(value) {
            Ok(n) => Ok(Some(n)),
            Err(e) => Err(e),
        },
        _ => Err(owned("Expected a string, number, or null")),
    }
}

/// How a number is written.
pub open spec fn number_text(n: JsonNumber) -> Seq<char> {
    match n {
        JsonNumber::Unsigned(v) => integer_text(v as int),
        JsonNumber::Negative(v) => integer_text(v as int),
        JsonNumber::Other(t) => t@,
    }
}

/// What reading a value as text gives: a text itself, a number as it is
/// written; else the reason why not.
pub open spec fn as_text(value: JsonValue) -> Result<Seq<char>, Seq<char>> {
    match value {
        JsonValue::Number(n) => Ok(number_text(n)),
        JsonValue::Text(s) => Ok(s@),
        _ => Err("Expected a string or a number"@),
    }
}

/// Reads a value that is a number or a text as text, so that an amount
/// keeps every digit.
pub fn number_to_string(value: &JsonValue) -> (r: Result<String, String>)
    ensures
        match r {
            Ok(s) => as_text(*value) == Ok::<Seq<char>, Seq<char>>(s@),
            Err(e) => as_text(*value) == Err::<Seq<char>, Seq<char>>(e@),
        },
{
    match value {
        JsonValue::Number(JsonNumber::Unsigned(n)) => Ok(write_integer(false, *n)),
        JsonValue::Number(JsonNumber::Negative(n)) => {
            let magnitude: u64 = if *n == i64::MIN {
                9223372036854775808
            } else if *n < 0 {
                (-*n) as u64
            } else {
                *n as u64
            };
            Ok(write_integer(*n < 0, magnitude))
        },
        JsonValue::Number(JsonNumber::Other(t)) => Ok(owned(t.as_str())),
        JsonValue::Text(s) => Ok(owned(s.as_str())),
        _ => Err(owned("Expected a string or a number")),
    }
}

/// What reading a value as a list of texts gives: a text as the list of
/// itself, an array of texts as its items; else the reason why not.
pub open spec fn as_texts(value: JsonValue) -> Result<Seq<Seq<char>>, Seq<char>> {
    match value {
        JsonValue::Text(s) => Ok(seq![s@]),
        JsonValue::Array(items) => if forall|i: int|
            0 <= i < items@.len() ==> (#[trigger] items@[i]) is Text {
            Ok(Seq::new(items@.len(), |i: int| items@[i]->Text_0@))
        } else {
            Err("invalid type: expected a string"@)
        },
        _ => Err("invalid type: expected a string or a sequence of strings"@),
    }
}

/// Reads a value that is a text or an array of texts as a list of texts.
pub fn string_or_seq(value: &JsonValue) -> (r: Result<Vec<String>, String>)
    ensures
        match r {
            Ok(list) => as_texts(*value) == Ok::<Seq<Seq<char>>, Seq<char>>(
                crate::text::names_view(list@),
            ),
            Err(e) => as_texts(*value) == Err::<Seq<Seq<char>>, Seq<char>>(e@),
        },
{
    match value {
        JsonValue::Text(s) => {
            let mut list: Vec<String> = Vec::new();
            list.push(owned(s.as_str()));
            proof {
                assert(crate::text::names_view(list@) =~= seq![s@]);
            }
            Ok(list)
        },
        JsonValue::Array(items) => {
            let mut list: Vec<String> = Vec::new();
            let mut i: usize = 0;
            while i < items.len()
                invariant
                    i <= items.len(),
                    *value == JsonValue::Array(*items),
                    list@.len() == i,
                    forall|k: int| 0 <= k < i ==> (#[trigger] items@[k]) is Text,
                    forall|k: int| 0 <= k < i ==> (#[trigger] list@[k])@ == items@[k]->Text_0@,
                decreases items.len() - i,
            {
                match &items[i] {
                    JsonValue::Text(s) => {
                        list.push(owned(s.as_str()));
                    },
                    _ => {
                        proof {
                            assert(!(items@[i as int] is Text));
                        }
                        return Err(owned("invalid type: expected a string"));
                    },
                }
                i = i + 1;
            }
            proof {
                assert(crate::text::names_view(list@) =~= Seq::new(
                    items@.len(),
                    |i: int| items@[i]->Text_0@,
                ));
            }
            Ok(list)
        },
        _ => Err(owned("invalid type: expected a string or a sequence of strings")),
    }
}

} // verus!
