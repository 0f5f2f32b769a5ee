//! Raw column values and their decoding into text.

use crate::text::{decimal, decimal_text};
use crate::types::{decode_rule, rule_of, DecodeRule};
use vstd::prelude::*;

verus! {

/// One column value as the backend's driver hands it over, before it is made
/// into text.
#[derive(Clone, Debug, PartialEq, Eq)]
pub enum RawValue {
    /// SQL `NULL`.
    Null,
    /// A 16-bit signed integer.
    SmallInt(i16),
    /// A 32-bit signed integer.
    Integer(i32),
    /// A 64-bit signed integer.
    BigInt(i64),
    /// A truth value.
    Boolean(bool),
    /// A floating-point number, held as the shortest decimal text that reads
    /// back to it.
    Float(String),
    /// A date and time of day without a zone: whole seconds since
    /// 1970-01-01 00:00:00, and the nanoseconds after that second.
    Timestamp { seconds: i64, nanoseconds: u32 },
    /// A value in the backend's own text form.
    Text(String),
    /// A value that the driver could not read as the column's type.
    Unreadable,
}

/// The text that chrono's `NaiveDateTime` displays for the instant `seconds`
/// whole seconds and `nanoseconds` nanoseconds after 1970-01-01 00:00:00, or
/// `None` where chrono has no date and time for these numbers.
pub uninterp spec fn naive_datetime_text(seconds: i64, nanoseconds: u32) -> Option<Seq<char>>;

/// The characters of an optional string.
pub open spec fn text_of(value: Option<String>) -> Option<Seq<char>> {
    match value {
        Some(s) => Some(s@),
        None => None,
    }
}

/// What a raw value decodes to under a rule: its text, or `None`, the null
/// marker. SQL `NULL`, an unreadable value and a value of another kind than
/// the rule expects all give the null marker.
pub open spec fn decoded(rule: DecodeRule, raw: RawValue) -> Option<Seq<char>> {
    match (rule, raw) {
        (DecodeRule::SmallInt, RawValue::SmallInt(v)) => Some(decimal(v as int)),
        (DecodeRule::Integer, RawValue::Integer(v)) => Some(decimal(v as int)),
        (DecodeRule::BigInt, RawValue::BigInt(v)) => Some(decimal(v as int)),
        (DecodeRule::Real, RawValue::Float(s)) => Some(s@),
        (DecodeRule::Double, RawValue::Float(s)) => Some(s@),
        (DecodeRule::Boolean, RawValue::Boolean(b)) => Some(
            if b {
                "true"@
            } else {
                "false"@
            },
        ),
        (DecodeRule::Timestamp, RawValue::Timestamp { seconds, nanoseconds }) => {
            naive_datetime_text(seconds, nanoseconds)
        },
        (DecodeRule::Text, RawValue::Text(s)) => Some(s@),
        _ => None,
    }
}

/// Calls chrono's `DateTime::from_timestamp`, takes the date and time without
/// the zone by `naive_utc`, and displays it with `to_string`. The contract
/// claims only that the outcome depends on the two numbers alone.
#[verifier::external_body]
fn format_timestamp(seconds: i64, nanoseconds: u32) -> (text: Option<String>)
    ensures
        text_of(text) == naive_datetime_text(seconds, nanoseconds),
{
    match chrono::DateTime::from_timestamp(seconds, nanoseconds) {
        Some(instant) => Some(instant.naive_utc().to_string()),
        None => None,
    }
}

/// Decodes a raw value under a given rule.
pub fn decode_by(rule: DecodeRule, raw: &RawValue) -> (text: Option<String>)
    ensures
        text_of(text) == decoded(rule, *raw),
{
    match rule {
        DecodeRule::SmallInt => match raw {
            RawValue::SmallInt(v) => Some(decimal_text(*v as i64)),
            _ => None,
        },
        DecodeRule::Integer => match raw {
            RawValue::Integer(v) => Some(decimal_text(*v as i64)),
            _ => None,
        },
        DecodeRule::BigInt => match raw {
            RawValue::BigInt(v) => Some(decimal_text(*v)),
            _ => None,
        },
        DecodeRule::Real => match raw {
            RawValue::Float(s) => Some(s.clone()),
            _ => None,
        },
        DecodeRule::Double => match raw {
            RawValue::Float(s) => Some(s.clone()),
            _ => None,
        },
        DecodeRule::Boolean => match raw {
            RawValue::Boolean(b) => Some(
                if *b {
                    "true".to_owned()
                } else {
                    "false".to_owned()
                },
            ),
            _ => None,
        },
        DecodeRule::Timestamp => match raw {
            RawValue::Timestamp { seconds, nanoseconds } => format_timestamp(
                *seconds,
                *nanoseconds,
            ),
            _ => None,
        },
        DecodeRule::Text => match raw {
            RawValue::Text(s) => Some(s.clone()),
            _ => None,
        },
    }
}

/// Decodes the raw value of a column whose backend type is named `typname`:
/// its text, or `None` for the null marker. A value that cannot be decoded
/// gives the null marker, never an error.
pub fn decode(typname: &str, raw: &RawValue) -> (text: Option<String>)
    ensures
        text_of(text) == decoded(rule_of(typname@), *raw),
{
    decode_by(decode_rule(typname), raw)
}

/// Decoding is a function of the type name and the raw value alone: whatever
/// two decodings of one pair give is the same text, or the null marker both
/// times.
pub proof fn decoding_is_repeatable(
    typname: Seq<char>,
    raw: RawValue,
    first: Option<String>,
    second: Option<String>,
)
    requires
        text_of(first) == decoded(rule_of(typname), raw),
        text_of(second) == decoded(rule_of(typname), raw),
    ensures
        text_of(first) == text_of(second),
{
}

} // verus!
