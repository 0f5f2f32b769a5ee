//! The type table: from a PostgreSQL type name to the Rust type that holds its
//! values, and from there to the rule by which a column of that type is
//! decoded.

use crate::text::{lowercase, lowercase_is, same_text};
use vstd::prelude::*;

verus! {

/// The Rust type, by name, for a PostgreSQL type name already folded to lower
/// case. Every name that is not listed, among them the textual, numeric,
/// JSON, network and geometric types, is held as a `String`.
pub open spec fn rust_type_of(folded: Seq<char>) -> Seq<char> {
    if folded == "int2"@ || folded == "smallint"@ {
        "i16"@
    } else if folded == "int4"@ || folded == "integer"@ {
        "i32"@
    } else if folded == "int8"@ || folded == "bigint"@ {
        "i64"@
    } else if folded == "oid"@ {
        "u32"@
    } else if folded == "float4"@ || folded == "real"@ {
        "f32"@
    } else if folded == "float8"@ || folded == "double precision"@ {
        "f64"@
    } else if folded == "bool"@ || folded == "boolean"@ {
        "bool"@
    } else if folded == "bytea"@ {
        "Vec<u8>"@
    } else if folded == "date"@ {
        "chrono::NaiveDate"@
    } else if folded == "time"@ || folded == "timetz"@ {
        "chrono::NaiveTime"@
    } else if folded == "timestamp"@ {
        "chrono::NaiveDateTime"@
    } else if folded == "timestamptz"@ {
        "chrono::DateTime<chrono::Utc>"@
    } else if folded == "_int2"@ {
        "Vec<i16>"@
    } else if folded == "_int4"@ {
        "Vec<i32>"@
    } else if folded == "_int8"@ {
        "Vec<i64>"@
    } else if folded == "_float4"@ {
        "Vec<f32>"@
    } else if folded == "_float8"@ {
        "Vec<f64>"@
    } else if folded == "_text"@ || folded == "_varchar"@ || folded == "_uuid"@ {
        "Vec<String>"@
    } else if folded == "_bool"@ {
        "Vec<bool>"@
    } else {
        "String"@
    }
}

/// Returns the Rust type (as a string) for a given PostgreSQL type name,
/// whatever its letter case. Defaults to "String" if unknown.
pub fn rust_type_for_pg(typname: &str) -> (name: &'static str)
    ensures
        name@ == rust_type_of(lowercase(typname@)),
{
    if lowercase_is(typname, "int2") || lowercase_is(typname, "smallint") {
        "i16"
    } else if lowercase_is(typname, "int4") || lowercase_is(typname, "integer") {
        "i32"
    } else if lowercase_is(typname, "int8") || lowercase_is(typname, "bigint") {
        "i64"
    } else if lowercase_is(typname, "oid") {
        "u32"
    } else if lowercase_is(typname, "float4") || lowercase_is(typname, "real") {
        "f32"
    } else if lowercase_is(typname, "float8") || lowercase_is(typname, "double precision") {
        "f64"
    } else if lowercase_is(typname, "bool") || lowercase_is(typname, "boolean") {
        "bool"
    } else if lowercase_is(typname, "bytea") {
        "Vec<u8>"
    } else if lowercase_is(typname, "date") {
        "chrono::NaiveDate"
    } else if lowercase_is(typname, "time") || lowercase_is(typname, "timetz") {
        "chrono::NaiveTime"
    } else if lowercase_is(typname, "timestamp") {
        "chrono::NaiveDateTime"
    } else if lowercase_is(typname, "timestamptz") {
        "chrono::DateTime<chrono::Utc>"
    } else if lowercase_is(typname, "_int2") {
        "Vec<i16>"
    } else if lowercase_is(typname, "_int4") {
        "Vec<i32>"
    } else if lowercase_is(typname, "_int8") {
        "Vec<i64>"
    } else if lowercase_is(typname, "_float4") {
        "Vec<f32>"
    } else if lowercase_is(typname, "_float8") {
        "Vec<f64>"
    } else if lowercase_is(typname, "_text") || lowercase_is(typname, "_varchar") || lowercase_is(
        typname,
        "_uuid",
    ) {
        "Vec<String>"
    } else if lowercase_is(typname, "_bool") {
        "Vec<bool>"
    } else {
        "String"
    }
}

/// How the value of a column is turned into text.
#[derive(Clone, Copy, Debug, PartialEq, Eq, Structural)]
pub enum DecodeRule {
    /// A 16-bit signed integer, written in decimal.
    SmallInt,
    /// A 32-bit signed integer, written in decimal.
    Integer,
    /// A 64-bit signed integer, written in decimal.
    BigInt,
    /// A 32-bit floating-point number, in its shortest decimal form.
    Real,
    /// A 64-bit floating-point number, in its shortest decimal form.
    Double,
    /// A truth value, written `true` or `false`.
    Boolean,
    /// A date and time of day without a zone.
    Timestamp,
    /// The text that the backend gives, unchanged: decimals, dates, times,
    /// JSON, arrays and every type that has no rule of its own.
    Text,
}

/// The rule for values that are held in the Rust type named `rust_type`.
pub open spec fn rule_of_rust_type(rust_type: Seq<char>) -> DecodeRule {
    if rust_type == "i16"@ {
        DecodeRule::SmallInt
    } else if rust_type == "i32"@ {
        DecodeRule::Integer
    } else if rust_type == "i64"@ {
        DecodeRule::BigInt
    } else if rust_type == "f32"@ {
        DecodeRule::Real
    } else if rust_type == "f64"@ {
        DecodeRule::Double
    } else if rust_type == "bool"@ {
        DecodeRule::Boolean
    } else if rust_type == "chrono::NaiveDateTime"@ {
        DecodeRule::Timestamp
    } else {
        DecodeRule::Text
    }
}

/// The rule by which a column of the PostgreSQL type `typname` is decoded.
pub open spec fn rule_of(typname: Seq<char>) -> DecodeRule {
    rule_of_rust_type(rust_type_of(lowercase(typname)))
}

/// The two backends.
#[derive(Clone, Copy, Debug, PartialEq, Eq, Structural)]
pub enum Backend {
    /// The embedded file database. Its columns are read by position, each as
    /// text, whatever type they declare.
    Sqlite,
    /// The network server. Its columns are decoded by the type they report.
    Postgres,
}

/// The rule by which a backend's column of the type `typname` is decoded.
pub open spec fn rule_under(backend: Backend, typname: Seq<char>) -> DecodeRule {
    match backend {
        Backend::Sqlite => DecodeRule::Text,
        Backend::Postgres => rule_of(typname),
    }
}

/// Looks up the decode rule for a column of a backend.
pub fn rule_for(backend: Backend, typname: &str) -> (rule: DecodeRule)
    ensures
        rule == rule_under(backend, typname@),
{
    match backend {
        Backend::Sqlite => DecodeRule::Text,
        Backend::Postgres => decode_rule(typname),
    }
}

/// Looks up the decode rule for a backend type name, whatever its letter
/// case. A type without a rule of its own is decoded as text.
pub fn decode_rule(typname: &str) -> (rule: DecodeRule)
    ensures
        rule == rule_of(typname@),
{
    let rust_type = rust_type_for_pg(typname);
    if same_text(rust_type, "i16") {
        DecodeRule::SmallInt
    } else if same_text(rust_type, "i32") {
        DecodeRule::Integer
    } else if same_text(rust_type, "i64") {
        DecodeRule::BigInt
    } else if same_text(rust_type, "f32") {
        DecodeRule::Real
    } else if same_text(rust_type, "f64") {
        DecodeRule::Double
    } else if same_text(rust_type, "bool") {
        DecodeRule::Boolean
    } else if same_text(rust_type, "chrono::NaiveDateTime") {
        DecodeRule::Timestamp
    } else {
        DecodeRule::Text
    }
}

/// Type names that differ only in the case of ASCII letters have the same
/// Rust type and the same decode rule.
pub proof fn letter_case_is_ignored(a: Seq<char>, b: Seq<char>)
    requires
        lowercase(a) == lowercase(b),
    ensures
        rust_type_of(lowercase(a)) == rust_type_of(lowercase(b)),
        rule_of(a) == rule_of(b),
        rule_of(lowercase(a)) == rule_of(a),
{
    assert(lowercase(lowercase(a)) =~= lowercase(a));
}

} // verus!
