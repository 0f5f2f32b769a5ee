use octapus_db::types::DecodeRule;
use octapus_db::value::{decode, decode_by, RawValue};

fn text(s: &str) -> Option<String> {
    Some(s.to_string())
}

#[test]
fn int4_holding_42_decodes_to_the_text_42() {
    assert_eq!(decode("int4", &RawValue::Integer(42)), text("42"));
}

#[test]
fn null_int4_decodes_to_the_null_marker() {
    let decoded = decode("int4", &RawValue::Null);
    assert_eq!(decoded, None);
    assert_ne!(decoded, text("0"));
    assert_ne!(decoded, text(""));
}

#[test]
fn integers_decode_to_their_decimal_numerals() {
    assert_eq!(decode("int2", &RawValue::SmallInt(-32768)), text("-32768"));
    assert_eq!(decode("smallint", &RawValue::SmallInt(7)), text("7"));
    assert_eq!(decode("integer", &RawValue::Integer(i32::MIN)), text("-2147483648"));
    assert_eq!(decode("int8", &RawValue::BigInt(i64::MAX)), text("9223372036854775807"));
    assert_eq!(decode("bigint", &RawValue::BigInt(0)), text("0"));
}

#[test]
fn booleans_decode_to_true_and_false() {
    assert_eq!(decode("bool", &RawValue::Boolean(true)), text("true"));
    assert_eq!(decode("boolean", &RawValue::Boolean(false)), text("false"));
}

#[test]
fn floats_decode_to_the_text_they_are_held_as() {
    assert_eq!(decode("float4", &RawValue::Float("1.5".to_string())), text("1.5"));
    assert_eq!(decode("float8", &RawValue::Float("-0.25".to_string())), text("-0.25"));
    assert_eq!(decode("real", &RawValue::Float("NaN".to_string())), text("NaN"));
    assert_eq!(decode("double precision", &RawValue::Float((0.1f64 + 0.2f64).to_string())), text("0.30000000000000004"));
}

#[test]
fn text_decodes_unchanged() {
    assert_eq!(decode("text", &RawValue::Text("hello".to_string())), text("hello"));
    assert_eq!(decode("numeric", &RawValue::Text("12345.678900".to_string())), text("12345.678900"));
    assert_eq!(decode("timestamptz", &RawValue::Text("2024-01-02 03:04:05+00".to_string())), text("2024-01-02 03:04:05+00"));
    assert_eq!(decode("date", &RawValue::Text("2024-01-02".to_string())), text("2024-01-02"));
    assert_eq!(decode("jsonb", &RawValue::Text("{\"a\": 1}".to_string())), text("{\"a\": 1}"));
    assert_eq!(decode("_int4", &RawValue::Text("{1,2,3}".to_string())), text("{1,2,3}"));
    assert_eq!(decode("some_custom_type", &RawValue::Text("x".to_string())), text("x"));
    assert_eq!(decode("text", &RawValue::Text(String::new())), text(""));
}

#[test]
fn timestamps_decode_to_date_and_time_of_day() {
    assert_eq!(
        decode("timestamp", &RawValue::Timestamp { seconds: 0, nanoseconds: 0 }),
        text("1970-01-01 00:00:00")
    );
    assert_eq!(
        decode("timestamp", &RawValue::Timestamp { seconds: 1431648000, nanoseconds: 0 }),
        text("2015-05-15 00:00:00")
    );
    assert_eq!(
        decode("timestamp", &RawValue::Timestamp { seconds: 1442620564, nanoseconds: 0 }),
        text("2015-09-18 23:56:04")
    );
    assert_eq!(
        decode("timestamp", &RawValue::Timestamp { seconds: -1, nanoseconds: 500_000_000 }),
        text("1969-12-31 23:59:59.500")
    );
}

#[test]
fn timestamp_text_is_what_chrono_displays() {
    for (seconds, nanoseconds) in [(0i64, 0u32), (86_399, 999_999_999), (1_700_000_000, 123_456_000), (-86_400, 1)] {
        let expected = chrono::DateTime::from_timestamp(seconds, nanoseconds)
            .map(|t| t.naive_utc().to_string());
        assert!(expected.is_some());
        assert_eq!(decode("timestamp", &RawValue::Timestamp { seconds, nanoseconds }), expected);
    }
}

#[test]
fn timestamp_out_of_range_decodes_to_the_null_marker() {
    assert_eq!(decode("timestamp", &RawValue::Timestamp { seconds: i64::MAX, nanoseconds: 0 }), None);
    assert_eq!(decode("timestamp", &RawValue::Timestamp { seconds: 0, nanoseconds: 2_000_000_000 }), None);
}

#[test]
fn a_value_of_another_kind_decodes_to_the_null_marker() {
    assert_eq!(decode("int4", &RawValue::SmallInt(1)), None);
    assert_eq!(decode("int4", &RawValue::BigInt(1)), None);
    assert_eq!(decode("int4", &RawValue::Text("1".to_string())), None);
    assert_eq!(decode("int2", &RawValue::Integer(1)), None);
    assert_eq!(decode("int8", &RawValue::Integer(1)), None);
    assert_eq!(decode("bool", &RawValue::Integer(1)), None);
    assert_eq!(decode("float4", &RawValue::Text("1.5".to_string())), None);
    assert_eq!(decode("text", &RawValue::Integer(1)), None);
    assert_eq!(decode("text", &RawValue::Boolean(true)), None);
    assert_eq!(decode("text", &RawValue::Float("1.5".to_string())), None);
    assert_eq!(decode("timestamp", &RawValue::Text("2024-01-02 03:04:05".to_string())), None);
    assert_eq!(decode("text", &RawValue::Timestamp { seconds: 0, nanoseconds: 0 }), None);
}

#[test]
fn null_and_unreadable_decode_to_the_null_marker_under_every_rule() {
    for rule in [
        DecodeRule::SmallInt,
        DecodeRule::Integer,
        DecodeRule::BigInt,
        DecodeRule::Real,
        DecodeRule::Double,
        DecodeRule::Boolean,
        DecodeRule::Timestamp,
        DecodeRule::Text,
    ] {
        assert_eq!(decode_by(rule, &RawValue::Null), None);
        assert_eq!(decode_by(rule, &RawValue::Unreadable), None);
    }
}

#[test]
fn decoding_twice_gives_the_same_text() {
    let samples = [
        ("int4", RawValue::Integer(42)),
        ("int4", RawValue::Null),
        ("bool", RawValue::Boolean(true)),
        ("timestamp", RawValue::Timestamp { seconds: 1431648000, nanoseconds: 5 }),
        ("text", RawValue::Text("x".to_string())),
        ("float8", RawValue::Float("2.5".to_string())),
        ("int8", RawValue::Unreadable),
    ];
    for (typname, raw) in samples.iter() {
        assert_eq!(decode(typname, raw), decode(typname, raw));
    }
}

#[test]
fn decode_ignores_the_letter_case_of_the_type() {
    assert_eq!(decode("INT4", &RawValue::Integer(42)), text("42"));
    assert_eq!(decode("Bool", &RawValue::Boolean(true)), text("true"));
}
