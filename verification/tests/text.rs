use octapus_db::text::{
    chars_of, decimal_text, is_space_char, lower_char, lowercase_is, parse_i32, same_text,
    split_on, trim,
};

#[test]
fn same_text_compares_every_character() {
    assert!(same_text("int4", "int4"));
    assert!(!same_text("int4", "int8"));
    assert!(!same_text("int4", "int"));
    assert!(!same_text("int", "int4"));
    assert!(same_text("", ""));
}

#[test]
fn lowercase_is_folds_ascii_capitals_only() {
    assert!(lowercase_is("INT4", "int4"));
    assert!(lowercase_is("Double Precision", "double precision"));
    assert!(!lowercase_is("int4", "INT4"));
    assert!(!lowercase_is("\u{c9}", "\u{e9}"));
    assert!(lowercase_is("\u{c9}", "\u{c9}"));
}

#[test]
fn lower_char_maps_capitals_to_small_letters() {
    assert_eq!(lower_char('A'), 'a');
    assert_eq!(lower_char('Z'), 'z');
    assert_eq!(lower_char('m'), 'm');
    assert_eq!(lower_char('@'), '@');
    assert_eq!(lower_char('['), '[');
    assert_eq!(lower_char('4'), '4');
}

#[test]
fn chars_of_lists_the_characters() {
    assert_eq!(chars_of("a\u{e9}b"), vec!['a', '\u{e9}', 'b']);
    assert_eq!(chars_of(""), Vec::<char>::new());
}

#[test]
fn decimal_text_writes_numerals() {
    assert_eq!(decimal_text(42), "42");
    assert_eq!(decimal_text(0), "0");
    assert_eq!(decimal_text(-7), "-7");
    assert_eq!(decimal_text(5432), "5432");
    assert_eq!(decimal_text(1000), "1000");
    assert_eq!(decimal_text(i64::MAX), "9223372036854775807");
    assert_eq!(decimal_text(i64::MIN), "-9223372036854775808");
}

#[test]
fn decimal_text_agrees_with_the_standard_formatting() {
    let mut v: i64 = -100_000;
    while v <= 100_000 {
        assert_eq!(decimal_text(v), format!("{}", v));
        v += 37;
    }
}

#[test]
fn parse_i32_reads_signed_numerals() {
    assert_eq!(parse_i32("42"), Some(42));
    assert_eq!(parse_i32("+42"), Some(42));
    assert_eq!(parse_i32("-42"), Some(-42));
    assert_eq!(parse_i32("0"), Some(0));
    assert_eq!(parse_i32("-0"), Some(0));
    assert_eq!(parse_i32("007"), Some(7));
    assert_eq!(parse_i32("2147483647"), Some(i32::MAX));
    assert_eq!(parse_i32("-2147483648"), Some(i32::MIN));
    assert_eq!(parse_i32("0000000000000000000000012"), Some(12));
}

#[test]
fn parse_i32_rejects_what_is_not_a_numeral_in_range() {
    assert_eq!(parse_i32(""), None);
    assert_eq!(parse_i32("+"), None);
    assert_eq!(parse_i32("-"), None);
    assert_eq!(parse_i32(" 1"), None);
    assert_eq!(parse_i32("1 "), None);
    assert_eq!(parse_i32("1a"), None);
    assert_eq!(parse_i32("--1"), None);
    assert_eq!(parse_i32("2147483648"), None);
    assert_eq!(parse_i32("-2147483649"), None);
    assert_eq!(parse_i32("99999999999999999999999999"), None);
    assert_eq!(parse_i32("NULL"), None);
}

#[test]
fn parse_i32_agrees_with_the_standard_parser() {
    let samples = [
        "1", "-1", "+1", "12345", "-12345", "x", "", "2147483647", "2147483648", "-2147483648",
        "-2147483649", "1.0", "1e3", "0x10", "٣",
    ];
    for s in samples {
        assert_eq!(parse_i32(s), s.parse::<i32>().ok());
    }
}

#[test]
fn parse_reads_back_what_decimal_text_writes() {
    for v in [0, 1, -1, 9, 10, -10, 99, 100, 65535, i32::MAX, i32::MIN] {
        assert_eq!(parse_i32(&decimal_text(v as i64)), Some(v));
    }
}

#[test]
fn is_space_char_follows_unicode_white_space() {
    for c in ['\t', '\n', '\u{b}', '\u{c}', '\r', ' ', '\u{85}', '\u{a0}', '\u{1680}', '\u{2000}',
        '\u{200a}', '\u{2028}', '\u{2029}', '\u{202f}', '\u{205f}', '\u{3000}']
    {
        assert!(is_space_char(c));
    }
    for c in ['a', '0', '\u{8}', '\u{e}', '\u{200b}', '\u{feff}', '_'] {
        assert!(!is_space_char(c));
    }
    let mut code: u32 = 0;
    while code < 0x3100 {
        if let Some(c) = char::from_u32(code) {
            assert_eq!(is_space_char(c), c.is_whitespace());
        }
        code += 1;
    }
}

#[test]
fn trim_removes_white_space_at_both_ends() {
    assert_eq!(trim("  INSERT \n"), "INSERT");
    assert_eq!(trim("INSERT"), "INSERT");
    assert_eq!(trim(" a b "), "a b");
    assert_eq!(trim("   "), "");
    assert_eq!(trim(""), "");
    assert_eq!(trim("\u{a0}x\u{3000}"), "x");
}

#[test]
fn split_on_cuts_at_every_separator() {
    assert_eq!(split_on("INSERT,UPDATE", ','), vec!["INSERT", "UPDATE"]);
    assert_eq!(split_on("INSERT", ','), vec!["INSERT"]);
    assert_eq!(split_on("", ','), vec![""]);
    assert_eq!(split_on(",", ','), vec!["", ""]);
    assert_eq!(split_on("a,,b,", ','), vec!["a", "", "b", ""]);
    assert_eq!(split_on("\u{e9},\u{e8}", ','), vec!["\u{e9}", "\u{e8}"]);
}
