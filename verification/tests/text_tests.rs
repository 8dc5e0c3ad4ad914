//! Tests of the text utilities: string equality, trimming and decimal
//! integer parsing and rendering.

use pgmoneta_mcp::text::{i32_to_string, parse_i32, str_eq, trim_str};

#[test]
fn str_eq_compares_contents() {
    assert!(str_eq("abc", "abc"));
    assert!(!str_eq("abc", "abd"));
    assert!(!str_eq("abc", "ab"));
    assert!(str_eq("", ""));
}

#[test]
fn trim_removes_edges_only() {
    assert_eq!(trim_str("  a b \t"), "a b");
    assert_eq!(trim_str("ab"), "ab");
    assert_eq!(trim_str("   "), "");
    assert_eq!(trim_str("x\r"), "x");
}

#[test]
fn parse_i32_accepts_decimal_integers() {
    assert_eq!(parse_i32("123"), Some(123));
    assert_eq!(parse_i32("-7"), Some(-7));
    assert_eq!(parse_i32("+5"), Some(5));
    assert_eq!(parse_i32("0"), Some(0));
    assert_eq!(parse_i32("007"), Some(7));
    assert_eq!(parse_i32("2147483647"), Some(i32::MAX));
    assert_eq!(parse_i32("-2147483648"), Some(i32::MIN));
}

#[test]
fn parse_i32_rejects_bad_text() {
    assert_eq!(parse_i32(""), None);
    assert_eq!(parse_i32("-"), None);
    assert_eq!(parse_i32("+"), None);
    assert_eq!(parse_i32("1a"), None);
    assert_eq!(parse_i32("a1"), None);
    assert_eq!(parse_i32("1 2"), None);
    assert_eq!(parse_i32("2147483648"), None);
    assert_eq!(parse_i32("-2147483649"), None);
    assert_eq!(parse_i32("99999999999"), None);
}

#[test]
fn i32_to_string_renders_decimal() {
    assert_eq!(i32_to_string(0), "0");
    assert_eq!(i32_to_string(8000), "8000");
    assert_eq!(i32_to_string(-42), "-42");
    assert_eq!(i32_to_string(i32::MAX), "2147483647");
    assert_eq!(i32_to_string(i32::MIN), "-2147483648");
}

#[test]
fn render_then_parse_is_identity_on_samples() {
    for n in [0, 1, -1, 8000, -5001, i32::MAX, i32::MIN] {
        assert_eq!(parse_i32(&i32_to_string(n)), Some(n));
    }
}
