use squadz::text::{parse_unsigned, push_decimal, push_hex, same_text, strip_prefix};

fn decimal(n: u128) -> String {
    let mut out = String::new();
    push_decimal(&mut out, n);
    out
}

fn hex(n: u128, width: usize) -> String {
    let mut out = String::new();
    push_hex(&mut out, n, width);
    out
}

#[test]
fn decimal_digits() {
    assert_eq!(decimal(0), "0");
    assert_eq!(decimal(7), "7");
    assert_eq!(decimal(10), "10");
    assert_eq!(decimal(1203), "1203");
    assert_eq!(decimal(u128::MAX), u128::MAX.to_string());
    let mut out = String::from("n=");
    push_decimal(&mut out, 42);
    assert_eq!(out, "n=42");
}

#[test]
fn hex_digits() {
    assert_eq!(hex(0, 0), "");
    assert_eq!(hex(0, 4), "0000");
    assert_eq!(hex(0xbeef, 4), "beef");
    assert_eq!(hex(0xbeef, 8), "0000beef");
    assert_eq!(hex(0x1234abcd, 4), "abcd");
    assert_eq!(hex(u128::MAX, 32), "f".repeat(32));
}

#[test]
fn same_text_compares_every_character() {
    assert!(same_text("", ""));
    assert!(same_text("abc", "abc"));
    assert!(!same_text("abc", "abd"));
    assert!(!same_text("abc", "ab"));
    assert!(!same_text("é", "e"));
}

#[test]
fn strip_prefix_gives_what_is_behind() {
    assert_eq!(strip_prefix("Bearer abc", "Bearer "), Some("abc".to_string()));
    assert_eq!(strip_prefix("Bearer ", "Bearer "), Some(String::new()));
    assert_eq!(strip_prefix("Bearer", "Bearer "), None);
    assert_eq!(strip_prefix("bearer abc", "Bearer "), None);
    assert_eq!(strip_prefix("", "x"), None);
    assert_eq!(strip_prefix("abc", ""), Some("abc".to_string()));
    assert_eq!(strip_prefix("äöü-ß", "äö"), Some("ü-ß".to_string()));
}

#[test]
fn parse_unsigned_reads_decimal_numerals() {
    assert_eq!(parse_unsigned("0", 10), Some(0));
    assert_eq!(parse_unsigned("8080", 65535), Some(8080));
    assert_eq!(parse_unsigned("+8080", 65535), Some(8080));
    assert_eq!(parse_unsigned("0008", 65535), Some(8));
    assert_eq!(parse_unsigned("65535", 65535), Some(65535));
    assert_eq!(parse_unsigned("65536", 65535), None);
    assert_eq!(parse_unsigned("99999999999999999999999", u64::MAX), None);
    assert_eq!(parse_unsigned("18446744073709551615", u64::MAX), Some(u64::MAX));
    assert_eq!(parse_unsigned("18446744073709551616", u64::MAX), None);
    assert_eq!(parse_unsigned("", 10), None);
    assert_eq!(parse_unsigned("+", 10), None);
    assert_eq!(parse_unsigned("++1", 10), None);
    assert_eq!(parse_unsigned("-1", 10), None);
    assert_eq!(parse_unsigned(" 1", 10), None);
    assert_eq!(parse_unsigned("1 ", 10), None);
    assert_eq!(parse_unsigned("1a", 10), None);
    assert_eq!(parse_unsigned("٣", 10), None);
    assert_eq!(parse_unsigned("12", 0), None);
    assert_eq!(parse_unsigned("0", 0), Some(0));
}

#[test]
fn parse_unsigned_agrees_with_the_standard_library() {
    for text in ["0", "1", "+1", "007", "65535", "65536", "", "+", "-0", "1_0", "١"] {
        assert_eq!(
            parse_unsigned(text, u16::MAX as u64).map(|n| n as u16),
            text.parse::<u16>().ok(),
            "{:?}",
            text
        );
    }
}
