use ring_agent::text::{decimal_string, sanitize_printable, str_is_blank, trim_str};

#[test]
fn decimal_rendering() {
    assert_eq!(decimal_string(0), "0");
    assert_eq!(decimal_string(7), "7");
    assert_eq!(decimal_string(1234567890), "1234567890");
    assert_eq!(decimal_string(u64::MAX), "18446744073709551615");
}

#[test]
fn printable_sanitising() {
    assert_eq!(sanitize_printable("ok~ \u{7f}é\t"), "ok~ ___");
}

#[test]
fn trimming_unicode_whitespace() {
    assert_eq!(trim_str("  \u{3000}abc d\t\n"), "abc d");
    assert_eq!(trim_str("   "), "");
    assert!(str_is_blank(" \u{a0}\u{2028}"));
    assert!(!str_is_blank(" x "));
    assert!(str_is_blank(""));
}
