use wait4::text::{chars_of, contains_text, parse_i32, parse_u64, push_decimal_text, push_str};

#[test]
fn parse_u64_reads_plain_and_plus_signed_digits() {
    assert_eq!(parse_u64("250"), Some(250));
    assert_eq!(parse_u64("+7"), Some(7));
    assert_eq!(parse_u64("0"), Some(0));
    assert_eq!(parse_u64("18446744073709551615"), Some(u64::MAX));
}

#[test]
fn parse_u64_refuses_other_text() {
    assert_eq!(parse_u64(""), None);
    assert_eq!(parse_u64("+"), None);
    assert_eq!(parse_u64("-1"), None);
    assert_eq!(parse_u64("12a"), None);
    assert_eq!(parse_u64(" 12"), None);
    assert_eq!(parse_u64("18446744073709551616"), None);
    assert_eq!(parse_u64("99999999999999999999999"), None);
}

#[test]
fn parse_i32_reads_signed_digits() {
    assert_eq!(parse_i32("1234"), Some(1234));
    assert_eq!(parse_i32("-42"), Some(-42));
    assert_eq!(parse_i32("+5"), Some(5));
    assert_eq!(parse_i32("-0"), Some(0));
    assert_eq!(parse_i32("2147483647"), Some(i32::MAX));
    assert_eq!(parse_i32("-2147483648"), Some(i32::MIN));
}

#[test]
fn parse_i32_refuses_other_text() {
    assert_eq!(parse_i32("abc"), None);
    assert_eq!(parse_i32("-"), None);
    assert_eq!(parse_i32("2147483648"), None);
    assert_eq!(parse_i32("-2147483649"), None);
    assert_eq!(parse_i32("1.5"), None);
}

#[test]
fn decimal_text_of_integers() {
    let mut out: Vec<char> = Vec::new();
    push_decimal_text(&mut out, -2147483648);
    assert_eq!(out.iter().collect::<String>(), "-2147483648");
    let mut out: Vec<char> = vec!['x'];
    push_decimal_text(&mut out, 0);
    push_decimal_text(&mut out, 907);
    assert_eq!(out.iter().collect::<String>(), "x0907");
}

#[test]
fn contains_text_finds_runs() {
    assert!(contains_text("abcabd", "abd"));
    assert!(contains_text("abc", ""));
    assert!(contains_text("abc", "abc"));
    assert!(!contains_text("abc", "abcd"));
    assert!(!contains_text("aXbc", "abc"));
    assert!(!contains_text("", "a"));
}

#[test]
fn chars_and_appending() {
    assert_eq!(chars_of("aé~"), vec!['a', 'é', '~']);
    let mut out: Vec<char> = vec!['['];
    push_str(&mut out, "ab");
    push_str(&mut out, "");
    assert_eq!(out, vec!['[', 'a', 'b']);
}
