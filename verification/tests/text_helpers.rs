use cache_builder::cache::{key_from_digest, strip_prefix};
use cache_builder::text::{
    append_bytes, contains, decimal_string, hundredths_string, matches_at, parse_u64,
    rounded_quotient_of, scaled_ratio_of, starts_with, tenths_string,
};

#[test]
fn prefixes_and_occurrences() {
    assert!(starts_with(b"0x12", b"0x"));
    assert!(starts_with(b"0x", b"0x"));
    assert!(starts_with(b"abc", b""));
    assert!(!starts_with(b"0", b"0x"));
    assert!(!starts_with(b"1x0x", b"0x"));
    assert!(contains(b"abcabd", b"abd"));
    assert!(contains(b"abc", b""));
    assert!(contains(b"", b""));
    assert!(contains(b"abc", b"abc"));
    assert!(!contains(b"abc", b"abcd"));
    assert!(!contains(b"ababab", b"abb"));
    assert!(matches_at(b"hello", b"llo", 2));
    assert!(!matches_at(b"hello", b"llo", 1));
}

#[test]
fn one_prefix_is_stripped() {
    assert_eq!(strip_prefix(b"0xabcd"), b"abcd");
    assert_eq!(strip_prefix(b"abcd"), b"abcd");
    assert_eq!(strip_prefix(b"0x0xab"), b"0xab");
    assert_eq!(strip_prefix(b"0x"), b"");
    assert_eq!(strip_prefix(b"0"), b"0");
    assert_eq!(strip_prefix(b"0X12"), b"0X12");
    assert_eq!(strip_prefix(b""), b"");
}

#[test]
fn key_is_built_from_a_digest() {
    assert_eq!(key_from_digest(&[1, 2], true), b"\x01\x02_unresolved".to_vec());
    assert_eq!(key_from_digest(&[1, 2], false), b"\x01\x02_resolved".to_vec());
    assert_eq!(key_from_digest(&[], false), b"_resolved".to_vec());
}

#[test]
fn bytes_are_appended() {
    let mut out = vec![1u8];
    append_bytes(&mut out, &[2, 3]);
    append_bytes(&mut out, &[]);
    assert_eq!(out, vec![1, 2, 3]);
}

#[test]
fn numbers_in_decimal() {
    assert_eq!(decimal_string(0), "0");
    assert_eq!(decimal_string(9), "9");
    assert_eq!(decimal_string(10), "10");
    assert_eq!(decimal_string(1_234_567_890), "1234567890");
    assert_eq!(decimal_string(u128::MAX), "340282366920938463463374607431768211455");
}

#[test]
fn fixed_point_texts() {
    assert_eq!(tenths_string(0), "0.0");
    assert_eq!(tenths_string(7), "0.7");
    assert_eq!(tenths_string(1000), "100.0");
    assert_eq!(tenths_string(12345), "1234.5");
    assert_eq!(hundredths_string(0), "0.00");
    assert_eq!(hundredths_string(5), "0.05");
    assert_eq!(hundredths_string(50), "0.50");
    assert_eq!(hundredths_string(12345), "123.45");
}

#[test]
fn ratios_are_rounded_to_the_nearest_and_a_half_to_the_even() {
    assert_eq!(scaled_ratio_of(1, 3, 1000), 333);
    assert_eq!(scaled_ratio_of(2, 3, 1000), 667);
    assert_eq!(scaled_ratio_of(1, 16, 1000), 62);
    assert_eq!(scaled_ratio_of(3, 16, 1000), 188);
    assert_eq!(scaled_ratio_of(1, 2, 1), 0);
    assert_eq!(scaled_ratio_of(3, 2, 1), 2);
    assert_eq!(scaled_ratio_of(5, 2, 1), 2);
    assert_eq!(scaled_ratio_of(1, 8, 1000), 125);
    assert_eq!(rounded_quotient_of(u128::MAX, 1), u128::MAX);
    assert_eq!(rounded_quotient_of(u128::MAX, 2), (u128::MAX / 2) + 1);
    assert_eq!(rounded_quotient_of(u128::MAX, u128::MAX), 1);
    assert_eq!(rounded_quotient_of(u128::MAX - 1, u128::MAX), 1);
    assert_eq!(rounded_quotient_of(7, 0), 0);
    assert_eq!(scaled_ratio_of(5, 0, 1000), 0);
    assert_eq!(scaled_ratio_of(0, 5, 1000), 0);
    assert_eq!(scaled_ratio_of(u64::MAX, 1, u32::MAX), (u64::MAX as u128) * (u32::MAX as u128));
    assert_eq!(scaled_ratio_of(u64::MAX, u64::MAX, 10), 10);
}

#[test]
fn decimal_numerals_are_read() {
    assert_eq!(parse_u64(b"0"), Some(0));
    assert_eq!(parse_u64(b"42"), Some(42));
    assert_eq!(parse_u64(b"+42"), Some(42));
    assert_eq!(parse_u64(b"0042"), Some(42));
    assert_eq!(parse_u64(b"18446744073709551615"), Some(u64::MAX));
    assert_eq!(parse_u64(b"18446744073709551616"), None);
    assert_eq!(parse_u64(b"99999999999999999999999"), None);
    assert_eq!(parse_u64(b""), None);
    assert_eq!(parse_u64(b"+"), None);
    assert_eq!(parse_u64(b"-1"), None);
    assert_eq!(parse_u64(b"++1"), None);
    assert_eq!(parse_u64(b"1+"), None);
    assert_eq!(parse_u64(b"12a"), None);
    assert_eq!(parse_u64(b" 1"), None);
    for text in ["0", "7", "+7", "000", "18446744073709551615", "18446744073709551616", "", "+", "-0", "1_000"] {
        assert_eq!(parse_u64(text.as_bytes()), text.parse::<u64>().ok());
    }
}
