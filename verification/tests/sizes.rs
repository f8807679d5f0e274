use big_text::{parse_size, is_text, SizeError};

#[test]
fn plain_number_is_bytes() {
    assert_eq!(parse_size(b"123"), Ok(123));
    assert_eq!(parse_size(b"0"), Ok(0));
}

#[test]
fn unit_letters_scale_by_powers_of_1024() {
    assert_eq!(parse_size(b"1G"), Ok(1073741824));
    assert_eq!(parse_size(b"1g"), Ok(1073741824));
    assert_eq!(parse_size(b"64k"), Ok(65536));
    assert_eq!(parse_size(b"64K"), Ok(65536));
    assert_eq!(parse_size(b"5b"), Ok(5));
    assert_eq!(parse_size(b"5B"), Ok(5));
    assert_eq!(parse_size(b"3m"), Ok(3 * 1048576));
    assert_eq!(parse_size(b"2T"), Ok(2 * 1099511627776));
    assert_eq!(parse_size(b"2P"), Ok(2 * 1125899906842624));
}

#[test]
fn missing_digits_rejected() {
    assert_eq!(parse_size(b""), Err(SizeError::InvalidNumber));
    assert_eq!(parse_size(b"G"), Err(SizeError::InvalidNumber));
    assert_eq!(parse_size(b"-5"), Err(SizeError::InvalidNumber));
}

#[test]
fn unknown_units_rejected() {
    assert_eq!(parse_size(b"10Q"), Err(SizeError::UnknownUnit));
    assert_eq!(parse_size(b"12k3"), Err(SizeError::UnknownUnit));
    assert_eq!(parse_size(b"10GB"), Err(SizeError::UnknownUnit));
    assert_eq!(parse_size(b"10 G"), Err(SizeError::UnknownUnit));
}

#[test]
fn number_overflow_rejected() {
    assert_eq!(parse_size(b"18446744073709551615"), Ok(u64::MAX));
    assert_eq!(
        parse_size(b"18446744073709551616"),
        Err(SizeError::InvalidNumber)
    );
    assert_eq!(
        parse_size(b"99999999999999999999"),
        Err(SizeError::InvalidNumber)
    );
}

#[test]
fn scaled_overflow_rejected() {
    assert_eq!(parse_size(b"16383P"), Ok(16383 * 1125899906842624));
    assert_eq!(parse_size(b"16384P"), Err(SizeError::TooLarge));
    assert_eq!(parse_size(b"18446744073709551615k"), Err(SizeError::TooLarge));
}

#[test]
fn text_bytes_are_printable_ascii_and_whitespace() {
    assert!(is_text(b'a'));
    assert!(is_text(b' '));
    assert!(is_text(b'~'));
    assert!(is_text(0x09));
    assert!(is_text(0x0d));
    assert!(!is_text(0x08));
    assert!(!is_text(0x0e));
    assert!(!is_text(0x1f));
    assert!(!is_text(0x7f));
    assert!(!is_text(0x80));
    assert!(!is_text(0x00));
}
