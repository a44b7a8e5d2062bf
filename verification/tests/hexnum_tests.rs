use tcpkill::hexnum::{hex_push, parse_dec_u64, parse_hex_u128};

#[test]
fn hex_parses_both_cases() {
    assert_eq!(parse_hex_u128(b"0050"), Some(0x50));
    assert_eq!(parse_hex_u128(b"01bb"), Some(0x1BB));
    assert_eq!(parse_hex_u128(b"01BB"), Some(0x1BB));
    assert_eq!(parse_hex_u128(b""), Some(0));
    assert_eq!(parse_hex_u128(b"FFFFFFFFFFFFFFFFFFFFFFFFFFFFFFFF"), Some(u128::MAX));
    assert_eq!(parse_hex_u128(b"00Z0"), None);
    assert_eq!(parse_hex_u128(b"+050"), None);
}

#[test]
fn hex_encoding_is_fixed_width_uppercase() {
    let mut out: Vec<u8> = Vec::new();
    hex_push(0x50, 4, &mut out);
    assert_eq!(out, b"0050".to_vec());
    out.clear();
    hex_push(0x7F00_0001, 8, &mut out);
    assert_eq!(out, b"7F000001".to_vec());
    out.clear();
    hex_push(1, 32, &mut out);
    assert_eq!(out, b"00000000000000000000000000000001".to_vec());
}

#[test]
fn decimal_parses_within_u64() {
    assert_eq!(parse_dec_u64(b"0"), Some(0));
    assert_eq!(parse_dec_u64(b"123456"), Some(123456));
    assert_eq!(parse_dec_u64(b"18446744073709551615"), Some(u64::MAX));
}

#[test]
fn decimal_rejects_overflow_and_junk() {
    assert_eq!(parse_dec_u64(b"18446744073709551616"), None);
    assert_eq!(parse_dec_u64(b"99999999999999999999999"), None);
    assert_eq!(parse_dec_u64(b""), None);
    assert_eq!(parse_dec_u64(b"12x45"), None);
    assert_eq!(parse_dec_u64(b"+5"), None);
    assert_eq!(parse_dec_u64(b"-5"), None);
}
