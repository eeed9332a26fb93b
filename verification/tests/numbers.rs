use ram_debugger::numfmt::{dec_bytes, parse_i64};

#[test]
fn parse_accepts_decimal_64_bit_integers() {
    assert_eq!(parse_i64(b"0"), Some(0));
    assert_eq!(parse_i64(b"3"), Some(3));
    assert_eq!(parse_i64(b"-12"), Some(-12));
    assert_eq!(parse_i64(b"007"), Some(7));
    assert_eq!(parse_i64(b"9223372036854775807"), Some(i64::MAX));
    assert_eq!(parse_i64(b"-9223372036854775808"), Some(i64::MIN));
}

#[test]
fn parse_rejects_malformed_or_oversized_text() {
    assert_eq!(parse_i64(b""), None);
    assert_eq!(parse_i64(b"-"), None);
    assert_eq!(parse_i64(b"12x"), None);
    assert_eq!(parse_i64(b" 1"), None);
    assert_eq!(parse_i64(b"+1"), None);
    assert_eq!(parse_i64(b"--1"), None);
    assert_eq!(parse_i64(b"9223372036854775808"), None);
    assert_eq!(parse_i64(b"-9223372036854775809"), None);
    assert_eq!(parse_i64(b"99999999999999999999999"), None);
}

#[test]
fn rendering_produces_exact_decimal_text() {
    assert_eq!(dec_bytes(0), b"0");
    assert_eq!(dec_bytes(3), b"3");
    assert_eq!(dec_bytes(-12), b"-12");
    assert_eq!(dec_bytes(1000), b"1000");
    assert_eq!(dec_bytes(i64::MAX), b"9223372036854775807");
    assert_eq!(dec_bytes(i64::MIN), b"-9223372036854775808");
}

#[test]
fn rendering_and_parsing_round_trip() {
    for v in [0i64, 1, -1, 10, -10, 123456789, i64::MAX, i64::MIN] {
        assert_eq!(parse_i64(&dec_bytes(v)), Some(v));
    }
}
