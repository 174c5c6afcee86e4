use dat_linter::text::{
    decimal_string, parse_i64_str, parse_strtol_like, parse_trimmed_i64, signed_decimal_string,
    to_lower, trimmed,
};

#[test]
fn strtol_reads_like_c() {
    assert_eq!(parse_strtol_like("0x64"), Some(100));
    assert_eq!(parse_strtol_like("0X3E8"), Some(1000));
    assert_eq!(parse_strtol_like("010"), Some(8));
    assert_eq!(parse_strtol_like("  -12abc"), Some(-12));
    assert_eq!(parse_strtol_like("+7"), Some(7));
    assert_eq!(parse_strtol_like("0x"), Some(0));
    assert_eq!(parse_strtol_like("0xg"), Some(0));
    assert_eq!(parse_strtol_like("09"), Some(0));
    assert_eq!(parse_strtol_like("abc"), None);
    assert_eq!(parse_strtol_like(""), None);
    assert_eq!(parse_strtol_like("-"), None);
    assert_eq!(parse_strtol_like("99999999999999999999"), Some(i64::MAX));
    assert_eq!(parse_strtol_like("-99999999999999999999"), Some(i64::MIN));
    assert_eq!(parse_strtol_like("-9223372036854775808"), Some(i64::MIN));
}

#[test]
fn decimal_parse_is_rust_parse() {
    assert_eq!(parse_trimmed_i64("  42 "), Some(42));
    assert_eq!(parse_trimmed_i64("+5"), Some(5));
    assert_eq!(parse_trimmed_i64("-3"), Some(-3));
    assert_eq!(parse_trimmed_i64("-"), None);
    assert_eq!(parse_trimmed_i64("1e3"), None);
    assert_eq!(parse_trimmed_i64(""), None);
    assert_eq!(parse_trimmed_i64("9223372036854775807"), Some(i64::MAX));
    assert_eq!(parse_trimmed_i64("9223372036854775808"), None);
    assert_eq!(parse_trimmed_i64("-9223372036854775808"), Some(i64::MIN));
    assert_eq!(parse_i64_str(" 1"), None);
    for n in [0i64, 7, -7, 1234567, i64::MAX, i64::MIN] {
        assert_eq!(parse_i64_str(&n.to_string()), Some(n));
    }
}

#[test]
fn rendering_matches_format() {
    for n in [0u64, 9, 10, 128, 65535, u64::MAX] {
        assert_eq!(decimal_string(n), n.to_string());
    }
    for n in [0i128, -1, -22800, 155988, i64::MIN as i128, -(u64::MAX as i128)] {
        assert_eq!(signed_decimal_string(n), n.to_string());
    }
}

#[test]
fn lowering_and_trimming_follow_std() {
    assert_eq!(to_lower("Electrified_TRACK"), "electrified_track");
    assert_eq!(to_lower("ÄB"), "Äb");
    assert_eq!(trimmed("\u{3000} x y \t\n"), "x y");
    assert_eq!(trimmed("   "), "");
}
