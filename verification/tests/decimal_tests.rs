use backend_website::decimal::{i32_to_text, i64_to_text, parse_i64, parse_u16, parse_u64, u64_to_text};

#[test]
fn numbers_render_in_decimal() {
    assert_eq!(u64_to_text(0), "0");
    assert_eq!(u64_to_text(1200), "1200");
    assert_eq!(u64_to_text(u64::MAX), "18446744073709551615");
    assert_eq!(i64_to_text(-45), "-45");
    assert_eq!(i64_to_text(i64::MIN), "-9223372036854775808");
    assert_eq!(i32_to_text(i32::MAX), "2147483647");
}

#[test]
fn unsigned_parsing_follows_the_standard_library() {
    assert_eq!(parse_u64("587"), Some(587));
    assert_eq!(parse_u64("+42"), Some(42));
    assert_eq!(parse_u64("007"), Some(7));
    assert_eq!(parse_u64("18446744073709551615"), Some(u64::MAX));
    assert_eq!(parse_u64("18446744073709551616"), None);
    assert_eq!(parse_u64(""), None);
    assert_eq!(parse_u64("+"), None);
    assert_eq!(parse_u64("-1"), None);
    assert_eq!(parse_u64(" 5"), None);
    assert_eq!(parse_u64("1_0"), None);
    for s in ["", "0", "+9", "12a", "99999999999999999999", "65535", "-0"] {
        assert_eq!(parse_u64(s), s.parse::<u64>().ok());
        assert_eq!(parse_u16(s), s.parse::<u16>().ok());
    }
    assert_eq!(parse_u16("65536"), None);
    assert_eq!(parse_u16("2525"), Some(2525));
}

#[test]
fn signed_parsing_follows_the_standard_library() {
    for s in [
        "5", "-5", "+5", "-", "+", "-+5", "+-5", "9223372036854775807", "9223372036854775808",
        "-9223372036854775808", "-9223372036854775809", "", "x1",
    ] {
        assert_eq!(parse_i64(s), s.parse::<i64>().ok(), "{s}");
    }
}

#[test]
fn rendered_numbers_parse_back() {
    for n in [0u64, 9, 10, 587, 65535, u64::MAX] {
        assert_eq!(parse_u64(&u64_to_text(n)), Some(n));
    }
}
