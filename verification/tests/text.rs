use materialist::text::decimal_string;
use materialist::text::digits_string;
use materialist::text::parse_i64;
use materialist::text::trim;

#[test]
fn integers_in_decimal() {
    assert_eq!(decimal_string(0), "0");
    assert_eq!(decimal_string(7), "7");
    assert_eq!(decimal_string(-7), "-7");
    assert_eq!(decimal_string(1234567890), "1234567890");
    assert_eq!(decimal_string(i64::MAX), "9223372036854775807");
    assert_eq!(decimal_string(i64::MIN), "-9223372036854775808");
    assert_eq!(digits_string(u64::MAX), "18446744073709551615");
    assert_eq!(digits_string(10), "10");
}

#[test]
fn decimal_is_read_as_the_standard_library_reads_it() {
    for s in [
        "0", "-0", "+0", "42", "-42", "+42", "007", "", "-", "+", "--1", "1-", " 1", "1 ", "1_0",
        "9223372036854775807", "9223372036854775808", "-9223372036854775808",
        "-9223372036854775809", "99999999999999999999999999", "-99999999999999999999999999",
        "0000000000000000000000000000000000001", "١٢", "1e3", "0x10",
    ] {
        assert_eq!(parse_i64(s), s.parse::<i64>().ok(), "{:?}", s);
    }
    assert_eq!(parse_i64("-9223372036854775808"), Some(i64::MIN));
    assert_eq!(parse_i64("1758783215"), Some(1758783215));
}

#[test]
fn white_space_is_trimmed_as_the_standard_library_trims_it() {
    for s in [
        "", " ", "a", " a", "a ", " a b ", "\t\n\r a \u{b}\u{c}", "\u{85}a\u{a0}",
        "\u{1680}a\u{2000}\u{200a}", "\u{2028}\u{2029}\u{202f}\u{205f}\u{3000}",
        "\u{200b}a\u{200b}", "\u{feff}a", " é ",
    ] {
        assert_eq!(trim(s), s.trim(), "{:?}", s);
    }
    for u in 0..=0x3100u32 {
        if let Some(c) = char::from_u32(u) {
            let s = format!("{c}x{c}");
            assert_eq!(trim(&s), s.trim(), "{:?}", c);
        }
    }
}
