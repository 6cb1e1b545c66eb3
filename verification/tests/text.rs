use rust_iss::text::{
    contains, i64_to_string, parse_u16, parse_u32, parse_u64, starts_with, u64_to_string,
};

#[test]
fn unsigned_numbers_are_written_without_padding() {
    assert_eq!(u64_to_string(0), "0");
    assert_eq!(u64_to_string(7), "7");
    assert_eq!(u64_to_string(10), "10");
    assert_eq!(u64_to_string(1001), "1001");
    assert_eq!(u64_to_string(u64::MAX), "18446744073709551615");
}

#[test]
fn signed_numbers_carry_a_minus_sign() {
    assert_eq!(i64_to_string(0), "0");
    assert_eq!(i64_to_string(1002), "1002");
    assert_eq!(i64_to_string(-1), "-1");
    assert_eq!(i64_to_string(i64::MAX), "9223372036854775807");
    assert_eq!(i64_to_string(i64::MIN), "-9223372036854775808");
}

#[test]
fn numbers_are_read_as_the_standard_library_reads_them() {
    let cases = [
        "0", "7", "120", "+5", "007", "", "+", "-1", " 1", "1 ", "1_000", "12a", "a",
        "18446744073709551615", "18446744073709551616", "99999999999999999999999", "++1", "٣",
    ];
    for text in cases {
        assert_eq!(parse_u64(text), text.parse::<u64>().ok(), "u64 from {:?}", text);
        assert_eq!(parse_u32(text), text.parse::<u32>().ok(), "u32 from {:?}", text);
        assert_eq!(parse_u16(text), text.parse::<u16>().ok(), "u16 from {:?}", text);
    }
    assert_eq!(parse_u64("43200"), Some(43200));
    assert_eq!(parse_u32("4294967295"), Some(u32::MAX));
    assert_eq!(parse_u32("4294967296"), None);
    assert_eq!(parse_u16("65535"), Some(u16::MAX));
    assert_eq!(parse_u16("65536"), None);
}

#[test]
fn writing_then_reading_gives_the_number_back() {
    for n in [0u64, 1, 9, 10, 99, 100, 3000, 1_700_000_000, u64::MAX] {
        assert_eq!(parse_u64(&u64_to_string(n)), Some(n));
    }
}

#[test]
fn contains_finds_a_text_anywhere() {
    assert!(contains("http://mock.example", "mock"));
    assert!(contains("mock", "mock"));
    assert!(contains("a-mock", "mock"));
    assert!(contains("mmock", "mock"));
    assert!(contains("anything", ""));
    assert!(contains("", ""));
    assert!(!contains("", "mock"));
    assert!(!contains("moc", "mock"));
    assert!(!contains("https://osdr.nasa.gov/api", "mock"));
    assert!(!contains("MOCK", "mock"));
    assert!(contains("données-mock-é", "mock"));
}

#[test]
fn starts_with_looks_at_the_front_only() {
    assert!(starts_with("osdr:all:50", "osdr:all"));
    assert!(starts_with("osdr:all", "osdr:all"));
    assert!(starts_with("x", ""));
    assert!(!starts_with("osdr:al", "osdr:all"));
    assert!(!starts_with("xosdr:all", "osdr:all"));
    assert!(!starts_with("", "a"));
}
