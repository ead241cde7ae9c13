use pwm::{parse_version, render_version};

#[test]
fn render_writes_decimal_digits() {
    assert_eq!(render_version(0), "0");
    assert_eq!(render_version(1), "1");
    assert_eq!(render_version(9), "9");
    assert_eq!(render_version(10), "10");
    assert_eq!(render_version(123), "123");
    assert_eq!(render_version(1000), "1000");
    assert_eq!(render_version(4294967295), "4294967295");
}

#[test]
fn render_agrees_with_the_standard_library() {
    let mut version: u32 = 1;
    for _ in 0..2000 {
        assert_eq!(render_version(version), version.to_string());
        version = version.wrapping_mul(1664525).wrapping_add(1013904223);
    }
}

#[test]
fn parse_reads_decimal_digits() {
    assert_eq!(parse_version("0"), Some(0));
    assert_eq!(parse_version("1"), Some(1));
    assert_eq!(parse_version("42"), Some(42));
    assert_eq!(parse_version("007"), Some(7));
    assert_eq!(parse_version("+7"), Some(7));
    assert_eq!(parse_version("4294967295"), Some(4294967295));
    assert_eq!(parse_version("0000000000004294967295"), Some(4294967295));
}

#[test]
fn parse_rejects_what_is_no_number() {
    assert_eq!(parse_version(""), None);
    assert_eq!(parse_version("+"), None);
    assert_eq!(parse_version("-1"), None);
    assert_eq!(parse_version("++1"), None);
    assert_eq!(parse_version("1+"), None);
    assert_eq!(parse_version("1a"), None);
    assert_eq!(parse_version("a1"), None);
    assert_eq!(parse_version(" 1"), None);
    assert_eq!(parse_version("1 "), None);
    assert_eq!(parse_version("1.0"), None);
    assert_eq!(parse_version("notes.txt"), None);
    assert_eq!(parse_version("\u{0663}"), None);
    assert_eq!(parse_version("\u{ff11}"), None);
}

#[test]
fn parse_rejects_numbers_beyond_32_bits() {
    assert_eq!(parse_version("4294967296"), None);
    assert_eq!(parse_version("42949672950"), None);
    assert_eq!(parse_version("99999999999999999999999999"), None);
    assert_eq!(parse_version("4294967296x"), None);
}

#[test]
fn parse_agrees_with_the_standard_library() {
    let names = [
        "", "0", "00", "1", "+1", "-1", "+", "-", "+-1", "12", "1_000", "0x10", "4294967295",
        "4294967296", "+4294967295", "+04294967295", "18446744073709551616", "1e3", "one", "١",
    ];
    for name in names {
        assert_eq!(parse_version(name), name.parse::<u32>().ok(), "{:?}", name);
    }
}

#[test]
fn parse_reads_back_what_render_wrote() {
    let mut version: u32 = 0;
    for _ in 0..2000 {
        assert_eq!(parse_version(&render_version(version)), Some(version));
        version = version.wrapping_mul(22695477).wrapping_add(1);
    }
    assert_eq!(parse_version(&render_version(u32::MAX)), Some(u32::MAX));
}
