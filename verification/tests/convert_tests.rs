use ssb_parser::utils::functions::convert::{alpha_from_str, bool_from_str, parse_timestamp, rgb_from_str};

fn check_timestamps() {
    assert_eq!(parse_timestamp(""), Ok(0));
    assert_eq!(parse_timestamp("1:2.3"), Ok(62_003));
    assert_eq!(parse_timestamp("59:59.999"), Ok(3_599_999));
    assert_eq!(parse_timestamp("1::.1"), Ok(3_600_001));
}

#[test]
fn utils_parse_timestamp_various() {
    check_timestamps();
}

#[test]
fn convert_parse_timestamp_various() {
    check_timestamps();
}

#[test]
fn parse_timestamp_fields() {
    assert_eq!(parse_timestamp("99:59:59.999"), Ok(359_999_999));
    assert_eq!(parse_timestamp("1:00:00.000"), Ok(3_600_000));
    assert_eq!(parse_timestamp("5.5"), Ok(5_005));
    assert_eq!(parse_timestamp("::"), Ok(0));
    assert_eq!(parse_timestamp("123"), Ok(123));
    assert_eq!(parse_timestamp("1234"), Err(()));
    assert_eq!(parse_timestamp("60:00"), Err(()));
    assert_eq!(parse_timestamp("100:00:00"), Err(()));
    assert_eq!(parse_timestamp("1:2:3:4"), Err(()));
    assert_eq!(parse_timestamp("a"), Err(()));
    assert_eq!(parse_timestamp("6.0"), Ok(6_000));
    assert_eq!(parse_timestamp("61.0"), Err(()));
}

#[test]
fn parse_bool() {
    assert_eq!(bool_from_str("y"), Ok(true));
    assert_eq!(bool_from_str("n"), Ok(false));
    assert_eq!(bool_from_str("no"), Err(()));
}

#[test]
fn parse_rgb_alpha() {
    assert_eq!(alpha_from_str(""), Err(()));
    assert_eq!(alpha_from_str("A"), Ok(10));
    assert_eq!(alpha_from_str("C1"), Ok(193));
    assert_eq!(alpha_from_str("1FF"), Err(()));
    assert_eq!(rgb_from_str(""), Err(()));
    assert_eq!(rgb_from_str("1FF"), Ok([0, 1, 255]));
    assert_eq!(rgb_from_str("808080"), Ok([128, 128, 128]));
    assert_eq!(rgb_from_str("FFFF01"), Ok([255, 255, 1]));
    assert_eq!(rgb_from_str("1FFFFFF"), Err(()));
}

#[test]
fn parse_hex_cases() {
    assert_eq!(alpha_from_str("ff"), Ok(255));
    assert_eq!(alpha_from_str("g"), Err(()));
    assert_eq!(rgb_from_str("abcdef"), Ok([171, 205, 239]));
    assert_eq!(rgb_from_str("12345g"), Err(()));
}
