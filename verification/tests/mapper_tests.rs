use cms_loader::mapper::{
    normalize_string, parse_date, parse_i32, parse_optional_date, parse_optional_i32,
    parse_yes_no, Date,
};

#[test]
fn sentinel_not_applicable_is_absent() {
    assert_eq!(normalize_string("Not Applicable"), None);
}

#[test]
fn sentinel_not_available_is_absent_case_insensitively() {
    assert_eq!(normalize_string("NOT AVAILABLE"), None);
    assert_eq!(normalize_string("not applicable"), None);
}

#[test]
fn sentinel_blank_is_absent() {
    assert_eq!(normalize_string(""), None);
    assert_eq!(normalize_string("   \t "), None);
}

#[test]
fn ordinary_text_is_kept() {
    assert_eq!(normalize_string("123 Main St"), Some("123 Main St".to_string()));
    assert_eq!(normalize_string("Notable"), Some("Notable".to_string()));
}

#[test]
fn yes_no_coding() {
    assert_eq!(parse_yes_no("Yes"), Some(true));
    assert_eq!(parse_yes_no("No"), Some(false));
    assert_eq!(parse_yes_no("yes"), Some(true));
    assert_eq!(parse_yes_no("NO"), Some(false));
    assert_eq!(parse_yes_no("maybe"), None);
    assert_eq!(parse_yes_no(""), None);
}

#[test]
fn integer_coding_parses_plain_decimals() {
    assert_eq!(parse_i32("42"), Some(42));
    assert_eq!(parse_i32("-7"), Some(-7));
    assert_eq!(parse_i32("+10"), Some(10));
    assert_eq!(parse_i32("007"), Some(7));
    assert_eq!(parse_i32("0"), Some(0));
}

#[test]
fn integer_coding_rejects_junk() {
    assert_eq!(parse_i32(""), None);
    assert_eq!(parse_i32("-"), None);
    assert_eq!(parse_i32("12.5"), None);
    assert_eq!(parse_i32("12a"), None);
    assert_eq!(parse_i32(" 12"), None);
}

#[test]
fn integer_coding_respects_range() {
    assert_eq!(parse_i32("2147483647"), Some(2147483647));
    assert_eq!(parse_i32("2147483648"), None);
    assert_eq!(parse_i32("-2147483648"), Some(-2147483648));
    assert_eq!(parse_i32("-2147483649"), None);
    assert_eq!(parse_i32("99999999999999999999"), None);
}

#[test]
fn integer_field_suppresses_sentinels_without_error() {
    assert_eq!(parse_optional_i32("Not Applicable"), None);
    assert_eq!(parse_optional_i32("garbage"), None);
    assert_eq!(parse_optional_i32("15"), Some(15));
}

#[test]
fn both_date_formats_code_the_same_date() {
    let expected = Some(Date { year: 2023, month: 1, day: 15 });
    assert_eq!(parse_date("2023-01-15"), expected);
    assert_eq!(parse_date("20230115"), expected);
}

#[test]
fn date_coding_rejects_impossible_dates() {
    assert_eq!(parse_date("2023-02-30"), None);
    assert_eq!(parse_date("2023-13-01"), None);
    assert_eq!(parse_date("2023-00-10"), None);
    assert_eq!(parse_date("20230229"), None);
}

#[test]
fn date_coding_honours_leap_years() {
    assert_eq!(parse_date("2024-02-29"), Some(Date { year: 2024, month: 2, day: 29 }));
    assert_eq!(parse_date("2000-02-29"), Some(Date { year: 2000, month: 2, day: 29 }));
    assert_eq!(parse_date("1900-02-29"), None);
}

#[test]
fn date_coding_degrades_to_absent_not_error() {
    assert_eq!(parse_optional_date("Not Available"), None);
    assert_eq!(parse_optional_date("yesterday"), None);
    assert_eq!(parse_optional_date("2023/01/15"), None);
    assert_eq!(parse_optional_date("2023-01-15"), Some(Date { year: 2023, month: 1, day: 15 }));
}
