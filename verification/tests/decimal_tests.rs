use video_pipeline_editor::decimal::{
    format_millionths, format_signed, parse_decimal, parse_unsigned, span,
};
use video_pipeline_editor::text::{decimal_text, join, join3, same};

#[test]
fn whole_numbers_are_read_as_millionths() {
    assert_eq!(parse_decimal("5"), Some(5_000_000));
    assert_eq!(parse_decimal("0"), Some(0));
    assert_eq!(parse_decimal("60"), Some(60_000_000));
    assert_eq!(parse_decimal("+7"), Some(7_000_000));
    assert_eq!(parse_decimal("-3"), Some(-3_000_000));
}

#[test]
fn fractions_are_read_exactly() {
    assert_eq!(parse_decimal("5.5"), Some(5_500_000));
    assert_eq!(parse_decimal("0.1"), Some(100_000));
    assert_eq!(parse_decimal("99.998047"), Some(99_998_047));
    assert_eq!(parse_decimal("12.345000"), Some(12_345_000));
    assert_eq!(parse_decimal(".5"), Some(500_000));
    assert_eq!(parse_decimal("5."), Some(5_000_000));
}

#[test]
fn what_is_below_a_millionth_is_rounded_down() {
    assert_eq!(parse_decimal("0.0000019"), Some(1));
    assert_eq!(parse_decimal("0.0000001"), Some(0));
    assert_eq!(parse_decimal("-0.0000001"), Some(-1));
    assert_eq!(parse_decimal("-0.0000010"), Some(-1));
    assert_eq!(parse_decimal("-0.0000011"), Some(-2));
    assert_eq!(parse_decimal("-0.0"), Some(0));
}

#[test]
fn exponents_shift_the_point() {
    assert_eq!(parse_decimal("1e3"), Some(1_000_000_000));
    assert_eq!(parse_decimal("1E3"), Some(1_000_000_000));
    assert_eq!(parse_decimal("1.5e-7"), Some(0));
    assert_eq!(parse_decimal("1e-6"), Some(1));
    assert_eq!(parse_decimal("2.5e+1"), Some(25_000_000));
    assert_eq!(parse_decimal("-1.5e-7"), Some(-1));
    assert_eq!(parse_decimal("0e999999999999"), Some(0));
    assert_eq!(parse_decimal("1e-999999999999"), Some(0));
}

#[test]
fn numbers_out_of_range_come_out_as_the_nearest_bound() {
    assert_eq!(parse_decimal("1e30"), Some(i64::MAX));
    assert_eq!(parse_decimal("-1e30"), Some(i64::MIN));
    assert_eq!(parse_decimal("9223372036854.775807"), Some(i64::MAX));
    assert_eq!(parse_decimal("9223372036854.775808"), Some(i64::MAX));
    assert_eq!(parse_decimal("-9223372036854.775808"), Some(i64::MIN));
    assert_eq!(parse_decimal("-9223372036854.775809"), Some(i64::MIN));
    assert_eq!(parse_decimal("9223372036854.775806"), Some(i64::MAX - 1));
    assert_eq!(parse_decimal("1e999999999999"), Some(i64::MAX));
}

#[test]
fn text_that_is_no_number_is_not_read() {
    assert_eq!(parse_decimal(""), None);
    assert_eq!(parse_decimal("."), None);
    assert_eq!(parse_decimal("-"), None);
    assert_eq!(parse_decimal("abc"), None);
    assert_eq!(parse_decimal("1e"), None);
    assert_eq!(parse_decimal("1e+"), None);
    assert_eq!(parse_decimal("e5"), None);
    assert_eq!(parse_decimal("1.2.3"), None);
    assert_eq!(parse_decimal(" 1"), None);
    assert_eq!(parse_decimal("1 "), None);
    assert_eq!(parse_decimal("\"5\""), None);
    assert_eq!(parse_decimal("true"), None);
    assert_eq!(parse_decimal("N/A"), None);
}

#[test]
fn the_value_decides_however_long_the_text_is() {
    let ones = "1".repeat(39);
    assert_eq!(parse_decimal(&ones), Some(i64::MAX));
    assert_eq!(parse_decimal(&format!("-{}", ones)), Some(i64::MIN));
    let padded = format!("{}23", "0".repeat(38));
    assert_eq!(parse_decimal(&padded), Some(23_000_000));
    let tail = format!("2.5{}1", "0".repeat(60));
    assert_eq!(parse_decimal(&tail), Some(2_500_000));
    assert_eq!(parse_decimal(&format!("-{}", tail)), Some(-2_500_001));
    let tiny = format!("0.{}1", "0".repeat(100));
    assert_eq!(parse_decimal(&tiny), Some(0));
    assert_eq!(parse_decimal(&format!("-{}", tiny)), Some(-1));
    assert_eq!(parse_decimal(&format!("-0.{}", "0".repeat(100))), Some(0));
    let shifted = format!("1{}e-50", "0".repeat(50));
    assert_eq!(parse_decimal(&shifted), Some(1_000_000));
    let back = format!("0.{}1e51", "0".repeat(50));
    assert_eq!(parse_decimal(&back), Some(1_000_000));
    let far = format!("1e{}", "9".repeat(50));
    assert_eq!(parse_decimal(&far), Some(i64::MAX));
    assert_eq!(parse_decimal(&format!("0e{}", "9".repeat(50))), Some(0));
    let deep = format!("1e-{}", "9".repeat(50));
    assert_eq!(parse_decimal(&deep), Some(0));
    assert_eq!(parse_decimal(&format!("-{}", deep)), Some(-1));
    assert_eq!(parse_decimal(&format!("{}e-{}", "9".repeat(70), "0".repeat(40) + "64")), Some(999_999_999_999));
    let broken = format!("{}x", "1".repeat(50));
    assert_eq!(parse_decimal(&broken), None);
}

#[test]
fn unsigned_numbers_are_read() {
    assert_eq!(parse_unsigned("0"), Some(0));
    assert_eq!(parse_unsigned("51"), Some(51));
    assert_eq!(parse_unsigned("+128"), Some(128));
    assert_eq!(parse_unsigned("0128"), Some(128));
    assert_eq!(parse_unsigned("18446744073709551615"), Some(u64::MAX));
    assert_eq!(parse_unsigned("18446744073709551616"), None);
    assert_eq!(parse_unsigned(&format!("{}23", "0".repeat(38))), Some(23));
    assert_eq!(parse_unsigned(&format!("+{}", "0".repeat(500))), Some(0));
    assert_eq!(parse_unsigned(&format!("{}18446744073709551615", "0".repeat(100))), Some(u64::MAX));
    assert_eq!(parse_unsigned(&"9".repeat(100)), None);
    assert_eq!(parse_unsigned(&format!("{}x", "1".repeat(100))), None);
    assert_eq!(parse_unsigned(""), None);
    assert_eq!(parse_unsigned("+"), None);
    assert_eq!(parse_unsigned("-1"), None);
    assert_eq!(parse_unsigned("1.0"), None);
    assert_eq!(parse_unsigned("12a"), None);
}

#[test]
fn millionths_are_written_without_trailing_zeros() {
    assert_eq!(format_millionths(5_000_000), "5");
    assert_eq!(format_millionths(5_500_000), "5.5");
    assert_eq!(format_millionths(0), "0");
    assert_eq!(format_millionths(1), "0.000001");
    assert_eq!(format_millionths(100_000), "0.1");
    assert_eq!(format_millionths(-12_500_000), "-12.5");
    assert_eq!(format_millionths(-1), "-0.000001");
    assert_eq!(format_millionths(99_998_047), "99.998047");
    assert_eq!(format_millionths(i64::MAX), "9223372036854.775807");
    assert_eq!(format_millionths(i64::MIN), "-9223372036854.775808");
    assert_eq!(format_millionths(10_010_000), "10.01");
}

#[test]
fn what_is_written_is_read_back() {
    for value in [0i64, 1, -1, 999_999, 1_000_000, 5_500_000, -86_400_000_000, i64::MAX, i64::MIN] {
        assert_eq!(parse_decimal(&format_millionths(value)), Some(value));
    }
}

#[test]
fn signed_numbers_are_written() {
    assert_eq!(format_signed(0), "0");
    assert_eq!(format_signed(2500), "2500");
    assert_eq!(format_signed(-7), "-7");
    assert_eq!(format_signed(i64::MIN), "-9223372036854775808");
}

#[test]
fn spans_are_held_to_the_range() {
    assert_eq!(span(5_000_000, 10_000_000), 5_000_000);
    assert_eq!(span(10, 5), -5);
    assert_eq!(span(i64::MIN, i64::MAX), i64::MAX);
    assert_eq!(span(i64::MAX, i64::MIN), i64::MIN);
}

#[test]
fn text_helpers_join_and_compare() {
    assert_eq!(join("ab", "cd"), "abcd");
    assert_eq!(join3("a", "", "c"), "ac");
    assert!(same("node-1", "node-1"));
    assert!(!same("node-1", "node-2"));
    assert!(!same("node", "node-1"));
    assert!(same("", ""));
    assert!(same("häßlich ✅", "häßlich ✅"));
    assert_eq!(decimal_text(0), "0");
    assert_eq!(decimal_text(10), "10");
    assert_eq!(decimal_text(u64::MAX), "18446744073709551615");
}
