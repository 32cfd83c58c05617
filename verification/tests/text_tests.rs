use gcd_server::numbers::parse_u64;
use gcd_server::numbers::u64_to_string;
use gcd_server::numbers::render_number_list;
use gcd_server::extract::str_eq;

#[test]
fn parses_plain_numerals() {
    assert_eq!(parse_u64("0"), Some(0));
    assert_eq!(parse_u64("5"), Some(5));
    assert_eq!(parse_u64("14"), Some(14));
    assert_eq!(parse_u64("007"), Some(7));
    assert_eq!(parse_u64("18446744073709551615"), Some(u64::MAX));
}

#[test]
fn rejects_non_numerals() {
    assert_eq!(parse_u64(""), None);
    assert_eq!(parse_u64("abc"), None);
    assert_eq!(parse_u64("+5"), None);
    assert_eq!(parse_u64("-5"), None);
    assert_eq!(parse_u64(" 5"), None);
    assert_eq!(parse_u64("5 "), None);
    assert_eq!(parse_u64("1.5"), None);
    assert_eq!(parse_u64("1e3"), None);
}

#[test]
fn rejects_out_of_range_numerals() {
    assert_eq!(parse_u64("18446744073709551616"), None);
    assert_eq!(parse_u64("99999999999999999999999"), None);
}

#[test]
fn renders_decimal_numerals() {
    assert_eq!(u64_to_string(0), "0");
    assert_eq!(u64_to_string(7), "7");
    assert_eq!(u64_to_string(14), "14");
    assert_eq!(u64_to_string(18446744073709551615), "18446744073709551615");
}

#[test]
fn renders_number_lists() {
    assert_eq!(render_number_list(&vec![]), "[]");
    assert_eq!(render_number_list(&vec![7]), "[7]");
    assert_eq!(render_number_list(&vec![14, 21]), "[14, 21]");
    assert_eq!(render_number_list(&vec![1, 2, 3]), "[1, 2, 3]");
}

#[test]
fn string_equality_by_characters() {
    assert!(str_eq("n", "n"));
    assert!(str_eq("", ""));
    assert!(!str_eq("n", "m"));
    assert!(!str_eq("n", "nn"));
    assert!(str_eq("grüße", "grüße"));
}
