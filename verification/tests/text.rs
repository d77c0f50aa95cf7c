use randsort::parse::parse_i32;
use randsort::preview::{i32_string, not_empty, preview, u32_string};

#[test]
fn writes_small_numbers() {
    assert_eq!(u32_string(0), "0");
    assert_eq!(u32_string(7), "7");
    assert_eq!(u32_string(10), "10");
    assert_eq!(u32_string(12345), "12345");
}

#[test]
fn writes_signed_numbers() {
    assert_eq!(i32_string(0), "0");
    assert_eq!(i32_string(-5), "-5");
    assert_eq!(i32_string(999), "999");
    assert_eq!(i32_string(i32::MAX), "2147483647");
    assert_eq!(i32_string(i32::MIN), "-2147483648");
}

#[test]
fn previews_short_vector_whole() {
    let v: Vec<i32> = vec![1, 2, 3];
    assert_eq!(preview(&v, 10), "[1 2 3]");
}

#[test]
fn previews_only_leading_elements() {
    let v: Vec<i32> = (1..=15).collect();
    assert_eq!(preview(&v, 10), "[1 2 3 4 5 6 7 8 9 10]");
}

#[test]
fn previews_empty_vector_as_brackets() {
    let v: Vec<i32> = Vec::new();
    assert_eq!(preview(&v, 10), "[]");
}

#[test]
fn previews_nothing_under_zero_limit() {
    let v: Vec<i32> = vec![4, 5];
    assert_eq!(preview(&v, 0), "[]");
}

#[test]
fn previews_negative_values() {
    let v: Vec<i32> = vec![-5, 0, 7];
    assert_eq!(preview(&v, 10), "[-5 0 7]");
}

#[test]
fn previews_exactly_at_limit() {
    let v: Vec<i32> = vec![8, 9];
    assert_eq!(preview(&v, 2), "[8 9]");
}

#[test]
fn reports_emptiness() {
    let none: Vec<i32> = Vec::new();
    let some: Vec<i32> = vec![1];
    assert!(!not_empty(&none));
    assert!(not_empty(&some));
}

#[test]
fn parses_plain_numbers() {
    assert_eq!(parse_i32(b"42"), Some(42));
    assert_eq!(parse_i32(b"0"), Some(0));
    assert_eq!(parse_i32(b"0012"), Some(12));
}

#[test]
fn parses_signed_numbers() {
    assert_eq!(parse_i32(b"-17"), Some(-17));
    assert_eq!(parse_i32(b"+8"), Some(8));
    assert_eq!(parse_i32(b"-0"), Some(0));
}

#[test]
fn parses_after_trimming_whitespace() {
    assert_eq!(parse_i32(b"  -17 \r\n"), Some(-17));
    assert_eq!(parse_i32(b"\t999\n"), Some(999));
}

#[test]
fn parses_extreme_values() {
    assert_eq!(parse_i32(b"2147483647"), Some(i32::MAX));
    assert_eq!(parse_i32(b"-2147483648"), Some(i32::MIN));
}

#[test]
fn rejects_values_out_of_bounds() {
    assert_eq!(parse_i32(b"2147483648"), None);
    assert_eq!(parse_i32(b"-2147483649"), None);
    assert_eq!(parse_i32(b"999999999999999999999999"), None);
}

#[test]
fn rejects_malformed_input() {
    assert_eq!(parse_i32(b""), None);
    assert_eq!(parse_i32(b"   "), None);
    assert_eq!(parse_i32(b"abc"), None);
    assert_eq!(parse_i32(b"12x"), None);
    assert_eq!(parse_i32(b"+"), None);
    assert_eq!(parse_i32(b"-"), None);
    assert_eq!(parse_i32(b"1 2"), None);
}
