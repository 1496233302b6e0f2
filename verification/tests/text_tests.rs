use comicshelf::text::{parse_digits, path_valid, push_dec_i64, push_dec_u64, query_valid, str_starts_with};

#[test]
fn decimal_rendering_of_unsigned_numbers() {
    let mut s = String::new();
    push_dec_u64(&mut s, 0);
    assert_eq!(s, "0");
    let mut t = String::new();
    push_dec_u64(&mut t, 1234567890123456789);
    assert_eq!(t, "1234567890123456789");
}

#[test]
fn decimal_rendering_of_signed_numbers() {
    let mut s = String::new();
    push_dec_i64(&mut s, -42);
    assert_eq!(s, "-42");
    let mut t = String::new();
    push_dec_i64(&mut t, i64::MIN);
    assert_eq!(t, "-9223372036854775808");
}

#[test]
fn digit_runs_parse_back() {
    assert_eq!(parse_digits("12345", 0, 5), Some(12345));
    assert_eq!(parse_digits("12345", 1, 3), Some(23));
    assert_eq!(parse_digits("9223372036854775807", 0, 19), Some(9223372036854775807));
}

#[test]
fn digit_runs_beyond_the_signed_range_are_refused() {
    assert_eq!(parse_digits("9223372036854775808", 0, 19), None);
    assert_eq!(parse_digits("99999999999999999999", 0, 20), None);
}

#[test]
fn path_characters_are_checked() {
    assert!(path_valid("/v1/public/comics"));
    assert!(path_valid(""));
    assert!(!path_valid("/a b"));
    assert!(!path_valid("/a?b"));
    assert!(!path_valid("/caf\u{e9}"));
}

#[test]
fn query_characters_allow_the_question_mark() {
    assert!(query_valid("format=comic&limit=100"));
    assert!(query_valid("a?b"));
    assert!(!query_valid("a b"));
    assert!(!query_valid("a#b"));
}

#[test]
fn prefix_detection() {
    assert!(str_starts_with("/v1/public/comics", "/v1/public"));
    assert!(str_starts_with("abc", ""));
    assert!(!str_starts_with("/comics", "/v1/public"));
    assert!(!str_starts_with("/v1", "/v1/public"));
}
