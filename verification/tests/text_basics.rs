use antigravity_client::text::{
    append_decimal, append_zero_padded, ends_with, first_line_of, replace_char_with, str_eq, trim,
    trim_end_matches,
};

#[test]
fn decimal_rendering() {
    let mut s = String::new();
    append_decimal(&mut s, 0);
    append_decimal(&mut s, 1234567890);
    assert_eq!(s, "01234567890");
    let mut p = String::new();
    append_zero_padded(&mut p, 7, 2);
    append_zero_padded(&mut p, 123, 2);
    append_zero_padded(&mut p, 5, 4);
    assert_eq!(p, "071230005");
}

#[test]
fn string_helpers() {
    assert!(str_eq("ab", "ab"));
    assert!(!str_eq("ab", "abc"));
    assert!(ends_with("http://x/v1", "/v1"));
    assert!(!ends_with("v1", "/v1"));
    assert_eq!(trim_end_matches("a/v1/v1", "/v1"), "a");
    assert_eq!(trim_end_matches("a/v1x", "/v1"), "a/v1x");
    assert_eq!(trim_end_matches("abc", ""), "abc");
    assert_eq!(trim("\u{A0} x y \u{2029}"), "x y");
    assert_eq!(trim("   "), "");
    assert_eq!(first_line_of("one\ntwo"), "one");
    assert_eq!(first_line_of("\nx"), "");
    assert_eq!(replace_char_with("a'b'", '\'', "''"), "a''b''");
}
