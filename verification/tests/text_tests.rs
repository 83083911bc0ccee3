use issue_harvest::text::{
    append_decimal, append_signed_decimal, decimal_string, strip_suffix,
};

#[test]
fn decimal_of_zero_is_one_digit() {
    assert_eq!(decimal_string(0), "0");
}

#[test]
fn decimal_has_no_padding() {
    assert_eq!(decimal_string(7), "7");
    assert_eq!(decimal_string(10), "10");
    assert_eq!(decimal_string(100), "100");
    assert_eq!(decimal_string(65535), "65535");
    assert_eq!(decimal_string(u64::MAX), "18446744073709551615");
}

#[test]
fn decimal_agrees_with_the_standard_rendering() {
    let mut n: u64 = 1;
    for _ in 0..19 {
        assert_eq!(decimal_string(n), n.to_string());
        assert_eq!(decimal_string(n - 1), (n - 1).to_string());
        n *= 10;
    }
}

#[test]
fn append_decimal_keeps_what_was_there() {
    let mut out = String::from("page=");
    append_decimal(&mut out, 49);
    assert_eq!(out, "page=49");
}

#[test]
fn signed_decimal_writes_a_minus_sign() {
    let mut out = String::new();
    append_signed_decimal(&mut out, -5);
    assert_eq!(out, "-5");
    let mut out = String::new();
    append_signed_decimal(&mut out, 0);
    assert_eq!(out, "0");
    let mut out = String::new();
    append_signed_decimal(&mut out, 2147483647);
    assert_eq!(out, "2147483647");
}

#[test]
fn signed_decimal_of_the_smallest_integers() {
    let mut out = String::new();
    append_signed_decimal(&mut out, i32::MIN as i64);
    assert_eq!(out, "-2147483648");
    let mut out = String::new();
    append_signed_decimal(&mut out, i64::MIN);
    assert_eq!(out, "-9223372036854775808");
}

#[test]
fn strip_suffix_cuts_the_placeholder() {
    assert_eq!(
        strip_suffix("https://api.example/repos/a/b/issues{/number}", "{/number}"),
        Some("https://api.example/repos/a/b/issues".to_string())
    );
}

#[test]
fn strip_suffix_refuses_other_endings() {
    assert_eq!(strip_suffix("https://api.example/issues", "{/number}"), None);
    assert_eq!(strip_suffix("{/sha}", "x{/sha}"), None);
    assert_eq!(strip_suffix("", "a"), None);
    assert_eq!(strip_suffix("{/number}x", "{/number}"), None);
}

#[test]
fn strip_suffix_of_the_whole_text_leaves_nothing() {
    assert_eq!(strip_suffix("{/sha}", "{/sha}"), Some(String::new()));
    assert_eq!(strip_suffix("abc", ""), Some("abc".to_string()));
}

#[test]
fn strip_suffix_counts_characters_not_bytes() {
    assert_eq!(strip_suffix("héllo→x", "→x"), Some("héllo".to_string()));
}
