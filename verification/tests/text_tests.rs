use gigaam_core::text::{parse_usize, split_lines, str_contains, str_eq, u128_to_string};

#[test]
fn line_splitting_matches_std_semantics() {
    assert_eq!(split_lines("foo\r\nbar\n\nbaz\r"), vec!["foo", "bar", "", "baz\r"]);
    assert_eq!(split_lines("a\n"), vec!["a"]);
    assert_eq!(split_lines(""), Vec::<&str>::new());
}

#[test]
fn decimal_parsing_accepts_digits_and_a_plus_sign() {
    assert_eq!(parse_usize("0"), Some(0));
    assert_eq!(parse_usize("16000"), Some(16000));
    assert_eq!(parse_usize("+42"), Some(42));
    assert_eq!(parse_usize(""), None);
    assert_eq!(parse_usize("+"), None);
    assert_eq!(parse_usize("-1"), None);
    assert_eq!(parse_usize("1 2"), None);
    assert_eq!(parse_usize("99999999999999999999999999"), None);
}

#[test]
fn string_equality_is_character_wise() {
    assert!(str_eq("abc", "abc"));
    assert!(!str_eq("abc", "abd"));
    assert!(!str_eq("abc", "ab"));
    assert!(str_eq("", ""));
}

#[test]
fn substring_search_finds_runs() {
    assert!(str_contains("v3_e2e_ctc", "v3"));
    assert!(str_contains("abc", ""));
    assert!(!str_contains("v2_model", "v3"));
    assert!(!str_contains("v", "v3"));
}

#[test]
fn numbers_render_in_decimal() {
    assert_eq!(u128_to_string(0), "0");
    assert_eq!(u128_to_string(10), "10");
    assert_eq!(u128_to_string(340282366920938463463374607431768211455), "340282366920938463463374607431768211455");
}
