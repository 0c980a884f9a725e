use canticlec_churn::numeral::{is_float_text_exec, parse_i32, parse_u32};
use canticlec_churn::text::{
    contains_exec, ends_with_exec, find_char_exec, find_exec, split_char_exec, split_exec, starts_with_exec, trim_exec,
    words_exec,
};

#[test]
fn words_are_split_on_any_whitespace() {
    assert_eq!(words_exec("  set\tspeed \n 2 "), vec!["set", "speed", "2"]);
    assert!(words_exec("   ").is_empty());
}

#[test]
fn trimming_drops_outer_whitespace_only() {
    assert_eq!(trim_exec("  a b  "), "a b");
    assert_eq!(trim_exec("\u{3000}x\u{a0}"), "x");
    assert_eq!(trim_exec(""), "");
}

#[test]
fn splitting_keeps_empty_pieces() {
    assert_eq!(split_char_exec("1,,2", ','), vec!["1", "", "2"]);
    assert_eq!(split_exec("a::b", "::"), vec!["a", "b"]);
    assert_eq!(split_char_exec("", ','), vec![""]);
}

#[test]
fn searching_counts_characters() {
    assert_eq!(find_char_exec("héllo", 'l'), Some(2));
    assert_eq!(find_exec("create square(1, 2) with def n", "with"), Some(20));
    assert_eq!(find_exec("abc", "x"), None);
    assert!(contains_exec("c_red", "red"));
    assert!(starts_with_exec("def x", "def "));
    assert!(ends_with_exec("square(1,2)", ")"));
    assert!(!ends_with_exec("", ")"));
}

#[test]
fn float_text_is_what_f32_parsing_accepts() {
    for s in ["1", "+0.5", "-2.", ".5", "1e3", "2.5E-2", "inf", "-Infinity", "NaN"] {
        assert!(is_float_text_exec(s), "{}", s);
        assert!(s.parse::<f32>().is_ok());
    }
    for s in ["", "+", ".", "1e", "e3", "1.2.3", "0x1", " 1"] {
        assert!(!is_float_text_exec(s), "{}", s);
        assert!(s.parse::<f32>().is_err());
    }
}

#[test]
fn integers_parse_as_rust_does() {
    assert_eq!(parse_u32("42"), Some(42));
    assert_eq!(parse_u32("+7"), Some(7));
    assert_eq!(parse_u32("4294967295"), Some(u32::MAX));
    assert_eq!(parse_u32("4294967296"), None);
    assert_eq!(parse_u32("-1"), None);
    assert_eq!(parse_i32("-2147483648"), Some(i32::MIN));
    assert_eq!(parse_i32("2147483648"), None);
    assert_eq!(parse_i32(""), None);
}
