use gogs_cli::text::{i64_to_string, str_eq, str_eq_ignore_case, str_lex_le};

#[test]
fn decimal_rendering_is_exact() {
    assert_eq!(i64_to_string(0), "0");
    assert_eq!(i64_to_string(7), "7");
    assert_eq!(i64_to_string(12345), "12345");
    assert_eq!(i64_to_string(-5), "-5");
    assert_eq!(i64_to_string(i64::MAX), "9223372036854775807");
    assert_eq!(i64_to_string(i64::MIN), "-9223372036854775808");
}

#[test]
fn lexicographic_order_on_strings() {
    assert!(str_lex_le("", "a"));
    assert!(str_lex_le("a", "a"));
    assert!(str_lex_le("alpha/early", "zeta/late"));
    assert!(!str_lex_le("zeta/late", "alpha/early"));
    assert!(str_lex_le("ab", "abc"));
    assert!(!str_lex_le("abc", "ab"));
}

#[test]
fn case_insensitive_comparison_is_ascii_only() {
    assert!(str_eq_ignore_case("Bug", "bUG"));
    assert!(!str_eq_ignore_case("bug", "bugs"));
    assert!(str_eq_ignore_case("", ""));
    assert!(!str_eq_ignore_case("strasse", "STRASSE2"));
}

#[test]
fn plain_string_equality() {
    assert!(str_eq("closed", "closed"));
    assert!(!str_eq("closed", "close"));
}
