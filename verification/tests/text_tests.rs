use open_now::text::{chars_of, contains_text, eq_ignore_ascii_case, lex_less_chars, same_text, starts_with_text, trim};

#[test]
fn text_helpers() {
    assert!(contains_text("hello", "ll"));
    assert!(contains_text("hello", ""));
    assert!(!contains_text("he", "hello"));
    assert!(same_text("é", "é"));
    assert!(!same_text("a", "A"));
    assert!(starts_with_text("https://x", "https://"));
    assert!(!starts_with_text("http", "https://"));
    assert!(eq_ignore_ascii_case("ExE", "exe"));
    assert!(!eq_ignore_ascii_case("exe ", "exe"));
    assert!(lex_less_chars(&chars_of("B"), &chars_of("a")));
    assert!(lex_less_chars(&chars_of("ab"), &chars_of("abc")));
    assert!(!lex_less_chars(&chars_of("abc"), &chars_of("abc")));
}

#[test]
fn trim_drops_unicode_white_space_at_both_ends() {
    assert_eq!(trim("\u{3000}\t a b \u{a0}\n"), "a b");
    assert_eq!(trim("   "), "");
    assert_eq!(trim(""), "");
    assert_eq!(trim("x"), "x");
}
