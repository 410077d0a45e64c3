use iced_pv_meet::common::chosen_locale;
use iced_pv_meet::text::{is_white_space_char, str_eq, str_less, trim};

#[test]
fn strings_compare_by_code_point() {
    assert!(str_eq("abc", "abc"));
    assert!(!str_eq("abc", "abd"));
    assert!(!str_eq("ab", "abc"));
    assert!(str_less("ab", "abc"));
    assert!(str_less("Zed", "alice"));
    assert!(!str_less("abc", "abc"));
    assert!(str_less("é", "ü"));
    assert!(!str_less("b", "a"));
}

#[test]
fn the_locale_comes_from_a_bare_language() {
    let known: Vec<String> = ["en", "es", "it", "pt"].iter().map(|s| (*s).to_owned()).collect();
    assert_eq!(chosen_locale(" ES\n", &known), Some("es".to_owned()));
    assert_eq!(chosen_locale("pt", &known), Some("pt".to_owned()));
    assert_eq!(chosen_locale("en_US.UTF-8", &known), None);
    assert_eq!(chosen_locale("", &known), None);
}

#[test]
fn any_unicode_white_space_is_trimmed() {
    let known: Vec<String> = ["en", "es"].iter().map(|s| (*s).to_owned()).collect();
    assert_eq!(chosen_locale("\u{3000}EN\u{2003}\u{85}", &known), Some("en".to_owned()));
    assert_eq!(chosen_locale("\u{200B}en", &known), None);
}

#[test]
fn trimming_drops_white_space_at_both_ends_only() {
    assert_eq!(trim("  hello  "), "hello");
    assert_eq!(trim("\t\u{3000}a b\n"), "a b");
    assert_eq!(trim("   "), "");
    assert_eq!(trim(""), "");
    assert_eq!(trim("\u{200B}x"), "\u{200B}x");
    for c in ['\u{9}', '\u{D}', ' ', '\u{85}', '\u{A0}', '\u{1680}', '\u{2000}', '\u{200A}', '\u{2028}', '\u{2029}', '\u{202F}', '\u{205F}', '\u{3000}'] {
        assert!(is_white_space_char(c) && c.is_whitespace());
    }
    assert!(!is_white_space_char('x') && !is_white_space_char('\u{200B}'));
}
