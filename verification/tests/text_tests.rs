use rusty_framework::text::{
    chars_of, contains, ends_with, is_all_decimal_digits, is_whitespace, replace_literal,
    segment_after_last, starts_with, string_of, trim_chars,
};

#[test]
fn chars_round_trip() {
    let cs = chars_of("héllo ⭐");
    assert_eq!(cs, vec!['h', 'é', 'l', 'l', 'o', ' ', '⭐']);
    assert_eq!(string_of(&cs), "héllo ⭐");
    assert_eq!(string_of(&Vec::new()), "");
}

#[test]
fn prefix_and_suffix() {
    assert!(starts_with("Text.H2", "Text."));
    assert!(starts_with("abc", ""));
    assert!(!starts_with("Tex", "Text."));
    assert!(ends_with("Layout.Gap", ".Gap"));
    assert!(ends_with("x", ""));
    assert!(!ends_with("Layout.Gap", ".Padding"));
    assert!(!ends_with("ap", ".Gap"));
}

#[test]
fn containment() {
    assert!(contains("{\"protocol\":\"json\"}", "protocol"));
    assert!(contains("this.UseState<string>()", "UseState"));
    assert!(contains("anything", ""));
    assert!(!contains("protoco", "protocol"));
    assert!(!contains("", "a"));
}

#[test]
fn decimal_digits() {
    assert!(is_all_decimal_digits("120"));
    assert!(is_all_decimal_digits(""));
    assert!(!is_all_decimal_digits("1.5"));
    assert!(!is_all_decimal_digits("-3"));
    assert!(!is_all_decimal_digits("٣"));
}

#[test]
fn segment_after_last_separator() {
    assert_eq!(segment_after_last("Text.H2", '.'), "H2");
    assert_eq!(segment_after_last("a.b.Gap", '.'), "Gap");
    assert_eq!(segment_after_last("Plain", '.'), "Plain");
    assert_eq!(segment_after_last("Trailing.", '.'), "");
    assert_eq!(segment_after_last("", '.'), "");
}

#[test]
fn whitespace_and_trim() {
    assert!(is_whitespace(' '));
    assert!(is_whitespace('\t'));
    assert!(is_whitespace('\r'));
    assert!(is_whitespace('\u{a0}'));
    assert!(is_whitespace('\u{3000}'));
    assert!(!is_whitespace('x'));
    assert!(!is_whitespace('\u{1e}'));
    let t = trim_chars(&chars_of("  \t var x = 1;\r\n "));
    assert_eq!(string_of(&t), "var x = 1;");
    assert_eq!(trim_chars(&chars_of(" \r ")), Vec::<char>::new());
    assert_eq!(string_of(&trim_chars(&chars_of("\u{2003}mid\u{2003}"))), "mid");
}

#[test]
fn literal_replacement() {
    assert_eq!(replace_literal("aaa", "aa", "ba"), "baa");
    assert_eq!(replace_literal("x.Gap(6).Gap(2)", ".Gap(", ".gap("), "x.gap(6).gap(2)");
    assert_eq!(replace_literal("no match here", "Layout.Center()", "L"), "no match here");
    assert_eq!(replace_literal("", "a", "b"), "");
    assert_eq!(replace_literal("abab", "ab", ""), "");
}

#[test]
fn replace_absent_pattern_leaves_text() {
    let s = "Layout.Vertical().Padding(2)";
    assert_eq!(replace_literal(s, "new Card(", "Box::new(Card { content: "), s);
}

#[test]
fn string_equality() {
    use_eq();
}

fn use_eq() {
    assert!(rusty_framework::text::str_eq("Build", "Build"));
    assert!(!rusty_framework::text::str_eq("Build", "build"));
    assert!(!rusty_framework::text::str_eq("ab", "abc"));
    assert!(rusty_framework::text::str_eq("", ""));
}
