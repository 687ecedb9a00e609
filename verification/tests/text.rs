use kyori_component_json::text::{
    chars_of, hex_value, is_ascii_alphanumeric, is_name_char, is_whitespace, owned, str_eq,
    string_of, to_ascii_lowercase,
};

fn every_char() -> Vec<char> {
    (0u32..=0x10ffff).filter_map(char::from_u32).collect()
}

#[test]
fn whitespace_is_unicode_white_space() {
    for c in every_char() {
        assert_eq!(is_whitespace(c), c.is_whitespace(), "U+{:04X}", c as u32);
    }
    assert!(is_whitespace(' '));
    assert!(is_whitespace('\t'));
    assert!(is_whitespace('\n'));
    assert!(is_whitespace('\u{a0}'));
    assert!(is_whitespace('\u{3000}'));
    assert!(!is_whitespace('\u{200b}'));
    assert!(!is_whitespace('>'));
}

#[test]
fn alphanumeric_is_ascii_letters_and_digits() {
    for c in every_char() {
        assert_eq!(is_ascii_alphanumeric(c), c.is_ascii_alphanumeric(), "U+{:04X}", c as u32);
    }
}

#[test]
fn name_characters_are_letters_digits_underscore_and_hyphen() {
    for c in every_char() {
        let expected = c.is_ascii_alphanumeric() || c == '_' || c == '-';
        assert_eq!(is_name_char(c), expected, "U+{:04X}", c as u32);
    }
    assert!(is_name_char('a'));
    assert!(is_name_char('Z'));
    assert!(is_name_char('0'));
    assert!(is_name_char('_'));
    assert!(is_name_char('-'));
    assert!(!is_name_char(':'));
    assert!(!is_name_char('\u{e9}'));
}

#[test]
fn lower_case_changes_ascii_capitals_only() {
    for c in every_char() {
        assert_eq!(to_ascii_lowercase(c), c.to_ascii_lowercase(), "U+{:04X}", c as u32);
    }
    assert_eq!(to_ascii_lowercase('A'), 'a');
    assert_eq!(to_ascii_lowercase('Z'), 'z');
    assert_eq!(to_ascii_lowercase('a'), 'a');
    assert_eq!(to_ascii_lowercase('\u{c9}'), '\u{c9}');
}

#[test]
fn hex_value_is_the_value_of_a_hex_digit() {
    for c in every_char() {
        let expected = if c.is_ascii() { c.to_digit(16).map(|d| d as u8) } else { None };
        assert_eq!(hex_value(c), expected, "U+{:04X}", c as u32);
    }
    assert_eq!(hex_value('0'), Some(0));
    assert_eq!(hex_value('9'), Some(9));
    assert_eq!(hex_value('a'), Some(10));
    assert_eq!(hex_value('F'), Some(15));
    assert_eq!(hex_value('g'), None);
}

#[test]
fn chars_of_gives_the_characters_in_order() {
    assert_eq!(chars_of(""), Vec::<char>::new());
    assert_eq!(chars_of("a\u{e9}\u{1f600}b"), vec!['a', '\u{e9}', '\u{1f600}', 'b']);
}

#[test]
fn string_of_takes_a_range_of_characters() {
    let chars = vec!['a', '\u{e9}', '\u{1f600}', 'b'];
    assert_eq!(string_of(&chars, 0, 4), "a\u{e9}\u{1f600}b");
    assert_eq!(string_of(&chars, 1, 3), "\u{e9}\u{1f600}");
    assert_eq!(string_of(&chars, 2, 2), "");
}

#[test]
fn owned_copies_and_str_eq_compares() {
    assert_eq!(owned("abc"), "abc".to_string());
    assert!(str_eq("abc", "abc"));
    assert!(str_eq("", ""));
    assert!(!str_eq("abc", "abd"));
    assert!(!str_eq("abc", "ab"));
}
