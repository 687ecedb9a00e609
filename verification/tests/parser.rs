use kyori_component_json::minimessage::lexer::SyntaxError;
use kyori_component_json::minimessage::parser::Parser;
use kyori_component_json::minimessage::{MiniMessageConfig, MiniMessageError};
use kyori_component_json::{Color, Component, NamedColor, Style, TextDecoration};

fn parser(input: &str) -> Parser {
    Parser::new(input, &MiniMessageConfig::default())
}

fn at(input: &str, position: usize) -> Parser {
    let mut p = parser(input);
    p.position = position;
    p
}

#[test]
fn a_new_parser_stands_at_the_start_with_the_default_style() {
    let p = parser("a\u{e9}b");
    assert_eq!(p.input, vec!['a', '\u{e9}', 'b']);
    assert_eq!(p.position, 0);
    assert_eq!(p.config, MiniMessageConfig::default());
    assert_eq!(p.style_stack, vec![Style::default()]);
    assert!(p.component_parts.is_empty());
    assert_eq!(*p.current_style(), Style::default());
}

#[test]
fn starts_with_and_current_char_look_at_the_next_character() {
    let p = at("ab", 1);
    assert!(p.starts_with('b'));
    assert!(!p.starts_with('a'));
    assert_eq!(p.current_char(), 'b');
    let end = at("ab", 2);
    assert!(!end.starts_with('b'));
    assert!(!end.starts_with('\0'));
    assert_eq!(end.current_char(), '\0');
}

#[test]
fn white_space_and_separators_are_skipped() {
    let mut p = parser(" \t\n\u{3000}x ");
    p.skip_whitespace();
    assert_eq!(p.position, 4);
    p.skip_whitespace();
    assert_eq!(p.position, 4);

    let mut p = parser(" : :: \t:x:");
    p.skip_separators();
    assert_eq!(p.position, 8);
    let mut p = parser(":::");
    p.skip_separators();
    assert_eq!(p.position, 3);
    let mut p = parser("x:");
    p.skip_separators();
    assert_eq!(p.position, 0);
}

#[test]
fn expect_moves_past_the_character_or_names_it() {
    let mut p = parser(">x");
    assert_eq!(p.expect('>'), Ok(()));
    assert_eq!(p.position, 1);
    let e = p.expect('>').unwrap_err();
    assert_eq!(e.message(), "Expected '>'");
    assert_eq!(e, MiniMessageError::new(SyntaxError::ExpectedClosingBracket));
    assert_eq!(p.position, 1);
    assert_eq!(p.expect('x'), Ok(()));
    assert_eq!(p.expect('y').unwrap_err().message(), "Expected 'y'");
}

#[test]
fn a_tag_name_is_read_in_lower_case() {
    let mut p = parser("Dark_Red-9:x");
    assert_eq!(p.read_tag_name().unwrap(), "dark_red-9");
    assert_eq!(p.position, 10);
    let e = p.read_tag_name().unwrap_err();
    assert_eq!(e.message(), "Expected tag name");
    assert_eq!(p.position, 10);
    let mut p = parser("\u{c9}a");
    assert!(p.read_tag_name().is_err());
    let mut p = parser("");
    assert!(p.read_tag_name().is_err());
}

#[test]
fn an_unquoted_argument_ends_at_a_delimiter() {
    for (input, arg) in [
        ("abc:d", "abc"),
        ("abc>d", "abc"),
        ("abc/d", "abc"),
        ("abc d", "abc"),
        ("abc\u{a0}d", "abc"),
        ("abc", "abc"),
        ("a'b\"c:", "a'b\"c"),
        (":x", ""),
        ("", ""),
    ] {
        let mut p = parser(input);
        assert_eq!(p.read_unquoted_string(), arg);
        assert_eq!(p.position, arg.chars().count());
        let mut p = parser(input);
        assert_eq!(p.read_argument().unwrap(), arg);
    }
}

#[test]
fn a_quoted_argument_ends_at_its_quote() {
    for (input, arg, end) in [
        ("'abc'd", "abc", 5),
        ("\"abc\"d", "abc", 5),
        ("'a\"b'", "a\"b", 5),
        ("\"a'b\"", "a'b", 5),
        ("''", "", 2),
        ("'a\\'b'", "a'b", 6),
        ("'a\\\\'", "a\\", 5),
        ("'a\\nb'", "anb", 6),
        ("'<red>x: y/z > w'", "<red>x: y/z > w", 17),
    ] {
        let mut p = parser(input);
        assert_eq!(p.read_quoted_string().unwrap(), arg, "{}", input);
        assert_eq!(p.position, end, "{}", input);
        let mut p = parser(input);
        assert_eq!(p.read_argument().unwrap(), arg, "{}", input);
    }
    for input in ["'abc", "'", "\"abc'", "'abc\\'", "'abc\\"] {
        let mut p = parser(input);
        let e = p.read_quoted_string().unwrap_err();
        assert_eq!(e.message(), "Unterminated quoted string", "{}", input);
        assert_eq!(e, MiniMessageError::new(SyntaxError::UnterminatedQuote));
    }
}

#[test]
fn the_style_stack_is_pushed_popped_and_reset() {
    let mut p = parser("");
    let red = Style { color: Some(Color::Named(NamedColor::Red)), ..Style::default() };
    let bold = Style { bold: Some(true), ..red.clone() };
    p.push_style(red.clone());
    p.push_style(bold.clone());
    assert_eq!(*p.current_style(), bold);
    assert_eq!(p.pop_style(), Ok(()));
    assert_eq!(*p.current_style(), red);
    assert_eq!(p.pop_style(), Ok(()));
    assert_eq!(*p.current_style(), Style::default());
    let e = p.pop_style().unwrap_err();
    assert_eq!(e.message(), "Unbalanced closing tag");
    assert_eq!(p.style_stack.len(), 1);

    p.push_style(red.clone());
    p.push_style(bold);
    p.reset_style();
    assert_eq!(p.style_stack, vec![Style::default()]);
    p.reset_style();
    assert_eq!(p.style_stack, vec![Style::default()]);
}

#[test]
fn set_decorations_are_collected_in_order() {
    let mut p = parser("");
    assert_eq!(p.collect_decorations(), vec![]);
    p.push_style(Style {
        obfuscated: Some(true),
        italic: Some(false),
        bold: Some(true),
        ..Style::default()
    });
    assert_eq!(
        p.collect_decorations(),
        vec![
            (TextDecoration::Bold, Some(true)),
            (TextDecoration::Italic, Some(false)),
            (TextDecoration::Obfuscated, Some(true)),
        ]
    );
    let node = Component::text("x").decorations(&p.collect_decorations());
    assert_eq!(
        node,
        Component::text("x").apply_fallback_style(p.current_style())
    );
}

#[test]
fn closing_tags_pop_one_frame() {
    let red = Style { color: Some(Color::Named(NamedColor::Red)), ..Style::default() };
    for name in [
        "bold", "b", "italic", "i", "em", "underlined", "u", "strikethrough", "st", "obfuscated",
        "obf", "color", "colour", "c", "click", "hover", "insert", "insertion",
    ] {
        let mut p = parser("");
        p.push_style(red.clone());
        assert_eq!(p.handle_close_tag(name), Ok(()));
        assert_eq!(p.style_stack.len(), 1);
        let e = p.handle_close_tag(name).unwrap_err();
        assert_eq!(e.message(), "Unbalanced closing tag", "{}", name);
    }
    for name in ["red", "reset", "newline", "br", "foo", "bolds"] {
        let mut p = parser("");
        p.push_style(red.clone());
        assert_eq!(p.handle_close_tag(name), Ok(()));
        assert_eq!(p.style_stack.len(), 1);
        assert_eq!(p.handle_close_tag(name), Ok(()), "{}", name);
        assert_eq!(p.style_stack.len(), 1);
    }
}

#[test]
fn text_is_emitted_in_the_ambient_style() {
    let mut p = parser("ab<c");
    p.push_style(Style { italic: Some(true), ..Style::default() });
    p.parse_text();
    assert_eq!(p.position, 2);
    p.emit("z");
    assert_eq!(
        p.component_parts,
        vec![
            Component::text("ab").decoration(TextDecoration::Italic, Some(true)),
            Component::text("z").decoration(TextDecoration::Italic, Some(true)),
        ]
    );
}

#[test]
fn a_tag_is_read_and_applied() {
    let mut p = at("x<Color : gold >y", 1);
    assert_eq!(p.parse_tag(), Ok(()));
    assert_eq!(p.position, 16);
    assert_eq!(p.current_style().color, Some(Color::Named(NamedColor::Gold)));
    assert!(p.component_parts.is_empty());

    let mut p = parser("<a:'b c':d/>rest");
    assert_eq!(p.parse_tag(), Ok(()));
    assert_eq!(p.position, 12);
    assert_eq!(p.component_parts, vec![Component::text("")]);

    let mut p = parser("<a:'b c':d>rest");
    assert_eq!(p.parse_tag(), Ok(()));
    assert_eq!(p.component_parts, vec![Component::text("<a:b c:d>")]);
}

#[test]
fn open_tags_are_applied_by_name() {
    let mut p = parser("a long enough input");
    assert_eq!(p.handle_open_tag("red", vec![], false), Ok(()));
    assert_eq!(p.handle_open_tag("b", vec!["ignored".to_string()], true), Ok(()));
    assert_eq!(
        *p.current_style(),
        Style { color: Some(Color::Named(NamedColor::Red)), bold: Some(true), ..Style::default() }
    );
    assert_eq!(p.handle_open_tag("c", vec!["#00ff00".to_string()], false), Ok(()));
    assert_eq!(p.current_style().color, Some(Color::Hex("#00ff00".to_string())));
    assert_eq!(p.style_stack.len(), 4);
    assert_eq!(p.handle_open_tag("c", vec!["nope".to_string()], false), Ok(()));
    assert_eq!(p.style_stack.len(), 4);
    assert_eq!(p.handle_open_tag("reset", vec![], false), Ok(()));
    assert_eq!(p.style_stack.len(), 1);
    assert!(p.component_parts.is_empty());
    assert_eq!(p.position, 0);
}

#[test]
fn open_tags_do_not_depend_on_the_input() {
    let mut p = parser("");
    assert_eq!(
        p.handle_open_tag("foo", vec!["a".to_string(), "b".to_string()], false),
        Ok(())
    );
    assert_eq!(p.component_parts, vec![Component::text("<foo:a:b>")]);
    assert_eq!(p.style_stack, vec![Style::default()]);
    assert_eq!(p.handle_open_tag("foo", vec!["a long argument".to_string()], true), Ok(()));
    assert_eq!(p.component_parts, vec![Component::text("<foo:a:b>"), Component::text("")]);
    assert_eq!(
        p.handle_open_tag("click", vec!["open_file".to_string(), "x".to_string()], false),
        Ok(())
    );
    assert_eq!(p.style_stack, vec![Style::default()]);
    assert_eq!(p.component_parts.len(), 2);
    assert_eq!(p.handle_open_tag("red", vec!["any".to_string(), "args".to_string()], true), Ok(()));
    assert_eq!(
        p.style_stack,
        vec![
            Style::default(),
            Style { color: Some(Color::Named(NamedColor::Red)), ..Style::default() },
        ]
    );
    assert_eq!(p.component_parts.len(), 2);
    assert_eq!(p.position, 0);
}

#[test]
fn hover_text_pushes_the_nested_tree_or_fails_without_a_change() {
    let mut p = parser("");
    p.push_style(Style { bold: Some(true), ..Style::default() });
    p.emit("before");
    let stack = p.style_stack.clone();
    let parts = p.component_parts.clone();
    let e = p
        .handle_open_tag("hover", vec!["show_text".to_string(), "a</b>".to_string()], false)
        .unwrap_err();
    assert_eq!(e.message(), "Unbalanced closing tag");
    assert_eq!(p.style_stack, stack);
    assert_eq!(p.component_parts, parts);
    assert_eq!(p.position, 0);

    assert_eq!(
        p.handle_open_tag("hover", vec!["show_text".to_string(), "<red>tip".to_string()], false),
        Ok(())
    );
    assert_eq!(p.component_parts, parts);
    assert_eq!(p.style_stack.len(), 3);
    assert_eq!(
        *p.current_style(),
        Style {
            bold: Some(true),
            hover_event: Some(kyori_component_json::HoverEvent::ShowText {
                value: Component::text("tip").color(Some(Color::Named(NamedColor::Red))),
            }),
            ..Style::default()
        }
    );
}

#[test]
fn an_unbalanced_closing_tag_changes_nothing() {
    let mut p = parser("x");
    p.emit("before");
    let parts = p.component_parts.clone();
    assert!(p.handle_close_tag("bold").is_err());
    assert_eq!(p.style_stack, vec![Style::default()]);
    assert_eq!(p.component_parts, parts);
    assert_eq!(p.position, 0);
}

#[test]
fn the_rest_of_a_tag_is_arguments_a_slash_and_the_bracket() {
    for (input, args, slash, end) in [
        (">x", vec![], false, 1),
        ("/>x", vec![], true, 2),
        (":a:b>x", vec!["a", "b"], false, 5),
        (" a 'b c' : \"d\"/>", vec!["a", "b c", "d"], true, 16),
        (":#123456>", vec!["#123456"], false, 9),
        ("::>", vec![], false, 3),
    ] {
        let mut p = parser(input);
        let (read, self_closing) = p.read_tag_tail().unwrap();
        assert_eq!(read, args, "{}", input);
        assert_eq!(self_closing, slash, "{}", input);
        assert_eq!(p.position, end, "{}", input);
    }
    for (input, message) in [
        ("", "Expected '>'"),
        (":a", "Expected '>'"),
        (":a/", "Expected '>'"),
        ("/x>", "Expected '>'"),
        (":'a>", "Unterminated quoted string"),
    ] {
        let mut p = parser(input);
        assert_eq!(p.read_tag_tail().unwrap_err().message(), message, "{}", input);
    }
}

#[test]
fn parse_returns_one_component_or_a_list() {
    let mut p = parser("a");
    assert_eq!(p.parse().unwrap(), Component::text("a"));
    assert_eq!(p.position, 1);
    assert!(p.component_parts.is_empty());
    let mut p = parser("a<red>b");
    assert_eq!(
        p.parse().unwrap(),
        Component::Array(vec![
            Component::text("a"),
            Component::text("b").color(Some(Color::Named(NamedColor::Red))),
        ])
    );
    assert_eq!(p.style_stack.len(), 2);
    let mut p = at("a<red>b", 6);
    assert_eq!(p.parse().unwrap(), Component::text("b"));
}

#[test]
fn syntax_errors_have_messages() {
    assert_eq!(SyntaxError::ExpectedTagName.message(), "Expected tag name");
    assert_eq!(SyntaxError::UnterminatedQuote.message(), "Unterminated quoted string");
    assert_eq!(SyntaxError::ExpectedClosingBracket.message(), "Expected '>'");
    assert_eq!(SyntaxError::UnbalancedClosingTag.message(), "Unbalanced closing tag");
    assert_eq!(MiniMessageError::from_message("m".to_string()).message(), "m");
    assert_eq!(
        MiniMessageError::new(SyntaxError::UnterminatedQuote).to_string(),
        "MiniMessage error: Unterminated quoted string"
    );
}
