use kyori_component_json::minimessage::{MiniMessage, MiniMessageConfig};
use kyori_component_json::parsing::{ComponentParser, ComponentSerializer};
use kyori_component_json::{
    ClickEvent, Color, Component, HoverEvent, NamedColor, TextDecoration,
};

fn parse(input: &str) -> Component {
    MiniMessage::new().parse(input).unwrap()
}

fn error_of(input: &str) -> String {
    match MiniMessage::new().parse(input) {
        Ok(c) => panic!("expected an error, got {:?}", c),
        Err(e) => e.message().to_string(),
    }
}

#[test]
fn test_parse_simple() {
    let mm = MiniMessage::new();
    let comp = mm.parse("Hello <red>world</red>!").unwrap();

    if let Component::Array(parts) = comp {
        assert_eq!(parts.len(), 3);
        assert_eq!(parts[0].get_plain_text().unwrap(), "Hello ");
        assert_eq!(parts[1].get_plain_text().unwrap(), "world");
        assert_eq!(parts[2].get_plain_text().unwrap(), "!");
    } else {
        panic!("Expected array component");
    }
}

#[test]
fn test_parse_nested() {
    let mm = MiniMessage::new();
    let comp = mm
        .parse("Click <hover:show_text:'<red>Action!'>here</hover>")
        .expect("Failed to parse component");

    if let Component::Object(obj) = &comp {
        if let Some(children) = &obj.extra {
            if let Component::Object(hover_obj) = &children[1] {
                if let Some(hover_event) = &hover_obj.hover_event {
                    match hover_event {
                        HoverEvent::ShowText { value } => {
                            assert_eq!(value.get_plain_text().unwrap(), "Action!");
                        }
                        _ => panic!("Expected show_text hover event"),
                    }
                }
            }
        }
    }
}

#[test]
fn test_serialize_simple() {
    let comp = Component::text("Hello ")
        .color(Some(Color::Named(NamedColor::Yellow)))
        .append(Component::text("world").color(Some(Color::Named(NamedColor::Red))));

    let result = MiniMessage::to_string(&comp).unwrap();
    assert_eq!(result, "<yellow>Hello <red>world</red></yellow>");
}

#[test]
fn test_readme_example_basic_red_text() {
    let mm = MiniMessage::new();
    let comp = mm.parse("<red>Hello, world!</red>").unwrap();
    if let Component::Object(obj) = comp {
        assert_eq!(obj.text, Some("Hello, world!".to_string()));
        assert_eq!(obj.color, Some(Color::Named(NamedColor::Red)));
    } else {
        panic!("Expected object component");
    }
}

#[test]
fn test_readme_example_nested_colors_and_bold() {
    let mm = MiniMessage::new();
    let comp = mm
        .parse("<green>This is <blue>blue</blue> and <b>bold</b>!</green>")
        .unwrap();

    assert_eq!(comp.to_plain_text(), "This is blue and bold!");
}

#[test]
fn test_readme_example_click_and_hover_events() {
    let mm = MiniMessage::new();
    let comp = mm.parse("<hover:show_text:\"<red>Hover Text</red>\"><click:open_url:\"https://example.com\">Clickable Link</click></hover>").unwrap();
    assert_eq!(comp.to_plain_text(), "Clickable Link");
}

#[test]
fn nested_hover_text_is_attached_to_the_following_run() {
    let comp = parse("Click <hover:show_text:'<red>Action!'>here</hover>");
    let parts = match comp {
        Component::Array(parts) => parts,
        other => panic!("expected a list, got {:?}", other),
    };
    assert_eq!(parts.len(), 2);
    assert_eq!(parts[0], Component::text("Click "));
    let expected_tip = Component::text("Action!").color(Some(Color::Named(NamedColor::Red)));
    assert_eq!(
        parts[1],
        Component::text("here").hover_event(Some(HoverEvent::ShowText { value: expected_tip }))
    );
}

#[test]
fn red_text_is_one_node() {
    assert_eq!(
        parse("<red>X</red>"),
        Component::text("X").color(Some(Color::Named(NamedColor::Red)))
    );
}

#[test]
fn unterminated_open_tag_is_accepted() {
    assert_eq!(
        parse("<red>X"),
        Component::text("X").color(Some(Color::Named(NamedColor::Red)))
    );
}

#[test]
fn closing_pops_the_top_frame_whatever_its_name() {
    let bold = Component::text("x").decoration(TextDecoration::Bold, Some(true));
    // `</bold>` pops the italic frame and `</italic>` the bold one: both
    // closing tags find a frame, so the markup is accepted.
    assert_eq!(
        parse("<bold><italic>x</bold></italic>"),
        bold.clone().decoration(TextDecoration::Italic, Some(true))
    );
    // After `</bold>` the bold frame is the ambient style, not the italic one.
    assert_eq!(
        parse("<bold><italic>x</bold>y"),
        Component::Array(vec![
            bold.clone().decoration(TextDecoration::Italic, Some(true)),
            Component::text("y").decoration(TextDecoration::Bold, Some(true)),
        ])
    );
    // One closing tag too many finds the default frame alone.
    assert_eq!(error_of("<bold>x</bold></italic>"), "Unbalanced closing tag");
    assert_eq!(error_of("<bold><italic>x</bold></italic></bold>"), "Unbalanced closing tag");
}

#[test]
fn hover_wraps_the_nested_tree() {
    let comp = parse("<hover:show_text:'<red>tip'>label</hover>");
    let obj = match comp {
        Component::Object(obj) => obj,
        other => panic!("expected a node, got {:?}", other),
    };
    assert_eq!(obj.text.as_deref(), Some("label"));
    match obj.hover_event {
        Some(HoverEvent::ShowText { value }) => {
            assert_eq!(
                value,
                Component::text("tip").color(Some(Color::Named(NamedColor::Red)))
            );
        }
        other => panic!("expected show_text, got {:?}", other),
    }
}

#[test]
fn unknown_self_closing_tag_is_an_empty_component_in_the_ambient_style() {
    let comp = parse("<yellow><foo/>");
    assert_eq!(
        comp,
        Component::text("").color(Some(Color::Named(NamedColor::Yellow)))
    );
    assert_eq!(comp.to_plain_text(), "");
}

#[test]
fn unknown_open_tag_becomes_literal_text() {
    assert_eq!(parse("<Foo:bar:'b z'>"), Component::text("<foo:bar:b z>"));
    assert_eq!(
        parse("<red><unknown>"),
        Component::text("<unknown>").color(Some(Color::Named(NamedColor::Red)))
    );
}

#[test]
fn unknown_closing_tag_never_fails() {
    assert_eq!(parse("</foo>"), Component::Array(vec![]));
    assert_eq!(
        parse("<red></foo>x"),
        Component::text("x")
    );
}

#[test]
fn empty_input_is_an_empty_list() {
    assert_eq!(parse(""), Component::Array(vec![]));
}

#[test]
fn literal_runs_are_never_merged() {
    assert_eq!(
        parse("a<b></b>b"),
        Component::Array(vec![Component::text("a"), Component::text("b")])
    );
}

#[test]
fn tag_names_are_folded_to_lower_case() {
    assert_eq!(
        parse("<RED>x</Red>"),
        Component::text("x").color(Some(Color::Named(NamedColor::Red)))
    );
}

#[test]
fn color_tag_takes_a_name_or_a_strict_hex_value() {
    assert_eq!(
        parse("<color:gold>x"),
        Component::text("x").color(Some(Color::Named(NamedColor::Gold)))
    );
    assert_eq!(
        parse("<c:#12aBcD>x"),
        Component::text("x").color(Some(Color::Hex("#12aBcD".to_string())))
    );
    assert_eq!(
        parse("<colour : #000000 >x"),
        Component::text("x").color(Some(Color::Hex("#000000".to_string())))
    );
    // Not a colour: nothing is pushed, nothing is emitted.
    assert_eq!(parse("<color:#12345>x"), Component::text("x"));
    assert_eq!(parse("<color:#+1+2+3>x"), Component::text("x"));
    // No argument: the tag is not a colour tag at all.
    assert_eq!(
        parse("<color>x"),
        Component::Array(vec![Component::text("<color>"), Component::text("x")])
    );
}

#[test]
fn decorations_have_short_names() {
    for (name, decoration) in [
        ("bold", TextDecoration::Bold),
        ("b", TextDecoration::Bold),
        ("italic", TextDecoration::Italic),
        ("i", TextDecoration::Italic),
        ("em", TextDecoration::Italic),
        ("underlined", TextDecoration::Underlined),
        ("u", TextDecoration::Underlined),
        ("strikethrough", TextDecoration::Strikethrough),
        ("st", TextDecoration::Strikethrough),
        ("obfuscated", TextDecoration::Obfuscated),
        ("obf", TextDecoration::Obfuscated),
    ] {
        let comp = parse(&format!("<{}>x", name));
        assert_eq!(comp, Component::text("x").decoration(decoration, Some(true)));
        assert!(comp.has_decoration(decoration));
    }
}

#[test]
fn reset_pops_down_to_the_default_style() {
    assert_eq!(
        parse("<red><bold>a<reset>b"),
        Component::Array(vec![
            Component::text("a")
                .color(Some(Color::Named(NamedColor::Red)))
                .decoration(TextDecoration::Bold, Some(true)),
            Component::text("b"),
        ])
    );
    assert_eq!(parse("<reset>b"), Component::text("b"));
}

#[test]
fn click_takes_exactly_two_arguments() {
    let cases: Vec<(&str, ClickEvent)> = vec![
        ("run_command", ClickEvent::RunCommand { command: "/x y".to_string() }),
        ("suggest_command", ClickEvent::SuggestCommand { command: "/x y".to_string() }),
        ("open_url", ClickEvent::OpenUrl { url: "/x y".to_string() }),
        ("copy_to_clipboard", ClickEvent::CopyToClipboard { value: "/x y".to_string() }),
    ];
    for (action, event) in cases {
        assert_eq!(
            parse(&format!("<click:{}:'/x y'>t</click>", action)),
            Component::text("t").click_event(Some(event))
        );
    }
    // An action that markup cannot express is ignored.
    assert_eq!(parse("<click:open_file:x>t"), Component::text("t"));
    // With another number of arguments the tag is an unknown one.
    assert_eq!(
        parse("<click:open_url>t"),
        Component::Array(vec![Component::text("<click:open_url>"), Component::text("t")])
    );
    assert_eq!(
        parse("<click:open_url:a:b>t"),
        Component::Array(vec![Component::text("<click:open_url:a:b>"), Component::text("t")])
    );
}

#[test]
fn hover_other_than_show_text_is_ignored() {
    assert_eq!(parse("<hover:show_item:x>t"), Component::text("t"));
    assert_eq!(parse("<hover:show_text>t"), Component::text("t"));
    assert_eq!(
        parse("<hover>t"),
        Component::Array(vec![Component::text("<hover>"), Component::text("t")])
    );
}

#[test]
fn an_error_in_nested_markup_fails_the_whole_parse() {
    assert_eq!(error_of("a<hover:show_text:'</b>'>t"), "Unbalanced closing tag");
    assert_eq!(error_of("a<hover:show_text:'<'>t"), "Expected tag name");
}

#[test]
fn newline_is_emitted_at_once() {
    assert_eq!(
        parse("<red>a<newline>b<br/>"),
        Component::Array(vec![
            Component::text("a").color(Some(Color::Named(NamedColor::Red))),
            Component::text("\n").color(Some(Color::Named(NamedColor::Red))),
            Component::text("b").color(Some(Color::Named(NamedColor::Red))),
            Component::text("\n").color(Some(Color::Named(NamedColor::Red))),
        ])
    );
}

#[test]
fn insertion_takes_its_first_argument() {
    assert_eq!(
        parse("<insert:'a b'>t</insert>"),
        Component::text("t").insertion(Some("a b".to_string()))
    );
    assert_eq!(
        parse("<insertion:x:y>t"),
        Component::text("t").insertion(Some("x".to_string()))
    );
}

#[test]
fn quoted_arguments_know_escapes() {
    assert_eq!(
        parse(r#"<insert:"a\"b\\c\d">t"#),
        Component::text("t").insertion(Some(r#"a"b\cd"#.to_string()))
    );
    assert_eq!(
        parse(r#"<insert:'it\'s'>t"#),
        Component::text("t").insertion(Some("it's".to_string()))
    );
}

#[test]
fn separators_are_skipped_in_any_number() {
    assert_eq!(
        parse("<insert :: \t: x  :>t"),
        Component::text("t").insertion(Some("x".to_string()))
    );
}

#[test]
fn a_closing_tag_has_the_form_of_an_opening_tag() {
    let red = Component::text("x").color(Some(Color::Named(NamedColor::Red)));
    let after = Component::text("y");
    for close in [
        "</red>",
        "</red x>",
        "</red:x:y>",
        "</red : 'a > b' : \"c\" >",
        "</red/>",
        "</red:x />",
        "</color:#123456>",
        "</RED>",
    ] {
        assert_eq!(
            parse(&format!("<red>x{}y", close)),
            Component::Array(vec![red.clone(), after.clone()]),
            "{}",
            close
        );
    }
    let hex = Component::text("x").color(Some(Color::Hex("#123456".to_string())));
    assert_eq!(parse("<color:#123456>x</color:#123456>"), hex);
    // The arguments of a closing tag are dropped: nothing nested in them is parsed.
    assert_eq!(parse("<red>x</hover:show_text:'</b>'>"), red);
}

#[test]
fn each_syntax_error_has_its_message() {
    assert_eq!(error_of("<"), "Expected tag name");
    assert_eq!(error_of("<>"), "Expected tag name");
    assert_eq!(error_of("a</>"), "Expected tag name");
    assert_eq!(error_of("<insert:'abc>"), "Unterminated quoted string");
    assert_eq!(error_of("<insert:'abc\\"), "Unterminated quoted string");
    assert_eq!(error_of("<red"), "Expected '>'");
    assert_eq!(error_of("<red/x>"), "Expected '>'");
    assert_eq!(error_of("<red></red x"), "Expected '>'");
    assert_eq!(error_of("<red></red/x>"), "Expected '>'");
    assert_eq!(error_of("<red></red:'x>"), "Unterminated quoted string");
    assert_eq!(error_of("</bold>"), "Unbalanced closing tag");
    // The stack is looked at before the rest of the closing tag.
    assert_eq!(error_of("</bold"), "Unbalanced closing tag");
    assert_eq!(error_of("</bold:'x"), "Unbalanced closing tag");
    assert_eq!(error_of("<red></c></color>"), "Unbalanced closing tag");
}

#[test]
fn error_is_shown_with_a_prefix() {
    let e = MiniMessage::new().parse("<").unwrap_err();
    assert_eq!(e.to_string(), "MiniMessage error: Expected tag name");
    assert_eq!(e.clone(), e);
}

#[test]
fn markup_is_scanned_by_character() {
    assert_eq!(
        parse("h\u{e9}llo <red>w\u{f6}rld \u{1f600}</red>"),
        Component::Array(vec![
            Component::text("h\u{e9}llo "),
            Component::text("w\u{f6}rld \u{1f600}").color(Some(Color::Named(NamedColor::Red))),
        ])
    );
    assert_eq!(
        parse("<insert:'\u{e9}\u{1f600}'>t"),
        Component::text("t").insertion(Some("\u{e9}\u{1f600}".to_string()))
    );
}

#[test]
fn legacy_mode_ends_a_run_before_an_ampersand() {
    let legacy = MiniMessage::with_config(MiniMessageConfig {
        strict: false,
        parse_legacy_colors: true,
    });
    assert_eq!(
        legacy.parse("ab&6cd&&<red>e").unwrap(),
        Component::Array(vec![
            Component::text("ab"),
            Component::text("&6cd"),
            Component::text("&"),
            Component::text("&"),
            Component::text("e").color(Some(Color::Named(NamedColor::Red))),
        ])
    );
    assert_eq!(parse("ab&6cd"), Component::text("ab&6cd"));
}

#[test]
fn default_configuration_is_lenient() {
    let config = MiniMessageConfig::default();
    assert!(!config.strict);
    assert!(!config.parse_legacy_colors);
    assert_eq!(MiniMessage::new().config(), config);
    assert_eq!(MiniMessage::default().config(), config);
    let custom = MiniMessageConfig { strict: true, parse_legacy_colors: true };
    assert_eq!(MiniMessage::with_config(custom).config(), custom);
}

#[test]
fn from_string_parses_with_the_default_configuration() {
    assert_eq!(
        MiniMessage::from_string("a&b<red>c").unwrap(),
        Component::Array(vec![
            Component::text("a&b"),
            Component::text("c").color(Some(Color::Named(NamedColor::Red))),
        ])
    );
    assert!(MiniMessage::from_string("</b>").is_err());
}
