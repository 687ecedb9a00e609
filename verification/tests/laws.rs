use kyori_component_json::minimessage::{MiniMessage, MiniMessageConfig};
use kyori_component_json::parsing::ComponentSerializer;
use kyori_component_json::{Color, Component, ComponentObject, NamedColor};

type Shown = (char, Option<Color>, [Option<bool>; 5]);

fn inherit<T>(own: Option<T>, inherited: Option<T>) -> Option<T> {
    if own.is_some() {
        own
    } else {
        inherited
    }
}

fn show(component: &Component, color: &Option<Color>, decorations: [Option<bool>; 5], out: &mut Vec<Shown>) {
    match component {
        Component::String(text) => {
            for c in text.chars() {
                out.push((c, color.clone(), decorations));
            }
        }
        Component::Array(items) => {
            for item in items {
                show(item, color, decorations, out);
            }
        }
        Component::Object(node) => {
            let color = inherit(node.color.clone(), color.clone());
            let own = [node.bold, node.italic, node.underlined, node.strikethrough, node.obfuscated];
            let mut merged = decorations;
            for i in 0..5 {
                merged[i] = inherit(own[i], decorations[i]);
            }
            if let Some(text) = &node.text {
                for c in text.chars() {
                    out.push((c, color.clone(), merged));
                }
            }
            if let Some(children) = &node.extra {
                for child in children {
                    show(child, &color, merged, out);
                }
            }
        }
    }
}

fn shown(component: &Component) -> Vec<Shown> {
    let mut out = Vec::new();
    show(component, &None, [None; 5], &mut out);
    out
}

fn round_trip(markup: &str, legacy: bool) -> (Component, String, Component) {
    let mm = MiniMessage::with_config(MiniMessageConfig { strict: false, parse_legacy_colors: legacy });
    let tree = mm.parse(markup).unwrap();
    let written = MiniMessage::to_string(&tree).unwrap();
    let again = mm.parse(&written).unwrap();
    (tree, written, again)
}

#[test]
fn markup_without_a_tag_is_one_text_component() {
    for text in ["x", "hello world", " a > b & c ", "\u{e9}\u{1f600}", "&", "a:b/c'd\"e"] {
        let parsed = MiniMessage::new().parse(text).unwrap();
        assert_eq!(parsed, Component::text(text));
        let expected = ComponentObject { text: Some(text.to_string()), ..ComponentObject::default() };
        assert_eq!(parsed, Component::Object(Box::new(expected)));
    }
    let legacy = MiniMessage::with_config(MiniMessageConfig { strict: false, parse_legacy_colors: true });
    assert_eq!(legacy.parse("&abc").unwrap(), Component::text("&abc"));
    assert_eq!(legacy.parse("abc").unwrap(), Component::text("abc"));
}

#[test]
fn supported_markup_round_trips() {
    let cases = [
        "<red>X</red>",
        "plain",
        "Hello <red>world</red>!",
        "<green>This is <blue>blue</blue> and <b>bold</b>!</green>",
        "<bold><italic>x</bold></italic>",
        "<u><st><obf><em>deep</em></obf></st></u> tail",
        "a<red></red>b<yellow>c",
        "<dark_purple><light_purple><white>w</white>l</light_purple>d</dark_purple>",
        "<RED>caps</RED><i>i</i><i>j</i>",
        "<color:#123456>x</color>",
        "<c:#abcdef><b>hex</b> and <colour:gold>gold</colour></c> plain <color:nope>still",
        "<color:#000001>a<color:#FFFFFE>b",
        "",
        "<red>",
    ];
    for legacy in [false, true] {
        for markup in cases {
            let (tree, written, again) = round_trip(markup, legacy);
            assert_eq!(shown(&again), shown(&tree), "{} -> {}", markup, written);
            assert_eq!(again.to_plain_text(), tree.to_plain_text());
        }
    }
}

#[test]
fn round_trip_keeps_each_leaf_with_tags() {
    let (tree, written, again) = round_trip("<red><bold>a</bold></red><blue>b</blue>", false);
    assert_eq!(written, "<red><bold>a</bold></red><blue>b</blue>");
    assert_eq!(again, tree);
}

#[test]
fn round_trip_may_split_the_text_differently() {
    let (tree, written, again) = round_trip("a<red></red>b<red>c</red><blue></blue>", false);
    assert_eq!(
        tree,
        Component::Array(vec![
            Component::text("a"),
            Component::text("b"),
            Component::text("c").color(Some(Color::Named(NamedColor::Red))),
        ])
    );
    assert_eq!(written, "ab<red>c</red>");
    assert_eq!(
        again,
        Component::Array(vec![
            Component::text("ab"),
            Component::text("c").color(Some(Color::Named(NamedColor::Red))),
        ])
    );
    assert_eq!(shown(&again), shown(&tree));
}

#[test]
fn a_hexadecimal_color_round_trips() {
    let mm = MiniMessage::new();
    let tree = mm.parse("<color:#123456>x</color>").unwrap();
    let written = MiniMessage::to_string(&tree).unwrap();
    assert_eq!(written, "<color:#123456>x</color:#123456>");
    let again = mm.parse(&written).unwrap();
    assert_eq!(again, Component::text("x").color(Some(Color::Hex("#123456".to_string()))));
    assert_eq!(again, tree);
}

#[test]
fn round_trip_does_not_hold_outside_the_supported_markup() {
    // Escaping is not undone by the parser.
    let (tree, written, again) = round_trip("a>b", false);
    assert_eq!(written, "a&gt;b");
    assert_eq!(again.to_plain_text(), "a&gt;b");
    assert_ne!(shown(&again), shown(&tree));
    // The canonical value of a named colour is written as the name, and
    // read back as the named colour.
    let (tree, written, again) = round_trip("<color:#FF5555>x</color>", false);
    assert_eq!(tree, Component::text("x").color(Some(Color::Hex("#FF5555".to_string()))));
    assert_eq!(written, "<red>x</red>");
    assert_eq!(again, Component::text("x").color(Some(Color::Named(NamedColor::Red))));
}
