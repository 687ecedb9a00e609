use kyori_component_json::minimessage::serializer::Serializer;
use kyori_component_json::minimessage::MiniMessage;
use kyori_component_json::parsing::ComponentSerializer;
use kyori_component_json::{
    ClickEvent, Color, Component, ComponentObject, HoverEvent, NamedColor, Style, TextDecoration,
};

fn write(component: &Component) -> String {
    MiniMessage::to_string(component).unwrap()
}

fn named(color: NamedColor) -> Option<Color> {
    Some(Color::Named(color))
}

#[test]
fn text_is_escaped() {
    assert_eq!(write(&Component::String("a<b>c".to_string())), "a&lt;b&gt;c");
    assert_eq!(write(&Component::text("x < y && y > z")), "x &lt; y &amp;&amp; y &gt; z");
    assert_eq!(write(&Component::text("&lt;")), "&amp;lt;");
    assert_eq!(write(&Component::text("")), "");
    assert_eq!(write(&Component::text("\u{e9}\u{1f600}")), "\u{e9}\u{1f600}");
}

#[test]
fn a_tag_in_text_is_never_a_live_tag() {
    let out = write(&Component::text("<b>").decoration(TextDecoration::Italic, Some(true)));
    assert_eq!(out, "<italic>&lt;b&gt;</italic>");
    let bare = write(&Component::String("see <b> here".to_string()));
    assert_eq!(bare, "see &lt;b&gt; here");
    assert!(!bare.contains('<'));
    assert!(!bare.contains('>'));
}

#[test]
fn color_is_written_by_name_where_it_has_one() {
    assert_eq!(write(&Component::text("x").color(named(NamedColor::Gold))), "<gold>x</gold>");
    assert_eq!(
        write(&Component::text("x").color(Some(Color::Hex("#FFAA00".to_string())))),
        "<gold>x</gold>"
    );
    assert_eq!(
        write(&Component::text("x").color(Some(Color::Hex("#ffaa00".to_string())))),
        "<gold>x</gold>"
    );
    assert_eq!(
        write(&Component::text("x").color(Some(Color::Hex("#123456".to_string())))),
        "<color:#123456>x</color:#123456>"
    );
    assert_eq!(
        write(&Component::text("x").color(Some(Color::Hex("odd".to_string())))),
        "<color:odd>x</color:odd>"
    );
}

#[test]
fn tags_are_opened_in_order_and_closed_in_reverse() {
    let node = Component::text("x")
        .color(named(NamedColor::Red))
        .decorations(&[
            (TextDecoration::Obfuscated, Some(true)),
            (TextDecoration::Strikethrough, Some(true)),
            (TextDecoration::Underlined, Some(true)),
            (TextDecoration::Italic, Some(true)),
            (TextDecoration::Bold, Some(true)),
        ]);
    assert_eq!(
        write(&node),
        "<red><bold><italic><underlined><strikethrough><obfuscated>x\
         </obfuscated></strikethrough></underlined></italic></bold></red>"
    );
}

#[test]
fn a_decoration_is_written_only_when_it_turns_on() {
    assert_eq!(write(&Component::text("x").decoration(TextDecoration::Bold, Some(false))), "x");
    let tree = Component::text("a")
        .decoration(TextDecoration::Bold, Some(true))
        .append(Component::text("b").decoration(TextDecoration::Bold, Some(true)))
        .append(Component::text("c").decoration(TextDecoration::Bold, Some(false)))
        .append(Component::text("d"));
    assert_eq!(write(&tree), "<bold>abcd</bold>");
    let off_then_on = Component::text("a")
        .decoration(TextDecoration::Bold, Some(false))
        .append(Component::text("b").decoration(TextDecoration::Bold, Some(true)));
    assert_eq!(write(&off_then_on), "a<bold>b</bold>");
    // Below a node that switches a decoration off it is off, and a child
    // that switches it on again writes its tag.
    let nested = Component::text("a").decoration(TextDecoration::Bold, Some(true)).append(
        Component::text("b")
            .decoration(TextDecoration::Bold, Some(false))
            .append(Component::text("c").decoration(TextDecoration::Bold, Some(true))),
    );
    assert_eq!(write(&nested), "<bold>ab<bold>c</bold></bold>");
}

#[test]
fn a_tag_is_not_written_again_for_what_is_active() {
    let tree = Component::text("a").color(named(NamedColor::Red)).append(
        Component::text("b")
            .append(Component::text("c").color(named(NamedColor::Red)))
            .append(Component::text("d").color(named(NamedColor::Blue))),
    );
    assert_eq!(write(&tree), "<red>abc<blue>d</blue></red>");
}

#[test]
fn siblings_do_not_inherit_from_each_other() {
    let list = Component::Array(vec![
        Component::text("a").color(named(NamedColor::Red)),
        Component::text("b").color(named(NamedColor::Red)),
        Component::String("c".to_string()),
    ]);
    assert_eq!(write(&list), "<red>a</red><red>b</red>c");
    assert_eq!(write(&Component::Array(vec![])), "");
}

#[test]
fn other_attributes_are_not_written() {
    let node = Component::text("x")
        .font(Some("uniform".to_string()))
        .insertion(Some("ins".to_string()))
        .click_event(Some(ClickEvent::OpenUrl { url: "u".to_string() }))
        .hover_event(Some(HoverEvent::ShowText { value: Component::text("tip") }));
    assert_eq!(write(&node), "x");
    let no_text = ComponentObject {
        translate: Some("key".to_string()),
        bold: Some(true),
        extra: Some(vec![Component::text("c")]),
        ..ComponentObject::default()
    };
    assert_eq!(write(&Component::Object(Box::new(no_text))), "<bold>c</bold>");
}

#[test]
fn serializer_writes_against_its_ambient_style() {
    let mut serializer = Serializer::new();
    assert_eq!(serializer.output, "");
    assert_eq!(serializer.current_style, Style::default());
    serializer.current_style.color = named(NamedColor::Red);
    serializer.current_style.bold = Some(true);
    let node = Component::text("x")
        .color(named(NamedColor::Red))
        .decoration(TextDecoration::Bold, Some(true))
        .decoration(TextDecoration::Italic, Some(true));
    assert_eq!(serializer.serialize(&node), "<italic>x</italic>");
    assert_eq!(serializer.current_style.color, named(NamedColor::Red));
    assert_eq!(serializer.current_style.italic, None);
    serializer.serialize_text("<");
    assert_eq!(serializer.output, "<italic>x</italic>&lt;");
    assert_eq!(serializer.serialize(&Component::text("y")), "<italic>x</italic>&lt;y");
}
