use kyori_component_json::{
    ClickEvent, Color, Component, ComponentObject, ContentType, HoverEvent, NamedColor,
    ScoreContent, ShadowColor, Style, TextDecoration, UuidRepr,
};

fn red() -> Option<Color> {
    Some(Color::Named(NamedColor::Red))
}

#[test]
fn text_is_a_node_with_text_alone() {
    let expected = ComponentObject { text: Some("hi".to_string()), ..ComponentObject::default() };
    assert_eq!(Component::text("hi"), Component::Object(Box::new(expected)));
    assert_eq!(Component::text("hi").get_plain_text(), Some("hi"));
    assert!(!Component::text("hi").has_styling());
}

#[test]
fn default_node_and_style_have_nothing_set() {
    let node = ComponentObject::default();
    assert_eq!(node.text, None);
    assert_eq!(node.content_type, None);
    assert_eq!(node.extra, None);
    assert_eq!(node.color, None);
    assert_eq!(node.hover_event, None);
    let style = Style::default();
    assert_eq!(style.color, None);
    assert_eq!(style.bold, None);
    assert_eq!(style.click_event, None);
    assert_eq!(style.clone(), style);
}

#[test]
fn a_string_becomes_a_text_node_when_it_is_styled() {
    let styled = Component::String("s".to_string()).color(red());
    let expected = ComponentObject {
        content_type: Some(ContentType::Text),
        text: Some("s".to_string()),
        color: red(),
        ..ComponentObject::default()
    };
    assert_eq!(styled, Component::Object(Box::new(expected)));
}

#[test]
fn a_list_becomes_the_children_of_a_node_when_it_is_styled() {
    let list = Component::Array(vec![Component::text("a"), Component::text("b")]);
    let styled = list.font(Some("uniform".to_string()));
    let expected = ComponentObject {
        extra: Some(vec![Component::text("a"), Component::text("b")]),
        font: Some("uniform".to_string()),
        ..ComponentObject::default()
    };
    assert_eq!(styled, Component::Object(Box::new(expected)));
}

#[test]
fn append_adds_a_child_at_the_end() {
    let node = Component::text("a").append(Component::text("b")).append(Component::text("c"));
    assert_eq!(node.get_children(), &[Component::text("b"), Component::text("c")]);
    assert_eq!(node.to_plain_text(), "abc");

    let from_string = Component::String("a".to_string()).append(Component::text("b"));
    let expected = ComponentObject {
        content_type: Some(ContentType::Text),
        text: Some("a".to_string()),
        extra: Some(vec![Component::text("b")]),
        ..ComponentObject::default()
    };
    assert_eq!(from_string, Component::Object(Box::new(expected)));

    let list = Component::Array(vec![Component::text("a")]).append(Component::text("b"));
    assert_eq!(list, Component::Array(vec![Component::text("a"), Component::text("b")]));
}

#[test]
fn append_newline_and_space() {
    let node = Component::text("a").append_newline().append_space();
    assert_eq!(node.get_children(), &[Component::text("\n"), Component::text(" ")]);
    assert_eq!(node.to_plain_text(), "a\n ");
}

#[test]
fn plain_text_of_a_string_a_node_and_a_list() {
    assert_eq!(Component::String("s".to_string()).get_plain_text(), Some("s"));
    assert_eq!(Component::text("t").get_plain_text(), Some("t"));
    assert_eq!(Component::Array(vec![Component::text("t")]).get_plain_text(), None);
    assert_eq!(Component::Object(Box::new(ComponentObject::default())).get_plain_text(), None);

    let tree = Component::Array(vec![
        Component::String("a".to_string()),
        Component::text("b").append(Component::text("c").append(Component::String("d".to_string()))),
        Component::Object(Box::new(ComponentObject::default())),
    ]);
    assert_eq!(tree.to_plain_text(), "abcd");
    assert_eq!(Component::Array(vec![]).to_plain_text(), "");
}

#[test]
fn decoration_sets_one_state() {
    let all = [
        TextDecoration::Bold,
        TextDecoration::Italic,
        TextDecoration::Underlined,
        TextDecoration::Strikethrough,
        TextDecoration::Obfuscated,
    ];
    for on in all {
        let node = Component::text("x").decoration(on, Some(true));
        for other in all {
            assert_eq!(node.has_decoration(other), other == on);
        }
        assert!(node.has_styling());
        assert!(!Component::text("x").decoration(on, Some(false)).has_decoration(on));
        assert!(Component::text("x").decoration(on, Some(false)).has_styling());
        assert!(!Component::text("x").decoration(on, None).has_styling());
    }
    assert!(!Component::String("x".to_string()).has_decoration(TextDecoration::Bold));
    assert!(!Component::Array(vec![]).has_decoration(TextDecoration::Bold));
}

#[test]
fn decorations_are_set_in_order() {
    let node = Component::text("x").decorations(&[
        (TextDecoration::Bold, Some(true)),
        (TextDecoration::Italic, Some(false)),
        (TextDecoration::Bold, None),
        (TextDecoration::Obfuscated, Some(true)),
    ]);
    let expected = ComponentObject {
        text: Some("x".to_string()),
        bold: None,
        italic: Some(false),
        obfuscated: Some(true),
        ..ComponentObject::default()
    };
    assert_eq!(node, Component::Object(Box::new(expected)));
    assert_eq!(Component::text("x").decorations(&[]), Component::text("x"));
}

#[test]
fn events_and_insertion_are_set() {
    let click = ClickEvent::RunCommand { command: "/say hi".to_string() };
    let hover = HoverEvent::ShowText { value: Component::text("tip") };
    let node = Component::text("x")
        .click_event(Some(click.clone()))
        .hover_event(Some(hover.clone()))
        .insertion(Some("ins".to_string()));
    match &node {
        Component::Object(obj) => {
            assert_eq!(obj.click_event, Some(click));
            assert_eq!(obj.hover_event, Some(hover));
            assert_eq!(obj.insertion.as_deref(), Some("ins"));
            assert_eq!(obj.text.as_deref(), Some("x"));
        }
        other => panic!("expected a node, got {:?}", other),
    }
    assert!(node.has_styling());
    assert_eq!(node.click_event(None).hover_event(None).insertion(None), Component::text("x"));
}

#[test]
fn children_are_set_and_read() {
    let node = Component::text("x").set_children(vec![Component::text("a")]);
    assert_eq!(node.get_children(), &[Component::text("a")]);
    assert_eq!(Component::text("x").get_children(), &[] as &[Component]);
    assert_eq!(Component::String("x".to_string()).get_children(), &[] as &[Component]);
    let list = Component::Array(vec![Component::text("a"), Component::text("b")]);
    assert_eq!(list.get_children(), &[Component::text("a"), Component::text("b")]);
    assert_eq!(
        Component::String("s".to_string()).set_children(vec![]).get_children(),
        &[] as &[Component]
    );
}

#[test]
fn into_object_keeps_a_node() {
    let node = Component::text("x").color(red());
    let object = node.clone().into_object();
    assert_eq!(Component::Object(Box::new(object)), node);
}

#[test]
fn fallback_style_fills_what_is_unset() {
    let fallback = Style {
        color: red(),
        bold: Some(true),
        italic: Some(false),
        font: Some("uniform".to_string()),
        shadow_color: Some(ShadowColor::Int(7)),
        insertion: Some("ins".to_string()),
        click_event: Some(ClickEvent::OpenUrl { url: "u".to_string() }),
        hover_event: Some(HoverEvent::ShowText { value: Component::text("tip") }),
        ..Style::default()
    };
    let own = Component::text("x")
        .color(Some(Color::Named(NamedColor::Blue)))
        .decoration(TextDecoration::Bold, Some(false))
        .append(Component::text("child"));
    let merged = own.apply_fallback_style(&fallback);
    let child = ComponentObject {
        text: Some("child".to_string()),
        color: red(),
        bold: Some(true),
        italic: Some(false),
        font: Some("uniform".to_string()),
        shadow_color: Some(ShadowColor::Int(7)),
        insertion: Some("ins".to_string()),
        click_event: Some(ClickEvent::OpenUrl { url: "u".to_string() }),
        hover_event: Some(HoverEvent::ShowText { value: Component::text("tip") }),
        ..ComponentObject::default()
    };
    let expected = ComponentObject {
        text: Some("x".to_string()),
        color: Some(Color::Named(NamedColor::Blue)),
        bold: Some(false),
        extra: Some(vec![Component::Object(Box::new(child.clone()))]),
        ..child.clone()
    };
    assert_eq!(merged, Component::Object(Box::new(expected)));
}

#[test]
fn fallback_style_goes_through_strings_and_lists_in_order() {
    let fallback = Style { color: red(), ..Style::default() };
    let list = Component::Array(vec![
        Component::String("a".to_string()),
        Component::text("b"),
        Component::text("c").color(Some(Color::Named(NamedColor::Blue))),
    ]);
    let a = ComponentObject {
        content_type: Some(ContentType::Text),
        text: Some("a".to_string()),
        color: red(),
        ..ComponentObject::default()
    };
    assert_eq!(
        list.apply_fallback_style(&fallback),
        Component::Array(vec![
            Component::Object(Box::new(a)),
            Component::text("b").color(red()),
            Component::text("c").color(Some(Color::Named(NamedColor::Blue))),
        ])
    );
    assert_eq!(
        Component::text("x").apply_fallback_style(&Style::default()),
        Component::text("x")
    );
}

#[test]
fn merge_style_keeps_content_and_children() {
    let mut node = ComponentObject {
        translate: Some("key".to_string()),
        extra: Some(vec![Component::text("c")]),
        italic: Some(true),
        ..ComponentObject::default()
    };
    node.merge_style(&Style { italic: Some(false), underlined: Some(true), ..Style::default() });
    assert_eq!(
        node,
        ComponentObject {
            translate: Some("key".to_string()),
            extra: Some(vec![Component::text("c")]),
            italic: Some(true),
            underlined: Some(true),
            ..ComponentObject::default()
        }
    );
}

#[test]
fn a_component_is_made_from_a_string() {
    assert_eq!(Component::from("abc"), Component::String("abc".to_string()));
    assert_eq!(Component::from("abc".to_string()), Component::String("abc".to_string()));
    let made: Component = "x".into();
    assert_eq!(made, Component::String("x".to_string()));
}

#[test]
fn clone_copies_the_whole_tree() {
    let item = HoverEvent::ShowItem {
        id: "minecraft:stone".to_string(),
        count: Some(3),
        components: Some(serde_json::Value::Array(vec![
            serde_json::Value::String("a".to_string()),
            serde_json::Value::Bool(true),
            serde_json::Value::Null,
        ])),
    };
    let entity = HoverEvent::ShowEntity {
        name: Some(Component::text("Bob")),
        id: "minecraft:pig".to_string(),
        uuid: UuidRepr::IntArray([1, 2, 3, 4]),
    };
    let node = ComponentObject {
        content_type: Some(ContentType::Translatable),
        translate: Some("key".to_string()),
        fallback: Some("fb".to_string()),
        with: Some(vec![Component::String("arg".to_string()), Component::text("x")]),
        score: Some(ScoreContent { name: "n".to_string(), objective: "o".to_string() }),
        separator: Some(Box::new(Component::text(", "))),
        extra: Some(vec![
            Component::text("a").hover_event(Some(item.clone())),
            Component::Array(vec![Component::text("b").hover_event(Some(entity.clone()))]),
        ]),
        color: Some(Color::Hex("#010203".to_string())),
        shadow_color: Some(ShadowColor::Floats([1, 2, 3, 4])),
        click_event: Some(ClickEvent::ChangePage { page: 2 }),
        hover_event: Some(HoverEvent::ShowText { value: Component::text("tip") }),
        ..ComponentObject::default()
    };
    let tree = Component::Object(Box::new(node.clone()));
    assert_eq!(tree.clone(), tree);
    assert_eq!(node.clone(), node);
    assert_eq!(item.clone(), item);
    assert_eq!(entity.clone(), entity);
    assert_eq!(UuidRepr::String("u".to_string()).clone(), UuidRepr::String("u".to_string()));
    let score = ScoreContent { name: "n".to_string(), objective: "o".to_string() };
    assert_eq!(score.clone(), score);
    for event in [
        ClickEvent::OpenUrl { url: "u".to_string() },
        ClickEvent::OpenFile { path: "p".to_string() },
        ClickEvent::RunCommand { command: "c".to_string() },
        ClickEvent::SuggestCommand { command: "s".to_string() },
        ClickEvent::ChangePage { page: 1 },
        ClickEvent::CopyToClipboard { value: "v".to_string() },
    ] {
        assert_eq!(event.clone(), event);
    }
}
