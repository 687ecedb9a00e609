use kyori_component_json::{parse_hex_color, Color, NamedColor, ParseColorError, ShadowColor};
use std::str::FromStr;

fn all_named() -> Vec<(NamedColor, &'static str, [u8; 3])> {
    vec![
        (NamedColor::Black, "black", [0x00, 0x00, 0x00]),
        (NamedColor::DarkBlue, "dark_blue", [0x00, 0x00, 0xaa]),
        (NamedColor::DarkGreen, "dark_green", [0x00, 0xaa, 0x00]),
        (NamedColor::DarkAqua, "dark_aqua", [0x00, 0xaa, 0xaa]),
        (NamedColor::DarkRed, "dark_red", [0xaa, 0x00, 0x00]),
        (NamedColor::DarkPurple, "dark_purple", [0xaa, 0x00, 0xaa]),
        (NamedColor::Gold, "gold", [0xff, 0xaa, 0x00]),
        (NamedColor::Gray, "gray", [0xaa, 0xaa, 0xaa]),
        (NamedColor::DarkGray, "dark_gray", [0x55, 0x55, 0x55]),
        (NamedColor::Blue, "blue", [0x55, 0x55, 0xff]),
        (NamedColor::Green, "green", [0x55, 0xff, 0x55]),
        (NamedColor::Aqua, "aqua", [0x55, 0xff, 0xff]),
        (NamedColor::Red, "red", [0xff, 0x55, 0x55]),
        (NamedColor::LightPurple, "light_purple", [0xff, 0x55, 0xff]),
        (NamedColor::Yellow, "yellow", [0xff, 0xff, 0x55]),
        (NamedColor::White, "white", [0xff, 0xff, 0xff]),
    ]
}

#[test]
fn named_colors_map_to_names_and_back() {
    for (color, name, _) in all_named() {
        assert_eq!(color.name(), name);
        assert_eq!(color.to_string(), name);
        assert_eq!(NamedColor::from_name(name), Some(color));
        assert_eq!(NamedColor::from_str(name), Ok(color));
    }
    assert_eq!(NamedColor::from_name("Red"), None);
    assert_eq!(NamedColor::from_name(""), None);
    assert_eq!(NamedColor::from_name("orange"), None);
    assert_eq!(NamedColor::from_str("orange"), Err(()));
}

#[test]
fn named_colors_map_to_canonical_values_and_back() {
    for (color, _, rgb) in all_named() {
        assert_eq!(color.rgb(), rgb);
        assert_eq!(NamedColor::from_rgb(rgb), Some(color));
    }
    assert_eq!(NamedColor::from_rgb([1, 2, 3]), None);
    assert_eq!(NamedColor::from_rgb([0xff, 0x55, 0x54]), None);
}

#[test]
fn hex_colors_are_strict() {
    assert_eq!(parse_hex_color("#000000"), Some([0, 0, 0]));
    assert_eq!(parse_hex_color("#12aBcD"), Some([0x12, 0xab, 0xcd]));
    assert_eq!(parse_hex_color("#FFFFFF"), Some([255, 255, 255]));
    assert_eq!(parse_hex_color("#0a10ff"), Some([10, 16, 255]));
    assert_eq!(parse_hex_color(""), None);
    assert_eq!(parse_hex_color("#"), None);
    assert_eq!(parse_hex_color("123456"), None);
    assert_eq!(parse_hex_color("#12345"), None);
    assert_eq!(parse_hex_color("#1234567"), None);
    assert_eq!(parse_hex_color("#12345g"), None);
    assert_eq!(parse_hex_color("#+1+2+3"), None);
    assert_eq!(parse_hex_color("#-1-2-3"), None);
    assert_eq!(parse_hex_color("#\u{e9}\u{e9}\u{e9}"), None);
    assert_eq!(parse_hex_color("#a\u{e9}a\u{e9}"), None);
    assert_eq!(parse_hex_color("\u{ff03}123456"), None);
}

#[test]
fn a_color_is_a_name_or_a_strict_hex_value() {
    assert_eq!(Color::from_str("red"), Ok(Color::Named(NamedColor::Red)));
    assert_eq!(Color::from_str("#ff5555"), Ok(Color::Hex("#ff5555".to_string())));
    assert_eq!("#ABCDEF".parse::<Color>(), Ok(Color::Hex("#ABCDEF".to_string())));
    assert_eq!(Color::from_str("RED"), Err(ParseColorError));
    assert_eq!(Color::from_str("#ff555"), Err(ParseColorError));
    assert_eq!(Color::from_str(""), Err(ParseColorError));
    assert_eq!(ParseColorError.to_string(), "invalid color format");
}

#[test]
fn a_hex_color_with_a_canonical_value_is_a_named_color() {
    assert_eq!(Color::Named(NamedColor::Gold).to_named(), Some(NamedColor::Gold));
    assert_eq!(Color::Hex("#FF5555".to_string()).to_named(), Some(NamedColor::Red));
    assert_eq!(Color::Hex("#ff5555".to_string()).to_named(), Some(NamedColor::Red));
    assert_eq!(Color::Hex("#ff5556".to_string()).to_named(), None);
    assert_eq!(Color::Hex("red".to_string()).to_named(), None);
    assert_eq!(Color::Hex("".to_string()).to_named(), None);
}

#[test]
fn colors_compare_and_clone_by_value() {
    let hex = Color::Hex("#123456".to_string());
    assert_eq!(hex.clone(), hex);
    assert_eq!(Color::Named(NamedColor::Red).clone(), Color::Named(NamedColor::Red));
    assert_ne!(hex, Color::Hex("#123457".to_string()));
    assert_ne!(Color::Named(NamedColor::Red), Color::Hex("#FF5555".to_string()));
    assert_ne!(Color::Named(NamedColor::Red), Color::Named(NamedColor::Blue));
}

#[test]
fn shadow_color_keeps_its_bits() {
    let bits = [1.0f32.to_bits(), 0.5f32.to_bits(), 0.0f32.to_bits(), 0.25f32.to_bits()];
    let shadow = ShadowColor::Floats(bits);
    match shadow {
        ShadowColor::Floats(kept) => {
            assert_eq!(f32::from_bits(kept[0]), 1.0);
            assert_eq!(f32::from_bits(kept[1]), 0.5);
            assert_eq!(f32::from_bits(kept[3]), 0.25);
        }
        ShadowColor::Int(_) => panic!("expected the four numbers"),
    }
    assert_eq!(ShadowColor::Int(0x11223344), ShadowColor::Int(0x11223344));
}
