//! Colours: the sixteen named ones, hexadecimal ones, and shadow colours.

use crate::text::{hex_value, owned, spec_hex_value, str_eq};
use vstd::prelude::*;
use vstd::std_specs::cmp::PartialEqSpecImpl;

verus! {

/// The sixteen named text colours, each with its canonical `#RRGGBB` value.
#[derive(Debug, Clone, Copy, PartialEq, Eq, Structural, PartialOrd, Ord, Hash)]
pub enum NamedColor {
    /// `#000000`
    Black,
    /// `#0000AA`
    DarkBlue,
    /// `#00AA00`
    DarkGreen,
    /// `#00AAAA`
    DarkAqua,
    /// `#AA0000`
    DarkRed,
    /// `#AA00AA`
    DarkPurple,
    /// `#FFAA00`
    Gold,
    /// `#AAAAAA`
    Gray,
    /// `#555555`
    DarkGray,
    /// `#5555FF`
    Blue,
    /// `#55FF55`
    Green,
    /// `#55FFFF`
    Aqua,
    /// `#FF5555`
    Red,
    /// `#FF55FF`
    LightPurple,
    /// `#FFFF55`
    Yellow,
    /// `#FFFFFF`
    White,
}

impl NamedColor {
    /// The name of the colour as it is written in markup.
    pub open spec fn spec_name(self) -> Seq<char> {
        match self {
            NamedColor::Black => "black"@,
            NamedColor::DarkBlue => "dark_blue"@,
            NamedColor::DarkGreen => "dark_green"@,
            NamedColor::DarkAqua => "dark_aqua"@,
            NamedColor::DarkRed => "dark_red"@,
            NamedColor::DarkPurple => "dark_purple"@,
            NamedColor::Gold => "gold"@,
            NamedColor::Gray => "gray"@,
            NamedColor::DarkGray => "dark_gray"@,
            NamedColor::Blue => "blue"@,
            NamedColor::Green => "green"@,
            NamedColor::Aqua => "aqua"@,
            NamedColor::Red => "red"@,
            NamedColor::LightPurple => "light_purple"@,
            NamedColor::Yellow => "yellow"@,
            NamedColor::White => "white"@,
        }
    }

    /// The colour that a name stands for, if it is one of the sixteen.
    pub open spec fn spec_from_name(s: Seq<char>) -> Option<NamedColor> {
        if s == "black"@ {
            Some(NamedColor::Black)
        } else if s == "dark_blue"@ {
            Some(NamedColor::DarkBlue)
        } else if s == "dark_green"@ {
            Some(NamedColor::DarkGreen)
        } else if s == "dark_aqua"@ {
            Some(NamedColor::DarkAqua)
        } else if s == "dark_red"@ {
            Some(NamedColor::DarkRed)
        } else if s == "dark_purple"@ {
            Some(NamedColor::DarkPurple)
        } else if s == "gold"@ {
            Some(NamedColor::Gold)
        } else if s == "gray"@ {
            Some(NamedColor::Gray)
        } else if s == "dark_gray"@ {
            Some(NamedColor::DarkGray)
        } else if s == "blue"@ {
            Some(NamedColor::Blue)
        } else if s == "green"@ {
            Some(NamedColor::Green)
        } else if s == "aqua"@ {
            Some(NamedColor::Aqua)
        } else if s == "red"@ {
            Some(NamedColor::Red)
        } else if s == "light_purple"@ {
            Some(NamedColor::LightPurple)
        } else if s == "yellow"@ {
            Some(NamedColor::Yellow)
        } else if s == "white"@ {
            Some(NamedColor::White)
        } else {
            None
        }
    }

    /// The canonical red, green and blue components of the colour.
    pub open spec fn spec_rgb(self) -> (u8, u8, u8) {
        match self {
            NamedColor::Black => (0, 0, 0),
            NamedColor::DarkBlue => (0, 0, 170),
            NamedColor::DarkGreen => (0, 170, 0),
            NamedColor::DarkAqua => (0, 170, 170),
            NamedColor::DarkRed => (170, 0, 0),
            NamedColor::DarkPurple => (170, 0, 170),
            NamedColor::Gold => (255, 170, 0),
            NamedColor::Gray => (170, 170, 170),
            NamedColor::DarkGray => (85, 85, 85),
            NamedColor::Blue => (85, 85, 255),
            NamedColor::Green => (85, 255, 85),
            NamedColor::Aqua => (85, 255, 255),
            NamedColor::Red => (255, 85, 85),
            NamedColor::LightPurple => (255, 85, 255),
            NamedColor::Yellow => (255, 255, 85),
            NamedColor::White => (255, 255, 255),
        }
    }

    /// The named colour whose canonical components are `rgb`, if there is one.
    pub open spec fn spec_from_rgb(rgb: (u8, u8, u8)) -> Option<NamedColor> {
        if rgb == (0u8, 0u8, 0u8) {
            Some(NamedColor::Black)
        } else if rgb == (0u8, 0u8, 170u8) {
            Some(NamedColor::DarkBlue)
        } else if rgb == (0u8, 170u8, 0u8) {
            Some(NamedColor::DarkGreen)
        } else if rgb == (0u8, 170u8, 170u8) {
            Some(NamedColor::DarkAqua)
        } else if rgb == (170u8, 0u8, 0u8) {
            Some(NamedColor::DarkRed)
        } else if rgb == (170u8, 0u8, 170u8) {
            Some(NamedColor::DarkPurple)
        } else if rgb == (255u8, 170u8, 0u8) {
            Some(NamedColor::Gold)
        } else if rgb == (170u8, 170u8, 170u8) {
            Some(NamedColor::Gray)
        } else if rgb == (85u8, 85u8, 85u8) {
            Some(NamedColor::DarkGray)
        } else if rgb == (85u8, 85u8, 255u8) {
            Some(NamedColor::Blue)
        } else if rgb == (85u8, 255u8, 85u8) {
            Some(NamedColor::Green)
        } else if rgb == (85u8, 255u8, 255u8) {
            Some(NamedColor::Aqua)
        } else if rgb == (255u8, 85u8, 85u8) {
            Some(NamedColor::Red)
        } else if rgb == (255u8, 85u8, 255u8) {
            Some(NamedColor::LightPurple)
        } else if rgb == (255u8, 255u8, 85u8) {
            Some(NamedColor::Yellow)
        } else if rgb == (255u8, 255u8, 255u8) {
            Some(NamedColor::White)
        } else {
            None
        }
    }

    /// The name of the colour as it is written in markup.
    pub fn name(self) -> (r: &'static str)
        ensures
            r@ == self.spec_name(),
    {
        match self {
            NamedColor::Black => "black",
            NamedColor::DarkBlue => "dark_blue",
            NamedColor::DarkGreen => "dark_green",
            NamedColor::DarkAqua => "dark_aqua",
            NamedColor::DarkRed => "dark_red",
            NamedColor::DarkPurple => "dark_purple",
            NamedColor::Gold => "gold",
            NamedColor::Gray => "gray",
            NamedColor::DarkGray => "dark_gray",
            NamedColor::Blue => "blue",
            NamedColor::Green => "green",
            NamedColor::Aqua => "aqua",
            NamedColor::Red => "red",
            NamedColor::LightPurple => "light_purple",
            NamedColor::Yellow => "yellow",
            NamedColor::White => "white",
        }
    }

    /// The name of the colour as an owned string.
    pub fn to_string(&self) -> (r: String)
        ensures
            r@ == self.spec_name(),
    {
        owned(self.name())
    }

    /// Looks a colour up by its name. Names are matched exactly, in lower case.
    pub fn from_name(s: &str) -> (r: Option<NamedColor>)
        ensures
            r == NamedColor::spec_from_name(s@),
    {
        if str_eq(s, "black") {
            Some(NamedColor::Black)
        } else if str_eq(s, "dark_blue") {
            Some(NamedColor::DarkBlue)
        } else if str_eq(s, "dark_green") {
            Some(NamedColor::DarkGreen)
        } else if str_eq(s, "dark_aqua") {
            Some(NamedColor::DarkAqua)
        } else if str_eq(s, "dark_red") {
            Some(NamedColor::DarkRed)
        } else if str_eq(s, "dark_purple") {
            Some(NamedColor::DarkPurple)
        } else if str_eq(s, "gold") {
            Some(NamedColor::Gold)
        } else if str_eq(s, "gray") {
            Some(NamedColor::Gray)
        } else if str_eq(s, "dark_gray") {
            Some(NamedColor::DarkGray)
        } else if str_eq(s, "blue") {
            Some(NamedColor::Blue)
        } else if str_eq(s, "green") {
            Some(NamedColor::Green)
        } else if str_eq(s, "aqua") {
            Some(NamedColor::Aqua)
        } else if str_eq(s, "red") {
            Some(NamedColor::Red)
        } else if str_eq(s, "light_purple") {
            Some(NamedColor::LightPurple)
        } else if str_eq(s, "yellow") {
            Some(NamedColor::Yellow)
        } else if str_eq(s, "white") {
            Some(NamedColor::White)
        } else {
            None
        }
    }

    /// The canonical red, green and blue components of the colour.
    pub fn rgb(self) -> (r: [u8; 3])
        ensures
            (r[0], r[1], r[2]) == self.spec_rgb(),
    {
        match self {
            NamedColor::Black => [0, 0, 0],
            NamedColor::DarkBlue => [0, 0, 170],
            NamedColor::DarkGreen => [0, 170, 0],
            NamedColor::DarkAqua => [0, 170, 170],
            NamedColor::DarkRed => [170, 0, 0],
            NamedColor::DarkPurple => [170, 0, 170],
            NamedColor::Gold => [255, 170, 0],
            NamedColor::Gray => [170, 170, 170],
            NamedColor::DarkGray => [85, 85, 85],
            NamedColor::Blue => [85, 85, 255],
            NamedColor::Green => [85, 255, 85],
            NamedColor::Aqua => [85, 255, 255],
            NamedColor::Red => [255, 85, 85],
            NamedColor::LightPurple => [255, 85, 255],
            NamedColor::Yellow => [255, 255, 85],
            NamedColor::White => [255, 255, 255],
        }
    }

    /// The named colour with the given canonical components, if there is one.
    pub fn from_rgb(rgb: [u8; 3]) -> (r: Option<NamedColor>)
        ensures
            r == NamedColor::spec_from_rgb((rgb[0], rgb[1], rgb[2])),
    {
        let r: u8 = rgb[0];
        let g: u8 = rgb[1];
        let b: u8 = rgb[2];
        if r == 0 && g == 0 && b == 0 {
            Some(NamedColor::Black)
        } else if r == 0 && g == 0 && b == 170 {
            Some(NamedColor::DarkBlue)
        } else if r == 0 && g == 170 && b == 0 {
            Some(NamedColor::DarkGreen)
        } else if r == 0 && g == 170 && b == 170 {
            Some(NamedColor::DarkAqua)
        } else if r == 170 && g == 0 && b == 0 {
            Some(NamedColor::DarkRed)
        } else if r == 170 && g == 0 && b == 170 {
            Some(NamedColor::DarkPurple)
        } else if r == 255 && g == 170 && b == 0 {
            Some(NamedColor::Gold)
        } else if r == 170 && g == 170 && b == 170 {
            Some(NamedColor::Gray)
        } else if r == 85 && g == 85 && b == 85 {
            Some(NamedColor::DarkGray)
        } else if r == 85 && g == 85 && b == 255 {
            Some(NamedColor::Blue)
        } else if r == 85 && g == 255 && b == 85 {
            Some(NamedColor::Green)
        } else if r == 85 && g == 255 && b == 255 {
            Some(NamedColor::Aqua)
        } else if r == 255 && g == 85 && b == 85 {
            Some(NamedColor::Red)
        } else if r == 255 && g == 85 && b == 255 {
            Some(NamedColor::LightPurple)
        } else if r == 255 && g == 255 && b == 85 {
            Some(NamedColor::Yellow)
        } else if r == 255 && g == 255 && b == 255 {
            Some(NamedColor::White)
        } else {
            None
        }
    }
}

impl std::str::FromStr for NamedColor {
    type Err = ();

    fn from_str(s: &str) -> (r: Result<NamedColor, ()>)
        ensures
            match NamedColor::spec_from_name(s@) {
                Some(c) => r == Ok::<NamedColor, ()>(c),
                None => r is Err,
            },
    {
        match NamedColor::from_name(s) {
            Some(c) => Ok(c),
            None => Err(()),
        }
    }
}

/// Every colour is found again by its own name.
pub proof fn lemma_name_round_trip(c: NamedColor)
    ensures
        NamedColor::spec_from_name(c.spec_name()) == Some(c),
{
    reveal_named_colors();
}

/// Every colour is found again by its own canonical components.
pub proof fn lemma_rgb_round_trip(c: NamedColor)
    ensures
        NamedColor::spec_from_rgb(c.spec_rgb()) == Some(c),
{
}

/// A name that stands for a colour is that colour's name.
pub proof fn lemma_from_name_is_name(s: Seq<char>)
    ensures
        NamedColor::spec_from_name(s) matches Some(c) ==> c.spec_name() == s,
{
}

/// Makes the characters of the sixteen colour names known to the solver.
pub proof fn reveal_named_colors()
    ensures
        "black"@ == seq!['b', 'l', 'a', 'c', 'k'],
        "dark_blue"@ == seq!['d', 'a', 'r', 'k', '_', 'b', 'l', 'u', 'e'],
        "dark_green"@ == seq!['d', 'a', 'r', 'k', '_', 'g', 'r', 'e', 'e', 'n'],
        "dark_aqua"@ == seq!['d', 'a', 'r', 'k', '_', 'a', 'q', 'u', 'a'],
        "dark_red"@ == seq!['d', 'a', 'r', 'k', '_', 'r', 'e', 'd'],
        "dark_purple"@ == seq!['d', 'a', 'r', 'k', '_', 'p', 'u', 'r', 'p', 'l', 'e'],
        "gold"@ == seq!['g', 'o', 'l', 'd'],
        "gray"@ == seq!['g', 'r', 'a', 'y'],
        "dark_gray"@ == seq!['d', 'a', 'r', 'k', '_', 'g', 'r', 'a', 'y'],
        "blue"@ == seq!['b', 'l', 'u', 'e'],
        "green"@ == seq!['g', 'r', 'e', 'e', 'n'],
        "aqua"@ == seq!['a', 'q', 'u', 'a'],
        "red"@ == seq!['r', 'e', 'd'],
        "light_purple"@ == seq!['l', 'i', 'g', 'h', 't', '_', 'p', 'u', 'r', 'p', 'l', 'e'],
        "yellow"@ == seq!['y', 'e', 'l', 'l', 'o', 'w'],
        "white"@ == seq!['w', 'h', 'i', 't', 'e'],
{
    reveal_strlit("black");
    reveal_strlit("dark_blue");
    reveal_strlit("dark_green");
    reveal_strlit("dark_aqua");
    reveal_strlit("dark_red");
    reveal_strlit("dark_purple");
    reveal_strlit("gold");
    reveal_strlit("gray");
    reveal_strlit("dark_gray");
    reveal_strlit("blue");
    reveal_strlit("green");
    reveal_strlit("aqua");
    reveal_strlit("red");
    reveal_strlit("light_purple");
    reveal_strlit("yellow");
    reveal_strlit("white");
}

/// A text colour: one of the sixteen named ones, or `#RRGGBB`.
#[derive(Debug, Eq, Hash)]
pub enum Color {
    /// One of the sixteen named colours.
    Named(NamedColor),
    /// A colour written as `#RRGGBB`.
    Hex(String),
}

/// What a [`Color`] stands for.
pub ghost enum ColorView {
    Named(NamedColor),
    Hex(Seq<char>),
}

impl View for Color {
    type V = ColorView;

    open spec fn view(&self) -> ColorView {
        match self {
            Color::Named(n) => ColorView::Named(*n),
            Color::Hex(h) => ColorView::Hex(h@),
        }
    }
}

/// The components of a strict `#RRGGBB` colour: a `#` and exactly six
/// hexadecimal digits.
pub open spec fn hex_color(s: Seq<char>) -> Option<(u8, u8, u8)> {
    if s.len() == 7 && s[0] == '#' && (forall|i: int| 1 <= i < 7 ==> spec_hex_value(s[i]) is Some) {
        Some(
            (
                (16 * spec_hex_value(s[1])->0 + spec_hex_value(s[2])->0) as u8,
                (16 * spec_hex_value(s[3])->0 + spec_hex_value(s[4])->0) as u8,
                (16 * spec_hex_value(s[5])->0 + spec_hex_value(s[6])->0) as u8,
            ),
        )
    } else {
        None
    }
}

/// Reads a strict `#RRGGBB` colour and returns its three components.
pub fn parse_hex_color(s: &str) -> (r: Option<[u8; 3]>)
    ensures
        match hex_color(s@) {
            Some(rgb) => r matches Some(a) && (a[0], a[1], a[2]) == rgb,
            None => r is None,
        },
{
    let chars = crate::text::chars_of(s);
    if chars.len() != 7 || chars[0] != '#' {
        return None;
    }
    let mut digits: Vec<u8> = Vec::new();
    let mut i: usize = 1;
    while i < 7
        invariant
            1 <= i <= 7,
            chars@ == s@,
            chars.len() == 7,
            digits.len() == i - 1,
            forall|j: int| 1 <= j < i ==> spec_hex_value(chars@[j]) == Some(#[trigger] digits@[j - 1]),
            forall|j: int| 0 <= j < i - 1 ==> digits@[j] < 16,
        decreases 7 - i,
    {
        match hex_value(chars[i]) {
            Some(v) => {
                digits.push(v);
            },
            None => {
                return None;
            },
        }
        i = i + 1;
    }
    assert(forall|j: int| 1 <= j < 7 ==> spec_hex_value(s@[j]) == Some(digits@[j - 1]));
    Some([16 * digits[0] + digits[1], 16 * digits[2] + digits[3], 16 * digits[4] + digits[5]])
}

impl ColorView {
    /// The colour that a piece of text names: one of the sixteen names, or
    /// else a strict `#RRGGBB` value.
    pub open spec fn parse(s: Seq<char>) -> Option<ColorView> {
        match NamedColor::spec_from_name(s) {
            Some(n) => Some(ColorView::Named(n)),
            None => if hex_color(s) is Some {
                Some(ColorView::Hex(s))
            } else {
                None
            },
        }
    }

    /// The named colour that this colour is, or has the canonical value of.
    pub open spec fn to_named(self) -> Option<NamedColor> {
        match self {
            ColorView::Named(n) => Some(n),
            ColorView::Hex(h) => match hex_color(h) {
                Some(rgb) => NamedColor::spec_from_rgb(rgb),
                None => None,
            },
        }
    }
}

impl Color {
    /// The named colour that this colour is, or has the canonical value of.
    pub fn to_named(&self) -> (r: Option<NamedColor>)
        ensures
            r == self@.to_named(),
    {
        match self {
            Color::Named(n) => Some(*n),
            Color::Hex(h) => match parse_hex_color(h.as_str()) {
                Some(rgb) => NamedColor::from_rgb(rgb),
                None => None,
            },
        }
    }
}

impl Clone for Color {
    fn clone(&self) -> (r: Color)
        ensures
            r@ == self@,
    {
        match self {
            Color::Named(n) => Color::Named(*n),
            Color::Hex(h) => Color::Hex(h.clone()),
        }
    }
}

impl PartialEq for Color {
    fn eq(&self, other: &Color) -> (r: bool) {
        match (self, other) {
            (Color::Named(a), Color::Named(b)) => *a == *b,
            (Color::Hex(a), Color::Hex(b)) => *a == *b,
            _ => false,
        }
    }
}

impl PartialEqSpecImpl for Color {
    open spec fn obeys_eq_spec() -> bool {
        true
    }

    open spec fn eq_spec(&self, other: &Color) -> bool {
        self@ == other@
    }
}

/// The text was neither a colour name nor a strict `#RRGGBB` value.
#[derive(Debug, Clone, Copy, PartialEq, Eq)]
pub struct ParseColorError;

impl ParseColorError {
    /// The message of the error.
    pub fn to_string(&self) -> (r: String)
        ensures
            r@ == "invalid color format"@,
    {
        owned("invalid color format")
    }
}

impl std::str::FromStr for Color {
    type Err = ParseColorError;

    fn from_str(s: &str) -> (r: Result<Color, ParseColorError>)
        ensures
            match ColorView::parse(s@) {
                Some(v) => r matches Ok(c) && c@ == v,
                None => r is Err,
            },
    {
        match NamedColor::from_name(s) {
            Some(n) => Ok(Color::Named(n)),
            None => match parse_hex_color(s) {
                Some(_) => Ok(Color::Hex(owned(s))),
                None => Err(ParseColorError),
            },
        }
    }
}

/// The colour of a text shadow.
#[derive(Debug, Clone, Copy, PartialEq)]
pub enum ShadowColor {
    /// Red, green, blue and alpha packed into 32 bits (`0xRRGGBBAA`).
    Int(i32),
    /// Red, green, blue and alpha as four single-precision numbers between
    /// zero and one, each held as its IEEE 754 bit pattern.
    Floats([u32; 4]),
}

} // verus!
