//! Rich-text component trees and the tag-based markup that is parsed into
//! them and written back from them.
//!
//! A [`Component`] is a bare string, a list of components, or a styled node
//! with children. [`minimessage::MiniMessage`] parses markup such as
//! `Hello <red>world</red>!` into a component tree and writes a tree back as
//! markup.
//!
//! Every function is verified against a contract. Contracts speak of views:
//! the view of a string is its sequence of characters, the view of a
//! component is a tree of such sequences. What markup means is defined in
//! [`minimessage::grammar`], what a tree is written as in
//! [`minimessage::serializer`], and what holds of both in
//! [`minimessage::laws`] and [`minimessage::round_trip`].

pub mod builder;
pub mod color;
pub mod component;
pub mod content;
pub mod minimessage;
pub mod parsing;
pub mod text;

pub use crate::color::{parse_hex_color, Color, NamedColor, ParseColorError, ShadowColor};
pub use crate::component::{Component, ComponentObject, HoverEvent, Style};
pub use crate::content::{
    ClickEvent, ContentType, NbtSource, ScoreContent, StyleMerge, TextDecoration, UuidRepr,
};
