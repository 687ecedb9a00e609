//! The closed vocabularies of a component: content kinds, decorations, click
//! actions and the small records that go with them.

use vstd::prelude::*;

verus! {

/// The kind of content that a component carries.
#[derive(Debug, Clone, Copy, PartialEq, Eq, Structural, Hash)]
pub enum ContentType {
    /// Plain text.
    Text,
    /// A translation key with its arguments.
    Translatable,
    /// A scoreboard value.
    Score,
    /// An entity selector.
    Selector,
    /// The name of a key binding.
    Keybind,
    /// A query into NBT data.
    Nbt,
}

/// Where an NBT query reads from.
#[derive(Debug, Clone, Copy, PartialEq, Eq, Structural, Hash)]
pub enum NbtSource {
    /// The data of a block entity.
    Block,
    /// The data of an entity.
    Entity,
    /// Command storage.
    Storage,
}

/// The five boolean text decorations.
#[derive(Debug, Clone, Copy, PartialEq, Eq, Structural, Hash)]
pub enum TextDecoration {
    Bold,
    Italic,
    Underlined,
    Strikethrough,
    Obfuscated,
}

/// The attributes of a style, one name for each.
#[derive(Debug, Clone, Copy, PartialEq, Eq, Structural, Hash)]
pub enum StyleMerge {
    Color,
    Font,
    Bold,
    Italic,
    Underlined,
    Strikethrough,
    Obfuscated,
    ShadowColor,
    Insertion,
    ClickEvent,
    HoverEvent,
}

/// A reference to a scoreboard value.
#[derive(Debug, PartialEq, Eq)]
pub struct ScoreContent {
    /// The holder of the score: a player name or a selector.
    pub name: String,
    /// The name of the objective.
    pub objective: String,
}

/// What a [`ScoreContent`] stands for.
pub ghost struct ScoreContentView {
    pub name: Seq<char>,
    pub objective: Seq<char>,
}

impl View for ScoreContent {
    type V = ScoreContentView;

    open spec fn view(&self) -> ScoreContentView {
        ScoreContentView { name: self.name@, objective: self.objective@ }
    }
}

impl Clone for ScoreContent {
    fn clone(&self) -> (r: ScoreContent)
        ensures
            r@ == self@,
    {
        ScoreContent { name: self.name.clone(), objective: self.objective.clone() }
    }
}

/// What happens when the text is clicked. Each action carries one value.
#[derive(Debug, PartialEq, Eq)]
pub enum ClickEvent {
    /// Opens a URL in the browser.
    OpenUrl { url: String },
    /// Opens a file on the client.
    OpenFile { path: String },
    /// Runs a command.
    RunCommand { command: String },
    /// Puts a command into the chat input.
    SuggestCommand { command: String },
    /// Turns to a page of a book.
    ChangePage { page: i32 },
    /// Copies a value to the clipboard.
    CopyToClipboard { value: String },
}

/// What a [`ClickEvent`] stands for.
pub ghost enum ClickEventView {
    OpenUrl { url: Seq<char> },
    OpenFile { path: Seq<char> },
    RunCommand { command: Seq<char> },
    SuggestCommand { command: Seq<char> },
    ChangePage { page: i32 },
    CopyToClipboard { value: Seq<char> },
}

impl View for ClickEvent {
    type V = ClickEventView;

    open spec fn view(&self) -> ClickEventView {
        match self {
            ClickEvent::OpenUrl { url } => ClickEventView::OpenUrl { url: url@ },
            ClickEvent::OpenFile { path } => ClickEventView::OpenFile { path: path@ },
            ClickEvent::RunCommand { command } => ClickEventView::RunCommand { command: command@ },
            ClickEvent::SuggestCommand { command } => ClickEventView::SuggestCommand {
                command: command@,
            },
            ClickEvent::ChangePage { page } => ClickEventView::ChangePage { page: *page },
            ClickEvent::CopyToClipboard { value } => ClickEventView::CopyToClipboard {
                value: value@,
            },
        }
    }
}

impl Clone for ClickEvent {
    fn clone(&self) -> (r: ClickEvent)
        ensures
            r@ == self@,
    {
        match self {
            ClickEvent::OpenUrl { url } => ClickEvent::OpenUrl { url: url.clone() },
            ClickEvent::OpenFile { path } => ClickEvent::OpenFile { path: path.clone() },
            ClickEvent::RunCommand { command } => ClickEvent::RunCommand {
                command: command.clone(),
            },
            ClickEvent::SuggestCommand { command } => ClickEvent::SuggestCommand {
                command: command.clone(),
            },
            ClickEvent::ChangePage { page } => ClickEvent::ChangePage { page: *page },
            ClickEvent::CopyToClipboard { value } => ClickEvent::CopyToClipboard {
                value: value.clone(),
            },
        }
    }
}

/// The UUID of an entity, in one of its two written forms.
#[derive(Debug, PartialEq, Eq, Hash)]
pub enum UuidRepr {
    /// Hyphenated hexadecimal text.
    String(String),
    /// Four 32-bit integers.
    IntArray([i32; 4]),
}

/// What a [`UuidRepr`] stands for.
pub ghost enum UuidReprView {
    String(Seq<char>),
    IntArray([i32; 4]),
}

impl View for UuidRepr {
    type V = UuidReprView;

    open spec fn view(&self) -> UuidReprView {
        match self {
            UuidRepr::String(s) => UuidReprView::String(s@),
            UuidRepr::IntArray(a) => UuidReprView::IntArray(*a),
        }
    }
}

impl Clone for UuidRepr {
    fn clone(&self) -> (r: UuidRepr)
        ensures
            r@ == self@,
    {
        match self {
            UuidRepr::String(s) => UuidRepr::String(s.clone()),
            UuidRepr::IntArray(a) => UuidRepr::IntArray(*a),
        }
    }
}

} // verus!
