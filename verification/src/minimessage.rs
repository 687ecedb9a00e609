//! The tag-based markup format: parsing markup into a component tree and
//! writing a tree back as markup.

pub mod grammar;
pub mod laws;
pub mod lexer;
pub mod parser;
pub mod round_trip;
pub mod serializer;
pub mod tags;

use crate::component::{Component, StyleView};
use crate::minimessage::grammar::parse_markup;
use crate::minimessage::lexer::SyntaxError;
use crate::minimessage::parser::Parser;
use crate::minimessage::serializer::{serialize, Serializer};
use crate::parsing::{ComponentParser, ComponentSerializer};
use crate::text::owned;
use vstd::prelude::*;
use vstd::string::StringExecFns;

verus! {

/// A piece of markup was rejected. The error carries a message that says why.
#[derive(Debug, PartialEq, Eq)]
pub struct MiniMessageError(String);

impl View for MiniMessageError {
    type V = Seq<char>;

    /// The message of the error.
    closed spec fn view(&self) -> Seq<char> {
        self.0@
    }
}

impl MiniMessageError {
    /// The error with the message of a syntax error.
    pub fn new(kind: SyntaxError) -> (r: MiniMessageError)
        ensures
            r@ == kind.spec_message(),
    {
        MiniMessageError(owned(kind.message()))
    }

    /// The error with the given message.
    pub fn from_message(message: String) -> (r: MiniMessageError)
        ensures
            r@ == message@,
    {
        MiniMessageError(message)
    }

    /// The message of the error.
    pub fn message(&self) -> (r: &str)
        ensures
            r@ == self@,
    {
        self.0.as_str()
    }

    /// The error as it is shown: its message after `MiniMessage error: `.
    pub fn to_string(&self) -> (r: String)
        ensures
            r@ == "MiniMessage error: "@ + self@,
    {
        owned("MiniMessage error: ").concat(self.0.as_str())
    }
}

impl Clone for MiniMessageError {
    fn clone(&self) -> (r: MiniMessageError)
        ensures
            r@ == self@,
    {
        MiniMessageError(self.0.clone())
    }
}

/// How markup is parsed.
#[derive(Debug, Clone, Copy, PartialEq, Eq, Structural, Hash)]
pub struct MiniMessageConfig {
    /// Asks for strict parsing, in which every tag must be closed. The
    /// parser accepts tags that are left open whatever this says.
    pub strict: bool,
    /// Whether a literal run also ends before `&`, the mark of a legacy
    /// colour code.
    pub parse_legacy_colors: bool,
}

impl Default for MiniMessageConfig {
    fn default() -> (r: MiniMessageConfig)
        ensures
            !r.strict,
            !r.parse_legacy_colors,
    {
        MiniMessageConfig { strict: false, parse_legacy_colors: false }
    }
}

/// Whether a result is the outcome that the grammar gives: the component
/// with the given view, or the error with the given message.
pub open spec fn is_outcome(
    r: Result<Component, MiniMessageError>,
    outcome: Result<crate::component::ComponentView, SyntaxError>,
) -> bool {
    match outcome {
        Ok(view) => r matches Ok(c) && c@ == view,
        Err(kind) => r matches Err(e) && e@ == kind.spec_message(),
    }
}

/// The parser and serializer of the markup format.
#[derive(Debug, Clone, Copy)]
pub struct MiniMessage {
    config: MiniMessageConfig,
}

impl MiniMessage {
    /// The configuration that this instance parses with.
    pub closed spec fn spec_config(&self) -> MiniMessageConfig {
        self.config
    }

    /// An instance with the default configuration.
    pub fn new() -> (r: MiniMessage)
        ensures
            !r.spec_config().strict,
            !r.spec_config().parse_legacy_colors,
    {
        MiniMessage::with_config(MiniMessageConfig::default())
    }

    /// An instance with the given configuration.
    pub fn with_config(config: MiniMessageConfig) -> (r: MiniMessage)
        ensures
            r.spec_config() == config,
    {
        MiniMessage { config }
    }

    /// The configuration that this instance parses with.
    pub fn config(&self) -> (r: MiniMessageConfig)
        ensures
            r == self.spec_config(),
    {
        self.config
    }

    /// Parses markup into a component tree. The result is the tree that the
    /// grammar gives the markup, or the first error in it.
    pub fn parse(&self, input: &str) -> (r: Result<Component, MiniMessageError>)
        ensures
            is_outcome(r, parse_markup(input@, self.spec_config().parse_legacy_colors)),
    {
        let mut parser = Parser::new(input, &self.config);
        parser.parse()
    }
}

impl Default for MiniMessage {
    fn default() -> (r: MiniMessage)
        ensures
            !r.spec_config().strict,
            !r.spec_config().parse_legacy_colors,
    {
        MiniMessage::new()
    }
}

impl ComponentParser for MiniMessage {
    type Err = MiniMessageError;

    /// Parses markup with the default configuration.
    fn from_string(input: &str) -> (r: Result<Component, MiniMessageError>)
        ensures
            is_outcome(r, parse_markup(input@, false)),
    {
        let mm = MiniMessage::new();
        mm.parse(input)
    }
}

impl ComponentSerializer for MiniMessage {
    type Err = MiniMessageError;

    /// Writes a component tree as markup, against the default style. This
    /// never fails.
    fn to_string(component: &Component) -> (r: Result<String, MiniMessageError>)
        ensures
            r matches Ok(markup) && markup@ == serialize(component@, StyleView::empty()),
    {
        let mut serializer = Serializer::new();
        Ok(serializer.serialize(component))
    }
}

} // verus!
