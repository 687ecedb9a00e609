//! The parser: a scan position, a stack of styles and the components
//! emitted so far. Each method does what the grammar says of it.

use crate::color::{Color, NamedColor};
use crate::component::{
    components_view, lemma_components_view_push, Component, HoverEvent, Style, StyleView,
};
use crate::content::{ClickEvent, TextDecoration};
use crate::minimessage::grammar::{lemma_parse_from_step, nested_result, parse_from, step};
use crate::minimessage::lexer::{
    argument, argument_stop, arguments, at_tag_end, lemma_argument_advances, lemma_next_token,
    lemma_scan, lemma_scan_unique, lemma_tag_tail, name_end, name_stop, quoted, scan,
    separator_stop, separators_end, tag_tail, text_end, text_stop, unquoted_end, SyntaxError,
    Token,
};
use crate::minimessage::tags::{
    click_action, decoration_entry, decoration_tag, is_color_tag, is_stacking_close,
    joined_arguments, set_decorations, tag_source, wrap, ParserState,
};
use crate::minimessage::{MiniMessageConfig, MiniMessageError};
use crate::text::{
    chars_of, is_name_char, is_whitespace, lowercase, owned, spec_is_whitespace, str_eq, string_of,
    strings_view, to_ascii_lowercase,
};
use std::str::FromStr;
use vstd::prelude::*;
use vstd::string::StringExecFns;

verus! {

/// The views of a sequence of styles, one for one.
pub open spec fn styles_view(v: Seq<Style>) -> Seq<StyleView> {
    Seq::new(v.len(), |i: int| v[i]@)
}

/// White space ends before the first character that is not white space.
pub open spec fn whitespace_stop() -> spec_fn(char) -> bool {
    |c: char| !spec_is_whitespace(c)
}

/// The length of the markup that may be nested in a tag: that of its
/// second argument, where it has one.
pub open spec fn nested_length(args: Seq<Seq<char>>) -> nat {
    if args.len() >= 2 {
        args[1].len()
    } else {
        0
    }
}

/// The message for a missing character `c`.
pub open spec fn expected_message(c: char) -> Seq<char> {
    "Expected '"@.push(c).push('\'')
}

/// Whether a result reports the given syntax error.
pub open spec fn is_error<T>(r: Result<T, MiniMessageError>, kind: SyntaxError) -> bool {
    r matches Err(e) && e@ == kind.spec_message()
}

fn is_color_tag_name(name: &str) -> (r: bool)
    ensures
        r == is_color_tag(name@),
{
    str_eq(name, "color") || str_eq(name, "colour") || str_eq(name, "c")
}

fn decoration_tag_name(name: &str) -> (r: Option<TextDecoration>)
    ensures
        r == decoration_tag(name@),
{
    if str_eq(name, "bold") || str_eq(name, "b") {
        Some(TextDecoration::Bold)
    } else if str_eq(name, "italic") || str_eq(name, "i") || str_eq(name, "em") {
        Some(TextDecoration::Italic)
    } else if str_eq(name, "underlined") || str_eq(name, "u") {
        Some(TextDecoration::Underlined)
    } else if str_eq(name, "strikethrough") || str_eq(name, "st") {
        Some(TextDecoration::Strikethrough)
    } else if str_eq(name, "obfuscated") || str_eq(name, "obf") {
        Some(TextDecoration::Obfuscated)
    } else {
        None
    }
}

fn is_stacking_close_name(name: &str) -> (r: bool)
    ensures
        r == is_stacking_close(name@),
{
    decoration_tag_name(name).is_some() || is_color_tag_name(name) || str_eq(name, "click")
        || str_eq(name, "hover") || str_eq(name, "insert") || str_eq(name, "insertion")
}

fn click_event_from(action: &str, value: &str) -> (r: Option<ClickEvent>)
    ensures
        match click_action(action@, value@) {
            Some(view) => r matches Some(event) && event@ == view,
            None => r is None,
        },
{
    if str_eq(action, "run_command") {
        Some(ClickEvent::RunCommand { command: owned(value) })
    } else if str_eq(action, "suggest_command") {
        Some(ClickEvent::SuggestCommand { command: owned(value) })
    } else if str_eq(action, "open_url") {
        Some(ClickEvent::OpenUrl { url: owned(value) })
    } else if str_eq(action, "copy_to_clipboard") {
        Some(ClickEvent::CopyToClipboard { value: owned(value) })
    } else {
        None
    }
}

fn set_decoration(style: &mut Style, decoration: TextDecoration, state: Option<bool>)
    ensures
        final(style)@ == old(style)@.with_decoration(decoration, state),
{
    match decoration {
        TextDecoration::Bold => {
            style.bold = state;
        },
        TextDecoration::Italic => {
            style.italic = state;
        },
        TextDecoration::Underlined => {
            style.underlined = state;
        },
        TextDecoration::Strikethrough => {
            style.strikethrough = state;
        },
        TextDecoration::Obfuscated => {
            style.obfuscated = state;
        },
    }
}

fn push_decoration(
    decorations: &mut Vec<(TextDecoration, Option<bool>)>,
    decoration: TextDecoration,
    state: Option<bool>,
)
    ensures
        final(decorations)@ == old(decorations)@ + decoration_entry(decoration, state),
{
    if state.is_some() {
        decorations.push((decoration, state));
        assert(decorations@ =~= old(decorations)@ + seq![(decoration, state)]);
    } else {
        assert(decorations@ =~= old(decorations)@ + Seq::empty());
    }
}

/// An opening tag written out again: `<name:arg1:arg2>`.
fn tag_text(name: &str, args: &Vec<String>) -> (r: String)
    ensures
        r@ == tag_source(name@, strings_view(args@)),
{
    let mut out = owned("<");
    proof {
        reveal_strlit("<");
        assert("<"@ =~= seq!['<']);
    }
    out.append(name);
    let mut i: usize = 0;
    assert(strings_view(args@).take(0) =~= Seq::empty());
    while i < args.len()
        invariant
            i <= args.len(),
            out@ == seq!['<'] + name@ + joined_arguments(strings_view(args@).take(i as int)),
        decreases args.len() - i,
    {
        out.push(':');
        out.append(args[i].as_str());
        proof {
            let views = strings_view(args@);
            assert(views.take(i + 1).drop_last() =~= views.take(i as int));
            assert(views.take(i + 1).last() == args@[i as int]@);
            assert(out@ =~= seq!['<'] + name@ + joined_arguments(views.take(i + 1)));
        }
        i = i + 1;
    }
    assert(strings_view(args@).take(args.len() as int) =~= strings_view(args@));
    out.push('>');
    out
}

/// The state of one parse.
pub struct Parser {
    /// The markup, character by character.
    pub input: Vec<char>,
    /// The index of the next character to read.
    pub position: usize,
    /// How the markup is parsed.
    pub config: MiniMessageConfig,
    /// The style stack. Its last frame is the ambient style.
    pub style_stack: Vec<Style>,
    /// The components emitted so far.
    pub component_parts: Vec<Component>,
}

impl Parser {
    /// Whether a literal run also ends before `&`.
    pub open spec fn legacy(&self) -> bool {
        self.config.parse_legacy_colors
    }

    /// The style stack and the emitted components, as the grammar sees them.
    pub open spec fn state(&self) -> ParserState {
        ParserState {
            stack: styles_view(self.style_stack@),
            parts: components_view(self.component_parts@),
        }
    }

    /// The position is inside the input or at its end, the stack is not
    /// empty, and its bottom frame is the default style.
    pub open spec fn wf(&self) -> bool {
        self.position <= self.input.len() && self.state().wf()
    }

    /// The parser reads the same markup in the same way as `other`.
    pub open spec fn same_input(&self, other: &Parser) -> bool {
        self.input == other.input && self.config == other.config
    }

    /// The parser differs from `other` in its position at most.
    pub open spec fn moved_from(&self, other: &Parser) -> bool {
        &&& self.same_input(other)
        &&& self.style_stack == other.style_stack
        &&& self.component_parts == other.component_parts
    }

    /// A parser at the start of `input`, with the default style alone on the
    /// stack.
    pub fn new(input: &str, config: &MiniMessageConfig) -> (r: Parser)
        ensures
            r.input@ == input@,
            r.position == 0,
            r.config == *config,
            r.state() == ParserState::initial(),
            r.wf(),
    {
        let mut stack: Vec<Style> = Vec::new();
        stack.push(Style::default());
        let r = Parser {
            input: chars_of(input),
            position: 0,
            config: *config,
            style_stack: stack,
            component_parts: Vec::new(),
        };
        assert(r.state().stack =~= seq![StyleView::empty()]);
        assert(r.state().parts =~= Seq::empty());
        r
    }

    /// Whether the next character is `c`.
    pub fn starts_with(&self, c: char) -> (r: bool)
        ensures
            r == (self.position < self.input.len() && self.input@[self.position as int] == c),
    {
        self.position < self.input.len() && self.input[self.position] == c
    }

    /// The next character, or the null character at the end of the input.
    pub fn current_char(&self) -> (r: char)
        ensures
            r == if self.position < self.input.len() {
                self.input@[self.position as int]
            } else {
                '\0'
            },
    {
        if self.position < self.input.len() {
            self.input[self.position]
        } else {
            '\0'
        }
    }

    /// Moves past white space.
    pub fn skip_whitespace(&mut self)
        requires
            old(self).wf(),
        ensures
            final(self).moved_from(old(self)),
            final(self).wf(),
            old(self).position <= final(self).position,
            final(self).position == scan(
                old(self).input@,
                old(self).position as int,
                whitespace_stop(),
            ),
            forall|i: int|
                old(self).position <= i < final(self).position ==> spec_is_whitespace(
                    #[trigger] old(self).input@[i],
                ),
            final(self).position < final(self).input.len() ==> !spec_is_whitespace(
                final(self).input@[final(self).position as int],
            ),
    {
        let ghost start = self.position as int;
        while self.position < self.input.len() && is_whitespace(self.input[self.position])
            invariant
                self.moved_from(old(self)),
                start == old(self).position,
                start <= self.position <= self.input.len(),
                forall|i: int|
                    start <= i < self.position ==> spec_is_whitespace(#[trigger] self.input@[i]),
            decreases self.input.len() - self.position,
        {
            self.position = self.position + 1;
        }
        proof {
            lemma_scan_unique(self.input@, start, whitespace_stop(), self.position as int);
        }
    }

    /// Moves past the separators between the parts of a tag: `:` and white
    /// space, in any number and order.
    pub fn skip_separators(&mut self)
        requires
            old(self).wf(),
        ensures
            final(self).moved_from(old(self)),
            final(self).wf(),
            final(self).position == separators_end(old(self).input@, old(self).position as int),
    {
        let ghost start = self.position as int;
        self.skip_whitespace();
        while self.starts_with(':')
            invariant
                self.moved_from(old(self)),
                self.wf(),
                start == old(self).position,
                start <= self.position <= self.input.len(),
                forall|i: int|
                    start <= i < self.position ==> !separator_stop()(#[trigger] self.input@[i]),
                self.position < self.input.len() ==> !spec_is_whitespace(
                    self.input@[self.position as int],
                ),
            decreases self.input.len() - self.position,
        {
            self.position = self.position + 1;
            self.skip_whitespace();
        }
        proof {
            lemma_scan_unique(self.input@, start, separator_stop(), self.position as int);
        }
    }

    /// Moves past the character `c`, which must be the next one.
    pub fn expect(&mut self, c: char) -> (r: Result<(), MiniMessageError>)
        requires
            old(self).wf(),
        ensures
            final(self).moved_from(old(self)),
            final(self).wf(),
            if old(self).position < old(self).input.len() && old(self).input@[old(
                self,
            ).position as int] == c {
                r is Ok && final(self).position == old(self).position + 1
            } else {
                r matches Err(e) && e@ == expected_message(c) && final(self).position == old(
                    self,
                ).position
            },
    {
        if self.position < self.input.len() && self.current_char() == c {
            self.position = self.position + 1;
            Ok(())
        } else {
            let mut message = owned("Expected '");
            message.push(c);
            message.push('\'');
            Err(MiniMessageError::from_message(message))
        }
    }

    /// Reads a tag name: one or more of `[A-Za-z0-9_-]`, returned in lower
    /// case.
    pub fn read_tag_name(&mut self) -> (r: Result<String, MiniMessageError>)
        requires
            old(self).wf(),
        ensures
            final(self).moved_from(old(self)),
            final(self).wf(),
            final(self).position == name_end(old(self).input@, old(self).position as int),
            if final(self).position == old(self).position {
                is_error(r, SyntaxError::ExpectedTagName)
            } else {
                r matches Ok(name) && name@ == lowercase(
                    old(self).input@.subrange(
                        old(self).position as int,
                        final(self).position as int,
                    ),
                )
            },
    {
        let start = self.position;
        while self.position < self.input.len() && is_name_char(self.input[self.position])
            invariant
                self.moved_from(old(self)),
                start == old(self).position,
                start <= self.position <= self.input.len(),
                forall|i: int| start <= i < self.position ==> !name_stop()(#[trigger] self.input@[i]),
            decreases self.input.len() - self.position,
        {
            self.position = self.position + 1;
        }
        proof {
            lemma_scan_unique(self.input@, start as int, name_stop(), self.position as int);
        }
        if start == self.position {
            return Err(MiniMessageError::new(SyntaxError::ExpectedTagName));
        }
        let mut name = String::new();
        let mut i: usize = start;
        while i < self.position
            invariant
                start <= i <= self.position <= self.input.len(),
                name@ == lowercase(self.input@.subrange(start as int, i as int)),
            decreases self.position - i,
        {
            name.push(to_ascii_lowercase(self.input[i]));
            assert(name@ =~= lowercase(self.input@.subrange(start as int, i + 1)));
            i = i + 1;
        }
        Ok(name)
    }

    /// Reads an argument, quoted or not.
    pub fn read_argument(&mut self) -> (r: Result<String, MiniMessageError>)
        requires
            old(self).wf(),
        ensures
            final(self).moved_from(old(self)),
            final(self).wf(),
            match argument(old(self).input@, old(self).position as int) {
                Ok((arg, end)) => r matches Ok(s) && s@ == arg && final(self).position == end,
                Err(kind) => is_error(r, kind),
            },
    {
        if self.starts_with('\'') || self.starts_with('"') {
            self.read_quoted_string()
        } else {
            Ok(self.read_unquoted_string())
        }
    }

    /// Reads a quoted argument. The parser stands at the opening quote. A
    /// `\` makes the character after it an ordinary one.
    #[verifier::loop_isolation(false)]
    pub fn read_quoted_string(&mut self) -> (r: Result<String, MiniMessageError>)
        requires
            old(self).wf(),
            old(self).position < old(self).input.len(),
        ensures
            final(self).moved_from(old(self)),
            final(self).wf(),
            match quoted(
                old(self).input@,
                old(self).position + 1,
                old(self).input@[old(self).position as int],
                Seq::empty(),
            ) {
                Ok((arg, end)) => r matches Ok(s) && s@ == arg && final(self).position == end,
                Err(kind) => is_error(r, kind),
            },
    {
        let quote_char = self.current_char();
        let ghost start = self.position + 1;
        self.position = self.position + 1;
        let mut result = String::new();
        while self.position < self.input.len()
            invariant
                self.moved_from(old(self)),
                start == old(self).position + 1,
                self.position <= self.input.len(),
                quote_char == old(self).input@[old(self).position as int],
                quoted(self.input@, start, quote_char, Seq::empty()) == quoted(
                    self.input@,
                    self.position as int,
                    quote_char,
                    result@,
                ),
            decreases self.input.len() - self.position,
        {
            let c = self.current_char();
            if c == '\\' {
                if self.position + 1 < self.input.len() {
                    result.push(self.input[self.position + 1]);
                    self.position = self.position + 2;
                } else {
                    return Err(MiniMessageError::new(SyntaxError::UnterminatedQuote));
                }
            } else if c == quote_char {
                self.position = self.position + 1;
                return Ok(result);
            } else {
                result.push(c);
                self.position = self.position + 1;
            }
        }
        Err(MiniMessageError::new(SyntaxError::UnterminatedQuote))
    }

    /// Reads an unquoted argument: the characters up to `:`, `>`, `/` or
    /// white space. It may be empty.
    pub fn read_unquoted_string(&mut self) -> (r: String)
        requires
            old(self).wf(),
        ensures
            final(self).moved_from(old(self)),
            final(self).wf(),
            final(self).position == unquoted_end(old(self).input@, old(self).position as int),
            r@ == old(self).input@.subrange(old(self).position as int, final(self).position as int),
    {
        let start = self.position;
        while self.position < self.input.len() && !Self::ends_argument(self.input[self.position])
            invariant
                self.moved_from(old(self)),
                start == old(self).position,
                start <= self.position <= self.input.len(),
                forall|i: int|
                    start <= i < self.position ==> !argument_stop()(#[trigger] self.input@[i]),
            decreases self.input.len() - self.position,
        {
            self.position = self.position + 1;
        }
        proof {
            lemma_scan_unique(self.input@, start as int, argument_stop(), self.position as int);
        }
        string_of(&self.input, start, self.position)
    }

    fn ends_argument(c: char) -> (r: bool)
        ensures
            r == argument_stop()(c),
    {
        c == ':' || c == '>' || c == '/' || is_whitespace(c)
    }

    /// The ambient style: the top frame of the stack.
    pub fn current_style(&self) -> (r: &Style)
        requires
            self.style_stack.len() >= 1,
        ensures
            r@ == self.state().current(),
    {
        &self.style_stack[self.style_stack.len() - 1]
    }

    /// The decorations that the ambient style sets, each with its state, in
    /// the order bold, italic, underlined, strikethrough, obfuscated.
    pub fn collect_decorations(&self) -> (r: Vec<(TextDecoration, Option<bool>)>)
        requires
            self.style_stack.len() >= 1,
        ensures
            r@ == set_decorations(self.state().current()),
    {
        let style = self.current_style();
        let mut decorations: Vec<(TextDecoration, Option<bool>)> = Vec::new();
        push_decoration(&mut decorations, TextDecoration::Bold, style.bold);
        push_decoration(&mut decorations, TextDecoration::Italic, style.italic);
        push_decoration(&mut decorations, TextDecoration::Underlined, style.underlined);
        push_decoration(&mut decorations, TextDecoration::Strikethrough, style.strikethrough);
        push_decoration(&mut decorations, TextDecoration::Obfuscated, style.obfuscated);
        assert(decorations@ =~= set_decorations(style@));
        decorations
    }

    /// Pushes a frame.
    pub fn push_style(&mut self, style: Style)
        ensures
            final(self).same_input(old(self)),
            final(self).position == old(self).position,
            final(self).state() == old(self).state().push_style(style@),
    {
        self.style_stack.push(style);
        assert(self.state().stack =~= old(self).state().stack.push(style@));
    }

    /// Pops the top frame. The default frame stays: where it is the only
    /// one, the closing tag is unbalanced.
    pub fn pop_style(&mut self) -> (r: Result<(), MiniMessageError>)
        ensures
            final(self).same_input(old(self)),
            final(self).position == old(self).position,
            if old(self).style_stack.len() > 1 {
                r is Ok && final(self).state() == old(self).state().pop_style()
            } else {
                is_error(r, SyntaxError::UnbalancedClosingTag) && *final(self) == *old(self)
            },
    {
        if self.style_stack.len() > 1 {
            self.style_stack.pop();
            assert(self.state().stack =~= old(self).state().stack.drop_last());
            Ok(())
        } else {
            Err(MiniMessageError::new(SyntaxError::UnbalancedClosingTag))
        }
    }

    /// Pops every frame but the default one.
    pub fn reset_style(&mut self)
        requires
            old(self).style_stack.len() >= 1,
        ensures
            final(self).same_input(old(self)),
            final(self).position == old(self).position,
            final(self).state() == old(self).state().reset_style(),
    {
        while self.style_stack.len() > 1
            invariant
                self.same_input(old(self)),
                self.position == old(self).position,
                self.component_parts == old(self).component_parts,
                1 <= self.style_stack.len() <= old(self).style_stack.len(),
                self.style_stack@ == old(self).style_stack@.take(self.style_stack.len() as int),
            decreases self.style_stack.len(),
        {
            self.style_stack.pop();
        }
        assert(self.state().stack =~= old(self).state().stack.take(1));
    }

    /// Emits `text` as a component in the ambient style.
    pub fn emit(&mut self, text: &str)
        requires
            old(self).style_stack.len() >= 1,
        ensures
            final(self).same_input(old(self)),
            final(self).position == old(self).position,
            final(self).state() == old(self).state().emit(text@),
    {
        let component = Component::text(text).apply_fallback_style(self.current_style());
        proof {
            lemma_components_view_push(self.component_parts@, component);
        }
        self.component_parts.push(component);
    }

    /// Reads a literal run and emits it as one component in the ambient
    /// style. The run ends before `<`, and in legacy mode also before `&`;
    /// the character that the parser stands at always belongs to it.
    pub fn parse_text(&mut self)
        requires
            old(self).wf(),
            old(self).position < old(self).input.len(),
        ensures
            final(self).same_input(old(self)),
            final(self).wf(),
            final(self).position == text_end(
                old(self).input@,
                old(self).legacy(),
                old(self).position as int,
            ),
            final(self).state() == old(self).state().emit(
                old(self).input@.subrange(old(self).position as int, final(self).position as int),
            ),
    {
        let start = self.position;
        self.position = self.position + 1;
        while self.position < self.input.len() && !(self.starts_with('<') || (
        self.config.parse_legacy_colors && self.starts_with('&')))
            invariant
                self.moved_from(old(self)),
                start == old(self).position,
                start < self.position <= self.input.len(),
                forall|i: int|
                    start + 1 <= i < self.position ==> !text_stop(self.legacy())(
                        #[trigger] self.input@[i],
                    ),
            decreases self.input.len() - self.position,
        {
            self.position = self.position + 1;
        }
        proof {
            lemma_scan_unique(
                self.input@,
                start + 1,
                text_stop(self.legacy()),
                self.position as int,
            );
        }
        let text = string_of(&self.input, start, self.position);
        self.emit(text.as_str());
    }

    /// Applies a closing tag: the top frame is popped, whatever tag pushed
    /// it. Where the tag is unbalanced, nothing changes.
    pub fn handle_close_tag(&mut self, tag: &str) -> (r: Result<(), MiniMessageError>)
        requires
            old(self).wf(),
        ensures
            final(self).same_input(old(self)),
            final(self).position == old(self).position,
            final(self).wf(),
            match old(self).state().close_tag(tag@) {
                Ok(state) => r is Ok && final(self).state() == state,
                Err(kind) => is_error(r, kind) && *final(self) == *old(self),
            },
    {
        if is_stacking_close_name(tag) {
            self.pop_style()
        } else {
            if self.style_stack.len() > 1 {
                self.style_stack.pop();
                assert(self.state().stack =~= old(self).state().stack.drop_last());
            }
            Ok(())
        }
    }

    /// Applies an opening tag. The markup nested in `hover:show_text` is
    /// parsed by a parser of its own; where that fails, nothing changes.
    pub fn handle_open_tag(&mut self, tag: &str, args: Vec<String>, self_closing: bool) -> (r:
        Result<(), MiniMessageError>)
        requires
            old(self).wf(),
        ensures
            final(self).same_input(old(self)),
            final(self).position == old(self).position,
            final(self).wf(),
            match old(self).state().open_tag(
                tag@,
                strings_view(args@),
                self_closing,
                nested_result(
                    Token::Open { name: tag@, args: strings_view(args@), self_closing },
                    old(self).legacy(),
                ),
            ) {
                Ok(state) => r is Ok && final(self).state() == state,
                Err(kind) => is_error(r, kind) && *final(self) == *old(self),
            },
        decreases nested_length(strings_view(args@)) + 1, 1int,
    {
        let named = NamedColor::from_name(tag);
        let decoration = decoration_tag_name(tag);
        if named.is_some() {
            let mut style = self.current_style().clone();
            style.color = Some(Color::Named(named.unwrap()));
            self.push_style(style);
        } else if is_color_tag_name(tag) && args.len() > 0 {
            match Color::from_str(args[0].as_str()) {
                Ok(color) => {
                    let mut style = self.current_style().clone();
                    style.color = Some(color);
                    self.push_style(style);
                },
                Err(_) => {},
            }
        } else if decoration.is_some() {
            let mut style = self.current_style().clone();
            set_decoration(&mut style, decoration.unwrap(), Some(true));
            self.push_style(style);
        } else if str_eq(tag, "reset") {
            self.reset_style();
        } else if str_eq(tag, "click") && args.len() == 2 {
            match click_event_from(args[0].as_str(), args[1].as_str()) {
                Some(event) => {
                    let mut style = self.current_style().clone();
                    style.click_event = Some(event);
                    self.push_style(style);
                },
                None => {},
            }
        } else if str_eq(tag, "hover") && args.len() > 0 {
            if str_eq(args[0].as_str(), "show_text") && args.len() >= 2 {
                let mut nested_parser = Parser::new(args[1].as_str(), &self.config);
                match nested_parser.parse() {
                    Ok(nested) => {
                        let mut style = self.current_style().clone();
                        style.hover_event = Some(HoverEvent::ShowText { value: nested });
                        self.push_style(style);
                    },
                    Err(e) => {
                        return Err(e);
                    },
                }
            }
        } else if str_eq(tag, "newline") || str_eq(tag, "br") {
            proof {
                reveal_strlit("\n");
                assert("\n"@ =~= seq!['\n']);
            }
            self.emit("\n");
        } else if (str_eq(tag, "insert") || str_eq(tag, "insertion")) && args.len() > 0 {
            let mut style = self.current_style().clone();
            style.insertion = Some(args[0].clone());
            self.push_style(style);
        } else if self_closing {
            proof {
                reveal_strlit("");
                assert(""@ =~= Seq::<char>::empty());
            }
            self.emit("");
        } else {
            let text = tag_text(tag, &args);
            self.emit(text.as_str());
        }
        Ok(())
    }

    /// Reads the rest of a tag after its name: the arguments, with the
    /// separators before each one, an optional `/`, and the `>`.
    #[verifier::loop_isolation(false)]
    pub fn read_tag_tail(&mut self) -> (r: Result<(Vec<String>, bool), MiniMessageError>)
        requires
            old(self).wf(),
        ensures
            final(self).moved_from(old(self)),
            final(self).wf(),
            match tag_tail(old(self).input@, old(self).position as int) {
                Ok((args, self_closing, next)) => r matches Ok((read, slash)) && strings_view(
                    read@,
                ) == args && slash == self_closing && final(self).position == next,
                Err(kind) => is_error(r, kind),
            },
    {
        let ghost input = self.input@;
        let ghost start = self.position as int;
        let mut args: Vec<String> = Vec::new();
        assert(strings_view(args@) =~= Seq::empty());
        let mut at_end = false;
        while !at_end && self.position < self.input.len()
            invariant
                self.moved_from(old(self)),
                self.wf(),
                start <= self.position,
                at_end ==> at_tag_end(input, self.position as int),
                arguments(input, start, Seq::empty()) == arguments(
                    input,
                    self.position as int,
                    strings_view(args@),
                ),
            decreases
                    self.input.len() - self.position,
                    if at_end {
                        0int
                    } else {
                        1int
                    },
        {
            let ghost before = self.position as int;
            proof {
                lemma_argument_advances(input, before);
            }
            self.skip_separators();
            if self.starts_with('>') || self.starts_with('/') {
                at_end = true;
                proof {
                    lemma_scan_unique(
                        input,
                        self.position as int,
                        separator_stop(),
                        self.position as int,
                    );
                }
            } else {
                let ghost seen = strings_view(args@);
                match self.read_argument() {
                    Ok(arg) => {
                        args.push(arg);
                        assert(strings_view(args@) =~= seen.push(arg@));
                    },
                    Err(e) => {
                        return Err(e);
                    },
                }
            }
        }
        proof {
            if at_end {
                lemma_scan_unique(
                    input,
                    self.position as int,
                    separator_stop(),
                    self.position as int,
                );
            }
            assert(arguments(input, self.position as int, strings_view(args@)) == Ok::<
                (Seq<Seq<char>>, int),
                SyntaxError,
            >((strings_view(args@), self.position as int)));
        }
        let mut self_closing = false;
        if self.starts_with('/') {
            self.position = self.position + 1;
            self_closing = true;
        }
        proof {
            reveal_strlit("Expected '");
            reveal_strlit("Expected '>'");
            assert(expected_message('>') =~= SyntaxError::ExpectedClosingBracket.spec_message());
        }
        match self.expect('>') {
            Ok(()) => {},
            Err(e) => {
                return Err(e);
            },
        }
        Ok((args, self_closing))
    }

    /// Reads one tag, opening or closing, and applies it. The parser stands
    /// at the `<`. A closing tag is applied as soon as its name is read.
    pub fn parse_tag(&mut self) -> (r: Result<(), MiniMessageError>)
        requires
            old(self).wf(),
            old(self).position < old(self).input.len(),
            old(self).input@[old(self).position as int] == '<',
        ensures
            final(self).same_input(old(self)),
            match step(
                old(self).input@,
                old(self).legacy(),
                old(self).position as int,
                old(self).state(),
            ) {
                Ok((next, state)) => r is Ok && final(self).position == next && final(self).state()
                    == state && final(self).wf(),
                Err(kind) => is_error(r, kind),
            },
        decreases old(self).input.len(), 2int,
    {
        let ghost input = self.input@;
        let ghost pos = self.position as int;
        proof {
            lemma_next_token(input, self.legacy(), pos);
        }
        self.position = self.position + 1;
        if self.starts_with('/') {
            self.position = self.position + 1;
            let tag_name = match self.read_tag_name() {
                Ok(name) => name,
                Err(e) => {
                    return Err(e);
                },
            };
            match self.handle_close_tag(tag_name.as_str()) {
                Ok(()) => {},
                Err(e) => {
                    return Err(e);
                },
            }
            match self.read_tag_tail() {
                Ok(_) => Ok(()),
                Err(e) => Err(e),
            }
        } else {
            let tag_name = match self.read_tag_name() {
                Ok(name) => name,
                Err(e) => {
                    return Err(e);
                },
            };
            let ghost name_stop_pos = self.position as int;
            let (args, self_closing) = match self.read_tag_tail() {
                Ok(tail) => tail,
                Err(e) => {
                    return Err(e);
                },
            };
            proof {
                lemma_scan(input, pos + 1, name_stop());
                lemma_tag_tail(input, name_stop_pos);
                assert(nested_length(strings_view(args@)) < input.len()) by {
                    if args.len() >= 2 {
                        assert(strings_view(args@)[1].len() <= input.len() - name_stop_pos);
                    }
                }
            }
            self.handle_open_tag(tag_name.as_str(), args, self_closing)
        }
    }

    /// Parses the markup from the parser's position on and returns the
    /// components emitted: the component itself where there is exactly one,
    /// else the list of them. Style frames that are still open at the end are
    /// dropped.
    #[verifier::loop_isolation(false)]
    pub fn parse(&mut self) -> (r: Result<Component, MiniMessageError>)
        requires
            old(self).wf(),
        ensures
            final(self).same_input(old(self)),
            match parse_from(
                old(self).input@,
                old(self).legacy(),
                old(self).position as int,
                old(self).state(),
            ) {
                Ok(state) => {
                    &&& r matches Ok(c) && c@ == wrap(state.parts)
                    &&& final(self).position == final(self).input.len()
                    &&& final(self).state().stack == state.stack
                    &&& final(self).state().parts.len() == 0
                },
                Err(kind) => is_error(r, kind),
            },
        decreases old(self).input.len(), 3int,
    {
        let ghost goal = parse_from(
            self.input@,
            self.legacy(),
            self.position as int,
            self.state(),
        );
        while self.position < self.input.len()
            invariant
                self.wf(),
                self.same_input(old(self)),
                goal == parse_from(self.input@, self.legacy(), self.position as int, self.state()),
            decreases self.input.len() - self.position,
        {
            proof {
                lemma_parse_from_step(
                    self.input@,
                    self.legacy(),
                    self.position as int,
                    self.state(),
                );
                lemma_next_token(self.input@, self.legacy(), self.position as int);
            }
            if self.starts_with('<') {
                match self.parse_tag() {
                    Ok(()) => {},
                    Err(e) => {
                        return Err(e);
                    },
                }
            } else {
                self.parse_text();
            }
        }
        let mut parts: Vec<Component> = Vec::new();
        std::mem::swap(&mut parts, &mut self.component_parts);
        if parts.len() == 1 {
            Ok(parts.pop().unwrap())
        } else {
            Ok(Component::Array(parts))
        }
    }
}

} // verus!
