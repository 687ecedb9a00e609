//! The tag vocabulary and what each tag does to the parser's state: a stack
//! of styles and the list of components emitted so far.

use crate::color::{ColorView, NamedColor};
use crate::component::{ComponentView, HoverEventView, StyleView};
use crate::content::{ClickEventView, TextDecoration};
use crate::minimessage::lexer::{SyntaxError, Token};
use vstd::prelude::*;

verus! {

impl StyleView {
    /// The style with one decoration set to `state`.
    pub open spec fn with_decoration(self, decoration: TextDecoration, state: Option<bool>) -> StyleView {
        match decoration {
            TextDecoration::Bold => StyleView { bold: state, ..self },
            TextDecoration::Italic => StyleView { italic: state, ..self },
            TextDecoration::Underlined => StyleView { underlined: state, ..self },
            TextDecoration::Strikethrough => StyleView { strikethrough: state, ..self },
            TextDecoration::Obfuscated => StyleView { obfuscated: state, ..self },
        }
    }

    /// The state of one decoration.
    pub open spec fn decoration(self, decoration: TextDecoration) -> Option<bool> {
        match decoration {
            TextDecoration::Bold => self.bold,
            TextDecoration::Italic => self.italic,
            TextDecoration::Underlined => self.underlined,
            TextDecoration::Strikethrough => self.strikethrough,
            TextDecoration::Obfuscated => self.obfuscated,
        }
    }
}

/// A decoration with its state, where the state is set.
pub open spec fn decoration_entry(decoration: TextDecoration, state: Option<bool>) -> Seq<
    (TextDecoration, Option<bool>),
> {
    if state is Some {
        seq![(decoration, state)]
    } else {
        Seq::empty()
    }
}

/// The decorations that a style sets, each with its state, in the order
/// bold, italic, underlined, strikethrough, obfuscated.
pub open spec fn set_decorations(style: StyleView) -> Seq<(TextDecoration, Option<bool>)> {
    decoration_entry(TextDecoration::Bold, style.bold) + decoration_entry(
        TextDecoration::Italic,
        style.italic,
    ) + decoration_entry(TextDecoration::Underlined, style.underlined) + decoration_entry(
        TextDecoration::Strikethrough,
        style.strikethrough,
    ) + decoration_entry(TextDecoration::Obfuscated, style.obfuscated)
}

/// The tags `color`, `colour` and `c`, which take the colour as an argument.
pub open spec fn is_color_tag(name: Seq<char>) -> bool {
    name == "color"@ || name == "colour"@ || name == "c"@
}

/// The decoration that a tag name switches on, if it is the name of one.
pub open spec fn decoration_tag(name: Seq<char>) -> Option<TextDecoration> {
    if name == "bold"@ || name == "b"@ {
        Some(TextDecoration::Bold)
    } else if name == "italic"@ || name == "i"@ || name == "em"@ {
        Some(TextDecoration::Italic)
    } else if name == "underlined"@ || name == "u"@ {
        Some(TextDecoration::Underlined)
    } else if name == "strikethrough"@ || name == "st"@ {
        Some(TextDecoration::Strikethrough)
    } else if name == "obfuscated"@ || name == "obf"@ {
        Some(TextDecoration::Obfuscated)
    } else {
        None
    }
}

/// The names whose closing tag must find a style to pop.
pub open spec fn is_stacking_close(name: Seq<char>) -> bool {
    ||| decoration_tag(name) is Some
    ||| is_color_tag(name)
    ||| name == "click"@
    ||| name == "hover"@
    ||| name == "insert"@
    ||| name == "insertion"@
}

/// The click action that the two arguments of a `click` tag describe, if the
/// first names one that markup can express.
pub open spec fn click_action(action: Seq<char>, value: Seq<char>) -> Option<ClickEventView> {
    if action == "run_command"@ {
        Some(ClickEventView::RunCommand { command: value })
    } else if action == "suggest_command"@ {
        Some(ClickEventView::SuggestCommand { command: value })
    } else if action == "open_url"@ {
        Some(ClickEventView::OpenUrl { url: value })
    } else if action == "copy_to_clipboard"@ {
        Some(ClickEventView::CopyToClipboard { value })
    } else {
        None
    }
}

/// Whether a tag is `hover` with `show_text` and a piece of nested markup.
pub open spec fn is_hover_text(name: Seq<char>, args: Seq<Seq<char>>) -> bool {
    name == "hover"@ && args.len() >= 2 && args[0] == "show_text"@
}

/// The markup nested in a token, which is parsed before the token is applied.
pub open spec fn nested_markup(token: Token) -> Option<Seq<char>> {
    match token {
        Token::Open { name, args, self_closing } => if is_hover_text(name, args) {
            Some(args[1])
        } else {
            None
        },
        _ => None,
    }
}

/// The arguments of a tag, each with a `:` before it.
pub open spec fn joined_arguments(args: Seq<Seq<char>>) -> Seq<char>
    decreases args.len(),
{
    if args.len() == 0 {
        Seq::empty()
    } else {
        joined_arguments(args.drop_last()).push(':') + args.last()
    }
}

/// An opening tag written out again: `<name:arg1:arg2>`.
pub open spec fn tag_source(name: Seq<char>, args: Seq<Seq<char>>) -> Seq<char> {
    (seq!['<'] + name + joined_arguments(args)).push('>')
}

/// The state of a parse: the style stack, whose last frame is the ambient
/// style, and the components emitted so far.
pub ghost struct ParserState {
    pub stack: Seq<StyleView>,
    pub parts: Seq<ComponentView>,
}

impl ParserState {
    /// The state at the start: the default style alone, and no components.
    pub open spec fn initial() -> ParserState {
        ParserState { stack: seq![StyleView::empty()], parts: Seq::empty() }
    }

    /// The stack is never empty and its bottom frame is the default style.
    pub open spec fn wf(self) -> bool {
        self.stack.len() >= 1 && self.stack[0] == StyleView::empty()
    }

    /// The ambient style.
    pub open spec fn current(self) -> StyleView {
        self.stack.last()
    }

    /// The state with one more frame.
    pub open spec fn push_style(self, style: StyleView) -> ParserState {
        ParserState { stack: self.stack.push(style), ..self }
    }

    /// The state without its top frame.
    pub open spec fn pop_style(self) -> ParserState {
        ParserState { stack: self.stack.drop_last(), ..self }
    }

    /// The state with only its bottom frame.
    pub open spec fn reset_style(self) -> ParserState {
        ParserState { stack: self.stack.take(1), ..self }
    }

    /// The state with one more component: `text` in the ambient style.
    pub open spec fn emit(self, text: Seq<char>) -> ParserState {
        ParserState {
            parts: self.parts.push(ComponentView::text(text).apply_fallback_style(self.current())),
            ..self
        }
    }

    /// The state after an opening tag. `nested` is the result of parsing the
    /// markup nested in the tag, and is read for `hover:show_text` only.
    pub open spec fn open_tag(
        self,
        name: Seq<char>,
        args: Seq<Seq<char>>,
        self_closing: bool,
        nested: Result<ComponentView, SyntaxError>,
    ) -> Result<ParserState, SyntaxError> {
        let top = self.current();
        if NamedColor::spec_from_name(name) is Some {
            Ok(
                self.push_style(
                    StyleView {
                        color: Some(ColorView::Named(NamedColor::spec_from_name(name)->0)),
                        ..top
                    },
                ),
            )
        } else if is_color_tag(name) && args.len() > 0 {
            match ColorView::parse(args[0]) {
                Some(color) => Ok(self.push_style(StyleView { color: Some(color), ..top })),
                None => Ok(self),
            }
        } else if decoration_tag(name) is Some {
            Ok(self.push_style(top.with_decoration(decoration_tag(name)->0, Some(true))))
        } else if name == "reset"@ {
            Ok(self.reset_style())
        } else if name == "click"@ && args.len() == 2 {
            match click_action(args[0], args[1]) {
                Some(event) => Ok(self.push_style(StyleView { click_event: Some(event), ..top })),
                None => Ok(self),
            }
        } else if name == "hover"@ && args.len() > 0 {
            if is_hover_text(name, args) {
                match nested {
                    Ok(value) => Ok(
                        self.push_style(
                            StyleView {
                                hover_event: Some(
                                    HoverEventView::ShowText { value: Box::new(value) },
                                ),
                                ..top
                            },
                        ),
                    ),
                    Err(e) => Err(e),
                }
            } else {
                Ok(self)
            }
        } else if name == "newline"@ || name == "br"@ {
            Ok(self.emit(seq!['\n']))
        } else if (name == "insert"@ || name == "insertion"@) && args.len() > 0 {
            Ok(self.push_style(StyleView { insertion: Some(args[0]), ..top }))
        } else if self_closing {
            Ok(self.emit(Seq::empty()))
        } else {
            Ok(self.emit(tag_source(name, args)))
        }
    }

    /// The state after a closing tag: the top frame is popped, whatever tag
    /// pushed it. A stacking tag must find a frame above the default one;
    /// any other name pops one only if there is one.
    pub open spec fn close_tag(self, name: Seq<char>) -> Result<ParserState, SyntaxError> {
        if self.stack.len() > 1 {
            Ok(self.pop_style())
        } else if is_stacking_close(name) {
            Err(SyntaxError::UnbalancedClosingTag)
        } else {
            Ok(self)
        }
    }

    /// The state after a token. A closing tag is applied before the rest of
    /// it is looked at: a tag that finds no frame to pop is unbalanced,
    /// whatever follows its name.
    pub open spec fn apply(self, token: Token, nested: Result<ComponentView, SyntaxError>) -> Result<
        ParserState,
        SyntaxError,
    > {
        match token {
            Token::Text { text } => Ok(self.emit(text)),
            Token::Open { name, args, self_closing } => self.open_tag(
                name,
                args,
                self_closing,
                nested,
            ),
            Token::Close { name, failure } => match self.close_tag(name) {
                Err(e) => Err(e),
                Ok(state) => match failure {
                    None => Ok(state),
                    Some(e) => Err(e),
                },
            },
        }
    }
}

/// Every token leaves a well-formed state well-formed.
pub proof fn lemma_apply_wf(
    state: ParserState,
    token: Token,
    nested: Result<ComponentView, SyntaxError>,
)
    requires
        state.wf(),
    ensures
        state.apply(token, nested) matches Ok(next) ==> next.wf(),
{
}

/// What a parse returns for the components it emitted: the component itself
/// where there is exactly one, else the list of them.
pub open spec fn wrap(parts: Seq<ComponentView>) -> ComponentView {
    if parts.len() == 1 {
        parts[0]
    } else {
        ComponentView::Array(parts)
    }
}

} // verus!
