//! The lexical grammar of the markup: literal runs, tag names and arguments.
//!
//! Markup is a sequence of characters and every position is a character
//! index. `input := (literal | tag)*`, `tag := "<" ["/"] name (sep arg)* ["/"] ">"`,
//! `name := [A-Za-z0-9_-]+`, `sep := (":" | white space)+`, `arg := quoted | unquoted`.
//! Opening and closing tags share the one form of a tag.

use crate::text::{lowercase, spec_is_name_char, spec_is_whitespace};
use vstd::prelude::*;

verus! {

/// Why a piece of markup is not accepted.
#[derive(Debug, Clone, Copy, PartialEq, Eq, Structural, Hash)]
pub enum SyntaxError {
    /// A `<` or `</` is not followed by a tag name.
    ExpectedTagName,
    /// A quoted argument has no closing quote.
    UnterminatedQuote,
    /// A tag is not closed by `>`.
    ExpectedClosingBracket,
    /// A closing tag of a stacking tag finds only the default style.
    UnbalancedClosingTag,
}

impl SyntaxError {
    /// The message that describes the error.
    pub open spec fn spec_message(self) -> Seq<char> {
        match self {
            SyntaxError::ExpectedTagName => "Expected tag name"@,
            SyntaxError::UnterminatedQuote => "Unterminated quoted string"@,
            SyntaxError::ExpectedClosingBracket => "Expected '>'"@,
            SyntaxError::UnbalancedClosingTag => "Unbalanced closing tag"@,
        }
    }

    /// The message that describes the error.
    pub fn message(self) -> (r: &'static str)
        ensures
            r@ == self.spec_message(),
    {
        match self {
            SyntaxError::ExpectedTagName => "Expected tag name",
            SyntaxError::UnterminatedQuote => "Unterminated quoted string",
            SyntaxError::ExpectedClosingBracket => "Expected '>'",
            SyntaxError::UnbalancedClosingTag => "Unbalanced closing tag",
        }
    }
}

/// One lexical unit of markup.
pub ghost enum Token {
    /// A literal run.
    Text { text: Seq<char> },
    /// An opening tag: its name in lower case, its arguments, and whether it
    /// ends in `/>`.
    Open { name: Seq<char>, args: Seq<Seq<char>>, self_closing: bool },
    /// A closing tag: its name in lower case, and what is wrong with the
    /// rest of the tag, if anything is. The arguments of a closing tag are
    /// read and dropped.
    Close { name: Seq<char>, failure: Option<SyntaxError> },
}

/// The first position at or after `pos` that holds a character at which
/// `stop` is true, or the end of the input if there is none.
pub open spec fn scan(input: Seq<char>, pos: int, stop: spec_fn(char) -> bool) -> int
    decreases input.len() - pos,
{
    if 0 <= pos < input.len() && !stop(input[pos]) {
        scan(input, pos + 1, stop)
    } else {
        pos
    }
}

/// `scan` stays inside the input, passes only characters at which `stop` is
/// false, and ends at one at which it is true or at the end.
pub proof fn lemma_scan(input: Seq<char>, pos: int, stop: spec_fn(char) -> bool)
    requires
        0 <= pos <= input.len(),
    ensures
        pos <= scan(input, pos, stop) <= input.len(),
        forall|i: int| pos <= i < scan(input, pos, stop) ==> !stop(#[trigger] input[i]),
        scan(input, pos, stop) < input.len() ==> stop(input[scan(input, pos, stop)]),
    decreases input.len() - pos,
{
    if pos < input.len() && !stop(input[pos]) {
        lemma_scan(input, pos + 1, stop);
    }
}

/// A position that is reached over characters at which `stop` is false and
/// that holds one at which it is true, or is the end, is where `scan` ends.
pub proof fn lemma_scan_unique(input: Seq<char>, pos: int, stop: spec_fn(char) -> bool, end: int)
    requires
        0 <= pos <= end <= input.len(),
        forall|i: int| pos <= i < end ==> !stop(#[trigger] input[i]),
        end < input.len() ==> stop(input[end]),
    ensures
        scan(input, pos, stop) == end,
    decreases end - pos,
{
    if pos < end {
        lemma_scan_unique(input, pos + 1, stop, end);
    }
}

/// A literal run ends before `<`, and in legacy mode also before `&`.
pub open spec fn text_stop(legacy: bool) -> spec_fn(char) -> bool {
    |c: char| c == '<' || (legacy && c == '&')
}

/// A tag name ends before the first character that is not a name character.
pub open spec fn name_stop() -> spec_fn(char) -> bool {
    |c: char| !spec_is_name_char(c)
}

/// A run of separators ends before the first character that is neither `:`
/// nor white space.
pub open spec fn separator_stop() -> spec_fn(char) -> bool {
    |c: char| !(c == ':' || spec_is_whitespace(c))
}

/// An unquoted argument ends before `:`, `>`, `/` or white space.
pub open spec fn argument_stop() -> spec_fn(char) -> bool {
    |c: char| c == ':' || c == '>' || c == '/' || spec_is_whitespace(c)
}

/// Where the literal run that starts at `pos` ends. The character at `pos`
/// always belongs to the run.
pub open spec fn text_end(input: Seq<char>, legacy: bool, pos: int) -> int {
    scan(input, pos + 1, text_stop(legacy))
}

/// Where the tag name that starts at `pos` ends.
pub open spec fn name_end(input: Seq<char>, pos: int) -> int {
    scan(input, pos, name_stop())
}

/// Where the separators that start at `pos` end.
pub open spec fn separators_end(input: Seq<char>, pos: int) -> int {
    scan(input, pos, separator_stop())
}

/// Where the unquoted argument that starts at `pos` ends.
pub open spec fn unquoted_end(input: Seq<char>, pos: int) -> int {
    scan(input, pos, argument_stop())
}

/// The rest of a quoted argument, read from `pos` on: `acc` followed by the
/// characters up to the closing `quote`, where `\` makes the character after
/// it an ordinary one; and the position after the closing quote.
pub open spec fn quoted(input: Seq<char>, pos: int, quote: char, acc: Seq<char>) -> Result<
    (Seq<char>, int),
    SyntaxError,
>
    decreases input.len() - pos,
{
    if pos < 0 || pos >= input.len() {
        Err(SyntaxError::UnterminatedQuote)
    } else if input[pos] == '\\' {
        if pos + 1 < input.len() {
            quoted(input, pos + 2, quote, acc.push(input[pos + 1]))
        } else {
            Err(SyntaxError::UnterminatedQuote)
        }
    } else if input[pos] == quote {
        Ok((acc, pos + 1))
    } else {
        quoted(input, pos + 1, quote, acc.push(input[pos]))
    }
}

/// A quoted argument ends inside the input, after at least its closing
/// quote, and holds no more characters than were read.
pub proof fn lemma_quoted(input: Seq<char>, pos: int, quote: char, acc: Seq<char>)
    requires
        0 <= pos <= input.len(),
    ensures
        quoted(input, pos, quote, acc) matches Ok((arg, end)) ==> pos < end <= input.len()
            && acc.len() <= arg.len() && arg.len() - acc.len() < end - pos,
    decreases input.len() - pos,
{
    if pos < input.len() {
        if input[pos] == '\\' {
            if pos + 1 < input.len() {
                lemma_quoted(input, pos + 2, quote, acc.push(input[pos + 1]));
            }
        } else if input[pos] != quote {
            lemma_quoted(input, pos + 1, quote, acc.push(input[pos]));
        }
    }
}

/// Whether an argument that starts at `pos` is a quoted one.
pub open spec fn starts_quoted(input: Seq<char>, pos: int) -> bool {
    0 <= pos < input.len() && (input[pos] == '\'' || input[pos] == '"')
}

/// The argument that starts at `pos`, and where it ends. An unquoted
/// argument may be empty.
pub open spec fn argument(input: Seq<char>, pos: int) -> Result<(Seq<char>, int), SyntaxError> {
    if starts_quoted(input, pos) {
        quoted(input, pos + 1, input[pos], Seq::empty())
    } else {
        Ok((input.subrange(pos, unquoted_end(input, pos)), unquoted_end(input, pos)))
    }
}

/// An argument ends inside the input and holds no more characters than it
/// spans.
pub proof fn lemma_argument(input: Seq<char>, pos: int)
    requires
        0 <= pos <= input.len(),
    ensures
        argument(input, pos) matches Ok((arg, end)) ==> pos <= end <= input.len() && arg.len()
            <= end - pos,
        pos < input.len() && !argument_stop()(input[pos]) ==> (argument(input, pos) matches Ok(
            (_, end),
        ) ==> pos < end),
{
    if starts_quoted(input, pos) {
        lemma_quoted(input, pos + 1, input[pos], Seq::empty());
    } else {
        lemma_scan(input, pos, argument_stop());
    }
}

/// Whether the arguments of a tag end at `pos`: at `>` or at `/`.
pub open spec fn at_tag_end(input: Seq<char>, pos: int) -> bool {
    0 <= pos < input.len() && (input[pos] == '>' || input[pos] == '/')
}

/// The arguments of a tag, read from `pos` on: `acc` followed by each
/// argument up to the end of the tag or of the input, with the separators
/// before each one skipped; and the position where reading stopped.
pub open spec fn arguments(input: Seq<char>, pos: int, acc: Seq<Seq<char>>) -> Result<
    (Seq<Seq<char>>, int),
    SyntaxError,
>
    decreases input.len() - pos,
    via arguments_decreases
{
    if pos < 0 || pos >= input.len() {
        Ok((acc, pos))
    } else if at_tag_end(input, separators_end(input, pos)) {
        Ok((acc, separators_end(input, pos)))
    } else {
        match argument(input, separators_end(input, pos)) {
            Err(e) => Err(e),
            Ok((arg, end)) => arguments(input, end, acc.push(arg)),
        }
    }
}

#[via_fn]
proof fn arguments_decreases(input: Seq<char>, pos: int, acc: Seq<Seq<char>>) {
    if 0 <= pos < input.len() {
        lemma_argument_advances(input, pos);
    }
}

/// The argument after the separators at `pos` ends after `pos`.
pub proof fn lemma_argument_advances(input: Seq<char>, pos: int)
    requires
        0 <= pos < input.len(),
    ensures
        pos <= separators_end(input, pos) <= input.len(),
        !at_tag_end(input, separators_end(input, pos)) ==> (argument(
            input,
            separators_end(input, pos),
        ) matches Ok((arg, end)) ==> pos < end <= input.len() && arg.len() <= end - pos),
{
    let p = separators_end(input, pos);
    lemma_scan(input, pos, separator_stop());
    lemma_argument(input, p);
}

/// The arguments of a tag end inside the input, keep what was read before,
/// and none of the new ones holds more characters than were left to read.
pub proof fn lemma_arguments(input: Seq<char>, pos: int, acc: Seq<Seq<char>>)
    requires
        0 <= pos <= input.len(),
    ensures
        arguments(input, pos, acc) matches Ok((args, end)) ==> {
            &&& pos <= end <= input.len()
            &&& acc.len() <= args.len()
            &&& forall|i: int| 0 <= i < acc.len() ==> args[i] == acc[i]
            &&& forall|i: int| acc.len() <= i < args.len() ==> (#[trigger] args[i]).len()
                <= input.len() - pos
        },
    decreases input.len() - pos,
{
    if pos < input.len() {
        lemma_argument_advances(input, pos);
        let p = separators_end(input, pos);
        if !at_tag_end(input, p) {
            match argument(input, p) {
                Err(e) => {},
                Ok((arg, end)) => {
                    lemma_arguments(input, end, acc.push(arg));
                    match arguments(input, end, acc.push(arg)) {
                        Ok((args, last)) => {
                            assert(args[acc.len() as int] == acc.push(arg)[acc.len() as int]);
                            assert forall|i: int| 0 <= i < acc.len() implies args[i] == acc[i] by {
                                assert(args[i] == acc.push(arg)[i]);
                            }
                        },
                        Err(e) => {},
                    }
                },
            }
        }
    }
}

/// The rest of a tag after its name, read from `pos` on: its arguments,
/// whether `/` stands before the closing bracket, and the position after the
/// `>` that must end the tag.
pub open spec fn tag_tail(input: Seq<char>, pos: int) -> Result<
    (Seq<Seq<char>>, bool, int),
    SyntaxError,
> {
    match arguments(input, pos, Seq::empty()) {
        Err(e) => Err(e),
        Ok((args, stop)) => {
            let self_closing = stop < input.len() && input[stop] == '/';
            let close = if self_closing {
                stop + 1
            } else {
                stop
            };
            if close < input.len() && input[close] == '>' {
                Ok((args, self_closing, close + 1))
            } else {
                Err(SyntaxError::ExpectedClosingBracket)
            }
        },
    }
}

/// The rest of a tag ends after where it starts and inside the input, and
/// none of its arguments holds more characters than were left to read.
pub proof fn lemma_tag_tail(input: Seq<char>, pos: int)
    requires
        0 <= pos <= input.len(),
    ensures
        tag_tail(input, pos) matches Ok((args, self_closing, next)) ==> {
            &&& pos < next <= input.len()
            &&& forall|i: int|
                0 <= i < args.len() ==> (#[trigger] args[i]).len() <= input.len() - pos
        },
{
    lemma_arguments(input, pos, Seq::empty());
}

/// The token that starts at `pos`, and the position after it. A closing tag
/// has the form of an opening one: after its name come arguments, an
/// optional `/` and the `>`.
pub open spec fn next_token(input: Seq<char>, legacy: bool, pos: int) -> Result<
    (Token, int),
    SyntaxError,
> {
    if input[pos] != '<' {
        Ok(
            (
                Token::Text { text: input.subrange(pos, text_end(input, legacy, pos)) },
                text_end(input, legacy, pos),
            ),
        )
    } else if pos + 1 < input.len() && input[pos + 1] == '/' {
        let end = name_end(input, pos + 2);
        if end == pos + 2 {
            Err(SyntaxError::ExpectedTagName)
        } else {
            let name = lowercase(input.subrange(pos + 2, end));
            match tag_tail(input, end) {
                Ok((args, self_closing, next)) => Ok((Token::Close { name, failure: None }, next)),
                Err(e) => Ok((Token::Close { name, failure: Some(e) }, end)),
            }
        }
    } else {
        let end = name_end(input, pos + 1);
        if end == pos + 1 {
            Err(SyntaxError::ExpectedTagName)
        } else {
            match tag_tail(input, end) {
                Err(e) => Err(e),
                Ok((args, self_closing, next)) => Ok(
                    (
                        Token::Open {
                            name: lowercase(input.subrange(pos + 1, end)),
                            args,
                            self_closing,
                        },
                        next,
                    ),
                ),
            }
        }
    }
}

/// A token ends after where it starts and inside the input, and no argument
/// of a tag is as long as the input.
pub proof fn lemma_next_token(input: Seq<char>, legacy: bool, pos: int)
    requires
        0 <= pos < input.len(),
    ensures
        next_token(input, legacy, pos) matches Ok((token, next)) ==> {
            &&& pos < next <= input.len()
            &&& token matches Token::Open { args, .. } ==> forall|i: int|
                0 <= i < args.len() ==> (#[trigger] args[i]).len() < input.len()
        },
{
    if input[pos] != '<' {
        lemma_scan(input, pos + 1, text_stop(legacy));
    } else if pos + 1 < input.len() && input[pos + 1] == '/' {
        lemma_scan(input, pos + 2, name_stop());
        lemma_tag_tail(input, name_end(input, pos + 2));
    } else {
        lemma_scan(input, pos + 1, name_stop());
        lemma_tag_tail(input, name_end(input, pos + 1));
    }
}

} // verus!
