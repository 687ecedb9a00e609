//! What a piece of markup means: the component tree that it is parsed into,
//! or the error that it is rejected with.

use crate::component::ComponentView;
use crate::minimessage::lexer::{lemma_next_token, next_token, SyntaxError, Token};
use crate::minimessage::tags::{nested_markup, wrap, ParserState};
use vstd::prelude::*;

verus! {

/// The state after the markup from `pos` on has been read, token by token,
/// starting in `state`. The first error ends the parse.
pub open spec fn parse_from(input: Seq<char>, legacy: bool, pos: int, state: ParserState) -> Result<
    ParserState,
    SyntaxError,
>
    decreases input.len(), input.len() - pos,
    via parse_from_decreases
{
    if pos < 0 || pos >= input.len() {
        Ok(state)
    } else {
        match next_token(input, legacy, pos) {
            Err(e) => Err(e),
            Ok((token, next)) => {
                let nested = match nested_markup(token) {
                    Some(markup) => parse_markup(markup, legacy),
                    None => arbitrary(),
                };
                match state.apply(token, nested) {
                    Err(e) => Err(e),
                    Ok(after) => parse_from(input, legacy, next, after),
                }
            },
        }
    }
}

/// The component tree that a piece of markup stands for. Style frames that
/// are still open at the end are dropped.
pub open spec fn parse_markup(input: Seq<char>, legacy: bool) -> Result<ComponentView, SyntaxError>
    decreases input.len(), input.len() + 1,
{
    match parse_from(input, legacy, 0, ParserState::initial()) {
        Err(e) => Err(e),
        Ok(state) => Ok(wrap(state.parts)),
    }
}

#[via_fn]
proof fn parse_from_decreases(input: Seq<char>, legacy: bool, pos: int, state: ParserState) {
    if 0 <= pos < input.len() {
        lemma_next_token(input, legacy, pos);
    }
}

/// The result of parsing the markup nested in a token.
pub open spec fn nested_result(token: Token, legacy: bool) -> Result<ComponentView, SyntaxError> {
    match nested_markup(token) {
        Some(markup) => parse_markup(markup, legacy),
        None => arbitrary(),
    }
}

/// One step of a parse: the token at `pos` is read and applied to `state`.
/// The result is the position after the token and the state after it.
pub open spec fn step(input: Seq<char>, legacy: bool, pos: int, state: ParserState) -> Result<
    (int, ParserState),
    SyntaxError,
> {
    match next_token(input, legacy, pos) {
        Err(e) => Err(e),
        Ok((token, next)) => match state.apply(token, nested_result(token, legacy)) {
            Err(e) => Err(e),
            Ok(after) => Ok((next, after)),
        },
    }
}

/// A parse is its first step followed by the parse of the rest.
pub proof fn lemma_parse_from_step(input: Seq<char>, legacy: bool, pos: int, state: ParserState)
    requires
        0 <= pos < input.len(),
    ensures
        parse_from(input, legacy, pos, state) == match step(input, legacy, pos, state) {
            Err(e) => Err(e),
            Ok((next, after)) => parse_from(input, legacy, next, after),
        },
{
}

} // verus!
