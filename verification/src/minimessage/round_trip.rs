//! The round trip: a tree that the serializer can write in full is read
//! back, from the markup written for it, as a tree that shows the same text
//! in the same colours and decorations.
//!
//! Two things keep the round trip from holding of all markup, and the laws
//! here leave exactly these out. The serializer escapes `<`, `>` and `&`
//! and the parser does not undo it, so text must hold none of them. And the
//! serializer writes a `#RRGGBB` value that is the canonical value of a
//! named colour as the name: such a colour is read back as the named
//! colour, which [`lemma_round_trip_of_colors`] states.

use crate::color::{
    hex_color, lemma_name_round_trip, reveal_named_colors, ColorView, NamedColor,
};
use crate::builder::plain_text_all;
use crate::component::{ComponentObjectView, ComponentView, StyleView};
use crate::content::TextDecoration;
use crate::minimessage::grammar::{lemma_parse_from_step, parse_from, parse_markup};
use crate::minimessage::lexer::{
    argument, argument_stop, arguments, lemma_next_token, lemma_scan_unique, name_end, name_stop,
    next_token, separator_stop, tag_tail, text_end, text_stop, SyntaxError, Token,
};
use crate::minimessage::serializer::{
    closing_tag, closing_tags, color_changes, color_tag, decoration_changes, escape, opening_tag,
    opening_tags, serialize, serialize_all, style_changes,
};
use crate::minimessage::laws::lemma_text_in_default_style;
use crate::minimessage::tags::{decoration_tag, is_color_tag, nested_markup, ParserState};
use crate::text::{lowercase, spec_hex_value, spec_is_name_char, spec_to_ascii_lowercase};
use vstd::prelude::*;

verus! {

/// A state with `before` in front of its components.
pub open spec fn with_parts_before(state: ParserState, before: Seq<ComponentView>) -> ParserState {
    ParserState { stack: state.stack, parts: before + state.parts }
}

/// A token never reads the components emitted so far: it can only add one.
pub proof fn lemma_apply_keeps_parts(
    state: ParserState,
    before: Seq<ComponentView>,
    token: Token,
    nested: Result<ComponentView, SyntaxError>,
)
    ensures
        with_parts_before(state, before).apply(token, nested) == match state.apply(token, nested) {
            Ok(after) => Ok::<ParserState, SyntaxError>(with_parts_before(after, before)),
            Err(e) => Err(e),
        },
{
    let wide = with_parts_before(state, before);
    assert(wide.current() == state.current());
    assert forall|text: Seq<char>| #[trigger] wide.emit(text) == with_parts_before(state.emit(text), before) by {
        assert(wide.emit(text).parts =~= before + state.emit(text).parts);
    }
}

/// A parse never reads the components emitted before it started: they
/// stand unchanged in front of the ones that it emits.
pub proof fn lemma_parse_keeps_parts(
    input: Seq<char>,
    legacy: bool,
    pos: int,
    state: ParserState,
    before: Seq<ComponentView>,
)
    ensures
        parse_from(input, legacy, pos, with_parts_before(state, before)) == match parse_from(
            input,
            legacy,
            pos,
            state,
        ) {
            Ok(after) => Ok::<ParserState, SyntaxError>(with_parts_before(after, before)),
            Err(e) => Err(e),
        },
    decreases input.len() - pos,
{
    if 0 <= pos < input.len() {
        lemma_next_token(input, legacy, pos);
        match next_token(input, legacy, pos) {
            Err(e) => {},
            Ok((token, next)) => {
                let nested = match nested_markup(token) {
                    Some(markup) => parse_markup(markup, legacy),
                    None => arbitrary(),
                };
                lemma_apply_keeps_parts(state, before, token, nested);
                match state.apply(token, nested) {
                    Err(e) => {},
                    Ok(after) => {
                        lemma_parse_keeps_parts(input, legacy, next, after, before);
                    },
                }
            },
        }
    }
}

/// A name as the serializer writes one: not empty, and made of lower-case
/// letters, digits, `_` and `-` alone.
pub open spec fn is_simple_name(name: Seq<char>) -> bool {
    &&& name.len() > 0
    &&& forall|i: int|
        0 <= i < name.len() ==> spec_is_name_char(#[trigger] name[i]) && spec_to_ascii_lowercase(
            name[i],
        ) == name[i]
}

/// Whether `piece` stands in `input` at `pos`.
pub open spec fn stands_at(input: Seq<char>, pos: int, piece: Seq<char>) -> bool {
    0 <= pos && pos + piece.len() <= input.len() && input.subrange(pos, pos + piece.len()) == piece
}

/// The rest of a tag that ends right after its name.
proof fn lemma_tail_without_arguments(input: Seq<char>, end: int)
    requires
        0 <= end < input.len(),
        input[end] == '>',
    ensures
        tag_tail(input, end) == Ok::<(Seq<Seq<char>>, bool, int), SyntaxError>(
            (Seq::empty(), false, end + 1),
        ),
{
    lemma_scan_unique(input, end, separator_stop(), end);
    assert(arguments(input, end, Seq::empty()) == Ok::<(Seq<Seq<char>>, int), SyntaxError>(
        (Seq::empty(), end),
    ));
}

/// `<name>` with a simple name is read as an opening tag without arguments.
pub proof fn lemma_open_tag_token(input: Seq<char>, legacy: bool, pos: int, name: Seq<char>)
    requires
        is_simple_name(name),
        0 <= pos,
        pos + name.len() + 2 <= input.len(),
        input[pos] == '<',
        input.subrange(pos + 1, pos + 1 + name.len()) == name,
        input[pos + 1 + name.len()] == '>',
    ensures
        next_token(input, legacy, pos) == Ok::<(Token, int), SyntaxError>(
            (
                Token::Open { name, args: Seq::empty(), self_closing: false },
                pos + name.len() + 2,
            ),
        ),
{
    let end = pos + 1 + name.len();
    assert forall|i: int| pos + 1 <= i < end implies !name_stop()(#[trigger] input[i]) by {
        assert(input[i] == input.subrange(pos + 1, end)[i - pos - 1]);
    }
    lemma_scan_unique(input, pos + 1, name_stop(), end);
    assert(input[pos + 1] == name[0]) by {
        assert(input[pos + 1] == input.subrange(pos + 1, end)[0]);
    }
    assert(lowercase(name) =~= name);
    lemma_tail_without_arguments(input, end);
}

/// `</name>` with a simple name is read as a closing tag.
pub proof fn lemma_close_tag_token(input: Seq<char>, legacy: bool, pos: int, name: Seq<char>)
    requires
        is_simple_name(name),
        0 <= pos,
        pos + name.len() + 3 <= input.len(),
        input[pos] == '<',
        input[pos + 1] == '/',
        input.subrange(pos + 2, pos + 2 + name.len()) == name,
        input[pos + 2 + name.len()] == '>',
    ensures
        next_token(input, legacy, pos) == Ok::<(Token, int), SyntaxError>(
            (Token::Close { name, failure: None }, pos + name.len() + 3),
        ),
{
    let end = pos + 2 + name.len();
    assert forall|i: int| pos + 2 <= i < end implies !name_stop()(#[trigger] input[i]) by {
        assert(input[i] == input.subrange(pos + 2, end)[i - pos - 2]);
    }
    lemma_scan_unique(input, pos + 2, name_stop(), end);
    assert(lowercase(name) =~= name);
    lemma_tail_without_arguments(input, end);
}

/// The change that the serializer writes for a hexadecimal colour: `color:`
/// and the seven characters of a strict `#RRGGBB` value.
pub open spec fn is_hex_change(change: Seq<char>) -> bool {
    change.len() == 13 && change.subrange(0, 6) == "color:"@ && hex_color(change.subrange(6, 13))
        is Some
}

/// The colour value in the change of a hexadecimal colour.
pub open spec fn hex_of(change: Seq<char>) -> Seq<char> {
    change.subrange(6, 13)
}

/// What is known of the names in a colour tag: `color` is neither the name
/// of a colour nor `hover`, and no colour has a name of seven characters.
proof fn lemma_color_tag_names()
    ensures
        NamedColor::spec_from_name("color"@) is None,
        "color"@ != "hover"@,
        is_color_tag("color"@),
        forall|text: Seq<char>| text.len() == 7 ==> NamedColor::spec_from_name(text) is None,
{
    reveal_named_colors();
    reveal_strlit("color");
    reveal_strlit("hover");
    assert("color"@[0] == 'c');
    assert("hover"@[0] == 'h');
    assert("black"@[0] == 'b');
    assert("green"@[0] == 'g');
    assert("white"@[0] == 'w');
    assert("color"@.len() == 5);
}

/// `color:#RRGGBB`, where it stands in the input before a `>`, is read as
/// the name `color` and the one argument `#RRGGBB`.
proof fn lemma_hex_tag(input: Seq<char>, start: int, change: Seq<char>)
    requires
        is_hex_change(change),
        0 <= start,
        start + 13 < input.len(),
        input.subrange(start, start + 13) == change,
        input[start + 13] == '>',
    ensures
        name_end(input, start) == start + 5,
        lowercase(input.subrange(start, start + 5)) == "color"@,
        tag_tail(input, start + 5) == Ok::<(Seq<Seq<char>>, bool, int), SyntaxError>(
            (seq![hex_of(change)], false, start + 14),
        ),
{
    reveal_strlit("color:");
    reveal_strlit("color");
    let hex = hex_of(change);
    let prefix = change.subrange(0, 6);
    assert forall|i: int| 0 <= i < 13 implies input[start + i] == change[i] by {
        assert(input.subrange(start, start + 13)[i] == input[start + i]);
    }
    assert forall|i: int| 0 <= i < 6 implies change[i] == "color:"@[i] by {
        assert(prefix[i] == change[i]);
    }
    assert forall|i: int| 0 <= i < 7 implies change[6 + i] == hex[i] by {}
    assert(input[start] == 'c' && input[start + 1] == 'o' && input[start + 2] == 'l' && input[start
        + 3] == 'o' && input[start + 4] == 'r' && input[start + 5] == ':') by {
        assert(change[0] == "color:"@[0]);
        assert(change[1] == "color:"@[1]);
        assert(change[2] == "color:"@[2]);
        assert(change[3] == "color:"@[3]);
        assert(change[4] == "color:"@[4]);
        assert(change[5] == "color:"@[5]);
    }

    // The name.
    lemma_scan_unique(input, start, name_stop(), start + 5);
    assert(lowercase(input.subrange(start, start + 5)) =~= "color"@);

    // The separator and the argument.
    assert(hex[0] == '#');
    assert(input[start + 6] == '#') by {
        assert(change[6] == hex[0]);
    }
    lemma_scan_unique(input, start + 5, separator_stop(), start + 6);
    assert forall|i: int| start + 6 <= i < start + 13 implies !argument_stop()(
        #[trigger] input[i],
    ) by {
        assert(input[i] == hex[i - start - 6]) by {
            assert(change[6 + (i - start - 6)] == hex[i - start - 6]);
        }
        if i > start + 6 {
            assert(spec_hex_value(hex[i - start - 6]) is Some);
        }
    }
    lemma_scan_unique(input, start + 6, argument_stop(), start + 13);
    assert(input.subrange(start + 6, start + 13) =~= hex);
    assert(argument(input, start + 6) == Ok::<(Seq<char>, int), SyntaxError>((hex, start + 13)));

    // The end of the tag.
    lemma_scan_unique(input, start + 13, separator_stop(), start + 13);
    assert(Seq::<Seq<char>>::empty().push(hex) =~= seq![hex]);
    assert(arguments(input, start + 13, seq![hex]) == Ok::<(Seq<Seq<char>>, int), SyntaxError>(
        (seq![hex], start + 13),
    ));
    assert(arguments(input, start + 5, Seq::empty()) == Ok::<(Seq<Seq<char>>, int), SyntaxError>(
        (seq![hex], start + 13),
    ));
}

/// What the opening tag of a change does to the ambient style: it sets the
/// colour, or switches one decoration on.
pub open spec fn tag_effect(change: Seq<char>, style: StyleView) -> StyleView {
    if is_hex_change(change) {
        StyleView { color: Some(ColorView::Hex(hex_of(change))), ..style }
    } else if NamedColor::spec_from_name(change) is Some {
        StyleView { color: Some(ColorView::Named(NamedColor::spec_from_name(change)->0)), ..style }
    } else if decoration_tag(change) is Some {
        style.with_decoration(decoration_tag(change)->0, Some(true))
    } else {
        style
    }
}

/// A change that the serializer writes and the parser reads back: the name
/// of a colour or of a decoration, or `color:` and a strict `#RRGGBB` value.
pub open spec fn is_style_tag(change: Seq<char>) -> bool {
    ||| is_hex_change(change)
    ||| is_simple_name(change) && (NamedColor::spec_from_name(change) is Some || decoration_tag(
        change,
    ) is Some)
}

/// Reading the opening tag of a change pushes the frame that the change
/// makes of the ambient style.
pub proof fn lemma_open_style_tag(
    input: Seq<char>,
    legacy: bool,
    pos: int,
    name: Seq<char>,
    state: ParserState,
)
    requires
        is_style_tag(name),
        0 <= pos,
        pos + name.len() + 2 <= input.len(),
        input[pos] == '<',
        input.subrange(pos + 1, pos + 1 + name.len()) == name,
        input[pos + 1 + name.len()] == '>',
    ensures
        parse_from(input, legacy, pos, state) == parse_from(
            input,
            legacy,
            pos + name.len() + 2,
            state.push_style(tag_effect(name, state.current())),
        ),
{
    if is_hex_change(name) {
        let hex = hex_of(name);
        lemma_hex_tag(input, pos + 1, name);
        lemma_color_tag_names();
        assert(input[pos + 1] != '/') by {
            reveal_strlit("color:");
            assert(input[pos + 1] == input.subrange(pos + 1, pos + 14)[0]);
            assert(name[0] == name.subrange(0, 6)[0]);
            assert("color:"@[0] == 'c');
        }
        let token = Token::Open { name: "color"@, args: seq![hex], self_closing: false };
        assert(next_token(input, legacy, pos) == Ok::<(Token, int), SyntaxError>(
            (token, pos + 15),
        ));
        assert(nested_markup(token) is None);
        assert(hex.len() == 7);
        assert(ColorView::parse(hex) == Some(ColorView::Hex(hex)));
        lemma_parse_from_step(input, legacy, pos, state);
    } else {
        lemma_open_tag_token(input, legacy, pos, name);
        lemma_parse_from_step(input, legacy, pos, state);
    }
}

/// Reading the closing tag of a change pops the top frame, where there is
/// one above the default style.
pub proof fn lemma_close_style_tag(
    input: Seq<char>,
    legacy: bool,
    pos: int,
    name: Seq<char>,
    state: ParserState,
)
    requires
        is_style_tag(name),
        state.stack.len() > 1,
        0 <= pos,
        pos + name.len() + 3 <= input.len(),
        input[pos] == '<',
        input[pos + 1] == '/',
        input.subrange(pos + 2, pos + 2 + name.len()) == name,
        input[pos + 2 + name.len()] == '>',
    ensures
        parse_from(input, legacy, pos, state) == parse_from(
            input,
            legacy,
            pos + name.len() + 3,
            state.pop_style(),
        ),
{
    if is_hex_change(name) {
        lemma_hex_tag(input, pos + 2, name);
        assert(name_end(input, pos + 2) != pos + 2);
        assert(next_token(input, legacy, pos) == Ok::<(Token, int), SyntaxError>(
            (Token::Close { name: "color"@, failure: None }, pos + 16),
        ));
        lemma_parse_from_step(input, legacy, pos, state);
    } else {
        lemma_close_tag_token(input, legacy, pos, name);
        lemma_parse_from_step(input, legacy, pos, state);
    }
}

/// Text that is written as it stands: it holds none of `<`, `>` and `&`.
pub open spec fn is_markup_free(text: Seq<char>) -> bool {
    forall|i: int|
        0 <= i < text.len() ==> (#[trigger] text[i]) != '<' && text[i] != '>' && text[i] != '&'
}

/// Text that holds none of `<`, `>` and `&` is its own escaped form.
pub proof fn lemma_escape_markup_free(text: Seq<char>)
    requires
        is_markup_free(text),
    ensures
        escape(text) == text,
    decreases text.len(),
{
    if text.len() > 0 {
        assert(is_markup_free(text.drop_last())) by {
            assert forall|i: int| 0 <= i < text.drop_last().len() implies (
            #[trigger] text.drop_last()[i]) != '<' && text.drop_last()[i] != '>'
                && text.drop_last()[i] != '&' by {
                assert(text.drop_last()[i] == text[i]);
            }
        }
        lemma_escape_markup_free(text.drop_last());
        assert(text.last() == text[text.len() - 1]);
        assert(escape(text) =~= text);
    }
}

/// A run of text that ends at a `<` or at the end of the input is read as
/// one literal and emitted in the ambient style.
pub proof fn lemma_text_run(
    input: Seq<char>,
    legacy: bool,
    pos: int,
    text: Seq<char>,
    state: ParserState,
)
    requires
        text.len() > 0,
        is_markup_free(text),
        stands_at(input, pos, text),
        pos + text.len() == input.len() || input[pos + text.len()] == '<',
    ensures
        parse_from(input, legacy, pos, state) == parse_from(
            input,
            legacy,
            pos + text.len(),
            state.emit(text),
        ),
{
    let end = pos + text.len();
    assert forall|i: int| pos <= i < end implies !text_stop(legacy)(#[trigger] input[i]) by {
        assert(input[i] == input.subrange(pos, end)[i - pos]);
        assert(input[i] == text[i - pos]);
    }
    lemma_scan_unique(input, pos + 1, text_stop(legacy), end);
    assert(input[pos] != '<');
    lemma_parse_from_step(input, legacy, pos, state);
}

/// The state after the opening tags of `names` have been read, one frame
/// for each.
pub open spec fn pushed(state: ParserState, names: Seq<Seq<char>>) -> ParserState
    decreases names.len(),
{
    if names.len() == 0 {
        state
    } else {
        pushed(
            state.push_style(tag_effect(names[0], state.current())),
            names.drop_first(),
        )
    }
}

/// Pushing frames keeps the components, and keeps the frames below.
pub proof fn lemma_pushed_frame(state: ParserState, names: Seq<Seq<char>>)
    ensures
        pushed(state, names).parts == state.parts,
        pushed(state, names).stack.len() == state.stack.len() + names.len(),
        pushed(state, names).stack.take(state.stack.len() as int) == state.stack,
    decreases names.len(),
{
    if names.len() == 0 {
        assert(state.stack.take(state.stack.len() as int) =~= state.stack);
    } else {
        let next = state.push_style(tag_effect(names[0], state.current()));
        lemma_pushed_frame(next, names.drop_first());
        assert(pushed(state, names).stack.take(state.stack.len() as int) =~= pushed(
            next,
            names.drop_first(),
        ).stack.take(next.stack.len() as int).take(state.stack.len() as int));
        assert(next.stack.take(state.stack.len() as int) =~= state.stack);
    }
}

/// Frames pushed for two lists of names, one after the other, are the
/// frames pushed for the lists put together.
pub proof fn lemma_pushed_concat(state: ParserState, a: Seq<Seq<char>>, b: Seq<Seq<char>>)
    ensures
        pushed(state, a + b) == pushed(pushed(state, a), b),
    decreases a.len(),
{
    if a.len() == 0 {
        assert(a + b =~= b);
    } else {
        let next = state.push_style(tag_effect(a[0], state.current()));
        assert((a + b).drop_first() =~= a.drop_first() + b);
        assert((a + b)[0] == a[0]);
        lemma_pushed_concat(next, a.drop_first(), b);
    }
}

/// The opening tags of a list are the first one and then the others.
pub proof fn lemma_opening_tags_first(names: Seq<Seq<char>>)
    requires
        names.len() > 0,
    ensures
        opening_tags(names) == opening_tag(names[0]) + opening_tags(names.drop_first()),
    decreases names.len(),
{
    if names.len() == 1 {
        assert(names.drop_last() =~= Seq::empty());
        assert(names.drop_first() =~= Seq::empty());
        assert(opening_tags(names.drop_last()) =~= Seq::empty());
        assert(opening_tags(names.drop_first()) =~= Seq::empty());
        assert(names.last() == names[0]);
        assert(opening_tags(names) =~= opening_tag(names[0]));
        assert(opening_tag(names[0]) + opening_tags(names.drop_first()) =~= opening_tag(names[0]));
    } else {
        lemma_opening_tags_first(names.drop_last());
        assert(names.drop_last()[0] == names[0]);
        assert(names.drop_first().drop_last() =~= names.drop_last().drop_first());
        assert(names.drop_first().last() == names.last());
        assert(opening_tags(names) =~= opening_tag(names[0]) + opening_tags(names.drop_first()));
    }
}

/// The opening tags of two lists put together are the opening tags of the
/// one and then of the other.
pub proof fn lemma_opening_tags_concat(a: Seq<Seq<char>>, b: Seq<Seq<char>>)
    ensures
        opening_tags(a + b) == opening_tags(a) + opening_tags(b),
    decreases b.len(),
{
    if b.len() == 0 {
        assert(a + b =~= a);
        assert(opening_tags(a) + opening_tags(b) =~= opening_tags(a));
    } else {
        lemma_opening_tags_concat(a, b.drop_last());
        assert((a + b).drop_last() =~= a + b.drop_last());
        assert((a + b).last() == b.last());
        assert(opening_tags(a + b) =~= opening_tags(a) + opening_tags(b));
    }
}

/// The closing tags of two lists put together are the closing tags of the
/// second and then of the first.
pub proof fn lemma_closing_tags_concat(a: Seq<Seq<char>>, b: Seq<Seq<char>>)
    ensures
        closing_tags(a + b) == closing_tags(b) + closing_tags(a),
    decreases b.len(),
{
    if b.len() == 0 {
        assert(a + b =~= a);
        assert(closing_tags(b) + closing_tags(a) =~= closing_tags(a));
    } else {
        lemma_closing_tags_concat(a, b.drop_last());
        assert((a + b).drop_last() =~= a + b.drop_last());
        assert((a + b).last() == b.last());
        assert(closing_tags(a + b) =~= closing_tags(b) + closing_tags(a));
    }
}

/// Whether every name of a list is a style tag.
pub open spec fn are_style_tags(names: Seq<Seq<char>>) -> bool {
    forall|i: int| 0 <= i < names.len() ==> is_style_tag(#[trigger] names[i])
}

/// Reading the opening tags of style tags pushes one frame for each.
pub proof fn lemma_read_opening_tags(
    input: Seq<char>,
    legacy: bool,
    pos: int,
    names: Seq<Seq<char>>,
    state: ParserState,
)
    requires
        are_style_tags(names),
        stands_at(input, pos, opening_tags(names)),
    ensures
        parse_from(input, legacy, pos, state) == parse_from(
            input,
            legacy,
            pos + opening_tags(names).len(),
            pushed(state, names),
        ),
    decreases names.len(),
{
    if names.len() > 0 {
        let name = names[0];
        let rest = names.drop_first();
        let tag = opening_tag(name);
        lemma_opening_tags_first(names);
        let all = opening_tags(names);
        assert(is_style_tag(name));
        assert forall|i: int| 0 <= i < all.len() implies input[pos + i] == all[i] by {
            assert(input.subrange(pos, pos + all.len())[i] == input[pos + i]);
        }
        assert(input[pos] == all[0]);
        assert(input[pos + 1 + name.len()] == all[1 + name.len() as int]);
        assert(input.subrange(pos + 1, pos + 1 + name.len()) =~= name) by {
            assert forall|i: int| 0 <= i < name.len() implies input[pos + 1 + i] == name[i] by {
                assert(input[pos + 1 + i] == all[1 + i]);
            }
        }
        lemma_open_style_tag(input, legacy, pos, name, state);
        let next = state.push_style(tag_effect(name, state.current()));
        assert(input.subrange(pos + tag.len(), pos + tag.len() + opening_tags(rest).len())
            =~= opening_tags(rest)) by {
            assert forall|i: int| 0 <= i < opening_tags(rest).len() implies input[pos + tag.len()
                + i] == opening_tags(rest)[i] by {
                assert(input[pos + tag.len() + i] == all[tag.len() + i]);
            }
        }
        assert(are_style_tags(rest)) by {
            assert forall|i: int| 0 <= i < rest.len() implies is_style_tag(#[trigger] rest[i]) by {
                assert(rest[i] == names[i + 1]);
            }
        }
        lemma_read_opening_tags(input, legacy, pos + tag.len(), rest, next);
    }
}

/// Reading the closing tags of a list pops one frame for each, where the
/// stack holds that many above the default style.
pub proof fn lemma_read_closing_tags(
    input: Seq<char>,
    legacy: bool,
    pos: int,
    names: Seq<Seq<char>>,
    state: ParserState,
)
    requires
        are_style_tags(names),
        state.stack.len() > names.len(),
        stands_at(input, pos, closing_tags(names)),
    ensures
        parse_from(input, legacy, pos, state) == parse_from(
            input,
            legacy,
            pos + closing_tags(names).len(),
            ParserState {
                stack: state.stack.take(state.stack.len() - names.len()),
                parts: state.parts,
            },
        ),
    decreases names.len(),
{
    if names.len() == 0 {
        assert(state.stack.take(state.stack.len() as int) =~= state.stack);
    } else {
        let name = names.last();
        let rest = names.drop_last();
        let tag = closing_tag(name);
        let all = closing_tags(names);
        assert(is_style_tag(name));
        assert forall|i: int| 0 <= i < all.len() implies input[pos + i] == all[i] by {
            assert(input.subrange(pos, pos + all.len())[i] == input[pos + i]);
        }
        assert(input[pos] == all[0]);
        assert(input[pos + 1] == all[1]);
        assert(input[pos + 2 + name.len()] == all[2 + name.len() as int]);
        assert(input.subrange(pos + 2, pos + 2 + name.len()) =~= name) by {
            assert forall|i: int| 0 <= i < name.len() implies input[pos + 2 + i] == name[i] by {
                assert(input[pos + 2 + i] == all[2 + i]);
            }
        }
        lemma_close_style_tag(input, legacy, pos, name, state);
        let next = state.pop_style();
        assert(input.subrange(pos + tag.len(), pos + tag.len() + closing_tags(rest).len())
            =~= closing_tags(rest)) by {
            assert forall|i: int| 0 <= i < closing_tags(rest).len() implies input[pos + tag.len()
                + i] == closing_tags(rest)[i] by {
                assert(input[pos + tag.len() + i] == all[tag.len() + i]);
            }
        }
        assert(are_style_tags(rest)) by {
            assert forall|i: int| 0 <= i < rest.len() implies is_style_tag(#[trigger] rest[i]) by {
                assert(rest[i] == names[i]);
            }
        }
        lemma_read_closing_tags(input, legacy, pos + tag.len(), rest, next);
        assert(next.stack.take(next.stack.len() - rest.len()) =~= state.stack.take(
            state.stack.len() - names.len(),
        ));
    }
}

/// Makes the characters of the decoration names known to the solver.
pub proof fn reveal_decoration_names()
    ensures
        "bold"@ == seq!['b', 'o', 'l', 'd'],
        "b"@ == seq!['b'],
        "italic"@ == seq!['i', 't', 'a', 'l', 'i', 'c'],
        "i"@ == seq!['i'],
        "em"@ == seq!['e', 'm'],
        "underlined"@ == seq!['u', 'n', 'd', 'e', 'r', 'l', 'i', 'n', 'e', 'd'],
        "u"@ == seq!['u'],
        "strikethrough"@ == seq![
            's',
            't',
            'r',
            'i',
            'k',
            'e',
            't',
            'h',
            'r',
            'o',
            'u',
            'g',
            'h',
        ],
        "st"@ == seq!['s', 't'],
        "obfuscated"@ == seq!['o', 'b', 'f', 'u', 's', 'c', 'a', 't', 'e', 'd'],
        "obf"@ == seq!['o', 'b', 'f'],
{
    reveal_strlit("bold");
    reveal_strlit("b");
    reveal_strlit("italic");
    reveal_strlit("i");
    reveal_strlit("em");
    reveal_strlit("underlined");
    reveal_strlit("u");
    reveal_strlit("strikethrough");
    reveal_strlit("st");
    reveal_strlit("obfuscated");
    reveal_strlit("obf");
}

/// The name of a colour is a style tag, and its opening tag sets the colour.
pub proof fn lemma_color_is_style_tag(color: NamedColor)
    ensures
        is_style_tag(color.spec_name()),
        forall|style: StyleView| #[trigger]
            tag_effect(color.spec_name(), style) == (StyleView {
                color: Some(ColorView::Named(color)),
                ..style
            }),
{
    reveal_named_colors();
    lemma_name_round_trip(color);
}

/// `color:` and a strict `#RRGGBB` value is a style tag, and its opening
/// tag sets that colour.
pub proof fn lemma_hex_is_style_tag(hex: Seq<char>)
    requires
        hex_color(hex) is Some,
    ensures
        is_style_tag("color:"@ + hex),
        forall|style: StyleView| #[trigger]
            tag_effect("color:"@ + hex, style) == (StyleView {
                color: Some(ColorView::Hex(hex)),
                ..style
            }),
{
    reveal_strlit("color:");
    let change = "color:"@ + hex;
    assert(change.subrange(0, 6) =~= "color:"@);
    assert(change.subrange(6, 13) =~= hex);
}

/// The long name of a decoration.
pub open spec fn decoration_name(decoration: TextDecoration) -> Seq<char> {
    match decoration {
        TextDecoration::Bold => "bold"@,
        TextDecoration::Italic => "italic"@,
        TextDecoration::Underlined => "underlined"@,
        TextDecoration::Strikethrough => "strikethrough"@,
        TextDecoration::Obfuscated => "obfuscated"@,
    }
}

/// The long name of a decoration is a style tag, and its opening tag
/// switches the decoration on.
pub proof fn lemma_decoration_is_style_tag(decoration: TextDecoration)
    ensures
        is_style_tag(decoration_name(decoration)),
        forall|style: StyleView| #[trigger]
            tag_effect(decoration_name(decoration), style) == style.with_decoration(
                decoration,
                Some(true),
            ),
{
    reveal_named_colors();
    reveal_decoration_names();
    let name = decoration_name(decoration);
    assert(NamedColor::spec_from_name(name) is None);
    assert(decoration_tag(name) == Some(decoration));
}

/// A colour that is read back as it is written: a named colour, or a
/// strict `#RRGGBB` value that is not the canonical value of a named colour.
/// (The serializer writes such a canonical value as the name.)
pub open spec fn is_supported_color(color: ColorView) -> bool {
    match color {
        ColorView::Named(_) => true,
        ColorView::Hex(hex) => hex_color(hex) is Some && color.to_named() is None,
    }
}

/// A style that the serializer writes in full: its colour, where it has
/// one, is a supported one; no decoration is switched off; and nothing else
/// is set.
pub open spec fn is_supported_style(style: StyleView) -> bool {
    &&& style.color is Some ==> is_supported_color(style.color->0)
    &&& style.bold is Some ==> style.bold->0
    &&& style.italic is Some ==> style.italic->0
    &&& style.underlined is Some ==> style.underlined->0
    &&& style.strikethrough is Some ==> style.strikethrough->0
    &&& style.obfuscated is Some ==> style.obfuscated->0
    &&& style.font is None
    &&& style.shadow_color is None
    &&& style.insertion is None
    &&& style.click_event is None
    &&& style.hover_event is None
}

/// The state after one opening tag has been read.
pub proof fn lemma_pushed_one(state: ParserState, name: Seq<char>)
    ensures
        pushed(state, seq![name]) == state.push_style(tag_effect(name, state.current())),
{
    let names = seq![name];
    assert(names.drop_first() =~= Seq::empty());
    assert(pushed(state.push_style(tag_effect(name, state.current())), Seq::empty())
        == state.push_style(tag_effect(name, state.current())));
}

/// The tags that a node with a supported style needs on top of the default
/// style are style tags, and the frame that they end in is the node's own
/// style.
pub proof fn lemma_changes_make_the_style(node: ComponentObjectView, state: ParserState)
    requires
        is_supported_style(node.style()),
        state.stack.len() >= 1,
        state.current() == StyleView::empty(),
    ensures
        are_style_tags(style_changes(node, StyleView::empty())),
        pushed(state, style_changes(node, StyleView::empty())).current() == node.style(),
{
    let none = StyleView::empty();
    let a0 = color_changes(node.color, none.color);
    let a1 = decoration_changes(node.bold, none.bold, "bold"@);
    let a2 = decoration_changes(node.italic, none.italic, "italic"@);
    let a3 = decoration_changes(node.underlined, none.underlined, "underlined"@);
    let a4 = decoration_changes(node.strikethrough, none.strikethrough, "strikethrough"@);
    let a5 = decoration_changes(node.obfuscated, none.obfuscated, "obfuscated"@);
    let names = style_changes(node, none);
    assert(names == a0 + a1 + a2 + a3 + a4 + a5);
    match node.color {
        Some(ColorView::Named(named)) => {
            lemma_color_is_style_tag(named);
        },
        Some(ColorView::Hex(hex)) => {
            lemma_hex_is_style_tag(hex);
        },
        None => {},
    }
    lemma_decoration_is_style_tag(TextDecoration::Bold);
    lemma_decoration_is_style_tag(TextDecoration::Italic);
    lemma_decoration_is_style_tag(TextDecoration::Underlined);
    lemma_decoration_is_style_tag(TextDecoration::Strikethrough);
    lemma_decoration_is_style_tag(TextDecoration::Obfuscated);
    assert(are_style_tags(a0));
    assert(are_style_tags(a1));
    assert(are_style_tags(a2));
    assert(are_style_tags(a3));
    assert(are_style_tags(a4));
    assert(are_style_tags(a5));
    assert(are_style_tags(names));

    let s1 = pushed(state, a0);
    let s2 = pushed(s1, a1);
    let s3 = pushed(s2, a2);
    let s4 = pushed(s3, a3);
    let s5 = pushed(s4, a4);
    let s6 = pushed(s5, a5);
    lemma_pushed_concat(state, a0, a1);
    lemma_pushed_concat(state, a0 + a1, a2);
    lemma_pushed_concat(state, a0 + a1 + a2, a3);
    lemma_pushed_concat(state, a0 + a1 + a2 + a3, a4);
    lemma_pushed_concat(state, a0 + a1 + a2 + a3 + a4, a5);
    assert(pushed(state, names) == s6);

    let c0 = state.current();
    let c1 = StyleView { color: node.color, ..c0 };
    let c2 = StyleView { bold: node.bold, ..c1 };
    let c3 = StyleView { italic: node.italic, ..c2 };
    let c4 = StyleView { underlined: node.underlined, ..c3 };
    let c5 = StyleView { strikethrough: node.strikethrough, ..c4 };
    let c6 = StyleView { obfuscated: node.obfuscated, ..c5 };
    assert(s1.stack.len() >= 1 && s1.current() == c1) by {
        if node.color is Some {
            lemma_pushed_one(state, color_tag(node.color->0));
        }
    }
    assert(s2.stack.len() >= 1 && s2.current() == c2) by {
        if node.bold == Some(true) {
            lemma_pushed_one(s1, "bold"@);
            assert(decoration_name(TextDecoration::Bold) == "bold"@);
            assert(tag_effect(decoration_name(TextDecoration::Bold), s1.current())
                == s1.current().with_decoration(TextDecoration::Bold, Some(true)));
        }
    }
    assert(s3.stack.len() >= 1 && s3.current() == c3) by {
        if node.italic == Some(true) {
            lemma_pushed_one(s2, "italic"@);
            assert(decoration_name(TextDecoration::Italic) == "italic"@);
            assert(tag_effect(decoration_name(TextDecoration::Italic), s2.current())
                == s2.current().with_decoration(TextDecoration::Italic, Some(true)));
        }
    }
    assert(s4.stack.len() >= 1 && s4.current() == c4) by {
        if node.underlined == Some(true) {
            lemma_pushed_one(s3, "underlined"@);
            assert(decoration_name(TextDecoration::Underlined) == "underlined"@);
            assert(tag_effect(decoration_name(TextDecoration::Underlined), s3.current())
                == s3.current().with_decoration(TextDecoration::Underlined, Some(true)));
        }
    }
    assert(s5.stack.len() >= 1 && s5.current() == c5) by {
        if node.strikethrough == Some(true) {
            lemma_pushed_one(s4, "strikethrough"@);
            assert(decoration_name(TextDecoration::Strikethrough) == "strikethrough"@);
            assert(tag_effect(decoration_name(TextDecoration::Strikethrough), s4.current())
                == s4.current().with_decoration(TextDecoration::Strikethrough, Some(true)));
        }
    }
    assert(s6.stack.len() >= 1 && s6.current() == c6) by {
        if node.obfuscated == Some(true) {
            lemma_pushed_one(s5, "obfuscated"@);
            assert(decoration_name(TextDecoration::Obfuscated) == "obfuscated"@);
            assert(tag_effect(decoration_name(TextDecoration::Obfuscated), s5.current())
                == s5.current().with_decoration(TextDecoration::Obfuscated, Some(true)));
        }
    }
    assert(c6 == node.style());
}

/// A text node in a style, as the parser emits one.
pub open spec fn leaf(text: Seq<char>, style: StyleView) -> ComponentView {
    ComponentView::text(text).apply_fallback_style(style)
}

/// A node that the serializer writes in full and the parser reads back: a
/// text node whose text holds none of `<`, `>` and `&`, in a supported style,
/// with nothing else set.
pub open spec fn is_supported_leaf(c: ComponentView) -> bool {
    &&& c matches ComponentView::Object(node)
    &&& node.text is Some
    &&& is_markup_free(node.text->0)
    &&& is_supported_style(node.style())
    &&& c == leaf(node.text->0, node.style())
}

/// Whether every component of a list is a supported leaf.
pub open spec fn are_supported_leaves(cs: Seq<ComponentView>) -> bool {
    forall|i: int| 0 <= i < cs.len() ==> is_supported_leaf(#[trigger] cs[i])
}

/// A tree as the parser returns one for markup that holds only colour and
/// decoration tags: a supported leaf, or a list of them.
pub open spec fn is_supported_tree(c: ComponentView) -> bool {
    is_supported_leaf(c) || (c matches ComponentView::Array(cs) && are_supported_leaves(cs))
}

/// The leaves of a supported tree.
pub open spec fn leaves_of(c: ComponentView) -> Seq<ComponentView> {
    match c {
        ComponentView::Array(cs) => cs,
        _ => seq![c],
    }
}

/// Each character of a text with the style that it is shown in.
pub open spec fn styled_chars(text: Seq<char>, style: StyleView) -> Seq<(char, StyleView)> {
    Seq::new(text.len(), |i: int| (text[i], style))
}

/// What each component of a list shows, one after the other.
pub open spec fn shown_all(cs: Seq<ComponentView>, ambient: StyleView) -> Seq<(char, StyleView)>
    decreases cs,
{
    if cs.len() == 0 {
        Seq::empty()
    } else {
        shown_all(cs.drop_last(), ambient) + shown(cs.last(), ambient)
    }
}

/// What a component shows: each visible character, in order, with the
/// style that it is shown in. A node shows its text and its children in its
/// own style, with the attributes that it leaves unset taken from the
/// ambient style.
pub open spec fn shown(c: ComponentView, ambient: StyleView) -> Seq<(char, StyleView)>
    decreases c,
{
    match c {
        ComponentView::String(text) => styled_chars(text, ambient),
        ComponentView::Array(cs) => shown_all(cs, ambient),
        ComponentView::Object(node) => styled_chars(
            match node.text {
                Some(text) => text,
                None => Seq::empty(),
            },
            node.merge_style(ambient).style(),
        ) + match node.extra {
            Some(children) => shown_all(children, node.merge_style(ambient).style()),
            None => Seq::empty(),
        },
    }
}

/// The characters of what is shown, without their styles.
pub open spec fn shown_text(shown: Seq<(char, StyleView)>) -> Seq<char> {
    Seq::new(shown.len(), |i: int| shown[i].0)
}

/// The characters that a list shows are its visible text.
pub proof fn lemma_shown_all_is_plain_text(cs: Seq<ComponentView>, ambient: StyleView)
    ensures
        shown_text(shown_all(cs, ambient)) == plain_text_all(cs),
    decreases cs,
{
    if cs.len() > 0 {
        lemma_shown_all_is_plain_text(cs.drop_last(), ambient);
        lemma_shown_is_plain_text(cs.last(), ambient);
        assert(shown_text(shown_all(cs, ambient)) =~= shown_text(
            shown_all(cs.drop_last(), ambient),
        ) + shown_text(shown(cs.last(), ambient)));
    } else {
        assert(shown_text(shown_all(cs, ambient)) =~= Seq::empty());
    }
}

/// The characters that a component shows are its visible text, whatever
/// the ambient style.
pub proof fn lemma_shown_is_plain_text(c: ComponentView, ambient: StyleView)
    ensures
        shown_text(shown(c, ambient)) == c.to_plain_text(),
    decreases c,
{
    match c {
        ComponentView::String(text) => {
            assert(shown_text(shown(c, ambient)) =~= text);
        },
        ComponentView::Array(cs) => {
            lemma_shown_all_is_plain_text(cs, ambient);
        },
        ComponentView::Object(node) => {
            let style = node.merge_style(ambient).style();
            let text = match node.text {
                Some(text) => text,
                None => Seq::empty(),
            };
            let below = match node.extra {
                Some(children) => shown_all(children, style),
                None => Seq::empty(),
            };
            match node.extra {
                Some(children) => {
                    lemma_shown_all_is_plain_text(children, style);
                },
                None => {
                    assert(shown_text(below) =~= Seq::empty());
                },
            }
            assert(shown_text(styled_chars(text, style)) =~= text);
            assert(shown_text(shown(c, ambient)) =~= shown_text(styled_chars(text, style))
                + shown_text(below));
        },
    }
}

/// What two lists show, one after the other, is what the lists put together
/// show.
pub proof fn lemma_shown_all_concat(a: Seq<ComponentView>, b: Seq<ComponentView>, ambient: StyleView)
    ensures
        shown_all(a + b, ambient) == shown_all(a, ambient) + shown_all(b, ambient),
    decreases b.len(),
{
    if b.len() == 0 {
        assert(a + b =~= a);
        assert(shown_all(a, ambient) + shown_all(b, ambient) =~= shown_all(a, ambient));
    } else {
        lemma_shown_all_concat(a, b.drop_last(), ambient);
        assert((a + b).drop_last() =~= a + b.drop_last());
        assert((a + b).last() == b.last());
        assert(shown_all(a + b, ambient) =~= shown_all(a, ambient) + shown_all(b, ambient));
    }
}

/// A list of one component shows what the component shows.
pub proof fn lemma_shown_all_one(c: ComponentView, ambient: StyleView)
    ensures
        shown_all(seq![c], ambient) == shown(c, ambient),
{
    let one = seq![c];
    assert(one.drop_last() =~= Seq::empty());
    assert(shown_all(one.drop_last(), ambient) =~= Seq::empty());
    assert(shown_all(one, ambient) =~= shown(c, ambient));
}

/// A leaf shows its text in its style.
pub proof fn lemma_shown_leaf(text: Seq<char>, style: StyleView)
    ensures
        shown(leaf(text, style), StyleView::empty()) == styled_chars(text, style),
{
    let c = leaf(text, style);
    let node = c->Object_0;
    assert(node.merge_style(StyleView::empty()).style() == style);
    assert(shown(c, StyleView::empty()) =~= styled_chars(text, style));
}

/// The markup of a list is the markup of its first component and then of
/// the others.
pub proof fn lemma_serialize_all_first(cs: Seq<ComponentView>, ambient: StyleView)
    requires
        cs.len() > 0,
    ensures
        serialize_all(cs, ambient) == serialize(cs[0], ambient) + serialize_all(
            cs.drop_first(),
            ambient,
        ),
    decreases cs.len(),
{
    if cs.len() == 1 {
        assert(cs.drop_last() =~= Seq::empty());
        assert(cs.drop_first() =~= Seq::empty());
        assert(serialize_all(cs.drop_last(), ambient) =~= Seq::empty());
        assert(serialize_all(cs.drop_first(), ambient) =~= Seq::empty());
        assert(cs.last() == cs[0]);
        assert(serialize_all(cs, ambient) =~= serialize(cs[0], ambient));
        assert(serialize(cs[0], ambient) + serialize_all(cs.drop_first(), ambient) =~= serialize(
            cs[0],
            ambient,
        ));
    } else {
        lemma_serialize_all_first(cs.drop_last(), ambient);
        assert(cs.drop_last()[0] == cs[0]);
        assert(cs.drop_first().drop_last() =~= cs.drop_last().drop_first());
        assert(cs.drop_first().last() == cs.last());
        assert(serialize_all(cs, ambient) =~= serialize(cs[0], ambient) + serialize_all(
            cs.drop_first(),
            ambient,
        ));
    }
}

/// The markup of a supported leaf: the opening tags of its style, its text
/// as it stands, and the closing tags.
pub proof fn lemma_serialize_leaf(c: ComponentView)
    requires
        is_supported_leaf(c),
    ensures
        serialize(c, StyleView::empty()) == opening_tags(
            style_changes(*c->Object_0, StyleView::empty()),
        ) + c->Object_0.text->0 + closing_tags(style_changes(*c->Object_0, StyleView::empty())),
{
    let node = *c->Object_0;
    let text = node.text->0;
    lemma_escape_markup_free(text);
    assert(node.extra is None);
    let names = style_changes(node, StyleView::empty());
    assert(serialize(c, StyleView::empty()) =~= opening_tags(names) + text + closing_tags(names));
}

/// The markup of a supported leaf with at least one tag is read back as
/// the leaf: its opening tags push its style, its text is emitted in it,
/// and its closing tags pop the frames again. A leaf without text emits
/// nothing.
pub proof fn lemma_reparse_tagged_leaf(
    input: Seq<char>,
    legacy: bool,
    pos: int,
    c: ComponentView,
    state: ParserState,
)
    requires
        is_supported_leaf(c),
        style_changes(*c->Object_0, StyleView::empty()).len() > 0,
        stands_at(input, pos, serialize(c, StyleView::empty())),
        state.stack == seq![StyleView::empty()],
    ensures
        parse_from(input, legacy, pos, state) == parse_from(
            input,
            legacy,
            pos + serialize(c, StyleView::empty()).len(),
            ParserState {
                stack: state.stack,
                parts: if c->Object_0.text->0.len() > 0 {
                    state.parts.push(c)
                } else {
                    state.parts
                },
            },
        ),
{
    let node = *c->Object_0;
    let text = node.text->0;
    let names = style_changes(node, StyleView::empty());
    let opening = opening_tags(names);
    let closing = closing_tags(names);
    let all = serialize(c, StyleView::empty());
    lemma_serialize_leaf(c);
    assert(all == opening + text + closing);
    assert forall|i: int| 0 <= i < all.len() implies input[pos + i] == all[i] by {
        assert(input.subrange(pos, pos + all.len())[i] == input[pos + i]);
    }
    assert(state.current() == StyleView::empty());
    lemma_changes_make_the_style(node, state);

    // The opening tags.
    assert(input.subrange(pos, pos + opening.len()) =~= opening) by {
        assert forall|i: int| 0 <= i < opening.len() implies input[pos + i] == opening[i] by {
            assert(all[i] == opening[i]);
        }
    }
    lemma_read_opening_tags(input, legacy, pos, names, state);
    let opened = pushed(state, names);
    lemma_pushed_frame(state, names);
    assert(opened.current() == node.style());

    // The text.
    let text_at = pos + opening.len();
    let close_at = text_at + text.len();
    assert(closing.len() >= 3 && closing[0] == '<') by {
        let tag = closing_tag(names.last());
        assert(closing =~= tag + closing_tags(names.drop_last()));
        assert(tag[0] == '<');
    }
    assert(input[close_at] == '<') by {
        assert(all[(opening.len() + text.len()) as int] == closing[0]);
    }
    let written = if text.len() > 0 {
        opened.emit(text)
    } else {
        opened
    };
    if text.len() > 0 {
        assert(input.subrange(text_at, close_at) =~= text) by {
            assert forall|i: int| 0 <= i < text.len() implies input[text_at + i] == text[i] by {
                assert(all[opening.len() + i] == text[i]);
            }
        }
        lemma_text_run(input, legacy, text_at, text, opened);
        assert(written.parts == state.parts.push(c));
    }
    assert(written.stack == opened.stack);

    // The closing tags.
    assert(input.subrange(close_at, close_at + closing.len()) =~= closing) by {
        assert forall|i: int| 0 <= i < closing.len() implies input[close_at + i] == closing[i] by {
            assert(all[opening.len() + text.len() + i] == closing[i]);
        }
    }
    lemma_read_closing_tags(input, legacy, close_at, names, written);
    assert(written.stack.take(written.stack.len() - names.len()) =~= state.stack);
}

/// What a parse of `input` from `pos` on gives if it reads the markup of
/// `leaves` back: it succeeds, ends with the default style alone on the
/// stack, and has emitted supported leaves that show what `leaves` show.
pub open spec fn reads_back(
    input: Seq<char>,
    legacy: bool,
    pos: int,
    leaves: Seq<ComponentView>,
) -> bool {
    &&& parse_from(input, legacy, pos, ParserState::initial()) matches Ok(after)
    &&& after.stack == seq![StyleView::empty()]
    &&& are_supported_leaves(after.parts)
    &&& shown_all(after.parts, StyleView::empty()) == shown_all(leaves, StyleView::empty())
}

/// A parse that starts with components already emitted reads the markup of
/// `leaves` back behind them.
proof fn lemma_reads_back_behind(
    input: Seq<char>,
    legacy: bool,
    pos: int,
    leaves: Seq<ComponentView>,
    before: Seq<ComponentView>,
)
    requires
        reads_back(input, legacy, pos, leaves),
        are_supported_leaves(before),
    ensures
        parse_from(
            input,
            legacy,
            pos,
            ParserState { stack: seq![StyleView::empty()], parts: before },
        ) matches Ok(after) && after.stack == seq![StyleView::empty()] && are_supported_leaves(
            after.parts,
        ) && shown_all(after.parts, StyleView::empty()) == shown_all(before, StyleView::empty())
            + shown_all(leaves, StyleView::empty()),
{
    let start = ParserState::initial();
    let wide = ParserState { stack: seq![StyleView::empty()], parts: before };
    assert(with_parts_before(start, before) == wide) by {
        assert(before + start.parts =~= before);
    }
    lemma_parse_keeps_parts(input, legacy, pos, start, before);
    let inner = parse_from(input, legacy, pos, start)->Ok_0;
    let after = with_parts_before(inner, before);
    lemma_shown_all_concat(before, inner.parts, StyleView::empty());
    assert forall|i: int| 0 <= i < after.parts.len() implies is_supported_leaf(
        #[trigger] after.parts[i],
    ) by {
        if i < before.len() {
            assert(after.parts[i] == before[i]);
        } else {
            assert(after.parts[i] == inner.parts[i - before.len()]);
        }
    }
}

/// The markup of a list of supported leaves is read back as leaves that
/// show the same.
pub proof fn lemma_reparse_leaves(
    input: Seq<char>,
    legacy: bool,
    pos: int,
    leaves: Seq<ComponentView>,
)
    requires
        0 <= pos <= input.len(),
        are_supported_leaves(leaves),
        input.subrange(pos, input.len() as int) == serialize_all(leaves, StyleView::empty()),
    ensures
        reads_back(input, legacy, pos, leaves),
    decreases leaves.len(),
{
    let none = StyleView::empty();
    let start = ParserState::initial();
    let len = input.len() as int;
    assert(start.stack.last() == none);
    if leaves.len() == 0 {
        assert(input.subrange(pos, len).len() == 0);
        assert(pos == len);
    } else {
        let first = leaves[0];
        let rest = leaves.drop_first();
        let node = *first->Object_0;
        let text = node.text->0;
        let written = serialize(first, none);
        let next = pos + written.len();
        assert(is_supported_leaf(first));
        lemma_serialize_all_first(leaves, none);
        lemma_serialize_leaf(first);
        let tail = input.subrange(pos, len);
        assert(tail == written + serialize_all(rest, none));
        assert forall|i: int| 0 <= i < tail.len() implies input[pos + i] == tail[i] by {}
        assert(are_supported_leaves(rest)) by {
            assert forall|i: int| 0 <= i < rest.len() implies is_supported_leaf(
                #[trigger] rest[i],
            ) by {
                assert(rest[i] == leaves[i + 1]);
            }
        }
        assert(input.subrange(next, len) =~= serialize_all(rest, none)) by {
            assert forall|i: int| 0 <= i < len - next implies input[next + i] == serialize_all(
                rest,
                none,
            )[i] by {
                assert(tail[written.len() + i] == serialize_all(rest, none)[i]);
            }
        }
        lemma_reparse_leaves(input, legacy, next, rest);
        assert(input.subrange(pos, next) =~= written) by {
            assert forall|i: int| 0 <= i < written.len() implies input[pos + i] == written[i] by {
                assert(tail[i] == written[i]);
            }
        }
        lemma_shown_all_concat(seq![first], rest, none);
        lemma_shown_all_one(first, none);
        assert(seq![first] + rest =~= leaves);
        lemma_shown_leaf(text, node.style());
        let names = style_changes(node, none);
        if names.len() > 0 {
            lemma_reparse_tagged_leaf(input, legacy, pos, first, start);
            let before = if text.len() > 0 {
                seq![first]
            } else {
                Seq::empty()
            };
            assert(start.parts.push(first) =~= seq![first]);
            assert(are_supported_leaves(before));
            lemma_reads_back_behind(input, legacy, next, rest, before);
            if text.len() == 0 {
                assert(styled_chars(text, node.style()) =~= Seq::empty());
                assert(shown_all(before, none) =~= Seq::empty());
            }
        } else {
            // No tag: the leaf is its text alone, in the default style.
            lemma_changes_make_the_style(node, start);
            assert(node.style() == none);
            assert(opening_tags(names) =~= Seq::empty());
            assert(closing_tags(names) =~= Seq::empty());
            assert(written =~= text);
            lemma_text_in_default_style(text);
            assert(first == ComponentView::text(text));
            if text.len() == 0 {
                assert(styled_chars(text, none) =~= Seq::empty());
            } else if next == len || input[next] == '<' {
                lemma_text_run(input, legacy, pos, text, start);
                assert(start.emit(text).parts =~= seq![first]);
                lemma_reads_back_behind(input, legacy, next, rest, seq![first]);
            } else {
                // The run goes on into the markup of the leaves behind.
                lemma_reparse_joined_text(input, legacy, pos, text, rest);
            }
        }
    }
}

/// A text in the default style that is followed by more text is read
/// together with it, as one leaf that shows both.
proof fn lemma_reparse_joined_text(
    input: Seq<char>,
    legacy: bool,
    pos: int,
    text: Seq<char>,
    rest: Seq<ComponentView>,
)
    requires
        text.len() > 0,
        is_markup_free(text),
        stands_at(input, pos, text),
        pos + text.len() < input.len(),
        input[pos + text.len()] != '<',
        reads_back(input, legacy, pos + text.len(), rest),
    ensures
        parse_from(input, legacy, pos, ParserState::initial()) matches Ok(after) && after.stack
            == seq![StyleView::empty()] && are_supported_leaves(after.parts) && shown_all(
            after.parts,
            StyleView::empty(),
        ) == styled_chars(text, StyleView::empty()) + shown_all(rest, StyleView::empty()),
{
    let none = StyleView::empty();
    let start = ParserState::initial();
    let next = pos + text.len();
    let end = text_end(input, legacy, next);
    let more = input.subrange(next, end);
    assert(start.stack.last() == none);
    crate::minimessage::lexer::lemma_scan(input, next + 1, text_stop(legacy));

    // The parse from `next` reads `more` first.
    lemma_parse_from_step(input, legacy, next, start);
    lemma_text_in_default_style(more);
    assert(start.emit(more) == with_parts_before(start, seq![ComponentView::text(more)])) by {
        assert(start.emit(more).parts =~= seq![ComponentView::text(more)] + start.parts);
    }
    lemma_parse_keeps_parts(input, legacy, end, start, seq![ComponentView::text(more)]);
    let behind = parse_from(input, legacy, end, start)->Ok_0;
    let read = parse_from(input, legacy, next, start)->Ok_0;
    assert(read == with_parts_before(behind, seq![ComponentView::text(more)]));
    assert(read.parts[0] == ComponentView::text(more));
    assert(is_supported_leaf(read.parts[0]));
    assert(is_markup_free(more));
    assert(more[0] == input[next]);

    // The parse from `pos` reads `text` and `more` as one run.
    let both = text + more;
    assert forall|i: int| pos + 1 <= i < end implies !text_stop(legacy)(#[trigger] input[i]) by {
        if i < next {
            assert(input[i] == input.subrange(pos, next)[i - pos]);
            assert(input[i] == text[i - pos]);
        } else if i == next {
            assert(input[i] == more[0]);
        }
    }
    lemma_scan_unique(input, pos + 1, text_stop(legacy), end);
    assert(input[pos] == text[0]) by {
        assert(input[pos] == input.subrange(pos, next)[0]);
    }
    assert(input.subrange(pos, end) =~= both) by {
        assert forall|i: int| 0 <= i < both.len() implies input[pos + i] == both[i] by {
            if i < text.len() {
                assert(input[pos + i] == input.subrange(pos, next)[i]);
            } else {
                assert(input[pos + i] == more[i - text.len()]);
            }
        }
    }
    lemma_parse_from_step(input, legacy, pos, start);
    lemma_text_in_default_style(both);
    assert(start.emit(both) == with_parts_before(start, seq![ComponentView::text(both)])) by {
        assert(start.emit(both).parts =~= seq![ComponentView::text(both)] + start.parts);
    }
    lemma_parse_keeps_parts(input, legacy, end, start, seq![ComponentView::text(both)]);
    let after = with_parts_before(behind, seq![ComponentView::text(both)]);
    assert(parse_from(input, legacy, pos, start) == Ok::<ParserState, SyntaxError>(after));

    // Both results show the same.
    assert(is_markup_free(both)) by {
        assert forall|i: int| 0 <= i < both.len() implies (#[trigger] both[i]) != '<' && both[i]
            != '>' && both[i] != '&' by {
            if i < text.len() {
                assert(both[i] == text[i]);
            } else {
                assert(both[i] == more[i - text.len()]);
            }
        }
    }
    assert(is_supported_leaf(ComponentView::text(both)));
    assert forall|i: int| 0 <= i < after.parts.len() implies is_supported_leaf(
        #[trigger] after.parts[i],
    ) by {
        if i > 0 {
            assert(after.parts[i] == behind.parts[i - 1]);
            assert(read.parts[i] == behind.parts[i - 1]);
        }
    }
    lemma_shown_all_concat(seq![ComponentView::text(both)], behind.parts, none);
    lemma_shown_all_concat(seq![ComponentView::text(more)], behind.parts, none);
    lemma_shown_all_one(ComponentView::text(both), none);
    lemma_shown_all_one(ComponentView::text(more), none);
    lemma_shown_leaf(both, none);
    lemma_shown_leaf(more, none);
    assert(styled_chars(both, none) =~= styled_chars(text, none) + styled_chars(more, none));
    assert(shown_all(after.parts, none) =~= styled_chars(text, none) + shown_all(read.parts, none));
}

/// The round trip. The markup that the serializer writes for a supported
/// tree is accepted by the parser, in either mode, and gives a supported
/// tree with the same visible text, shown in the same colours and
/// decorations character by character. How
/// the text is split into leaves may differ: a leaf without text is not
/// read back, and neighbours in the default style are read as one.
pub proof fn lemma_round_trip(tree: ComponentView, legacy: bool)
    requires
        is_supported_tree(tree),
    ensures
        parse_markup(serialize(tree, StyleView::empty()), legacy) matches Ok(again)
            && is_supported_tree(again) && shown(again, StyleView::empty()) == shown(
            tree,
            StyleView::empty(),
        ) && again.to_plain_text() == tree.to_plain_text(),
{
    let none = StyleView::empty();
    let leaves = leaves_of(tree);
    lemma_shown_is_plain_text(tree, none);
    lemma_shown_is_plain_text(parse_markup(serialize(tree, none), legacy)->Ok_0, none);
    let markup = serialize(tree, none);
    if tree is Array {
        assert(markup == serialize_all(leaves, none));
    } else {
        lemma_serialize_all_first(leaves, none);
        assert(leaves.drop_first() =~= Seq::empty());
        assert(serialize_all(leaves.drop_first(), none) =~= Seq::empty());
        assert(markup =~= serialize_all(leaves, none));
        lemma_shown_all_one(tree, none);
    }
    assert(markup.subrange(0, markup.len() as int) =~= markup);
    lemma_reparse_leaves(markup, legacy, 0, leaves);
    let after = parse_from(markup, legacy, 0, ParserState::initial())->Ok_0;
    if after.parts.len() == 1 {
        lemma_shown_all_one(after.parts[0], none);
        assert(after.parts =~= seq![after.parts[0]]);
    }
}

/// The colour as the serializer writes it: the named colour where the
/// colour is one or has the canonical value of one, else the colour itself.
pub open spec fn canonical_color(color: ColorView) -> ColorView {
    match color.to_named() {
        Some(named) => ColorView::Named(named),
        None => color,
    }
}

/// The style with its colour as the serializer writes it.
pub open spec fn canonical_style(style: StyleView) -> StyleView {
    StyleView {
        color: match style.color {
            Some(color) => Some(canonical_color(color)),
            None => None,
        },
        ..style
    }
}

/// What is shown, with every colour as the serializer writes it.
pub open spec fn canonical_shown(shown: Seq<(char, StyleView)>) -> Seq<(char, StyleView)> {
    Seq::new(shown.len(), |i: int| (shown[i].0, canonical_style(shown[i].1)))
}

/// A colour that the parser reads from markup: a named colour, or a strict
/// `#RRGGBB` value.
pub open spec fn is_writable_color(color: ColorView) -> bool {
    match color {
        ColorView::Named(_) => true,
        ColorView::Hex(hex) => hex_color(hex) is Some,
    }
}

/// A style as colour and decoration tags make one: its colour, where it
/// has one, is a named one or a strict `#RRGGBB` value; no decoration is
/// switched off; and nothing else is set.
pub open spec fn is_writable_style(style: StyleView) -> bool {
    &&& style.color is Some ==> is_writable_color(style.color->0)
    &&& style.bold is Some ==> style.bold->0
    &&& style.italic is Some ==> style.italic->0
    &&& style.underlined is Some ==> style.underlined->0
    &&& style.strikethrough is Some ==> style.strikethrough->0
    &&& style.obfuscated is Some ==> style.obfuscated->0
    &&& style.font is None
    &&& style.shadow_color is None
    &&& style.insertion is None
    &&& style.click_event is None
    &&& style.hover_event is None
}

/// A text node in a writable style, whose text holds none of `<`, `>` and
/// `&`, with nothing else set.
pub open spec fn is_writable_leaf(c: ComponentView) -> bool {
    &&& c matches ComponentView::Object(node)
    &&& node.text is Some
    &&& is_markup_free(node.text->0)
    &&& is_writable_style(node.style())
    &&& c == leaf(node.text->0, node.style())
}

/// Whether every component of a list is a writable leaf.
pub open spec fn are_writable_leaves(cs: Seq<ComponentView>) -> bool {
    forall|i: int| 0 <= i < cs.len() ==> is_writable_leaf(#[trigger] cs[i])
}

/// A tree as the parser returns one for markup that holds only colour and
/// decoration tags: a writable leaf, or a list of them.
pub open spec fn is_writable_tree(c: ComponentView) -> bool {
    is_writable_leaf(c) || (c matches ComponentView::Array(cs) && are_writable_leaves(cs))
}

/// A leaf with its colour as the serializer writes it.
pub open spec fn canonical_leaf(c: ComponentView) -> ComponentView {
    leaf(c->Object_0.text->0, canonical_style(c->Object_0.style()))
}

/// Each leaf of a list with its colour as the serializer writes it.
pub open spec fn canonical_leaves(cs: Seq<ComponentView>) -> Seq<ComponentView> {
    Seq::new(cs.len(), |i: int| canonical_leaf(cs[i]))
}

/// A tree of leaves with every colour as the serializer writes it.
pub open spec fn canonical_tree(c: ComponentView) -> ComponentView {
    match c {
        ComponentView::Array(cs) => ComponentView::Array(canonical_leaves(cs)),
        _ => canonical_leaf(c),
    }
}

/// A writable leaf and the leaf with its canonical colour are written as
/// the same markup; the second is a supported leaf, and shows what the first
/// shows with its colour made canonical.
pub proof fn lemma_canonical_leaf(c: ComponentView)
    requires
        is_writable_leaf(c),
    ensures
        is_supported_leaf(canonical_leaf(c)),
        serialize(canonical_leaf(c), StyleView::empty()) == serialize(c, StyleView::empty()),
        shown(canonical_leaf(c), StyleView::empty()) == canonical_shown(
            shown(c, StyleView::empty()),
        ),
{
    let none = StyleView::empty();
    let node = *c->Object_0;
    let text = node.text->0;
    let style = node.style();
    let made = canonical_leaf(c);
    let made_node = *made->Object_0;
    assert(made_node.text == Some(text));
    assert(made_node.style() == canonical_style(style));
    assert(style_changes(made_node, none) == style_changes(node, none));
    assert(node.extra is None && made_node.extra is None);
    lemma_shown_leaf(text, style);
    lemma_shown_leaf(text, canonical_style(style));
    assert(styled_chars(text, canonical_style(style)) =~= canonical_shown(
        styled_chars(text, style),
    ));
}

/// The same for a list of writable leaves.
pub proof fn lemma_canonical_leaves(cs: Seq<ComponentView>)
    requires
        are_writable_leaves(cs),
    ensures
        are_supported_leaves(canonical_leaves(cs)),
        serialize_all(canonical_leaves(cs), StyleView::empty()) == serialize_all(
            cs,
            StyleView::empty(),
        ),
        shown_all(canonical_leaves(cs), StyleView::empty()) == canonical_shown(
            shown_all(cs, StyleView::empty()),
        ),
    decreases cs.len(),
{
    let none = StyleView::empty();
    let made = canonical_leaves(cs);
    assert forall|i: int| 0 <= i < made.len() implies is_supported_leaf(#[trigger] made[i]) by {
        assert(is_writable_leaf(cs[i]));
        lemma_canonical_leaf(cs[i]);
    }
    if cs.len() == 0 {
        assert(canonical_shown(shown_all(cs, none)) =~= Seq::empty());
    } else {
        assert(are_writable_leaves(cs.drop_last())) by {
            assert forall|i: int| 0 <= i < cs.drop_last().len() implies is_writable_leaf(
                #[trigger] cs.drop_last()[i],
            ) by {
                assert(cs.drop_last()[i] == cs[i]);
            }
        }
        lemma_canonical_leaves(cs.drop_last());
        assert(is_writable_leaf(cs.last()));
        lemma_canonical_leaf(cs.last());
        assert(made.drop_last() =~= canonical_leaves(cs.drop_last()));
        assert(made.last() == canonical_leaf(cs.last()));
        assert(canonical_shown(shown_all(cs, none)) =~= canonical_shown(
            shown_all(cs.drop_last(), none),
        ) + canonical_shown(shown(cs.last(), none)));
    }
}

/// The round trip for every colour. The markup that the serializer writes
/// for a writable tree is accepted by the parser, in either mode, and gives
/// a supported tree with the same visible text, shown character by
/// character in the same decorations and in the same colours as the
/// serializer writes them: a `#RRGGBB` value that is the canonical value of a
/// named colour is read back as that named colour.
pub proof fn lemma_round_trip_of_colors(tree: ComponentView, legacy: bool)
    requires
        is_writable_tree(tree),
    ensures
        parse_markup(serialize(tree, StyleView::empty()), legacy) matches Ok(again)
            && is_supported_tree(again) && shown(again, StyleView::empty()) == canonical_shown(
            shown(tree, StyleView::empty()),
        ) && again.to_plain_text() == tree.to_plain_text(),
{
    let none = StyleView::empty();
    let made = canonical_tree(tree);
    match tree {
        ComponentView::Array(cs) => {
            lemma_canonical_leaves(cs);
        },
        _ => {
            lemma_canonical_leaf(tree);
        },
    }
    assert(is_supported_tree(made));
    assert(serialize(made, none) == serialize(tree, none));
    assert(shown(made, none) == canonical_shown(shown(tree, none)));
    lemma_round_trip(made, legacy);
    lemma_shown_is_plain_text(made, none);
    lemma_shown_is_plain_text(tree, none);
    assert(shown_text(canonical_shown(shown(tree, none))) =~= shown_text(shown(tree, none)));
}

/// A token of markup that uses colour and decoration tags alone: text that
/// holds none of `>` and `&`; an opening tag that is the name of a colour or
/// of a decoration, or a colour tag with its argument; or a closing tag.
pub open spec fn is_supported_token(token: Token) -> bool {
    match token {
        Token::Text { text } => is_markup_free(text),
        Token::Open { name, args, self_closing } => {
            ||| NamedColor::spec_from_name(name) is Some
            ||| decoration_tag(name) is Some
            ||| is_color_tag(name) && args.len() > 0
        },
        Token::Close { name, failure } => true,
    }
}

/// Markup that uses colour and decoration tags alone, from `pos` on: every
/// token of it is a supported one.
pub open spec fn is_supported_markup(input: Seq<char>, legacy: bool, pos: int) -> bool
    decreases input.len() - pos,
    via is_supported_markup_decreases
{
    if pos < 0 || pos >= input.len() {
        true
    } else {
        match next_token(input, legacy, pos) {
            Ok((token, next)) => is_supported_token(token) && is_supported_markup(
                input,
                legacy,
                next,
            ),
            Err(_) => true,
        }
    }
}

#[via_fn]
proof fn is_supported_markup_decreases(input: Seq<char>, legacy: bool, pos: int) {
    if 0 <= pos < input.len() {
        lemma_next_token(input, legacy, pos);
    }
}

/// Whether every frame of a stack is a writable style.
pub open spec fn are_writable_styles(stack: Seq<StyleView>) -> bool {
    forall|i: int| 0 <= i < stack.len() ==> is_writable_style(#[trigger] stack[i])
}

/// A text that holds none of `<`, `>` and `&`, in a writable style, is a
/// writable leaf.
pub proof fn lemma_leaf_is_writable(text: Seq<char>, style: StyleView)
    requires
        is_markup_free(text),
        is_writable_style(style),
    ensures
        is_writable_leaf(leaf(text, style)),
{
    let c = leaf(text, style);
    let node = *c->Object_0;
    assert(node.text == Some(text));
    assert(node.style() == style);
}

/// The name of a decoration is neither the name of a colour nor a colour
/// tag.
pub proof fn lemma_decoration_is_no_color(name: Seq<char>)
    requires
        decoration_tag(name) is Some,
    ensures
        NamedColor::spec_from_name(name) is None,
        !is_color_tag(name),
{
    reveal_strlit("black");
    reveal_strlit("dark_blue");
    reveal_strlit("dark_green");
    reveal_strlit("dark_aqua");
    reveal_strlit("dark_red");
    reveal_strlit("dark_purple");
    reveal_strlit("gold");
    reveal_strlit("gray");
    reveal_strlit("dark_gray");
    reveal_strlit("blue");
    reveal_strlit("green");
    reveal_strlit("aqua");
    reveal_strlit("red");
    reveal_strlit("light_purple");
    reveal_strlit("yellow");
    reveal_strlit("white");
    reveal_strlit("bold");
    reveal_strlit("b");
    reveal_strlit("italic");
    reveal_strlit("i");
    reveal_strlit("em");
    reveal_strlit("underlined");
    reveal_strlit("u");
    reveal_strlit("strikethrough");
    reveal_strlit("st");
    reveal_strlit("obfuscated");
    reveal_strlit("obf");
    reveal_strlit("color");
    reveal_strlit("colour");
    reveal_strlit("c");
    // Names of one length differ in their first character, or in their second.
    assert("black"@[0] == 'b');
    assert("dark_blue"@[0] == 'd');
    assert("dark_green"@[0] == 'd');
    assert("dark_aqua"@[0] == 'd');
    assert("dark_red"@[0] == 'd');
    assert("dark_purple"@[0] == 'd');
    assert("gold"@[0] == 'g');
    assert("gray"@[0] == 'g');
    assert("dark_gray"@[0] == 'd');
    assert("blue"@[0] == 'b');
    assert("green"@[0] == 'g');
    assert("aqua"@[0] == 'a');
    assert("red"@[0] == 'r');
    assert("light_purple"@[0] == 'l');
    assert("yellow"@[0] == 'y');
    assert("white"@[0] == 'w');
    assert("bold"@[0] == 'b');
    assert("b"@[0] == 'b');
    assert("italic"@[0] == 'i');
    assert("i"@[0] == 'i');
    assert("em"@[0] == 'e');
    assert("underlined"@[0] == 'u');
    assert("u"@[0] == 'u');
    assert("strikethrough"@[0] == 's');
    assert("st"@[0] == 's');
    assert("obfuscated"@[0] == 'o');
    assert("obf"@[0] == 'o');
    assert("color"@[0] == 'c');
    assert("colour"@[0] == 'c');
    assert("c"@[0] == 'c');
    assert("bold"@[1] == 'o');
    assert("blue"@[1] == 'l');
    assert("black"@.len() == 5);
    assert("dark_blue"@.len() == 9);
    assert("dark_green"@.len() == 10);
    assert("dark_aqua"@.len() == 9);
    assert("dark_red"@.len() == 8);
    assert("dark_purple"@.len() == 11);
    assert("gold"@.len() == 4);
    assert("gray"@.len() == 4);
    assert("dark_gray"@.len() == 9);
    assert("blue"@.len() == 4);
    assert("green"@.len() == 5);
    assert("aqua"@.len() == 4);
    assert("red"@.len() == 3);
    assert("light_purple"@.len() == 12);
    assert("yellow"@.len() == 6);
    assert("white"@.len() == 5);
    assert("bold"@.len() == 4);
    assert("b"@.len() == 1);
    assert("italic"@.len() == 6);
    assert("i"@.len() == 1);
    assert("em"@.len() == 2);
    assert("underlined"@.len() == 10);
    assert("u"@.len() == 1);
    assert("strikethrough"@.len() == 13);
    assert("st"@.len() == 2);
    assert("obfuscated"@.len() == 10);
    assert("obf"@.len() == 3);
    assert("color"@.len() == 5);
    assert("colour"@.len() == 6);
    assert("c"@.len() == 1);
}

/// A supported token keeps the frames writable styles and the components
/// writable leaves.
pub proof fn lemma_supported_token_keeps_support(
    state: ParserState,
    token: Token,
    nested: Result<ComponentView, SyntaxError>,
)
    requires
        is_supported_token(token),
        state.stack.len() >= 1,
        are_writable_styles(state.stack),
        are_writable_leaves(state.parts),
    ensures
        state.apply(token, nested) matches Ok(after) ==> after.stack.len() >= 1
            && are_writable_styles(after.stack) && are_writable_leaves(after.parts),
{
    let top = state.current();
    assert(is_writable_style(top));
    match token {
        Token::Text { text } => {
            lemma_leaf_is_writable(text, top);
            let after = state.emit(text);
            assert forall|i: int| 0 <= i < after.parts.len() implies is_writable_leaf(
                #[trigger] after.parts[i],
            ) by {
                if i < state.parts.len() {
                    assert(after.parts[i] == state.parts[i]);
                }
            }
        },
        Token::Open { name, args, self_closing } => {
            if NamedColor::spec_from_name(name) is None && decoration_tag(name) is Some {
                lemma_decoration_is_no_color(name);
            }
            let after = state.apply(token, nested)->Ok_0;
            assert forall|i: int| 0 <= i < after.stack.len() implies is_writable_style(
                #[trigger] after.stack[i],
            ) by {
                if i < state.stack.len() {
                    assert(after.stack[i] == state.stack[i]);
                }
            }
        },
        Token::Close { name, failure } => {
            if state.apply(token, nested) is Ok {
                let after = state.apply(token, nested)->Ok_0;
                assert forall|i: int| 0 <= i < after.stack.len() implies is_writable_style(
                    #[trigger] after.stack[i],
                ) by {
                    assert(after.stack[i] == state.stack[i]);
                }
            }
        },
    }
}

/// Markup that uses colour and decoration tags alone is parsed into
/// writable leaves.
pub proof fn lemma_supported_markup_keeps_support(
    input: Seq<char>,
    legacy: bool,
    pos: int,
    state: ParserState,
)
    requires
        is_supported_markup(input, legacy, pos),
        state.stack.len() >= 1,
        are_writable_styles(state.stack),
        are_writable_leaves(state.parts),
    ensures
        parse_from(input, legacy, pos, state) matches Ok(after) ==> are_writable_leaves(
            after.parts,
        ),
    decreases input.len() - pos,
{
    if 0 <= pos < input.len() {
        lemma_next_token(input, legacy, pos);
        match next_token(input, legacy, pos) {
            Err(e) => {},
            Ok((token, next)) => {
                let nested = match nested_markup(token) {
                    Some(markup) => parse_markup(markup, legacy),
                    None => arbitrary(),
                };
                lemma_supported_token_keeps_support(state, token, nested);
                match state.apply(token, nested) {
                    Err(e) => {},
                    Ok(after) => {
                        lemma_supported_markup_keeps_support(input, legacy, next, after);
                    },
                }
            },
        }
    }
}

/// Markup that uses colour and decoration tags alone is parsed, where it is
/// accepted, into a writable tree.
pub proof fn lemma_supported_markup_gives_writable_tree(markup: Seq<char>, legacy: bool)
    requires
        is_supported_markup(markup, legacy, 0),
    ensures
        parse_markup(markup, legacy) matches Ok(tree) ==> is_writable_tree(tree),
{
    let start = ParserState::initial();
    assert(is_writable_style(StyleView::empty()));
    lemma_supported_markup_keeps_support(markup, legacy, 0, start);
}

/// The round trip, from markup. Where markup uses colour and decoration
/// tags alone and is accepted, the markup that the serializer writes for
/// its tree is accepted too, and gives a tree with the same visible text,
/// shown character by character in the same decorations and in the same
/// colours as the serializer writes them.
pub proof fn lemma_markup_round_trip(markup: Seq<char>, legacy: bool)
    requires
        is_supported_markup(markup, legacy, 0),
        parse_markup(markup, legacy) is Ok,
    ensures
        parse_markup(
            serialize(parse_markup(markup, legacy)->Ok_0, StyleView::empty()),
            legacy,
        ) matches Ok(again) && shown(again, StyleView::empty()) == canonical_shown(
            shown(parse_markup(markup, legacy)->Ok_0, StyleView::empty()),
        ) && again.to_plain_text() == parse_markup(markup, legacy)->Ok_0.to_plain_text(),
{
    lemma_supported_markup_gives_writable_tree(markup, legacy);
    lemma_round_trip_of_colors(parse_markup(markup, legacy)->Ok_0, legacy);
}

/// The round trip, from markup, to the letter. Where the tree of such
/// markup holds no `#RRGGBB` value that is the canonical value of a named
/// colour, every character is shown in the very colour that it had.
pub proof fn lemma_markup_round_trip_exact(markup: Seq<char>, legacy: bool)
    requires
        is_supported_markup(markup, legacy, 0),
        parse_markup(markup, legacy) matches Ok(tree) && is_supported_tree(tree),
    ensures
        parse_markup(
            serialize(parse_markup(markup, legacy)->Ok_0, StyleView::empty()),
            legacy,
        ) matches Ok(again) && shown(again, StyleView::empty()) == shown(
            parse_markup(markup, legacy)->Ok_0,
            StyleView::empty(),
        ) && again.to_plain_text() == parse_markup(markup, legacy)->Ok_0.to_plain_text(),
{
    lemma_round_trip(parse_markup(markup, legacy)->Ok_0, legacy);
}

} // verus!
