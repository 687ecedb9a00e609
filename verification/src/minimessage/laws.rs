//! What holds of every piece of markup and of every tree: laws of the
//! grammar and of the serializer, each stated over the functions that the
//! parser's and the serializer's contracts speak of.

use crate::component::{ComponentObjectView, ComponentView, HoverEventView, StyleView};
use crate::minimessage::grammar::{parse_from, parse_markup};
use crate::minimessage::lexer::{
    lemma_next_token, lemma_scan_unique, next_token, text_end, text_stop, SyntaxError, Token,
};
use crate::minimessage::serializer::{
    escape, escape_char, merged_style, serialize, style_changes,
};
use crate::minimessage::tags::{nested_markup, ParserState};
use vstd::prelude::*;

verus! {

/// A text node takes nothing from the default style.
pub proof fn lemma_text_in_default_style(text: Seq<char>)
    ensures
        ComponentView::text(text).apply_fallback_style(StyleView::empty()) == ComponentView::text(
            text,
        ),
{
    let node = ComponentObjectView { text: Some(text), ..ComponentObjectView::empty() };
    assert(node.merge_style(StyleView::empty()) == node);
    assert(ComponentObjectView { extra: None, ..node } == node);
}

/// Markup without `<` is literal text: it parses to one text node that
/// holds the markup itself, with no style. The markup must not be empty,
/// since empty markup has no component at all; and in legacy mode it must
/// hold no `&` after its first character, since a run ends there.
pub proof fn lemma_plain_text_parses_to_itself(input: Seq<char>, legacy: bool)
    requires
        input.len() > 0,
        forall|i: int| 0 <= i < input.len() ==> input[i] != '<',
        legacy ==> forall|i: int| 1 <= i < input.len() ==> input[i] != '&',
    ensures
        parse_markup(input, legacy) == Ok::<ComponentView, SyntaxError>(ComponentView::text(input)),
{
    let len = input.len() as int;
    lemma_scan_unique(input, 1, text_stop(legacy), len);
    assert(text_end(input, legacy, 0) == len);
    assert(input.subrange(0, len) =~= input);
    assert(next_token(input, legacy, 0) == Ok::<_, SyntaxError>(
        (Token::Text { text: input }, len),
    ));
    lemma_text_in_default_style(input);
    let start = ParserState::initial();
    let after = start.emit(input);
    assert(start.current() == StyleView::empty()) by {
        assert(start.stack.last() == start.stack[0]);
    }
    assert(after.parts =~= seq![ComponentView::text(input)]);
    assert(parse_from(input, legacy, len, after) == Ok::<_, SyntaxError>(
        after,
    ));
    assert(parse_from(input, legacy, 0, start) == Ok::<_, SyntaxError>(
        after,
    ));
}

/// Escaping goes character by character: the escaped form of two pieces of
/// text put together is their escaped forms put together.
pub proof fn lemma_escape_concat(a: Seq<char>, b: Seq<char>)
    ensures
        escape(a + b) == escape(a) + escape(b),
    decreases b.len(),
{
    if b.len() == 0 {
        assert(a + b =~= a);
        assert(escape(a) + escape(b) =~= escape(a));
    } else {
        lemma_escape_concat(a, b.drop_last());
        assert((a + b).drop_last() =~= a + b.drop_last());
        assert((a + b).last() == b.last());
        assert(escape(a + b) =~= escape(a) + escape(b));
    }
}

/// The escaped form of a text with one more character is its escaped form
/// with the escaped character after it.
pub proof fn lemma_escape_push(s: Seq<char>, c: char)
    ensures
        escape(s.push(c)) == escape(s) + escape_char(c),
{
    assert(s.push(c).drop_last() =~= s);
}

/// Escaped text holds neither `<` nor `>`: nothing in it can be read as a
/// tag.
pub proof fn lemma_escape_has_no_brackets(s: Seq<char>)
    ensures
        forall|i: int| 0 <= i < escape(s).len() ==> escape(s)[i] != '<' && escape(s)[i] != '>',
    decreases s.len(),
{
    reveal_strlit("&lt;");
    reveal_strlit("&gt;");
    reveal_strlit("&amp;");
    if s.len() > 0 {
        lemma_escape_has_no_brackets(s.drop_last());
        let head = escape(s.drop_last());
        let tail = escape_char(s.last());
        assert forall|i: int| 0 <= i < escape(s).len() implies escape(s)[i] != '<' && escape(
            s,
        )[i] != '>' by {
            if i >= head.len() {
                assert(escape(s)[i] == tail[i - head.len()]);
            } else {
                assert(escape(s)[i] == head[i]);
            }
        }
    }
}

/// A bare string that holds `<b>` is written with `&lt;b&gt;` in its place,
/// whatever the ambient style, and the markup written holds no `<` and no
/// `>` at all.
pub proof fn lemma_tag_in_text_is_escaped(before: Seq<char>, after: Seq<char>, ambient: StyleView)
    ensures
        serialize(ComponentView::String(before + "<b>"@ + after), ambient) == escape(before)
            + "&lt;b&gt;"@ + escape(after),
        forall|i: int|
            0 <= i < serialize(ComponentView::String(before + "<b>"@ + after), ambient).len()
                ==> serialize(ComponentView::String(before + "<b>"@ + after), ambient)[i] != '<'
                && serialize(ComponentView::String(before + "<b>"@ + after), ambient)[i] != '>',
{
    reveal_strlit("<b>");
    reveal_strlit("&lt;b&gt;");
    reveal_strlit("&lt;");
    reveal_strlit("&gt;");
    let tag = "<b>"@;
    lemma_escape_concat(before + tag, after);
    lemma_escape_concat(before, tag);
    assert(escape(tag) =~= "&lt;b&gt;"@) by {
        let none = Seq::<char>::empty();
        lemma_escape_push(none, '<');
        lemma_escape_push(none.push('<'), 'b');
        lemma_escape_push(none.push('<').push('b'), '>');
        assert(tag =~= none.push('<').push('b').push('>'));
    }
    lemma_escape_has_no_brackets(before + tag + after);
}

/// A leaf as the parser emits one: a node whose only content is its text,
/// without children, and whose hover action, where it has one, shows a tree
/// that was parsed itself.
pub open spec fn is_emitted_leaf(c: ComponentView) -> bool
    decreases c, 0int,
{
    &&& c matches ComponentView::Object(node)
    &&& node.text is Some
    &&& node.content_type is None
    &&& node.translate is None
    &&& node.fallback is None
    &&& node.with is None
    &&& node.score is None
    &&& node.selector is None
    &&& node.separator is None
    &&& node.keybind is None
    &&& node.nbt is None
    &&& node.source is None
    &&& node.interpret is None
    &&& node.block is None
    &&& node.entity is None
    &&& node.storage is None
    &&& node.extra is None
    &&& node.font is None
    &&& node.shadow_color is None
    &&& node.hover_event matches Some(hover) ==> hover matches HoverEventView::ShowText { value }
        && is_parsed_tree(*value)
}

/// A tree as the parser returns one: an emitted leaf, or a list of them. A
/// list stands at the top only, never among the children of a node.
pub open spec fn is_parsed_tree(c: ComponentView) -> bool
    decreases c, 1int,
{
    match c {
        ComponentView::Array(cs) => forall|i: int|
            0 <= i < cs.len() ==> is_emitted_leaf(#[trigger] cs[i]),
        _ => is_emitted_leaf(c),
    }
}

/// A frame as the parser pushes one: no font and no shadow colour, and a
/// hover action, where it has one, that shows a parsed tree.
pub open spec fn is_pushed_style(style: StyleView) -> bool {
    &&& style.font is None
    &&& style.shadow_color is None
    &&& style.hover_event matches Some(hover) ==> hover matches HoverEventView::ShowText { value }
        && is_parsed_tree(*value)
}

/// A state as a parse reaches one: pushed styles on the stack, of which
/// there is at least one, and emitted leaves among the components.
pub open spec fn is_reached_state(state: ParserState) -> bool {
    &&& state.stack.len() >= 1
    &&& forall|i: int| 0 <= i < state.stack.len() ==> is_pushed_style(#[trigger] state.stack[i])
    &&& forall|i: int| 0 <= i < state.parts.len() ==> is_emitted_leaf(#[trigger] state.parts[i])
}

/// A token leads from a reached state to a reached state, where the markup
/// nested in it was parsed into a parsed tree.
pub proof fn lemma_token_keeps_shape(
    state: ParserState,
    token: Token,
    nested: Result<ComponentView, SyntaxError>,
)
    requires
        is_reached_state(state),
        nested_markup(token) is Some ==> (nested matches Ok(tree) ==> is_parsed_tree(tree)),
    ensures
        state.apply(token, nested) matches Ok(after) ==> is_reached_state(after),
{
    let top = state.current();
    assert(is_pushed_style(top));
    if state.apply(token, nested) is Ok {
        let after = state.apply(token, nested)->Ok_0;
        assert forall|text: Seq<char>|
            is_emitted_leaf(#[trigger] ComponentView::text(text).apply_fallback_style(top)) by {
            let c = ComponentView::text(text).apply_fallback_style(top);
            let node = *c->Object_0;
            assert(node.hover_event == top.hover_event);
        }
        assert forall|i: int| 0 <= i < after.parts.len() implies is_emitted_leaf(
            #[trigger] after.parts[i],
        ) by {
            if i < state.parts.len() {
                assert(after.parts[i] == state.parts[i]);
            }
        }
        assert forall|i: int| 0 <= i < after.stack.len() implies is_pushed_style(
            #[trigger] after.stack[i],
        ) by {
            if i < state.stack.len() {
                assert(after.stack[i] == state.stack[i]);
            }
        }
    }
}

/// Every parse leads from a reached state to a reached state.
pub proof fn lemma_parse_keeps_shape(input: Seq<char>, legacy: bool, pos: int, state: ParserState)
    requires
        is_reached_state(state),
    ensures
        parse_from(input, legacy, pos, state) matches Ok(after) ==> is_reached_state(after),
    decreases input.len(), input.len() - pos,
{
    if 0 <= pos < input.len() {
        lemma_next_token(input, legacy, pos);
        match next_token(input, legacy, pos) {
            Err(e) => {},
            Ok((token, next)) => {
                let nested = match nested_markup(token) {
                    Some(markup) => parse_markup(markup, legacy),
                    None => arbitrary(),
                };
                match nested_markup(token) {
                    Some(markup) => {
                        lemma_parsed_tree_shape(markup, legacy);
                    },
                    None => {},
                }
                lemma_token_keeps_shape(state, token, nested);
                match state.apply(token, nested) {
                    Err(e) => {},
                    Ok(after) => {
                        lemma_parse_keeps_shape(input, legacy, next, after);
                    },
                }
            },
        }
    }
}

/// The shape of every tree that the parser returns: a leaf, or a list of
/// leaves. A leaf has its text as its only content and has no children, so
/// a list is never nested in a node; and the tree that a hover action shows
/// has that shape again.
pub proof fn lemma_parsed_tree_shape(input: Seq<char>, legacy: bool)
    ensures
        parse_markup(input, legacy) matches Ok(tree) ==> is_parsed_tree(tree),
    decreases input.len(), input.len() + 1,
{
    let start = ParserState::initial();
    assert(is_pushed_style(StyleView::empty()));
    assert(is_reached_state(start));
    lemma_parse_keeps_shape(input, legacy, 0, start);
}

/// No tag is written for what is active already: in the ambient style that
/// a node leaves for its children, the node's own colour and decorations
/// need no tag. A child that repeats them is written without one.
pub proof fn lemma_no_tag_for_what_is_active(node: ComponentObjectView, ambient: StyleView)
    ensures
        style_changes(node, merged_style(node, ambient)) == Seq::<Seq<char>>::empty(),
{
    assert(style_changes(node, merged_style(node, ambient)) =~= Seq::<Seq<char>>::empty());
}

} // verus!
