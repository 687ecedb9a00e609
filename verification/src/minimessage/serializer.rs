//! The serializer: a tree is written as markup against an ambient style, so
//! that only the tags are written that change something.
//!
//! Colour and the five decorations are written. Font, shadow colour,
//! insertion, click and hover actions are not, and a decoration that is set
//! to `false` is never switched off again.

use crate::color::{Color, ColorView};
use crate::component::{
    component_view, components_view, inherit, opt_color, Component, ComponentObject,
    ComponentObjectView, ComponentView, Style, StyleView,
};
use crate::text::{chars_of, owned, strings_view};
use vstd::prelude::*;
use vstd::string::StringExecFns;

verus! {

/// A character as it is written in markup: `<`, `>` and `&` as entities.
pub open spec fn escape_char(c: char) -> Seq<char> {
    if c == '<' {
        "&lt;"@
    } else if c == '>' {
        "&gt;"@
    } else if c == '&' {
        "&amp;"@
    } else {
        seq![c]
    }
}

/// A piece of text as it is written in markup: each character escaped.
pub open spec fn escape(s: Seq<char>) -> Seq<char>
    decreases s.len(),
{
    if s.len() == 0 {
        Seq::empty()
    } else {
        escape(s.drop_last()) + escape_char(s.last())
    }
}

/// The tag that sets a colour: the name of the named colour that it is or
/// has the canonical value of, else `color:` and its text.
pub open spec fn color_tag(color: ColorView) -> Seq<char> {
    match color.to_named() {
        Some(named) => named.spec_name(),
        None => match color {
            ColorView::Hex(hex) => "color:"@ + hex,
            ColorView::Named(named) => named.spec_name(),
        },
    }
}

/// The tag for a colour that is set and differs from the ambient one.
pub open spec fn color_changes(own: Option<ColorView>, ambient: Option<ColorView>) -> Seq<
    Seq<char>,
> {
    if own is Some && own != ambient {
        seq![color_tag(own->0)]
    } else {
        Seq::empty()
    }
}

/// The tag for a decoration that is on and was not on in the ambient style.
pub open spec fn decoration_changes(own: Option<bool>, ambient: Option<bool>, name: Seq<char>) -> Seq<
    Seq<char>,
> {
    if own == Some(true) && ambient != Some(true) {
        seq![name]
    } else {
        Seq::empty()
    }
}

/// The tags that a node needs on top of the ambient style, in the order in
/// which they are opened.
pub open spec fn style_changes(node: ComponentObjectView, ambient: StyleView) -> Seq<Seq<char>> {
    color_changes(node.color, ambient.color) + decoration_changes(
        node.bold,
        ambient.bold,
        "bold"@,
    ) + decoration_changes(node.italic, ambient.italic, "italic"@) + decoration_changes(
        node.underlined,
        ambient.underlined,
        "underlined"@,
    ) + decoration_changes(node.strikethrough, ambient.strikethrough, "strikethrough"@)
        + decoration_changes(node.obfuscated, ambient.obfuscated, "obfuscated"@)
}

/// One opening tag.
pub open spec fn opening_tag(change: Seq<char>) -> Seq<char> {
    (seq!['<'] + change).push('>')
}

/// One closing tag.
pub open spec fn closing_tag(change: Seq<char>) -> Seq<char> {
    (seq!['<', '/'] + change).push('>')
}

/// The opening tags of the changes, in order.
pub open spec fn opening_tags(changes: Seq<Seq<char>>) -> Seq<char>
    decreases changes.len(),
{
    if changes.len() == 0 {
        Seq::empty()
    } else {
        opening_tags(changes.drop_last()) + opening_tag(changes.last())
    }
}

/// The closing tags of the changes, in reverse order.
pub open spec fn closing_tags(changes: Seq<Seq<char>>) -> Seq<char>
    decreases changes.len(),
{
    if changes.len() == 0 {
        Seq::empty()
    } else {
        closing_tag(changes.last()) + closing_tags(changes.drop_last())
    }
}

/// The ambient style inside a node: the node's colour and decorations where
/// they are set, the ambient ones where they are not.
pub open spec fn merged_style(node: ComponentObjectView, ambient: StyleView) -> StyleView {
    StyleView {
        color: inherit(node.color, ambient.color),
        bold: inherit(node.bold, ambient.bold),
        italic: inherit(node.italic, ambient.italic),
        underlined: inherit(node.underlined, ambient.underlined),
        strikethrough: inherit(node.strikethrough, ambient.strikethrough),
        obfuscated: inherit(node.obfuscated, ambient.obfuscated),
        ..ambient
    }
}

/// The text of a node, escaped; nothing where it has none.
pub open spec fn node_text(node: ComponentObjectView) -> Seq<char> {
    match node.text {
        Some(text) => escape(text),
        None => Seq::empty(),
    }
}

/// The markup of each component of a list against the same ambient style,
/// one after the other.
pub open spec fn serialize_all(components: Seq<ComponentView>, ambient: StyleView) -> Seq<char>
    decreases components,
{
    if components.len() == 0 {
        Seq::empty()
    } else {
        serialize_all(components.drop_last(), ambient) + serialize(components.last(), ambient)
    }
}

/// The markup of a component against an ambient style. A string is written
/// escaped. The members of a list are each written against the ambient
/// style. A node is written as the opening tags of its changes, its text,
/// its children against the merged style, and the closing tags in reverse.
pub open spec fn serialize(component: ComponentView, ambient: StyleView) -> Seq<char>
    decreases component,
{
    match component {
        ComponentView::String(text) => escape(text),
        ComponentView::Array(components) => serialize_all(components, ambient),
        ComponentView::Object(node) => opening_tags(style_changes(*node, ambient)) + node_text(
            *node,
        ) + match node.extra {
            Some(children) => serialize_all(children, merged_style(*node, ambient)),
            None => Seq::empty(),
        } + closing_tags(style_changes(*node, ambient)),
    }
}

fn is_on(state: Option<bool>) -> (r: bool)
    ensures
        r == (state == Some(true)),
{
    match state {
        Some(on) => on,
        None => false,
    }
}

fn same_color(own: &Color, ambient: &Option<Color>) -> (r: bool)
    ensures
        r == (Some(own@) == opt_color(*ambient)),
{
    match ambient {
        Some(color) => *own == *color,
        None => false,
    }
}

fn color_tag_of(color: &Color) -> (r: String)
    ensures
        r@ == color_tag(color@),
{
    match color.to_named() {
        Some(named) => named.to_string(),
        None => match color {
            Color::Hex(hex) => owned("color:").concat(hex.as_str()),
            Color::Named(named) => named.to_string(),
        },
    }
}

fn push_decoration_change(
    changes: &mut Vec<String>,
    own: Option<bool>,
    ambient: Option<bool>,
    name: &str,
)
    ensures
        strings_view(final(changes)@) == strings_view(old(changes)@) + decoration_changes(
            own,
            ambient,
            name@,
        ),
{
    if is_on(own) && !is_on(ambient) {
        changes.push(owned(name));
        assert(strings_view(changes@) =~= strings_view(old(changes)@) + seq![name@]);
    } else {
        assert(strings_view(changes@) =~= strings_view(old(changes)@) + Seq::empty());
    }
}

fn changes_of(obj: &ComponentObject, ambient: &Style) -> (r: Vec<String>)
    ensures
        strings_view(r@) == style_changes(obj@, ambient@),
{
    let mut changes: Vec<String> = Vec::new();
    assert(strings_view(changes@) =~= Seq::empty());
    match &obj.color {
        Some(color) => {
            if !same_color(color, &ambient.color) {
                changes.push(color_tag_of(color));
                assert(strings_view(changes@) =~= seq![color_tag(color@)]);
            }
        },
        None => {},
    }
    assert(strings_view(changes@) =~= color_changes(obj@.color, ambient@.color));
    push_decoration_change(&mut changes, obj.bold, ambient.bold, "bold");
    push_decoration_change(&mut changes, obj.italic, ambient.italic, "italic");
    push_decoration_change(&mut changes, obj.underlined, ambient.underlined, "underlined");
    push_decoration_change(&mut changes, obj.strikethrough, ambient.strikethrough, "strikethrough");
    push_decoration_change(&mut changes, obj.obfuscated, ambient.obfuscated, "obfuscated");
    changes
}

fn merge_into(ambient: &mut Style, obj: &ComponentObject)
    ensures
        final(ambient)@ == merged_style(obj@, old(ambient)@),
{
    match &obj.color {
        Some(color) => {
            ambient.color = Some(color.clone());
        },
        None => {},
    }
    if obj.bold.is_some() {
        ambient.bold = obj.bold;
    }
    if obj.italic.is_some() {
        ambient.italic = obj.italic;
    }
    if obj.underlined.is_some() {
        ambient.underlined = obj.underlined;
    }
    if obj.strikethrough.is_some() {
        ambient.strikethrough = obj.strikethrough;
    }
    if obj.obfuscated.is_some() {
        ambient.obfuscated = obj.obfuscated;
    }
}

/// The state of one serialization: the markup written so far and the
/// ambient style.
pub struct Serializer {
    /// The markup written so far.
    pub output: String,
    /// The ambient style.
    pub current_style: Style,
}

impl Serializer {
    /// A serializer that has written nothing, in the default style.
    pub fn new() -> (r: Serializer)
        ensures
            r.output@ == Seq::<char>::empty(),
            r.current_style@ == StyleView::empty(),
    {
        Serializer { output: String::new(), current_style: Style::default() }
    }

    /// Writes a component and returns all the markup written so far.
    pub fn serialize(&mut self, component: &Component) -> (r: String)
        ensures
            r@ == old(self).output@ + serialize(component@, old(self).current_style@),
            final(self).output@ == r@,
            final(self).current_style@ == old(self).current_style@,
    {
        self.serialize_component(component);
        self.output.clone()
    }

    /// Writes a component against the ambient style, which is the same
    /// afterwards.
    pub fn serialize_component(&mut self, component: &Component)
        ensures
            final(self).output@ == old(self).output@ + serialize(
                component@,
                old(self).current_style@,
            ),
            final(self).current_style@ == old(self).current_style@,
        decreases *component,
    {
        match component {
            Component::String(s) => {
                self.serialize_text(s.as_str());
            },
            Component::Array(components) => {
                self.serialize_components(components);
            },
            Component::Object(obj) => {
                self.serialize_object(obj);
            },
        }
    }

    /// Writes each component of a list against the same ambient style.
    pub fn serialize_components(&mut self, components: &Vec<Component>)
        ensures
            final(self).output@ == old(self).output@ + serialize_all(
                components_view(components@),
                old(self).current_style@,
            ),
            final(self).current_style@ == old(self).current_style@,
        decreases *components,
    {
        let ghost views = components_view(components@);
        let ghost ambient = self.current_style@;
        let mut i: usize = 0;
        assert(views.take(0) =~= Seq::empty());
        while i < components.len()
            invariant
                i <= components.len(),
                views == components_view(components@),
                self.current_style@ == ambient,
                self.output@ == old(self).output@ + serialize_all(views.take(i as int), ambient),
            decreases components.len() - i,
        {
            self.serialize_component(&components[i]);
            proof {
                assert(views.take(i + 1).drop_last() =~= views.take(i as int));
                assert(views.take(i + 1).last() == component_view(components@[i as int]));
                assert(self.output@ =~= old(self).output@ + serialize_all(
                    views.take(i + 1),
                    ambient,
                ));
            }
            i = i + 1;
        }
        assert(views.take(components.len() as int) =~= views);
    }

    /// Writes a node: the opening tags of what it changes in the ambient
    /// style, its text, its children against the merged style, and the
    /// closing tags in reverse order.
    pub fn serialize_object(&mut self, obj: &ComponentObject)
        ensures
            final(self).output@ == old(self).output@ + serialize(
                ComponentView::Object(Box::new(obj@)),
                old(self).current_style@,
            ),
            final(self).current_style@ == old(self).current_style@,
        decreases *obj,
    {
        let prev_style = self.current_style.clone();
        let style_changes = changes_of(obj, &prev_style);
        let ghost changes = strings_view(style_changes@);
        let ghost base = self.output@;

        let mut i: usize = 0;
        assert(changes.take(0) =~= Seq::empty());
        while i < style_changes.len()
            invariant
                i <= style_changes.len(),
                changes == strings_view(style_changes@),
                self.current_style@ == prev_style@,
                self.output@ == base + opening_tags(changes.take(i as int)),
            decreases style_changes.len() - i,
        {
            self.output.push('<');
            self.output.append(style_changes[i].as_str());
            self.output.push('>');
            proof {
                assert(changes.take(i + 1).drop_last() =~= changes.take(i as int));
                assert(changes.take(i + 1).last() == style_changes@[i as int]@);
                assert(self.output@ =~= base + opening_tags(changes.take(i + 1)));
            }
            i = i + 1;
        }
        assert(changes.take(style_changes.len() as int) =~= changes);

        merge_into(&mut self.current_style, obj);

        match &obj.text {
            Some(text) => {
                self.serialize_text(text.as_str());
            },
            None => {
                assert(self.output@ =~= base + opening_tags(changes) + Seq::empty());
            },
        }
        let ghost with_text = self.output@;
        assert(with_text == base + opening_tags(changes) + node_text(obj@));

        match &obj.extra {
            Some(extra) => {
                self.serialize_components(extra);
            },
            None => {
                assert(self.output@ =~= with_text + Seq::empty());
            },
        }
        let ghost with_children = self.output@;

        let mut k: usize = style_changes.len();
        assert(changes.take(k as int) =~= changes);
        while k > 0
            invariant
                k <= style_changes.len(),
                changes == strings_view(style_changes@),
                with_children + closing_tags(changes) == self.output@ + closing_tags(
                    changes.take(k as int),
                ),
            decreases k,
        {
            k = k - 1;
            let ghost before = self.output@;
            self.output.push('<');
            self.output.push('/');
            self.output.append(style_changes[k].as_str());
            self.output.push('>');
            proof {
                assert(changes.take(k + 1).drop_last() =~= changes.take(k as int));
                assert(changes.take(k + 1).last() == style_changes@[k as int]@);
                assert(self.output@ =~= before + closing_tag(style_changes@[k as int]@));
                assert(self.output@ + closing_tags(changes.take(k as int)) =~= before
                    + closing_tags(changes.take(k + 1)));
            }
        }
        assert(self.output@ =~= with_children + closing_tags(changes));
        self.current_style = prev_style;
    }

    /// Writes a piece of text with `<`, `>` and `&` escaped.
    pub fn serialize_text(&mut self, text: &str)
        ensures
            final(self).output@ == old(self).output@ + escape(text@),
            final(self).current_style == old(self).current_style,
    {
        let chars = chars_of(text);
        let mut i: usize = 0;
        assert(chars@.take(0) =~= Seq::empty());
        while i < chars.len()
            invariant
                i <= chars.len(),
                chars@ == text@,
                self.current_style == old(self).current_style,
                self.output@ == old(self).output@ + escape(chars@.take(i as int)),
            decreases chars.len() - i,
        {
            let c = chars[i];
            if c == '<' {
                self.output.append("&lt;");
            } else if c == '>' {
                self.output.append("&gt;");
            } else if c == '&' {
                self.output.append("&amp;");
            } else {
                self.output.push(c);
            }
            proof {
                assert(chars@.take(i + 1).drop_last() =~= chars@.take(i as int));
                assert(chars@.take(i + 1).last() == c);
                assert(self.output@ =~= old(self).output@ + escape(chars@.take(i + 1)));
            }
            i = i + 1;
        }
        assert(chars@.take(chars.len() as int) =~= chars@);
    }
}

} // verus!
