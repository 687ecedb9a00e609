//! The fluent interface for building component trees by hand: each call
//! takes a component and returns the changed one.

use crate::color::{Color, ColorView};
use crate::component::{
    component_view, components_view, inherit, lemma_components_view_push, opt_components, opt_click, opt_color, opt_hover,
    opt_text, Component, ComponentObject, ComponentObjectView, ComponentView, HoverEvent,
    HoverEventView, Style, StyleView,
};
use crate::content::{ClickEvent, ClickEventView, ContentType, TextDecoration};
use crate::text::owned;
use vstd::prelude::*;
use vstd::std_specs::convert::FromSpecImpl;
use vstd::string::StringExecFns;

verus! {

fn inherit_value<T: Copy>(own: &mut Option<T>, inherited: Option<T>)
    ensures
        *final(own) == inherit(*old(own), inherited),
{
    if own.is_none() {
        *own = inherited;
    }
}

fn inherit_text(own: &mut Option<String>, inherited: &Option<String>)
    ensures
        opt_text(*final(own)) == inherit(opt_text(*old(own)), opt_text(*inherited)),
{
    if own.is_none() {
        *own =
        match inherited {
            Some(s) => Some(s.clone()),
            None => None,
        };
    }
}

fn inherit_color(own: &mut Option<Color>, inherited: &Option<Color>)
    ensures
        opt_color(*final(own)) == inherit(opt_color(*old(own)), opt_color(*inherited)),
{
    if own.is_none() {
        *own =
        match inherited {
            Some(c) => Some(c.clone()),
            None => None,
        };
    }
}

fn inherit_click(own: &mut Option<ClickEvent>, inherited: &Option<ClickEvent>)
    ensures
        opt_click(*final(own)) == inherit(opt_click(*old(own)), opt_click(*inherited)),
{
    if own.is_none() {
        *own =
        match inherited {
            Some(c) => Some(c.clone()),
            None => None,
        };
    }
}

fn inherit_hover(own: &mut Option<HoverEvent>, inherited: &Option<HoverEvent>)
    ensures
        opt_hover(*final(own)) == inherit(opt_hover(*old(own)), opt_hover(*inherited)),
{
    if own.is_none() {
        *own =
        match inherited {
            Some(c) => Some(c.clone()),
            None => None,
        };
    }
}

impl ComponentObject {
    /// Fills each unset style attribute from `fallback`. Attributes that are
    /// set, content and children stay as they are.
    pub fn merge_style(&mut self, fallback: &Style)
        ensures
            final(self)@ == old(self)@.merge_style(fallback@),
    {
        inherit_color(&mut self.color, &fallback.color);
        inherit_text(&mut self.font, &fallback.font);
        inherit_value(&mut self.bold, fallback.bold);
        inherit_value(&mut self.italic, fallback.italic);
        inherit_value(&mut self.underlined, fallback.underlined);
        inherit_value(&mut self.strikethrough, fallback.strikethrough);
        inherit_value(&mut self.obfuscated, fallback.obfuscated);
        inherit_value(&mut self.shadow_color, fallback.shadow_color);
        inherit_text(&mut self.insertion, &fallback.insertion);
        inherit_click(&mut self.click_event, &fallback.click_event);
        inherit_hover(&mut self.hover_event, &fallback.hover_event);
    }
}

/// Each component of `v` with its unset style attributes taken from
/// `fallback`.
pub open spec fn apply_fallback_all(v: Seq<ComponentView>, fallback: StyleView) -> Seq<
    ComponentView,
>
    decreases v,
{
    Seq::new(
        v.len(),
        |i: int|
            if 0 <= i < v.len() {
                v[i].apply_fallback_style(fallback)
            } else {
                arbitrary()
            },
    )
}

impl ComponentView {
    /// A node that holds `s` as its text and nothing else.
    pub open spec fn text(s: Seq<char>) -> ComponentView {
        ComponentView::Object(
            Box::new(ComponentObjectView { text: Some(s), ..ComponentObjectView::empty() }),
        )
    }

    /// The component as a node: a string becomes a text node, a list becomes
    /// the children of an empty node.
    pub open spec fn into_object(self) -> ComponentObjectView {
        match self {
            ComponentView::String(s) => ComponentObjectView {
                content_type: Some(ContentType::Text),
                text: Some(s),
                ..ComponentObjectView::empty()
            },
            ComponentView::Array(v) => ComponentObjectView {
                extra: Some(v),
                ..ComponentObjectView::empty()
            },
            ComponentView::Object(o) => *o,
        }
    }

    /// The component with the unset style attributes of every node in it
    /// taken from `fallback`; a string becomes such a node.
    pub open spec fn apply_fallback_style(self, fallback: StyleView) -> ComponentView
        decreases self,
    {
        match self {
            ComponentView::String(s) => ComponentView::Object(
                Box::new(
                    ComponentObjectView {
                        content_type: Some(ContentType::Text),
                        text: Some(s),
                        ..ComponentObjectView::empty()
                    }.merge_style(fallback),
                ),
            ),
            ComponentView::Array(v) => ComponentView::Array(apply_fallback_all(v, fallback)),
            ComponentView::Object(o) => ComponentView::Object(
                Box::new(
                    ComponentObjectView {
                        extra: match o.extra {
                            Some(v) => Some(apply_fallback_all(v, fallback)),
                            None => None,
                        },
                        ..o.merge_style(fallback)
                    },
                ),
            ),
        }
    }
}

/// The visible text of each component of a list, one after the other.
pub open spec fn plain_text_all(v: Seq<ComponentView>) -> Seq<char>
    decreases v,
{
    if v.len() == 0 {
        Seq::empty()
    } else {
        plain_text_all(v.drop_last()) + v.last().to_plain_text()
    }
}

impl ComponentObjectView {
    /// The node with one decoration set to `state`.
    pub open spec fn with_decoration(
        self,
        decoration: TextDecoration,
        state: Option<bool>,
    ) -> ComponentObjectView {
        match decoration {
            TextDecoration::Bold => ComponentObjectView { bold: state, ..self },
            TextDecoration::Italic => ComponentObjectView { italic: state, ..self },
            TextDecoration::Underlined => ComponentObjectView { underlined: state, ..self },
            TextDecoration::Strikethrough => ComponentObjectView { strikethrough: state, ..self },
            TextDecoration::Obfuscated => ComponentObjectView { obfuscated: state, ..self },
        }
    }

    /// The node with each decoration of the list set to its state, one after
    /// the other; where a decoration occurs twice, its last state stays.
    pub open spec fn with_decorations(
        self,
        decorations: Seq<(TextDecoration, Option<bool>)>,
    ) -> ComponentObjectView
        decreases decorations.len(),
    {
        if decorations.len() == 0 {
            self
        } else {
            self.with_decorations(decorations.drop_last()).with_decoration(
                decorations.last().0,
                decorations.last().1,
            )
        }
    }

    /// The state of one decoration.
    pub open spec fn decoration(self, decoration: TextDecoration) -> Option<bool> {
        match decoration {
            TextDecoration::Bold => self.bold,
            TextDecoration::Italic => self.italic,
            TextDecoration::Underlined => self.underlined,
            TextDecoration::Strikethrough => self.strikethrough,
            TextDecoration::Obfuscated => self.obfuscated,
        }
    }

    /// Whether any style attribute is set.
    pub open spec fn has_styling(self) -> bool {
        ||| self.color is Some
        ||| self.font is Some
        ||| self.bold is Some
        ||| self.italic is Some
        ||| self.underlined is Some
        ||| self.strikethrough is Some
        ||| self.obfuscated is Some
        ||| self.shadow_color is Some
        ||| self.insertion is Some
        ||| self.click_event is Some
        ||| self.hover_event is Some
    }
}

impl ComponentView {
    /// A node made of `node`.
    pub open spec fn object(node: ComponentObjectView) -> ComponentView {
        ComponentView::Object(Box::new(node))
    }

    /// The component with `child` as its last child. A string becomes a text
    /// node with the one child; a list gets one more member.
    pub open spec fn append(self, child: ComponentView) -> ComponentView {
        match self {
            ComponentView::String(s) => ComponentView::object(
                ComponentObjectView {
                    content_type: Some(ContentType::Text),
                    text: Some(s),
                    extra: Some(seq![child]),
                    ..ComponentObjectView::empty()
                },
            ),
            ComponentView::Array(v) => ComponentView::Array(v.push(child)),
            ComponentView::Object(o) => ComponentView::object(
                ComponentObjectView {
                    extra: Some(
                        match o.extra {
                            Some(children) => children.push(child),
                            None => seq![child],
                        },
                    ),
                    ..*o
                },
            ),
        }
    }

    /// The text of a string or of a node; a list has none.
    pub open spec fn get_plain_text(self) -> Option<Seq<char>> {
        match self {
            ComponentView::String(s) => Some(s),
            ComponentView::Object(o) => o.text,
            ComponentView::Array(_) => None,
        }
    }

    /// The visible text of the component: its own text and that of its
    /// children, in order.
    pub open spec fn to_plain_text(self) -> Seq<char>
        decreases self,
    {
        match self {
            ComponentView::String(s) => s,
            ComponentView::Array(v) => plain_text_all(v),
            ComponentView::Object(o) => (match o.text {
                Some(text) => text,
                None => Seq::empty(),
            }) + (match o.extra {
                Some(children) => plain_text_all(children),
                None => Seq::empty(),
            }),
        }
    }

    /// The component as a node with the given colour.
    pub open spec fn color(self, color: Option<ColorView>) -> ComponentView {
        ComponentView::object(ComponentObjectView { color, ..self.into_object() })
    }

    /// The component as a node with the given font.
    pub open spec fn font(self, font: Option<Seq<char>>) -> ComponentView {
        ComponentView::object(ComponentObjectView { font, ..self.into_object() })
    }

    /// The component as a node with one decoration set to `state`.
    pub open spec fn decoration(self, decoration: TextDecoration, state: Option<bool>) -> ComponentView {
        ComponentView::object(self.into_object().with_decoration(decoration, state))
    }

    /// The component as a node with each decoration of the list set.
    pub open spec fn decorations(
        self,
        decorations: Seq<(TextDecoration, Option<bool>)>,
    ) -> ComponentView {
        ComponentView::object(self.into_object().with_decorations(decorations))
    }

    /// The component as a node with the given click action.
    pub open spec fn click_event(self, event: Option<ClickEventView>) -> ComponentView {
        ComponentView::object(ComponentObjectView { click_event: event, ..self.into_object() })
    }

    /// The component as a node with the given hover action.
    pub open spec fn hover_event(self, event: Option<HoverEventView>) -> ComponentView {
        ComponentView::object(ComponentObjectView { hover_event: event, ..self.into_object() })
    }

    /// The component as a node with the given insertion text.
    pub open spec fn insertion(self, insertion: Option<Seq<char>>) -> ComponentView {
        ComponentView::object(ComponentObjectView { insertion, ..self.into_object() })
    }

    /// The component as a node with the given children.
    pub open spec fn set_children(self, children: Seq<ComponentView>) -> ComponentView {
        ComponentView::object(ComponentObjectView { extra: Some(children), ..self.into_object() })
    }

    /// The children of a node, or the members of a list. A string has none.
    pub open spec fn get_children(self) -> Seq<ComponentView> {
        match self {
            ComponentView::String(_) => Seq::empty(),
            ComponentView::Array(v) => v,
            ComponentView::Object(o) => match o.extra {
                Some(children) => children,
                None => Seq::empty(),
            },
        }
    }

    /// Whether the component is a node on which the decoration is on.
    pub open spec fn has_decoration(self, decoration: TextDecoration) -> bool {
        match self {
            ComponentView::Object(o) => o.decoration(decoration) == Some(true),
            _ => false,
        }
    }

    /// Whether the component is a node with any style attribute set.
    pub open spec fn has_styling(self) -> bool {
        match self {
            ComponentView::Object(o) => o.has_styling(),
            _ => false,
        }
    }
}

fn apply_fallback_to_all(v: Vec<Component>, fallback: &Style) -> (r: Vec<Component>)
    ensures
        components_view(r@) == apply_fallback_all(components_view(v@), fallback@),
    decreases v,
{
    let ghost items = v;
    let mut rest = v;
    let mut reversed: Vec<Component> = Vec::new();
    while rest.len() > 0
        invariant
            items == v,
            rest.len() + reversed.len() == items.len(),
            rest@ == items@.take(rest.len() as int),
            forall|j: int|
                0 <= j < reversed.len() ==> component_view(#[trigger] reversed@[j])
                    == component_view(items@[items.len() - 1 - j]).apply_fallback_style(
                    fallback@,
                ),
        decreases rest.len(),
    {
        let ghost k = rest.len() - 1;
        let c = rest.pop().unwrap();
        proof {
            vstd::std_specs::vec::axiom_vec_index_decreases(items, k);
            assert(c == items[k]);
        }
        reversed.push(c.apply_fallback_style(fallback));
    }
    let mut out: Vec<Component> = Vec::new();
    while reversed.len() > 0
        invariant
            out.len() + reversed.len() == items.len(),
            forall|j: int|
                0 <= j < reversed.len() ==> component_view(#[trigger] reversed@[j])
                    == component_view(items@[items.len() - 1 - j]).apply_fallback_style(
                    fallback@,
                ),
            forall|j: int|
                0 <= j < out.len() ==> component_view(#[trigger] out@[j]) == component_view(
                    items@[j],
                ).apply_fallback_style(fallback@),
        decreases reversed.len(),
    {
        let c = reversed.pop().unwrap();
        out.push(c);
    }
    assert(components_view(out@) =~= apply_fallback_all(components_view(items@), fallback@));
    out
}

impl Component {
    /// A node that holds `text` as its text and nothing else.
    pub fn text(text: &str) -> (r: Component)
        ensures
            r@ == ComponentView::text(text@),
    {
        let mut obj = ComponentObject::default();
        obj.text = Some(owned(text));
        Component::Object(Box::new(obj))
    }

    /// Takes the unset style attributes of every node of the component from
    /// `fallback`. A bare string becomes a text node first.
    pub fn apply_fallback_style(self, fallback: &Style) -> (r: Component)
        ensures
            r@ == self@.apply_fallback_style(fallback@),
        decreases self,
    {
        match self {
            Component::String(s) => {
                let mut obj = ComponentObject::default();
                obj.content_type = Some(ContentType::Text);
                obj.text = Some(s);
                obj.merge_style(fallback);
                Component::Object(Box::new(obj))
            },
            Component::Array(v) => Component::Array(apply_fallback_to_all(v, fallback)),
            Component::Object(b) => {
                let mut obj = *b;
                let extra = obj.extra;
                let ghost children = opt_components(extra);
                obj.extra = None;
                obj.merge_style(fallback);
                obj.extra =
                match extra {
                    Some(v) => Some(apply_fallback_to_all(v, fallback)),
                    None => None,
                };
                Component::Object(Box::new(obj))
            },
        }
    }

    /// The component as a node: a string becomes a text node, a list becomes
    /// the children of an empty node.
    pub fn into_object(self) -> (r: ComponentObject)
        ensures
            r@ == self@.into_object(),
    {
        match self {
            Component::String(s) => {
                let mut obj = ComponentObject::default();
                obj.content_type = Some(ContentType::Text);
                obj.text = Some(s);
                obj
            },
            Component::Array(v) => {
                let mut obj = ComponentObject::default();
                obj.extra = Some(v);
                obj
            },
            Component::Object(b) => *b,
        }
    }

    /// Adds a child at the end.
    pub fn append(self, component: Component) -> (r: Component)
        ensures
            r@ == self@.append(component@),
    {
        match self {
            Component::String(s) => {
                let mut obj = ComponentObject::default();
                obj.content_type = Some(ContentType::Text);
                obj.text = Some(s);
                let mut children: Vec<Component> = Vec::new();
                children.push(component);
                assert(components_view(children@) =~= seq![component@]);
                obj.extra = Some(children);
                Component::Object(Box::new(obj))
            },
            Component::Array(v) => {
                let mut v = v;
                proof {
                    lemma_components_view_push(v@, component);
                }
                v.push(component);
                Component::Array(v)
            },
            Component::Object(b) => {
                let mut obj = *b;
                let extra = obj.extra;
                obj.extra = None;
                let mut children: Vec<Component> = match extra {
                    Some(v) => v,
                    None => Vec::new(),
                };
                proof {
                    lemma_components_view_push(children@, component);
                    if extra is None {
                        assert(components_view(children@) =~= Seq::empty());
                        assert(Seq::<ComponentView>::empty().push(component@) =~= seq![
                            component@,
                        ]);
                    }
                }
                children.push(component);
                obj.extra = Some(children);
                Component::Object(Box::new(obj))
            },
        }
    }

    /// Adds a line break as the last child.
    pub fn append_newline(self) -> (r: Component)
        ensures
            r@ == self@.append(ComponentView::text("\n"@)),
    {
        self.append(Component::text("\n"))
    }

    /// Adds a space as the last child.
    pub fn append_space(self) -> (r: Component)
        ensures
            r@ == self@.append(ComponentView::text(" "@)),
    {
        self.append(Component::text(" "))
    }

    /// The text of a string or of a node. A list has none.
    pub fn get_plain_text(&self) -> (r: Option<&str>)
        ensures
            match self@.get_plain_text() {
                Some(text) => r matches Some(s) && s@ == text,
                None => r is None,
            },
    {
        match self {
            Component::String(s) => Some(s.as_str()),
            Component::Object(obj) => match &obj.text {
                Some(s) => Some(s.as_str()),
                None => None,
            },
            Component::Array(_) => None,
        }
    }

    /// The visible text of the component: its own text and that of its
    /// children, in order.
    pub fn to_plain_text(&self) -> (r: String)
        ensures
            r@ == self@.to_plain_text(),
    {
        let mut out = String::new();
        self.write_plain_text(&mut out);
        assert(out@ =~= self@.to_plain_text());
        out
    }

    fn write_plain_text(&self, out: &mut String)
        ensures
            final(out)@ == old(out)@ + self@.to_plain_text(),
        decreases *self,
    {
        match self {
            Component::String(s) => {
                out.append(s.as_str());
            },
            Component::Array(v) => {
                write_plain_text_all(v, out);
            },
            Component::Object(obj) => {
                match &obj.text {
                    Some(text) => {
                        out.append(text.as_str());
                    },
                    None => {
                        assert(out@ =~= old(out)@ + Seq::empty());
                    },
                }
                let ghost with_text = out@;
                match &obj.extra {
                    Some(children) => {
                        write_plain_text_all(children, out);
                    },
                    None => {
                        assert(out@ =~= with_text + Seq::empty());
                    },
                }
                assert(out@ =~= old(out)@ + self@.to_plain_text());
            },
        }
    }

    /// Sets the colour.
    pub fn color(self, color: Option<Color>) -> (r: Component)
        ensures
            r@ == self@.color(opt_color(color)),
    {
        let mut obj = self.into_object();
        obj.color = color;
        Component::Object(Box::new(obj))
    }

    /// Sets the font.
    pub fn font(self, font: Option<String>) -> (r: Component)
        ensures
            r@ == self@.font(opt_text(font)),
    {
        let mut obj = self.into_object();
        obj.font = font;
        Component::Object(Box::new(obj))
    }

    /// Sets the state of one decoration.
    pub fn decoration(self, decoration: TextDecoration, state: Option<bool>) -> (r: Component)
        ensures
            r@ == self@.decoration(decoration, state),
    {
        let mut obj = self.into_object();
        set_decoration(&mut obj, decoration, state);
        Component::Object(Box::new(obj))
    }

    /// Sets the states of several decorations, one after the other. Where a
    /// decoration occurs twice, its last state stays.
    pub fn decorations(self, decorations: &[(TextDecoration, Option<bool>)]) -> (r: Component)
        ensures
            r@ == self@.decorations(decorations@),
    {
        let mut obj = self.into_object();
        let ghost start = obj@;
        let mut i: usize = 0;
        assert(decorations@.take(0) =~= Seq::empty());
        while i < decorations.len()
            invariant
                i <= decorations.len(),
                obj@ == start.with_decorations(decorations@.take(i as int)),
            decreases decorations.len() - i,
        {
            let (decoration, state) = decorations[i];
            set_decoration(&mut obj, decoration, state);
            proof {
                assert(decorations@.take(i + 1).drop_last() =~= decorations@.take(i as int));
                assert(decorations@.take(i + 1).last() == decorations@[i as int]);
            }
            i = i + 1;
        }
        assert(decorations@.take(decorations.len() as int) =~= decorations@);
        Component::Object(Box::new(obj))
    }

    /// Sets the click action.
    pub fn click_event(self, event: Option<ClickEvent>) -> (r: Component)
        ensures
            r@ == self@.click_event(opt_click(event)),
    {
        let mut obj = self.into_object();
        obj.click_event = event;
        Component::Object(Box::new(obj))
    }

    /// Sets the hover action.
    pub fn hover_event(self, event: Option<HoverEvent>) -> (r: Component)
        ensures
            r@ == self@.hover_event(opt_hover(event)),
    {
        let mut obj = self.into_object();
        obj.hover_event = event;
        Component::Object(Box::new(obj))
    }

    /// Sets the text that is put into the chat input on shift-click.
    pub fn insertion(self, insertion: Option<String>) -> (r: Component)
        ensures
            r@ == self@.insertion(opt_text(insertion)),
    {
        let mut obj = self.into_object();
        obj.insertion = insertion;
        Component::Object(Box::new(obj))
    }

    /// Whether the component is a node on which the decoration is on.
    pub fn has_decoration(&self, decoration: TextDecoration) -> (r: bool)
        ensures
            r == self@.has_decoration(decoration),
    {
        match self {
            Component::Object(obj) => {
                let state = match decoration {
                    TextDecoration::Bold => obj.bold,
                    TextDecoration::Italic => obj.italic,
                    TextDecoration::Underlined => obj.underlined,
                    TextDecoration::Strikethrough => obj.strikethrough,
                    TextDecoration::Obfuscated => obj.obfuscated,
                };
                match state {
                    Some(on) => on,
                    None => false,
                }
            },
            _ => false,
        }
    }

    /// Whether the component is a node with any style attribute set.
    pub fn has_styling(&self) -> (r: bool)
        ensures
            r == self@.has_styling(),
    {
        match self {
            Component::Object(obj) => obj.color.is_some() || obj.font.is_some()
                || obj.bold.is_some() || obj.italic.is_some() || obj.underlined.is_some()
                || obj.strikethrough.is_some() || obj.obfuscated.is_some()
                || obj.shadow_color.is_some() || obj.insertion.is_some()
                || obj.click_event.is_some() || obj.hover_event.is_some(),
            _ => false,
        }
    }

    /// Replaces the children.
    pub fn set_children(self, children: Vec<Component>) -> (r: Component)
        ensures
            r@ == self@.set_children(components_view(children@)),
    {
        let mut obj = self.into_object();
        obj.extra = Some(children);
        Component::Object(Box::new(obj))
    }

    /// The children of a node, or the members of a list. A string has none.
    pub fn get_children(&self) -> (r: &[Component])
        ensures
            components_view(r@) == self@.get_children(),
    {
        match self {
            Component::Object(obj) => match &obj.extra {
                Some(v) => v.as_slice(),
                None => {
                    let none: &[Component] = &[];
                    assert(components_view(none@) =~= Seq::empty());
                    none
                },
            },
            Component::Array(v) => v.as_slice(),
            Component::String(_) => {
                let none: &[Component] = &[];
                assert(components_view(none@) =~= Seq::empty());
                none
            },
        }
    }
}

fn set_decoration(obj: &mut ComponentObject, decoration: TextDecoration, state: Option<bool>)
    ensures
        final(obj)@ == old(obj)@.with_decoration(decoration, state),
{
    match decoration {
        TextDecoration::Bold => {
            obj.bold = state;
        },
        TextDecoration::Italic => {
            obj.italic = state;
        },
        TextDecoration::Underlined => {
            obj.underlined = state;
        },
        TextDecoration::Strikethrough => {
            obj.strikethrough = state;
        },
        TextDecoration::Obfuscated => {
            obj.obfuscated = state;
        },
    }
}

fn write_plain_text_all(v: &Vec<Component>, out: &mut String)
    ensures
        final(out)@ == old(out)@ + plain_text_all(components_view(v@)),
    decreases *v,
{
    let ghost views = components_view(v@);
    let mut i: usize = 0;
    assert(views.take(0) =~= Seq::empty());
    assert(out@ =~= old(out)@ + Seq::empty());
    while i < v.len()
        invariant
            i <= v.len(),
            views == components_view(v@),
            out@ == old(out)@ + plain_text_all(views.take(i as int)),
        decreases v.len() - i,
    {
        v[i].write_plain_text(out);
        proof {
            assert(views.take(i + 1).drop_last() =~= views.take(i as int));
            assert(views.take(i + 1).last() == component_view(v@[i as int]));
            assert(out@ =~= old(out)@ + plain_text_all(views.take(i + 1)));
        }
        i = i + 1;
    }
    assert(views.take(v.len() as int) =~= views);
}

impl From<&str> for Component {
    /// A bare string component.
    fn from(value: &str) -> (r: Component)
        ensures
            r@ == ComponentView::String(value@),
    {
        Component::String(owned(value))
    }
}

impl FromSpecImpl<&str> for Component {
    open spec fn obeys_from_spec() -> bool {
        false
    }

    open spec fn from_spec(value: &str) -> Component {
        arbitrary()
    }
}

impl From<String> for Component {
    /// A bare string component.
    fn from(value: String) -> (r: Component) {
        Component::String(value)
    }
}

impl FromSpecImpl<String> for Component {
    open spec fn obeys_from_spec() -> bool {
        true
    }

    open spec fn from_spec(value: String) -> Component {
        Component::String(value)
    }
}

} // verus!