//! The component tree: text leaves, sibling lists and styled nodes, with the
//! style record that nodes carry and that the markup engine threads through
//! nested tags.
//!
//! Every type has a view, a mathematical value that forgets how strings and
//! vectors are held. All contracts speak of views.

use crate::color::{Color, ColorView, ShadowColor};
use crate::content::{
    ClickEvent, ClickEventView, ContentType, NbtSource, ScoreContent, ScoreContentView, UuidRepr,
    UuidReprView,
};
use vstd::prelude::*;

verus! {

/// A JSON value of the `serde_json` crate. It is carried through unread.
#[verifier::external_type_specification]
#[verifier::external_body]
pub struct ExJsonValue(serde_json::Value);

/// `Clone::clone` of `serde_json::Value`, which that crate derives: the copy
/// is the same JSON value as the one it was made from.
#[verifier::external_body]
fn clone_json(v: &serde_json::Value) -> (r: serde_json::Value)
    ensures
        r == *v,
{
    v.clone()
}

/// What is shown while the pointer hovers over the text.
#[derive(Debug, PartialEq)]
pub enum HoverEvent {
    /// Shows a component.
    ShowText {
        /// The component to show.
        value: Component,
    },
    /// Shows the tooltip of an item.
    ShowItem {
        /// The id of the item.
        id: String,
        /// The size of the stack.
        count: Option<i32>,
        /// Further data of the item.
        components: Option<serde_json::Value>,
    },
    /// Shows an entity.
    ShowEntity {
        /// A name shown in place of the entity's own.
        name: Option<Component>,
        /// The type of the entity.
        id: String,
        /// The UUID of the entity.
        uuid: UuidRepr,
    },
}

/// A node of the tree: at most one content payload, optional style
/// attributes, and children. An unset style attribute is inherited.
#[derive(Debug, PartialEq)]
pub struct ComponentObject {
    /// The kind of content, where it is stated.
    pub content_type: Option<ContentType>,
    /// Plain text.
    pub text: Option<String>,
    /// A translation key.
    pub translate: Option<String>,
    /// The text shown where the translation is missing.
    pub fallback: Option<String>,
    /// The arguments of the translation.
    pub with: Option<Vec<Component>>,
    /// A scoreboard value.
    pub score: Option<ScoreContent>,
    /// An entity selector.
    pub selector: Option<String>,
    /// What stands between the values of a selector or query.
    pub separator: Option<Box<Component>>,
    /// The name of a key binding.
    pub keybind: Option<String>,
    /// The path of an NBT query.
    pub nbt: Option<String>,
    /// Where the NBT query reads from.
    pub source: Option<NbtSource>,
    /// Whether the NBT value is read as components.
    pub interpret: Option<bool>,
    /// The block position that the NBT query reads.
    pub block: Option<String>,
    /// The entity that the NBT query reads.
    pub entity: Option<String>,
    /// The storage that the NBT query reads.
    pub storage: Option<String>,
    /// The children, in order.
    pub extra: Option<Vec<Component>>,
    /// The colour of the text.
    pub color: Option<Color>,
    /// The font, as a resource location.
    pub font: Option<String>,
    /// Bold text.
    pub bold: Option<bool>,
    /// Italic text.
    pub italic: Option<bool>,
    /// Underlined text.
    pub underlined: Option<bool>,
    /// Struck-through text.
    pub strikethrough: Option<bool>,
    /// Scrambled text.
    pub obfuscated: Option<bool>,
    /// The colour of the text's shadow.
    pub shadow_color: Option<ShadowColor>,
    /// The text put into the chat input on shift-click.
    pub insertion: Option<String>,
    /// What happens on a click.
    pub click_event: Option<ClickEvent>,
    /// What is shown while the pointer hovers.
    pub hover_event: Option<HoverEvent>,
}

/// The inheritable formatting attributes, without content or children.
#[derive(Debug, PartialEq)]
pub struct Style {
    /// The colour of the text.
    pub color: Option<Color>,
    /// The font, as a resource location.
    pub font: Option<String>,
    /// Bold text.
    pub bold: Option<bool>,
    /// Italic text.
    pub italic: Option<bool>,
    /// Underlined text.
    pub underlined: Option<bool>,
    /// Struck-through text.
    pub strikethrough: Option<bool>,
    /// Scrambled text.
    pub obfuscated: Option<bool>,
    /// The colour of the text's shadow.
    pub shadow_color: Option<ShadowColor>,
    /// The text put into the chat input on shift-click.
    pub insertion: Option<String>,
    /// What happens on a click.
    pub click_event: Option<ClickEvent>,
    /// What is shown while the pointer hovers.
    pub hover_event: Option<HoverEvent>,
}

/// A rich-text value.
#[derive(Debug, PartialEq)]
pub enum Component {
    /// A bare string.
    String(String),
    /// An ordered list of siblings.
    Array(Vec<Component>),
    /// A styled node with children.
    Object(Box<ComponentObject>),
}

/// What a [`HoverEvent`] stands for.
pub ghost enum HoverEventView {
    ShowText { value: Box<ComponentView> },
    ShowItem { id: Seq<char>, count: Option<i32>, components: Option<serde_json::Value> },
    ShowEntity { name: Option<Box<ComponentView>>, id: Seq<char>, uuid: UuidReprView },
}

/// What a [`ComponentObject`] stands for.
pub ghost struct ComponentObjectView {
    pub content_type: Option<ContentType>,
    pub text: Option<Seq<char>>,
    pub translate: Option<Seq<char>>,
    pub fallback: Option<Seq<char>>,
    pub with: Option<Seq<ComponentView>>,
    pub score: Option<ScoreContentView>,
    pub selector: Option<Seq<char>>,
    pub separator: Option<Box<ComponentView>>,
    pub keybind: Option<Seq<char>>,
    pub nbt: Option<Seq<char>>,
    pub source: Option<NbtSource>,
    pub interpret: Option<bool>,
    pub block: Option<Seq<char>>,
    pub entity: Option<Seq<char>>,
    pub storage: Option<Seq<char>>,
    pub extra: Option<Seq<ComponentView>>,
    pub color: Option<ColorView>,
    pub font: Option<Seq<char>>,
    pub bold: Option<bool>,
    pub italic: Option<bool>,
    pub underlined: Option<bool>,
    pub strikethrough: Option<bool>,
    pub obfuscated: Option<bool>,
    pub shadow_color: Option<ShadowColor>,
    pub insertion: Option<Seq<char>>,
    pub click_event: Option<ClickEventView>,
    pub hover_event: Option<HoverEventView>,
}

/// What a [`Style`] stands for.
pub ghost struct StyleView {
    pub color: Option<ColorView>,
    pub font: Option<Seq<char>>,
    pub bold: Option<bool>,
    pub italic: Option<bool>,
    pub underlined: Option<bool>,
    pub strikethrough: Option<bool>,
    pub obfuscated: Option<bool>,
    pub shadow_color: Option<ShadowColor>,
    pub insertion: Option<Seq<char>>,
    pub click_event: Option<ClickEventView>,
    pub hover_event: Option<HoverEventView>,
}

/// What a [`Component`] stands for.
pub ghost enum ComponentView {
    String(Seq<char>),
    Array(Seq<ComponentView>),
    Object(Box<ComponentObjectView>),
}

/// An attribute's own value where it is set, else the inherited one.
pub open spec fn inherit<T>(own: Option<T>, inherited: Option<T>) -> Option<T> {
    if own is Some {
        own
    } else {
        inherited
    }
}

pub open spec fn opt_text(o: Option<String>) -> Option<Seq<char>> {
    match o {
        Some(s) => Some(s@),
        None => None,
    }
}

pub open spec fn opt_color(o: Option<Color>) -> Option<ColorView> {
    match o {
        Some(c) => Some(c@),
        None => None,
    }
}

pub open spec fn opt_click(o: Option<ClickEvent>) -> Option<ClickEventView> {
    match o {
        Some(c) => Some(c@),
        None => None,
    }
}

pub open spec fn opt_score(o: Option<ScoreContent>) -> Option<ScoreContentView> {
    match o {
        Some(c) => Some(c@),
        None => None,
    }
}

pub open spec fn opt_hover(o: Option<HoverEvent>) -> Option<HoverEventView> {
    match o {
        Some(h) => Some(hover_view(h)),
        None => None,
    }
}

pub open spec fn opt_components(o: Option<Vec<Component>>) -> Option<Seq<ComponentView>> {
    match o {
        Some(v) => Some(components_view(v@)),
        None => None,
    }
}

/// The views of a sequence of components, one for one.
pub open spec fn components_view(v: Seq<Component>) -> Seq<ComponentView>
    decreases v,
{
    Seq::new(
        v.len(),
        |i: int|
            if 0 <= i < v.len() {
                component_view(v[i])
            } else {
                arbitrary()
            },
    )
}

pub open spec fn hover_view(h: HoverEvent) -> HoverEventView
    decreases h,
{
    match h {
        HoverEvent::ShowText { value } => HoverEventView::ShowText {
            value: Box::new(component_view(value)),
        },
        HoverEvent::ShowItem { id, count, components } => HoverEventView::ShowItem {
            id: id@,
            count,
            components,
        },
        HoverEvent::ShowEntity { name, id, uuid } => HoverEventView::ShowEntity {
            name: match name {
                Some(n) => Some(Box::new(component_view(n))),
                None => None,
            },
            id: id@,
            uuid: uuid@,
        },
    }
}

pub open spec fn object_view(o: ComponentObject) -> ComponentObjectView
    decreases o,
{
    ComponentObjectView {
        content_type: o.content_type,
        text: opt_text(o.text),
        translate: opt_text(o.translate),
        fallback: opt_text(o.fallback),
        with: match o.with {
                Some(v) => Some(components_view(v@)),
                None => None,
            },
        score: opt_score(o.score),
        selector: opt_text(o.selector),
        separator: match o.separator {
                Some(b) => Some(Box::new(component_view(*b))),
                None => None,
            },
        keybind: opt_text(o.keybind),
        nbt: opt_text(o.nbt),
        source: o.source,
        interpret: o.interpret,
        block: opt_text(o.block),
        entity: opt_text(o.entity),
        storage: opt_text(o.storage),
        extra: match o.extra {
                Some(v) => Some(components_view(v@)),
                None => None,
            },
        color: opt_color(o.color),
        font: opt_text(o.font),
        bold: o.bold,
        italic: o.italic,
        underlined: o.underlined,
        strikethrough: o.strikethrough,
        obfuscated: o.obfuscated,
        shadow_color: o.shadow_color,
        insertion: opt_text(o.insertion),
        click_event: opt_click(o.click_event),
        hover_event: match o.hover_event {
                Some(h) => Some(hover_view(h)),
                None => None,
            },
    }
}

pub open spec fn component_view(c: Component) -> ComponentView
    decreases c,
{
    match c {
        Component::String(s) => ComponentView::String(s@),
        Component::Array(v) => ComponentView::Array(components_view(v@)),
        Component::Object(o) => ComponentView::Object(Box::new(object_view(*o))),
    }
}

pub open spec fn style_view(s: Style) -> StyleView {
    StyleView {
        color: opt_color(s.color),
        font: opt_text(s.font),
        bold: s.bold,
        italic: s.italic,
        underlined: s.underlined,
        strikethrough: s.strikethrough,
        obfuscated: s.obfuscated,
        shadow_color: s.shadow_color,
        insertion: opt_text(s.insertion),
        click_event: opt_click(s.click_event),
        hover_event: match s.hover_event {
                Some(h) => Some(hover_view(h)),
                None => None,
            },
    }
}

impl View for HoverEvent {
    type V = HoverEventView;

    open spec fn view(&self) -> HoverEventView {
        hover_view(*self)
    }
}

impl View for ComponentObject {
    type V = ComponentObjectView;

    open spec fn view(&self) -> ComponentObjectView {
        object_view(*self)
    }
}

impl View for Component {
    type V = ComponentView;

    open spec fn view(&self) -> ComponentView {
        component_view(*self)
    }
}

impl View for Style {
    type V = StyleView;

    open spec fn view(&self) -> StyleView {
        style_view(*self)
    }
}

/// The view of a vector with one more component is the view of the vector
/// with one more view.
pub proof fn lemma_components_view_push(v: Seq<Component>, c: Component)
    ensures
        components_view(v.push(c)) == components_view(v).push(c@),
{
    assert(components_view(v.push(c)) =~= components_view(v).push(c@));
}

fn clone_opt_text(o: &Option<String>) -> (r: Option<String>)
    ensures
        opt_text(r) == opt_text(*o),
{
    match o {
        Some(s) => Some(s.clone()),
        None => None,
    }
}

fn clone_components(v: &Vec<Component>) -> (r: Vec<Component>)
    ensures
        components_view(r@) == components_view(v@),
    decreases *v,
{
    let mut out: Vec<Component> = Vec::new();
    let mut i: usize = 0;
    while i < v.len()
        invariant
            i <= v.len(),
            out.len() == i,
            forall|j: int| 0 <= j < i ==> component_view(out@[j]) == component_view(v@[j]),
        decreases v.len() - i,
    {
        let c = v[i].clone();
        out.push(c);
        i = i + 1;
    }
    assert(components_view(out@) =~= components_view(v@));
    out
}

impl Clone for HoverEvent {
    fn clone(&self) -> (r: HoverEvent)
        ensures
            r@ == self@,
        decreases *self,
    {
        match self {
            HoverEvent::ShowText { value } => HoverEvent::ShowText { value: value.clone() },
            HoverEvent::ShowItem { id, count, components } => HoverEvent::ShowItem {
                id: id.clone(),
                count: *count,
                components: match components {
                    Some(c) => Some(clone_json(c)),
                    None => None,
                },
            },
            HoverEvent::ShowEntity { name, id, uuid } => HoverEvent::ShowEntity {
                name: match name {
                    Some(n) => Some(n.clone()),
                    None => None,
                },
                id: id.clone(),
                uuid: uuid.clone(),
            },
        }
    }
}

impl Clone for ComponentObject {
    fn clone(&self) -> (r: ComponentObject)
        ensures
            r@ == self@,
        decreases *self,
    {
        ComponentObject {
            content_type: self.content_type,
            text: clone_opt_text(&self.text),
            translate: clone_opt_text(&self.translate),
            fallback: clone_opt_text(&self.fallback),
            with: match &self.with {
                Some(v) => Some(clone_components(v)),
                None => None,
            },
            score: match &self.score {
                Some(c) => Some(c.clone()),
                None => None,
            },
            selector: clone_opt_text(&self.selector),
            separator: match &self.separator {
                Some(b) => Some(Box::new((**b).clone())),
                None => None,
            },
            keybind: clone_opt_text(&self.keybind),
            nbt: clone_opt_text(&self.nbt),
            source: self.source,
            interpret: self.interpret,
            block: clone_opt_text(&self.block),
            entity: clone_opt_text(&self.entity),
            storage: clone_opt_text(&self.storage),
            extra: match &self.extra {
                Some(v) => Some(clone_components(v)),
                None => None,
            },
            color: match &self.color {
                Some(c) => Some(c.clone()),
                None => None,
            },
            font: clone_opt_text(&self.font),
            bold: self.bold,
            italic: self.italic,
            underlined: self.underlined,
            strikethrough: self.strikethrough,
            obfuscated: self.obfuscated,
            shadow_color: self.shadow_color,
            insertion: clone_opt_text(&self.insertion),
            click_event: match &self.click_event {
                Some(c) => Some(c.clone()),
                None => None,
            },
            hover_event: match &self.hover_event {
                Some(h) => Some(h.clone()),
                None => None,
            },
        }
    }
}

impl Clone for Component {
    fn clone(&self) -> (r: Component)
        ensures
            r@ == self@,
        decreases *self,
    {
        match self {
            Component::String(s) => Component::String(s.clone()),
            Component::Array(v) => Component::Array(clone_components(v)),
            Component::Object(o) => Component::Object(Box::new((**o).clone())),
        }
    }
}

impl Clone for Style {
    fn clone(&self) -> (r: Style)
        ensures
            r@ == self@,
    {
        Style {
            color: match &self.color {
                Some(c) => Some(c.clone()),
                None => None,
            },
            font: clone_opt_text(&self.font),
            bold: self.bold,
            italic: self.italic,
            underlined: self.underlined,
            strikethrough: self.strikethrough,
            obfuscated: self.obfuscated,
            shadow_color: self.shadow_color,
            insertion: clone_opt_text(&self.insertion),
            click_event: match &self.click_event {
                Some(c) => Some(c.clone()),
                None => None,
            },
            hover_event: match &self.hover_event {
                Some(h) => Some(h.clone()),
                None => None,
            },
        }
    }
}

impl StyleView {
    /// The style with every attribute unset.
    pub open spec fn empty() -> StyleView {
        StyleView {
            color: None,
            font: None,
            bold: None,
            italic: None,
            underlined: None,
            strikethrough: None,
            obfuscated: None,
            shadow_color: None,
            insertion: None,
            click_event: None,
            hover_event: None,
        }
    }
}

impl ComponentObjectView {
    /// The node with no content, no style and no children.
    pub open spec fn empty() -> ComponentObjectView {
        ComponentObjectView {
            content_type: None,
            text: None,
            translate: None,
            fallback: None,
            with: None,
            score: None,
            selector: None,
            separator: None,
            keybind: None,
            nbt: None,
            source: None,
            interpret: None,
            block: None,
            entity: None,
            storage: None,
            extra: None,
            color: None,
            font: None,
            bold: None,
            italic: None,
            underlined: None,
            strikethrough: None,
            obfuscated: None,
            shadow_color: None,
            insertion: None,
            click_event: None,
            hover_event: None,
        }
    }

    /// The style attributes of the node.
    pub open spec fn style(self) -> StyleView {
        StyleView {
            color: self.color,
            font: self.font,
            bold: self.bold,
            italic: self.italic,
            underlined: self.underlined,
            strikethrough: self.strikethrough,
            obfuscated: self.obfuscated,
            shadow_color: self.shadow_color,
            insertion: self.insertion,
            click_event: self.click_event,
            hover_event: self.hover_event,
        }
    }

    /// The node with each unset style attribute taken from `fallback`.
    pub open spec fn merge_style(self, fallback: StyleView) -> ComponentObjectView {
        ComponentObjectView {
            color: inherit(self.color, fallback.color),
            font: inherit(self.font, fallback.font),
            bold: inherit(self.bold, fallback.bold),
            italic: inherit(self.italic, fallback.italic),
            underlined: inherit(self.underlined, fallback.underlined),
            strikethrough: inherit(self.strikethrough, fallback.strikethrough),
            obfuscated: inherit(self.obfuscated, fallback.obfuscated),
            shadow_color: inherit(self.shadow_color, fallback.shadow_color),
            insertion: inherit(self.insertion, fallback.insertion),
            click_event: inherit(self.click_event, fallback.click_event),
            hover_event: inherit(self.hover_event, fallback.hover_event),
            ..self
        }
    }
}

impl Default for Style {
    fn default() -> (r: Style)
        ensures
            r@ == StyleView::empty(),
    {
        Style {
            color: None,
            font: None,
            bold: None,
            italic: None,
            underlined: None,
            strikethrough: None,
            obfuscated: None,
            shadow_color: None,
            insertion: None,
            click_event: None,
            hover_event: None,
        }
    }
}

impl Default for ComponentObject {
    fn default() -> (r: ComponentObject)
        ensures
            r@ == ComponentObjectView::empty(),
    {
        ComponentObject {
            content_type: None,
            text: None,
            translate: None,
            fallback: None,
            with: None,
            score: None,
            selector: None,
            separator: None,
            keybind: None,
            nbt: None,
            source: None,
            interpret: None,
            block: None,
            entity: None,
            storage: None,
            extra: None,
            color: None,
            font: None,
            bold: None,
            italic: None,
            underlined: None,
            strikethrough: None,
            obfuscated: None,
            shadow_color: None,
            insertion: None,
            click_event: None,
            hover_event: None,
        }
    }
}

} // verus!
