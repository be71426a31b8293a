//! The tree of user-interface elements and the bounded walk that builds it.

use crate::json::{
    array_document, items_value, members_value, no_items, no_members, object_document,
    push_item, push_member, rendered, text_document, Json, JsonValue,
};
use crate::text::{decimal, push_decimal};
use vstd::prelude::*;

verus! {

/// One element of the user interface, with the elements below it.
#[derive(Debug, PartialEq, Eq)]
pub struct UIElement {
    pub name: String,
    pub control_type: String,
    pub bounding_rectangle: String,
    pub children: Vec<UIElement>,
}

/// What a `UIElement` stands for.
pub struct ElementView {
    pub name: Seq<char>,
    pub control_type: Seq<char>,
    pub bounding_rectangle: Seq<char>,
    pub children: Seq<ElementView>,
}

/// The view of the element of `elements` at position `i`.
pub open spec fn element_view_at(elements: Seq<UIElement>, i: int) -> ElementView
    decreases elements, 0nat,
{
    if 0 <= i < elements.len() {
        element_view(elements[i])
    } else {
        arbitrary()
    }
}

/// The views of `elements`, in order.
pub open spec fn elements_view(elements: Seq<UIElement>) -> Seq<ElementView>
    decreases elements, 1nat,
{
    Seq::new(elements.len(), |i: int| element_view_at(elements, i))
}

/// The view of an element.
pub open spec fn element_view(e: UIElement) -> ElementView
    decreases e,
{
    ElementView {
        name: e.name@,
        control_type: e.control_type@,
        bounding_rectangle: e.bounding_rectangle@,
        children: elements_view(e.children@),
    }
}

impl View for UIElement {
    type V = ElementView;

    open spec fn view(&self) -> ElementView {
        element_view(*self)
    }
}

impl UIElement {
    /// An element without children.
    pub fn new(name: String, control_type: String, bounding_rectangle: String) -> (r: UIElement)
        ensures
            r@ == (ElementView {
                name: name@,
                control_type: control_type@,
                bounding_rectangle: bounding_rectangle@,
                children: Seq::<ElementView>::empty(),
            }),
    {
        let r = UIElement { name, control_type, bounding_rectangle, children: Vec::new() };
        assert(elements_view(r.children@) =~= Seq::<ElementView>::empty());
        r
    }
}

/// The rectangle that bounds an element on the screen.
#[derive(Clone, Copy, Debug, PartialEq, Eq, Structural)]
pub struct Rect {
    pub left: i32,
    pub top: i32,
    pub right: i32,
    pub bottom: i32,
}

/// What could be read of one element of the accessibility tree. `None`
/// stands for a property that could not be read.
#[derive(Debug, PartialEq, Eq)]
pub struct ElementSource {
    pub name: Option<String>,
    pub control_type: Option<String>,
    pub bounds: Option<Rect>,
    /// The elements directly below; `None` where they could not be listed.
    pub children: Option<Vec<ElementSource>>,
}

/// The text of a rectangle: `left=..,top=..,right=..,bottom=..`, each
/// number in decimal.
pub open spec fn rect_text(r: Rect) -> Seq<char> {
    "left="@ + decimal(r.left as int) + ",top="@ + decimal(r.top as int) + ",right="@ + decimal(
        r.right as int,
    ) + ",bottom="@ + decimal(r.bottom as int)
}

/// Writes a rectangle as text.
pub fn format_rect(r: &Rect) -> (s: String)
    ensures
        s@ == rect_text(*r),
{
    let mut s = String::from_str("left=");
    push_decimal(&mut s, r.left as i64);
    s.append(",top=");
    push_decimal(&mut s, r.top as i64);
    s.append(",right=");
    push_decimal(&mut s, r.right as i64);
    s.append(",bottom=");
    push_decimal(&mut s, r.bottom as i64);
    s
}

/// The property of an element that could not be read.
#[derive(Clone, Copy, Debug, PartialEq, Eq, Structural)]
pub enum WalkError {
    NameUnreadable,
    ControlTypeUnreadable,
    BoundsUnreadable,
}

/// What is said of a walk that failed.
pub open spec fn walk_error_text(e: WalkError) -> Seq<char> {
    match e {
        WalkError::NameUnreadable => "the name of the element cannot be read"@,
        WalkError::ControlTypeUnreadable => "the control type of the element cannot be read"@,
        WalkError::BoundsUnreadable => "the bounds of the element cannot be read"@,
    }
}

impl WalkError {
    /// What is said of the failure.
    pub fn message(&self) -> (r: &'static str)
        ensures
            r@ == walk_error_text(*self),
    {
        match self {
            WalkError::NameUnreadable => "the name of the element cannot be read",
            WalkError::ControlTypeUnreadable => "the control type of the element cannot be read",
            WalkError::BoundsUnreadable => "the bounds of the element cannot be read",
        }
    }
}

/// What the walk makes of the first `n` of `children`, each walked at
/// `depth`: the elements of those that can be read, in order. One that
/// cannot be read is left out, with all that is below it.
pub open spec fn walked_children(
    children: Seq<ElementSource>,
    n: nat,
    depth: nat,
    max_depth: nat,
) -> Seq<ElementView>
    decreases children, n,
{
    if n == 0 || n > children.len() {
        Seq::<ElementView>::empty()
    } else {
        let before = walked_children(children, (n - 1) as nat, depth, max_depth);
        match walked(children[n - 1], depth, max_depth) {
            Ok(e) => before.push(e),
            Err(_) => before,
        }
    }
}

/// What the walk makes of an element at `depth`: its own properties, and
/// below it, while `depth` is under `max_depth`, what the walk makes of its
/// children. The name is read first, then the control type, then the
/// bounds; the first that cannot be read is the error.
pub open spec fn walked(source: ElementSource, depth: nat, max_depth: nat) -> Result<
    ElementView,
    WalkError,
>
    decreases source,
{
    match source.name {
        None => Err(WalkError::NameUnreadable),
        Some(name) => match source.control_type {
            None => Err(WalkError::ControlTypeUnreadable),
            Some(control_type) => match source.bounds {
                None => Err(WalkError::BoundsUnreadable),
                Some(bounds) => Ok(
                    ElementView {
                        name: name@,
                        control_type: control_type@,
                        bounding_rectangle: rect_text(bounds),
                        children: if depth < max_depth {
                            match source.children {
                                Some(children) => walked_children(
                                    children@,
                                    children@.len(),
                                    depth + 1,
                                    max_depth,
                                ),
                                None => Seq::<ElementView>::empty(),
                            }
                        } else {
                            Seq::<ElementView>::empty()
                        },
                    },
                ),
            },
        },
    }
}

/// Walks the tree below `element`, which stands at `depth`, down to
/// `max_depth`.
pub fn walk_tree(element: &ElementSource, depth: u32, max_depth: u32) -> (r: Result<
    UIElement,
    WalkError,
>)
    ensures
        match r {
            Ok(e) => walked(*element, depth as nat, max_depth as nat) == Ok::<
                ElementView,
                WalkError,
            >(e@),
            Err(err) => walked(*element, depth as nat, max_depth as nat) == Err::<
                ElementView,
                WalkError,
            >(err),
        },
    decreases element,
{
    let name = match &element.name {
        Some(s) => s.clone(),
        None => {
            return Err(WalkError::NameUnreadable);
        },
    };
    let control_type = match &element.control_type {
        Some(s) => s.clone(),
        None => {
            return Err(WalkError::ControlTypeUnreadable);
        },
    };
    let bounds = match &element.bounds {
        Some(b) => format_rect(b),
        None => {
            return Err(WalkError::BoundsUnreadable);
        },
    };
    let mut kids: Vec<UIElement> = Vec::new();
    assert(elements_view(kids@) =~= Seq::<ElementView>::empty());
    if depth < max_depth {
        match &element.children {
            Some(children) => {
                let mut i: usize = 0;
                while i < children.len()
                    invariant
                        i <= children.len(),
                        depth < max_depth,
                        element.children == Some(*children),
                        elements_view(kids@) == walked_children(
                            children@,
                            i as nat,
                            (depth + 1) as nat,
                            max_depth as nat,
                        ),
                    decreases children.len() - i,
                {
                    let ghost before = elements_view(kids@);
                    assert(decreases_to!(element => children[i as int])) by {
                        assert(decreases_to!(element => element.children));
                        assert(element.children->0 == *children);
                        assert(decreases_to!(element.children => element.children->0));
                        assert(decreases_to!(*children => children[i as int]));
                    }
                    match walk_tree(&children[i], depth + 1, max_depth) {
                        Ok(child) => {
                            let ghost old_kids = kids@;
                            kids.push(child);
                            assert(elements_view(kids@) =~= before.push(child@)) by {
                                assert(kids@ == old_kids.push(child));
                                assert forall|k: int|
                                    0 <= k < old_kids.len() implies element_view_at(kids@, k)
                                    == element_view_at(old_kids, k) by {}
                            }
                        },
                        Err(_) => {},
                    }
                    i += 1;
                }
            },
            None => {},
        }
    }
    let r = UIElement { name, control_type, bounding_rectangle: bounds, children: kids };
    Ok(r)
}

/// The text that stands for a property that could not be read.
pub open spec fn unknown() -> Seq<char> {
    "Unknown"@
}

/// What is reported of the focused element: its own properties, each
/// `Unknown` where it could not be read, and no children.
pub open spec fn focused_view(source: ElementSource) -> ElementView {
    ElementView {
        name: match source.name {
            Some(s) => s@,
            None => unknown(),
        },
        control_type: match source.control_type {
            Some(s) => s@,
            None => unknown(),
        },
        bounding_rectangle: match source.bounds {
            Some(b) => rect_text(b),
            None => unknown(),
        },
        children: Seq::<ElementView>::empty(),
    }
}

/// Describes the focused element. Nothing that cannot be read makes the
/// capture fail.
pub fn capture_focused_element(source: &ElementSource) -> (r: UIElement)
    ensures
        r@ == focused_view(*source),
{
    let name = match &source.name {
        Some(s) => s.clone(),
        None => String::from_str("Unknown"),
    };
    let control_type = match &source.control_type {
        Some(s) => s.clone(),
        None => String::from_str("Unknown"),
    };
    let bounds = match &source.bounds {
        Some(b) => format_rect(b),
        None => String::from_str("Unknown"),
    };
    UIElement::new(name, control_type, bounds)
}

/// The greatest height among the first `n` of `elements`, and 0 of none.
pub open spec fn tallest(elements: Seq<ElementView>, n: nat) -> nat
    decreases elements, n,
{
    if n == 0 || n > elements.len() {
        0
    } else {
        let before = tallest(elements, (n - 1) as nat);
        let h = height(elements[n - 1]);
        if h > before {
            h
        } else {
            before
        }
    }
}

/// The number of levels below an element: 0 where it has no children.
pub open spec fn height(e: ElementView) -> nat
    decreases e,
{
    if e.children.len() == 0 {
        0
    } else {
        1 + tallest(e.children, e.children.len())
    }
}

/// What the walk makes of children at `depth` reaches no deeper than
/// `max_depth`.
pub proof fn lemma_children_within_depth(
    children: Seq<ElementSource>,
    n: nat,
    depth: nat,
    max_depth: nat,
)
    requires
        depth <= max_depth,
    ensures
        tallest(
            walked_children(children, n, depth, max_depth),
            walked_children(children, n, depth, max_depth).len(),
        ) + depth <= max_depth,
    decreases children, n,
{
    if n == 0 || n > children.len() {
    } else {
        lemma_children_within_depth(children, (n - 1) as nat, depth, max_depth);
        let before = walked_children(children, (n - 1) as nat, depth, max_depth);
        match walked(children[n - 1], depth, max_depth) {
            Ok(e) => {
                lemma_walk_within_depth(children[n - 1], depth, max_depth);
                let all = before.push(e);
                assert(all.take(before.len() as int) =~= before);
                assert(before.take(before.len() as int) =~= before);
                lemma_tallest_same(all, before, before.len());
            },
            Err(_) => {},
        }
    }
}

/// The tallest of the first `n` of a sequence depends on those alone.
pub proof fn lemma_tallest_same(a: Seq<ElementView>, b: Seq<ElementView>, n: nat)
    requires
        n <= a.len(),
        n <= b.len(),
        a.take(n as int) == b.take(n as int),
    ensures
        tallest(a, n) == tallest(b, n),
    decreases n,
{
    if n > 0 {
        assert(a.take(n as int).take(n - 1) =~= a.take(n - 1));
        assert(b.take(n as int).take(n - 1) =~= b.take(n - 1));
        lemma_tallest_same(a, b, (n - 1) as nat);
        assert(a[n - 1] == a.take(n as int)[n - 1]);
        assert(b[n - 1] == b.take(n as int)[n - 1]);
    }
}

/// The walk goes no deeper than asked: what it makes of an element at
/// `depth` has at most `max_depth - depth` levels below it. An element at
/// `max_depth` has no children.
pub proof fn lemma_walk_within_depth(source: ElementSource, depth: nat, max_depth: nat)
    requires
        depth <= max_depth,
    ensures
        walked(source, depth, max_depth) matches Ok(e) ==> height(e) + depth <= max_depth,
    decreases source,
{
    if let Ok(e) = walked(source, depth, max_depth) {
        if depth < max_depth {
            if let Some(children) = source.children {
                lemma_children_within_depth(children@, children@.len(), depth + 1, max_depth);
            }
        }
    }
}

/// The document of the element of `children` at position `i`.
pub open spec fn child_json(children: Seq<ElementView>, i: int) -> JsonValue
    decreases children, 0nat,
{
    if 0 <= i < children.len() {
        element_json(children[i])
    } else {
        JsonValue::Null
    }
}

/// The documents of `children`, in order.
pub open spec fn children_json(children: Seq<ElementView>) -> Seq<JsonValue>
    decreases children, 1nat,
{
    Seq::new(children.len(), |i: int| child_json(children, i))
}

/// An element as a document: an object with the members `name`,
/// `control_type`, `bounding_rectangle` and `children`, in this order, the
/// last an array of the children's documents.
pub open spec fn element_json(e: ElementView) -> JsonValue
    decreases e,
{
    JsonValue::Object(
        seq![
            ("name"@, JsonValue::Text(e.name)),
            ("control_type"@, JsonValue::Text(e.control_type)),
            ("bounding_rectangle"@, JsonValue::Text(e.bounding_rectangle)),
            ("children"@, JsonValue::Array(children_json(e.children))),
        ],
    )
}

impl UIElement {
    /// The element as a document.
    pub fn to_json(&self) -> (r: Json)
        ensures
            r@ == element_json(self@),
        decreases self,
    {
        let mut items = no_items();
        let ghost kids = self@.children;
        let mut i: usize = 0;
        while i < self.children.len()
            invariant
                i <= self.children.len(),
                kids == elements_view(self.children@),
                items_value(items@) == children_json(kids).take(i as int),
            decreases self.children.len() - i,
        {
            assert(decreases_to!(self => self.children[i as int])) by {
                assert(decreases_to!(self => self.children));
                assert(decreases_to!(self.children => self.children[i as int]));
            }
            let child = self.children[i].to_json();
            let ghost before = items_value(items@);
            push_item(&mut items, child);
            assert(items_value(items@) =~= children_json(kids).take(i + 1)) by {
                assert(child@ == child_json(kids, i as int));
                assert(children_json(kids).take(i + 1) =~= children_json(kids).take(i as int).push(
                    children_json(kids)[i as int],
                ));
            }
            i += 1;
        }
        assert(children_json(kids).take(kids.len() as int) =~= children_json(kids));
        let mut members = no_members();
        push_member(&mut members, "name", text_document(self.name.as_str()));
        push_member(&mut members, "control_type", text_document(self.control_type.as_str()));
        push_member(
            &mut members,
            "bounding_rectangle",
            text_document(self.bounding_rectangle.as_str()),
        );
        push_member(&mut members, "children", array_document(items));
        assert(members_value(members@) =~= seq![
            ("name"@, JsonValue::Text(self@.name)),
            ("control_type"@, JsonValue::Text(self@.control_type)),
            ("bounding_rectangle"@, JsonValue::Text(self@.bounding_rectangle)),
            ("children"@, JsonValue::Array(children_json(kids))),
        ]);
        object_document(members)
    }

    /// The element as the text of a document.
    pub fn to_json_text(&self) -> (r: String)
        ensures
            r@ == rendered(element_json(self@)),
    {
        self.to_json().render()
    }
}

} // verus!
