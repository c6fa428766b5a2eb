//! The document data model: elements, nodes, named styles, list bullets and
//! the assembled document root.

use crate::assoc::{AssocMap, PropMap};
use vstd::prelude::*;

verus! {

/// A tracked element of the content tree: a heading, paragraph or inline
/// span, with its extracted attributes, its resolved style properties, and
/// its ordered children.
pub struct Element {
    pub kind: String,
    pub attributes: PropMap,
    pub styles: PropMap,
    pub children: Vec<Node>,
}

/// A node of the content tree; text is a leaf.
pub enum Node {
    Element(Element),
    Text(String),
}

/// The mathematical face of an element: its maps as maps, its strings as
/// character sequences; children stay a sequence of nodes.
#[verifier::ext_equal]
pub ghost struct ElementV {
    pub kind: Seq<char>,
    pub attributes: Map<Seq<char>, Seq<char>>,
    pub styles: Map<Seq<char>, Seq<char>>,
    pub children: Seq<Node>,
}

impl View for Element {
    type V = ElementV;

    open spec fn view(&self) -> ElementV {
        ElementV {
            kind: self.kind@,
            attributes: self.attributes@,
            styles: self.styles@,
            children: self.children@,
        }
    }
}

impl Element {
    /// A fresh element of the given kind, with no attributes, no styles and
    /// no children.
    pub fn new(kind: String) -> (r: Element)
        ensures
            r@.kind == kind@,
            r@.attributes == Map::<Seq<char>, Seq<char>>::empty(),
            r@.styles == Map::<Seq<char>, Seq<char>>::empty(),
            r@.children == Seq::<Node>::empty(),
    {
        Element {
            kind,
            attributes: AssocMap::new(),
            styles: AssocMap::new(),
            children: Vec::new(),
        }
    }
}

/// One entry of the named-style table: the displayed name, the unresolved
/// parent link (consumers flatten it; existence is not validated here), an
/// optional heading template, and the flat property map.
pub struct Style {
    pub display_name: String,
    pub parent: Option<String>,
    pub template: Option<Element>,
    pub styles: PropMap,
}

/// The mathematical face of a named style.
#[verifier::ext_equal]
pub ghost struct StyleV {
    pub display_name: Seq<char>,
    pub parent: Option<Seq<char>>,
    pub template: Option<ElementV>,
    pub styles: Map<Seq<char>, Seq<char>>,
}

impl View for Style {
    type V = StyleV;

    open spec fn view(&self) -> StyleV {
        StyleV {
            display_name: self.display_name@,
            parent: match self.parent {
                Some(p) => Some(p@),
                None => None,
            },
            template: match self.template {
                Some(e) => Some(e@),
                None => None,
            },
            styles: self.styles@,
        }
    }
}

impl Style {
    /// A fresh style with an empty property map.
    pub fn new(display_name: String, parent: Option<String>, template: Option<Element>) -> (r:
        Style)
        ensures
            r@.display_name == display_name@,
            r@.parent == match parent {
                Some(p) => Some(p@),
                None => None::<Seq<char>>,
            },
            r@.template == match template {
                Some(e) => Some(e@),
                None => None::<ElementV>,
            },
            r@.styles == Map::<Seq<char>, Seq<char>>::empty(),
    {
        Style { display_name, parent, template, styles: AssocMap::new() }
    }
}

/// One outline level's bullet definition.
pub enum ListBullet {
    /// A literal bullet character, with optional prefix and suffix.
    Character { prefix: Option<String>, suffix: Option<String>, bullet_char: String },
    /// A numbering scheme, with optional prefix, suffix and start value.
    Variant {
        prefix: Option<String>,
        suffix: Option<String>,
        start_value: Option<u32>,
        variant: String,
    },
    /// An image bullet referenced by hyperlink.
    Image { prefix: Option<String>, suffix: Option<String>, href: String },
}

/// Whether a bullet is the default for an outline level nothing defined: a
/// filled-bullet numbering variant with no prefix, suffix or start value.
pub open spec fn is_default_bullet(b: ListBullet) -> bool {
    match b {
        ListBullet::Variant { prefix, suffix, start_value, variant } => {
            &&& prefix is None
            &&& suffix is None
            &&& start_value is None
            &&& variant@ == "filledBullet"@
        },
        _ => false,
    }
}

/// The default bullet for outline levels nothing defines.
pub fn default_bullet() -> (r: ListBullet)
    ensures
        is_default_bullet(r),
{
    ListBullet::Variant {
        prefix: None,
        suffix: None,
        start_value: None,
        variant: "filledBullet".to_owned(),
    }
}

/// A fixed sequence of ten bullet slots, one per outline level, every slot at
/// the default.
pub fn default_bullet_list() -> (r: Vec<ListBullet>)
    ensures
        r@.len() == 10,
        forall|i: int| 0 <= i < 10 ==> is_default_bullet(#[trigger] r@[i]),
{
    let mut out: Vec<ListBullet> = Vec::new();
    let mut i: usize = 0;
    while i < 10
        invariant
            0 <= i <= 10,
            out@.len() == i,
            forall|j: int| 0 <= j < i ==> is_default_bullet(#[trigger] out@[j]),
        decreases 10 - i,
    {
        out.push(default_bullet());
        i = i + 1;
    }
    out
}

/// The assembled document root: the content pass's ordered root nodes and the
/// styles pass's named-style table.
pub struct Document {
    pub children: Vec<Node>,
    pub styles: StyleSheet,
}

/// The named-style table, keyed by style name (a default style is keyed by
/// its family name).
pub struct StyleSheet {
    pub classes: AssocMap<Style>,
}

impl Document {
    /// An empty document: no content, no named styles.
    pub fn new() -> (r: Document)
        ensures
            r@.children == Seq::<Node>::empty(),
            r@.styles == Map::<Seq<char>, StyleV>::empty(),
    {
        Document { children: Vec::new(), styles: StyleSheet { classes: AssocMap::new() } }
    }
}

/// The mathematical face of the document root.
#[verifier::ext_equal]
pub ghost struct DocumentV {
    pub children: Seq<Node>,
    pub styles: Map<Seq<char>, StyleV>,
}

impl View for Document {
    type V = DocumentV;

    open spec fn view(&self) -> DocumentV {
        DocumentV { children: self.children@, styles: self.styles.classes@ }
    }
}

} // verus!


verus! {

/// The deep mathematical face of a node: the whole subtree, as character
/// sequences, maps and sequences of faces.
#[verifier::ext_equal]
pub ghost enum NodeFace {
    Element(ElementFace),
    Text(Seq<char>),
}

/// The deep mathematical face of an element.
#[verifier::ext_equal]
pub ghost struct ElementFace {
    pub kind: Seq<char>,
    pub attributes: Map<Seq<char>, Seq<char>>,
    pub styles: Map<Seq<char>, Seq<char>>,
    pub children: Seq<NodeFace>,
}

/// The whole subtree a node denotes.
pub open spec fn node_face(n: Node) -> NodeFace
    decreases n,
{
    match n {
        Node::Text(t) => NodeFace::Text(t@),
        Node::Element(e) => NodeFace::Element(
            ElementFace {
                kind: e.kind@,
                attributes: e.attributes@,
                styles: e.styles@,
                children: node_faces(e.children@),
            },
        ),
    }
}

/// The subtrees a sequence of nodes denotes, in order.
pub open spec fn node_faces(s: Seq<Node>) -> Seq<NodeFace>
    decreases s,
{
    if s.len() == 0 {
        Seq::empty()
    } else {
        node_faces(s.drop_last()).push(node_face(s.last()))
    }
}


/// The deep face of an element, its children as subtrees.
pub open spec fn elem_face(e: Element) -> ElementFace {
    ElementFace {
        kind: e.kind@,
        attributes: e.attributes@,
        styles: e.styles@,
        children: node_faces(e.children@),
    }
}

pub proof fn lemma_node_faces_push(s: Seq<Node>, n: Node)
    ensures
        node_faces(s.push(n)) == node_faces(s).push(node_face(n)),
{
    assert(s.push(n).drop_last() =~= s);
    assert(s.push(n).last() == n);
}

} // verus!
