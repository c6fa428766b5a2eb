//! The content tree builder: consumes the ordered event stream of a
//! package's content entry, collecting automatic styles first and then
//! building the body's node tree with an explicit element stack, underline
//! reconciliation running in lockstep with it.

use crate::assoc::{AssocMap, PropMap};
use crate::events::{attr_or_empty, find_attr, first_fault, stream_has_fault, OdtEvent, XmlAttribute};
use crate::model::{
    elem_face, lemma_node_faces_push, node_faces, Document, Element, ElementFace, Node, NodeFace,
};
use crate::outside::{collect_events, entry_of, tokens_of, zip_entry};
use crate::OdtError;
use crate::strutil::{dec_str, spec_parse_u32_or, str_eq, u32_to_string, parse_u32_or};
use crate::translators::{apply_text_props, text_properties_begin};
use vstd::prelude::*;

verus! {

/// The property map an automatic style name resolves to: the table's entry,
/// or the empty map when the name is absent (not an error).
pub open spec fn style_of(
    auto: Map<Seq<char>, Map<Seq<char>, Seq<char>>>,
    name: Seq<char>,
) -> Map<Seq<char>, Seq<char>> {
    if auto.contains_key(name) {
        auto[name]
    } else {
        Map::empty()
    }
}

/// The underline-propagation flag a newly opened scope carries: a declared
/// underline whose colour is the font colour turns it on; anything else —
/// another declared colour, no colour, no underline — leaves it inherited
/// from the surrounding scope.
pub open spec fn open_set_children_underline(
    style: Map<Seq<char>, Seq<char>>,
    inherited: bool,
) -> bool {
    if style.contains_key("textDecorationLine"@) && style["textDecorationLine"@] == "underline"@
        && style.contains_key("textDecorationColor"@) && style["textDecorationColor"@]
        == "currentcolor"@ {
        true
    } else {
        inherited
    }
}

/// The suppression flag a newly opened scope carries: a declared underline
/// turns it on, a declared "none" turns it off, anything else inherits.
pub open spec fn open_ensure_no_underline(
    style: Map<Seq<char>, Seq<char>>,
    inherited: bool,
) -> bool {
    if style.contains_key("textDecorationLine"@) {
        if style["textDecorationLine"@] == "underline"@ {
            true
        } else if style["textDecorationLine"@] == "none"@ {
            false
        } else {
            inherited
        }
    } else {
        inherited
    }
}

/// What a closing span's declared properties become under the now-exposed
/// parent scope's flags: a propagated underline overwrites any declared line
/// but "none"; a declared "none" under suppression gains a structural
/// isolation override instead; no declared line at all gains an underline.
pub open spec fn close_underline(
    m: Map<Seq<char>, Seq<char>>,
    set_children_underline: bool,
    ensure_children_no_underline: bool,
) -> Map<Seq<char>, Seq<char>> {
    if set_children_underline {
        if m.contains_key("textDecorationLine"@) {
            if m["textDecorationLine"@] != "none"@ {
                m.insert("textDecorationLine"@, "underline"@)
            } else if ensure_children_no_underline {
                m.insert("display"@, "inline-block"@)
            } else {
                m
            }
        } else {
            m.insert("textDecoration"@, "underline"@)
        }
    } else if ensure_children_no_underline {
        if m.contains_key("textDecorationLine"@) && m["textDecorationLine"@] == "none"@ {
            m.insert("display"@, "inline-block"@)
        } else {
            m
        }
    } else {
        m
    }
}

/// The outline level a heading tag's attributes carry: the parsed
/// outline-level attribute, one when it does not parse, zero when absent.
pub open spec fn spec_heading_level(attrs: Seq<XmlAttribute>) -> u32 {
    match crate::events::attr_last(attrs, "text"@, "outline-level"@) {
        Some(v) => spec_parse_u32_or(v, 1),
        None => 0,
    }
}

/// Builds a heading element from a heading tag's attributes: the outline
/// level is extracted into the element's attribute map, and the style-name
/// reference is handed back for resolution.
pub fn heading_begin(attributes: &Vec<XmlAttribute>) -> (r: (Element, String))
    ensures
        r.0@.kind == "heading"@,
        r.0@.attributes == Map::<Seq<char>, Seq<char>>::empty().insert(
            "level"@,
            dec_str(spec_heading_level(attributes@) as nat),
        ),
        r.0@.styles == Map::<Seq<char>, Seq<char>>::empty(),
        r.0@.children == Seq::<Node>::empty(),
        r.1@ == attr_or_empty(attributes@, "text"@, "style-name"@),
{
    let level: u32 = match find_attr(attributes, "text", "outline-level") {
        Some(v) => parse_u32_or(v.as_str(), 1),
        None => 0,
    };
    let style_name: String = match find_attr(attributes, "text", "style-name") {
        Some(v) => v.clone(),
        None => String::new(),
    };
    let mut element = Element::new("heading".to_owned());
    element.attributes.insert("level".to_owned(), u32_to_string(level));
    (element, style_name)
}

/// Builds a paragraph element from a paragraph tag's attributes, handing the
/// style-name reference back for resolution.
pub fn paragraph_begin(attributes: &Vec<XmlAttribute>) -> (r: (Element, String))
    ensures
        r.0@.kind == "paragraph"@,
        r.0@.attributes == Map::<Seq<char>, Seq<char>>::empty(),
        r.0@.styles == Map::<Seq<char>, Seq<char>>::empty(),
        r.0@.children == Seq::<Node>::empty(),
        r.1@ == attr_or_empty(attributes@, "text"@, "style-name"@),
{
    let style_name: String = match find_attr(attributes, "text", "style-name") {
        Some(v) => v.clone(),
        None => String::new(),
    };
    (Element::new("paragraph".to_owned()), style_name)
}

/// Builds a span element from a span tag's attributes, handing the
/// style-name reference back for resolution.
pub fn span_begin(attributes: &Vec<XmlAttribute>) -> (r: (Element, String))
    ensures
        r.0@.kind == "span"@,
        r.0@.attributes == Map::<Seq<char>, Seq<char>>::empty(),
        r.0@.styles == Map::<Seq<char>, Seq<char>>::empty(),
        r.0@.children == Seq::<Node>::empty(),
        r.1@ == attr_or_empty(attributes@, "text"@, "style-name"@),
{
    let style_name: String = match find_attr(attributes, "text", "style-name") {
        Some(v) => v.clone(),
        None => String::new(),
    };
    (Element::new("span".to_owned()), style_name)
}

/// The name a style-definition tag declares, empty when absent; used while
/// collecting automatic styles.
pub fn style_begin(attributes: &Vec<XmlAttribute>) -> (r: String)
    ensures
        r@ == attr_or_empty(attributes@, "style"@, "name"@),
{
    match find_attr(attributes, "style", "name") {
        Some(v) => v.clone(),
        None => String::new(),
    }
}

/// Resolves an element's style-name reference against the automatic style
/// table and opens its underline scope: the element gains the resolved
/// property map, and the two flags for the new scope derive from the map and
/// the surrounding scope's flags.
pub fn check_underline(
    params: (Element, String),
    auto_styles: &AssocMap<PropMap>,
    set_children_underline_old: bool,
    ensure_children_no_underline_old: bool,
) -> (r: (Element, bool, bool))
    ensures
        r.0@.kind == params.0@.kind,
        r.0@.attributes == params.0@.attributes,
        r.0@.children == params.0@.children,
        r.0@.styles == style_of(auto_styles@, params.1@),
        r.1 == open_set_children_underline(
            style_of(auto_styles@, params.1@),
            set_children_underline_old,
        ),
        r.2 == open_ensure_no_underline(
            style_of(auto_styles@, params.1@),
            ensure_children_no_underline_old,
        ),
{
    let (mut element, style_name) = params;
    let mut set_children_underline = set_children_underline_old;
    let mut ensure_children_no_underline = ensure_children_no_underline_old;
    let style: PropMap = match auto_styles.get(style_name.as_str()) {
        Some(m) => m.duplicate(),
        None => AssocMap::new(),
    };
    match style.get("textDecorationLine") {
        Some(x) => {
            if str_eq(x.as_str(), "underline") {
                ensure_children_no_underline = true;
                match style.get("textDecorationColor") {
                    Some(c) => {
                        if str_eq(c.as_str(), "currentcolor") {
                            set_children_underline = true;
                        }
                    },
                    None => {},
                }
            } else if str_eq(x.as_str(), "none") {
                ensure_children_no_underline = false;
            }
        },
        None => {},
    }
    element.styles = style;
    (element, set_children_underline, ensure_children_no_underline)
}

/// Applies underline reconciliation to a closing span's declared properties,
/// using the flags of the scope the close exposes.
pub fn handle_underline(
    style_map: &mut PropMap,
    set_children_underline: bool,
    ensure_children_no_underline: bool,
)
    ensures
        final(style_map)@ == close_underline(
            old(style_map)@,
            set_children_underline,
            ensure_children_no_underline,
        ),
{
    let mut has_line = false;
    let mut line_none = false;
    match style_map.get("textDecorationLine") {
        Some(x) => {
            has_line = true;
            line_none = str_eq(x.as_str(), "none");
        },
        None => {},
    }
    if set_children_underline {
        if has_line {
            if !line_none {
                style_map.insert("textDecorationLine".to_owned(), "underline".to_owned());
            } else if ensure_children_no_underline {
                style_map.insert("display".to_owned(), "inline-block".to_owned());
            }
        } else {
            style_map.insert("textDecoration".to_owned(), "underline".to_owned());
        }
    } else if ensure_children_no_underline {
        if has_line && line_none {
            style_map.insert("display".to_owned(), "inline-block".to_owned());
        }
    }
}

/// The content pass's state: mode flags, the automatic style table, the
/// element stack, and the underline flag stacks that grow and shrink with it
/// one for one.
pub struct ODTParser {
    pub body_begin: bool,
    pub styles_begin: bool,
    pub auto_styles: AssocMap<PropMap>,
    pub set_children_underline: Vec<bool>,
    pub ensure_children_no_underline: Vec<bool>,
    pub document_root: Document,
    pub document_hierarchy: Vec<Element>,
}

impl ODTParser {
    /// The flag stacks mirror the element stack one for one.
    pub open spec fn stacks_aligned(&self) -> bool {
        &&& self.set_children_underline@.len() == self.document_hierarchy@.len()
        &&& self.ensure_children_no_underline@.len() == self.document_hierarchy@.len()
    }

    /// A fresh parser: no mode entered, everything empty.
    pub fn new() -> (r: ODTParser)
        ensures
            !r.body_begin,
            !r.styles_begin,
            r.auto_styles@ == Map::<Seq<char>, Map<Seq<char>, Seq<char>>>::empty(),
            r.set_children_underline@ == Seq::<bool>::empty(),
            r.ensure_children_no_underline@ == Seq::<bool>::empty(),
            r.document_root@.children == Seq::<Node>::empty(),
            r.document_root@.styles == Map::<Seq<char>, crate::model::StyleV>::empty(),
            r.document_hierarchy@ == Seq::<Element>::empty(),
            r.stacks_aligned(),
    {
        ODTParser {
            body_begin: false,
            styles_begin: false,
            auto_styles: AssocMap::new(),
            set_children_underline: Vec::new(),
            ensure_children_no_underline: Vec::new(),
            document_root: Document::new(),
            document_hierarchy: Vec::new(),
        }
    }

    /// Attaches character data as a text node of the innermost open element;
    /// with nothing open, the characters are dropped.
    pub fn handle_characters(&mut self, contents: String)
        ensures
            old(self).document_hierarchy@.len() == 0 ==> *final(self) == *old(self),
            old(self).document_hierarchy@.len() > 0 ==> {
                let n = old(self).document_hierarchy@.len() as int;
                let e0 = old(self).document_hierarchy@[n - 1];
                &&& final(self).document_hierarchy@ == old(self).document_hierarchy@.update(
                    n - 1,
                    final(self).document_hierarchy@[n - 1],
                )
                &&& final(self).document_hierarchy@[n - 1]@ == crate::model::ElementV {
                    children: e0@.children.push(Node::Text(contents)),
                    ..e0@
                }
                &&& final(self).body_begin == old(self).body_begin
                &&& final(self).styles_begin == old(self).styles_begin
                &&& final(self).auto_styles == old(self).auto_styles
                &&& final(self).set_children_underline == old(self).set_children_underline
                &&& final(self).ensure_children_no_underline == old(
                    self,
                ).ensure_children_no_underline
                &&& final(self).document_root == old(self).document_root
            },
    {
        if self.document_hierarchy.is_empty() {
            return ;
        }
        let mut element = self.document_hierarchy.pop().unwrap();
        element.children.push(Node::Text(contents));
        self.document_hierarchy.push(element);
        proof {
            assert(self.document_hierarchy@ =~= old(self).document_hierarchy@.update(
                old(self).document_hierarchy@.len() - 1,
                self.document_hierarchy@[old(self).document_hierarchy@.len() - 1],
            ));
        }
    }
}


/// Whether a local name is one of the three tracked body kinds.
pub open spec fn is_tracked_kind(local: Seq<char>) -> bool {
    local == "h"@ || local == "p"@ || local == "span"@
}

/// The element kind a tracked tag's local name builds.
pub open spec fn kind_name(local: Seq<char>) -> Seq<char> {
    if local == "h"@ {
        "heading"@
    } else if local == "p"@ {
        "paragraph"@
    } else {
        "span"@
    }
}

/// The flag at the top of an underline flag stack, or false at the bottom.
pub open spec fn flag_top(flags: Seq<bool>) -> bool {
    flags.len() > 0 && flags.last()
}

pub open spec fn opt_str_view(o: Option<String>) -> Option<Seq<char>> {
    match o {
        Some(s) => Some(s@),
        None => None,
    }
}

pub open spec fn opt_map_view(o: Option<PropMap>) -> Option<Map<Seq<char>, Seq<char>>> {
    match o {
        Some(m) => Some(m@),
        None => None,
    }
}

/// How opening a tracked tag changes the parser: the built element — its
/// styles resolved against the automatic style table — goes onto the stack
/// together with its fresh underline flag pair; nothing else moves.
pub open spec fn pushes_tracked(
    p0: ODTParser,
    p1: ODTParser,
    local: Seq<char>,
    attrs: Seq<XmlAttribute>,
) -> bool {
    let style_name = attr_or_empty(attrs, "text"@, "style-name"@);
    let style = style_of(p0.auto_styles@, style_name);
    let scu_old = flag_top(p0.set_children_underline@);
    let ecnu_old = flag_top(p0.ensure_children_no_underline@);
    &&& p1.document_hierarchy@.len() == p0.document_hierarchy@.len() + 1
    &&& p1.document_hierarchy@.drop_last() == p0.document_hierarchy@
    &&& p1.document_hierarchy@.last()@.kind == kind_name(local)
    &&& p1.document_hierarchy@.last()@.styles == style
    &&& p1.document_hierarchy@.last()@.children == Seq::<Node>::empty()
    &&& p1.document_hierarchy@.last()@.attributes == if local == "h"@ {
        Map::<Seq<char>, Seq<char>>::empty().insert(
            "level"@,
            dec_str(spec_heading_level(attrs) as nat),
        )
    } else {
        Map::<Seq<char>, Seq<char>>::empty()
    }
    &&& p1.set_children_underline@ == p0.set_children_underline@.push(
        open_set_children_underline(style, scu_old),
    )
    &&& p1.ensure_children_no_underline@ == p0.ensure_children_no_underline@.push(
        open_ensure_no_underline(style, ecnu_old),
    )
    &&& p1.body_begin == p0.body_begin
    &&& p1.styles_begin == p0.styles_begin
    &&& p1.auto_styles == p0.auto_styles
    &&& p1.document_root == p0.document_root
}

/// Everything a StartElement event does to the parser, by case, in the order
/// the tags are tested: entering the body region; tracked and inert tags
/// inside the body; entering the automatic-styles region; pending style
/// names and pending translated maps inside the styles region.
pub open spec fn content_start_post(
    p0: ODTParser,
    p1: ODTParser,
    prefix: Seq<char>,
    local: Seq<char>,
    attrs: Seq<XmlAttribute>,
    rname: Option<Seq<char>>,
    rval: Option<Map<Seq<char>, Seq<char>>>,
) -> bool {
    if prefix.len() == 0 {
        p1 == p0 && rname is None && rval is None
    } else if prefix == "office"@ && local == "body"@ {
        p1 == ODTParser { body_begin: true, ..p0 } && rname is None && rval is None
    } else if p0.body_begin {
        if prefix == "text"@ && is_tracked_kind(local) {
            pushes_tracked(p0, p1, local, attrs) && rname is None && rval is None
        } else {
            p1 == p0 && rname is None && rval is None
        }
    } else if prefix == "office"@ && local == "automatic-styles"@ {
        p1 == ODTParser { styles_begin: true, ..p0 } && rname is None && rval is None
    } else if p0.styles_begin {
        if prefix == "style"@ && local == "style"@ {
            p1 == p0 && rname == Some(attr_or_empty(attrs, "style"@, "name"@)) && rval is None
        } else if prefix == "style"@ && local == "text-properties"@ {
            p1 == p0 && rname is None && rval == Some(
                apply_text_props(Map::<Seq<char>, Seq<char>>::empty(), attrs),
            )
        } else {
            p1 == p0 && rname is None && rval is None
        }
    } else {
        p1 == p0 && rname is None && rval is None
    }
}

/// A popped element after close-logic: its declared properties run through
/// underline reconciliation when it is a span, and stay as they are
/// otherwise; every other part of it is the popped element's.
pub open spec fn closed_child_ok(
    popped: Element,
    child: Element,
    local: Seq<char>,
    scu: bool,
    ecnu: bool,
) -> bool {
    child@ == crate::model::ElementV {
        styles: if local == "span"@ {
            close_underline(popped@.styles, scu, ecnu)
        } else {
            popped@.styles
        },
        ..popped@
    }
}

/// How closing a tracked tag changes the parser: the element and its flag
/// pair pop together — the pop first, so close-logic reads the exposed parent
/// scope's flags — and the closed element attaches to the new stack top, or
/// to the root when the stack has emptied.
pub open spec fn pops_tracked(p0: ODTParser, p1: ODTParser, local: Seq<char>) -> bool {
    let n = p0.document_hierarchy@.len() as int;
    let popped = p0.document_hierarchy@[n - 1];
    let scu = flag_top(p0.set_children_underline@.drop_last());
    let ecnu = flag_top(p0.ensure_children_no_underline@.drop_last());
    &&& p1.set_children_underline@ == p0.set_children_underline@.drop_last()
    &&& p1.ensure_children_no_underline@ == p0.ensure_children_no_underline@.drop_last()
    &&& p1.body_begin == p0.body_begin
    &&& p1.styles_begin == p0.styles_begin
    &&& p1.auto_styles == p0.auto_styles
    &&& p1.document_root.styles == p0.document_root.styles
    &&& if n == 1 {
        &&& p1.document_hierarchy@ == Seq::<Element>::empty()
        &&& exists|child: Element|
            #[trigger] closed_child_ok(popped, child, local, scu, ecnu)
                && p1.document_root.children@ == p0.document_root.children@.push(
                Node::Element(child),
            )
    } else {
        &&& p1.document_root == p0.document_root
        &&& p1.document_hierarchy@.len() == n - 1
        &&& forall|j: int|
            0 <= j < n - 2 ==> p1.document_hierarchy@[j] == p0.document_hierarchy@[j]
        &&& exists|child: Element|
            #[trigger] closed_child_ok(popped, child, local, scu, ecnu)
                && p1.document_hierarchy@[n - 2]@ == crate::model::ElementV {
                children: p0.document_hierarchy@[n - 2]@.children.push(Node::Element(child)),
                ..p0.document_hierarchy@[n - 2]@
            }
    }
}

/// Everything an EndElement event does to the parser, by case: leaving the
/// body region; closing tracked tags (an unmatched one is a no-op); leaving
/// the automatic-styles region; committing a pending automatic style. The
/// result hands the pending name and map back unless the commit consumed
/// them.
pub open spec fn content_end_post(
    p0: ODTParser,
    p1: ODTParser,
    prefix: Seq<char>,
    local: Seq<char>,
    namev: Seq<char>,
    valv: Map<Seq<char>, Seq<char>>,
    returned: Option<(Seq<char>, Map<Seq<char>, Seq<char>>)>,
) -> bool {
    if p0.body_begin {
        if prefix == "office"@ && local == "body"@ {
            p1 == ODTParser { body_begin: false, ..p0 } && returned == Some((namev, valv))
        } else if prefix == "text"@ && is_tracked_kind(local) {
            if p0.document_hierarchy@.len() == 0 {
                p1 == p0 && returned == Some((namev, valv))
            } else {
                pops_tracked(p0, p1, local) && returned == Some((namev, valv))
            }
        } else {
            p1 == p0 && returned == Some((namev, valv))
        }
    } else if p0.styles_begin {
        if prefix == "office"@ && local == "automatic-styles"@ {
            p1 == ODTParser { styles_begin: false, ..p0 } && returned == Some((namev, valv))
        } else if prefix == "style"@ && local == "style"@ {
            &&& p1.auto_styles@ == p0.auto_styles@.insert(namev, valv)
            &&& p1.body_begin == p0.body_begin
            &&& p1.styles_begin == p0.styles_begin
            &&& p1.set_children_underline == p0.set_children_underline
            &&& p1.ensure_children_no_underline == p0.ensure_children_no_underline
            &&& p1.document_root == p0.document_root
            &&& p1.document_hierarchy == p0.document_hierarchy
            &&& returned is None
        } else {
            p1 == p0 && returned == Some((namev, valv))
        }
    } else {
        p1 == p0 && returned == Some((namev, valv))
    }
}

impl ODTParser {
    /// Handles a StartElement event: tracks the body and styles regions,
    /// opens tracked elements with their underline scopes, and records a
    /// pending automatic style name or translated property map.
    pub fn handle_element_start(&mut self, prefix: &str, local: &str, attributes: &Vec<
        XmlAttribute,
    >) -> (r: (Option<String>, Option<PropMap>))
        ensures
            content_start_post(
                *old(self),
                *final(self),
                prefix@,
                local@,
                attributes@,
                opt_str_view(r.0),
                opt_map_view(r.1),
            ),
            old(self).stacks_aligned() ==> final(self).stacks_aligned(),
    {
        if prefix.is_empty() {
            return (None, None);
        }
        if str_eq(prefix, "office") && str_eq(local, "body") {
            self.body_begin = true;
            return (None, None);
        }
        if self.body_begin {
            if !str_eq(prefix, "text") {
                return (None, None);
            }
            if str_eq(local, "h") || str_eq(local, "p") || str_eq(local, "span") {
                let k = self.set_children_underline.len();
                let scu_old = k > 0 && self.set_children_underline[k - 1];
                let m = self.ensure_children_no_underline.len();
                let ecnu_old = m > 0 && self.ensure_children_no_underline[m - 1];
                let params = if str_eq(local, "h") {
                    heading_begin(attributes)
                } else if str_eq(local, "p") {
                    paragraph_begin(attributes)
                } else {
                    span_begin(attributes)
                };
                let (element, scu_new, ecnu_new) = check_underline(
                    params,
                    &self.auto_styles,
                    scu_old,
                    ecnu_old,
                );
                self.ensure_children_no_underline.push(ecnu_new);
                self.set_children_underline.push(scu_new);
                self.document_hierarchy.push(element);
                proof {
                    assert(self.document_hierarchy@.drop_last() =~= old(
                        self,
                    ).document_hierarchy@);
                }
            }
            return (None, None);
        }
        if str_eq(prefix, "office") && str_eq(local, "automatic-styles") {
            self.styles_begin = true;
            return (None, None);
        }
        if self.styles_begin {
            if str_eq(prefix, "style") && str_eq(local, "style") {
                return (Some(style_begin(attributes)), None);
            }
            if str_eq(prefix, "style") && str_eq(local, "text-properties") {
                let mut value: PropMap = AssocMap::new();
                text_properties_begin(attributes, &mut value);
                return (None, Some(value));
            }
            return (None, None);
        }
        (None, None)
    }

    /// Handles an EndElement event: closes the body or styles region, pops
    /// and attaches tracked elements with close-logic on spans, commits a
    /// pending automatic style on its defining tag's end, and otherwise hands
    /// the pending name and map back.
    pub fn handle_element_end(
        &mut self,
        prefix: &str,
        local: &str,
        current_style_name: String,
        current_style_value: PropMap,
    ) -> (r: Option<(String, PropMap)>)
        requires
            old(self).stacks_aligned(),
        ensures
            final(self).stacks_aligned(),
            content_end_post(
                *old(self),
                *final(self),
                prefix@,
                local@,
                current_style_name@,
                current_style_value@,
                match r {
                    Some(p) => Some((p.0@, p.1@)),
                    None => None,
                },
            ),
    {
        if self.body_begin {
            if str_eq(prefix, "office") && str_eq(local, "body") {
                self.body_begin = false;
                return Some((current_style_name, current_style_value));
            }
            if str_eq(prefix, "text") && (str_eq(local, "h") || str_eq(local, "p") || str_eq(
                local,
                "span",
            )) {
                if self.document_hierarchy.is_empty() {
                    return Some((current_style_name, current_style_value));
                }
                self.set_children_underline.pop();
                self.ensure_children_no_underline.pop();
                let mut child = self.document_hierarchy.pop().unwrap();
                let ghost popped = child;
                if str_eq(local, "span") {
                    let k = self.set_children_underline.len();
                    let scu = k > 0 && self.set_children_underline[k - 1];
                    let m = self.ensure_children_no_underline.len();
                    let ecnu = m > 0 && self.ensure_children_no_underline[m - 1];
                    handle_underline(&mut child.styles, scu, ecnu);
                }
                proof {
                    assert(closed_child_ok(
                        popped,
                        child,
                        local@,
                        flag_top(old(self).set_children_underline@.drop_last()),
                        flag_top(old(self).ensure_children_no_underline@.drop_last()),
                    ));
                }
                if self.document_hierarchy.is_empty() {
                    self.document_root.children.push(Node::Element(child));
                    proof {
                        let n = old(self).document_hierarchy@.len() as int;
                        assert(n == 1);
                        assert(self.document_hierarchy@ =~= Seq::<Element>::empty());
                        assert(pops_tracked(*old(self), *self, local@));
                    }
                } else {
                    let mut parent = self.document_hierarchy.pop().unwrap();
                    parent.children.push(Node::Element(child));
                    self.document_hierarchy.push(parent);
                    proof {
                        let n = old(self).document_hierarchy@.len() as int;
                        assert(self.document_hierarchy@ =~= old(
                            self,
                        ).document_hierarchy@.drop_last().update(
                            n - 2,
                            self.document_hierarchy@[n - 2],
                        ));
                        assert(pops_tracked(*old(self), *self, local@));
                    }
                }
                return Some((current_style_name, current_style_value));
            }
            return Some((current_style_name, current_style_value));
        }
        if self.styles_begin {
            if str_eq(prefix, "office") && str_eq(local, "automatic-styles") {
                self.styles_begin = false;
                return Some((current_style_name, current_style_value));
            }
            if str_eq(prefix, "style") && str_eq(local, "style") {
                self.auto_styles.insert(current_style_name, current_style_value);
                return None;
            }
            return Some((current_style_name, current_style_value));
        }
        Some((current_style_name, current_style_value))
    }
}


/// Whether an event opens a tracked body element.
pub open spec fn ev_tracked_start(e: OdtEvent) -> bool {
    match e {
        OdtEvent::Start { prefix, local, .. } => prefix@ == "text"@ && is_tracked_kind(local@),
        _ => false,
    }
}

/// Whether an event closes a tracked body element.
pub open spec fn ev_tracked_end(e: OdtEvent) -> bool {
    match e {
        OdtEvent::End { prefix, local } => prefix@ == "text"@ && is_tracked_kind(local@),
        _ => false,
    }
}

/// The element kind a tracked start event builds.
pub open spec fn ev_kind(e: OdtEvent) -> Seq<char> {
    match e {
        OdtEvent::Start { local, .. } => kind_name(local@),
        _ => Seq::empty(),
    }
}

/// Whether an event keeps the parser inside the body region: everything but
/// the body region's own closing tag does.
pub open spec fn ev_body_ok(e: OdtEvent) -> bool {
    match e {
        OdtEvent::End { prefix, local } => !(prefix@ == "office"@ && local@ == "body"@),
        _ => true,
    }
}

pub open spec fn all_body_events(s: Seq<OdtEvent>) -> bool {
    forall|i: int| 0 <= i < s.len() ==> ev_body_ok(#[trigger] s[i])
}

/// The shape of the body build: the kinds of the elements still open, bottom
/// first, and the kinds of the elements the root has received, in order.
#[verifier::ext_equal]
pub ghost struct BodyShape {
    pub open_kinds: Seq<Seq<char>>,
    pub root_kinds: Seq<Seq<char>>,
}

/// How one body event moves the shape: a tracked start opens one element; a
/// tracked end closes the innermost one, attaching it to the root when it was
/// the only one open, and is a no-op with nothing open; everything else
/// leaves the shape alone.
pub open spec fn body_step(st: BodyShape, e: OdtEvent) -> BodyShape {
    if ev_tracked_start(e) {
        BodyShape { open_kinds: st.open_kinds.push(ev_kind(e)), root_kinds: st.root_kinds }
    } else if ev_tracked_end(e) {
        if st.open_kinds.len() == 0 {
            st
        } else if st.open_kinds.len() == 1 {
            BodyShape {
                open_kinds: Seq::empty(),
                root_kinds: st.root_kinds.push(st.open_kinds[0]),
            }
        } else {
            BodyShape { open_kinds: st.open_kinds.drop_last(), root_kinds: st.root_kinds }
        }
    } else {
        st
    }
}

pub open spec fn body_fold(st: BodyShape, s: Seq<OdtEvent>) -> BodyShape
    decreases s.len(),
{
    if s.len() == 0 {
        st
    } else {
        body_step(body_fold(st, s.drop_last()), s.last())
    }
}

/// The deep faces of a stack of elements, bottom first.
pub open spec fn stack_faces(s: Seq<Element>) -> Seq<ElementFace> {
    s.map_values(|e: Element| elem_face(e))
}

/// The kinds of a sequence of element faces.
pub open spec fn face_kinds(fs: Seq<ElementFace>) -> Seq<Seq<char>> {
    fs.map_values(|f: ElementFace| f.kind)
}

/// The kinds of the element nodes of a root sequence.
pub open spec fn root_face_kinds(ns: Seq<NodeFace>) -> Seq<Seq<char>> {
    ns.map_values(
        |n: NodeFace|
            match n {
                NodeFace::Element(f) => f.kind,
                NodeFace::Text(_) => Seq::<char>::empty(),
            },
    )
}


/// The content pass's whole abstract state: the two region flags, the
/// automatic style table with its pending name and pending translated map,
/// the two underline flag stacks, the open elements as deep faces, and the
/// subtrees the root has received.
#[verifier::ext_equal]
pub ghost struct CState {
    pub body: bool,
    pub styles_on: bool,
    pub auto: Map<Seq<char>, Map<Seq<char>, Seq<char>>>,
    pub cur_name: Seq<char>,
    pub cur_val: Map<Seq<char>, Seq<char>>,
    pub scu: Seq<bool>,
    pub ecnu: Seq<bool>,
    pub open: Seq<ElementFace>,
    pub root: Seq<NodeFace>,
}

/// The abstract state a parser value stands at, with empty pending slots.
pub open spec fn cstate_of(p: ODTParser) -> CState {
    CState {
        body: p.body_begin,
        styles_on: p.styles_begin,
        auto: p.auto_styles@,
        cur_name: Seq::empty(),
        cur_val: Map::empty(),
        scu: p.set_children_underline@,
        ecnu: p.ensure_children_no_underline@,
        open: stack_faces(p.document_hierarchy@),
        root: Seq::empty(),
    }
}

/// The element face a tracked start tag opens: its kind, the heading's
/// extracted level, the resolved style properties, and no children yet.
pub open spec fn opened_face(
    auto: Map<Seq<char>, Map<Seq<char>, Seq<char>>>,
    local: Seq<char>,
    attrs: Seq<XmlAttribute>,
) -> ElementFace {
    ElementFace {
        kind: kind_name(local),
        attributes: if local == "h"@ {
            Map::<Seq<char>, Seq<char>>::empty().insert(
                "level"@,
                dec_str(spec_heading_level(attrs) as nat),
            )
        } else {
            Map::<Seq<char>, Seq<char>>::empty()
        },
        styles: style_of(auto, attr_or_empty(attrs, "text"@, "style-name"@)),
        children: Seq::empty(),
    }
}

/// How one event of any region moves the abstract state, in exactly the
/// order the handlers test the tags: entering the body; tracked opens with
/// their fresh flag pairs; entering the automatic-styles region; pending
/// style names and maps; character data joining the innermost open element;
/// leaving the body; tracked closes popping their flag pair, running the
/// span close-logic, attaching to the parent or — at depth zero — to the
/// root, and doing nothing when unmatched; leaving the styles region;
/// committing a pending style.
pub open spec fn content_step(st: CState, e: OdtEvent) -> CState {
    match e {
        OdtEvent::Start { prefix, local, attributes } => {
            if prefix@.len() == 0 {
                st
            } else if prefix@ == "office"@ && local@ == "body"@ {
                CState { body: true, ..st }
            } else if st.body {
                if prefix@ == "text"@ && is_tracked_kind(local@) {
                    let style = style_of(
                        st.auto,
                        attr_or_empty(attributes@, "text"@, "style-name"@),
                    );
                    CState {
                        open: st.open.push(opened_face(st.auto, local@, attributes@)),
                        scu: st.scu.push(open_set_children_underline(style, flag_top(st.scu))),
                        ecnu: st.ecnu.push(open_ensure_no_underline(style, flag_top(st.ecnu))),
                        ..st
                    }
                } else {
                    st
                }
            } else if prefix@ == "office"@ && local@ == "automatic-styles"@ {
                CState { styles_on: true, ..st }
            } else if st.styles_on {
                if prefix@ == "style"@ && local@ == "style"@ {
                    CState { cur_name: attr_or_empty(attributes@, "style"@, "name"@), ..st }
                } else if prefix@ == "style"@ && local@ == "text-properties"@ {
                    CState {
                        cur_val: apply_text_props(
                            Map::<Seq<char>, Seq<char>>::empty(),
                            attributes@,
                        ),
                        ..st
                    }
                } else {
                    st
                }
            } else {
                st
            }
        },
        OdtEvent::Characters { content } => {
            if st.open.len() > 0 {
                let m = st.open.len() as int;
                let top = st.open[m - 1];
                CState {
                    open: st.open.update(
                        m - 1,
                        ElementFace {
                            children: top.children.push(NodeFace::Text(content@)),
                            ..top
                        },
                    ),
                    ..st
                }
            } else {
                st
            }
        },
        OdtEvent::End { prefix, local } => {
            if st.body {
                if prefix@ == "office"@ && local@ == "body"@ {
                    CState { body: false, ..st }
                } else if prefix@ == "text"@ && is_tracked_kind(local@) {
                    if st.open.len() == 0 {
                        st
                    } else {
                        let m = st.open.len() as int;
                        let popped = st.open[m - 1];
                        let closed = ElementFace {
                            styles: if local@ == "span"@ {
                                close_underline(
                                    popped.styles,
                                    flag_top(st.scu.drop_last()),
                                    flag_top(st.ecnu.drop_last()),
                                )
                            } else {
                                popped.styles
                            },
                            ..popped
                        };
                        if m == 1 {
                            CState {
                                open: Seq::empty(),
                                scu: st.scu.drop_last(),
                                ecnu: st.ecnu.drop_last(),
                                root: st.root.push(NodeFace::Element(closed)),
                                ..st
                            }
                        } else {
                            let parent = st.open[m - 2];
                            CState {
                                open: st.open.drop_last().update(
                                    m - 2,
                                    ElementFace {
                                        children: parent.children.push(NodeFace::Element(closed)),
                                        ..parent
                                    },
                                ),
                                scu: st.scu.drop_last(),
                                ecnu: st.ecnu.drop_last(),
                                ..st
                            }
                        }
                    }
                } else {
                    st
                }
            } else if st.styles_on {
                if prefix@ == "office"@ && local@ == "automatic-styles"@ {
                    CState { styles_on: false, ..st }
                } else if prefix@ == "style"@ && local@ == "style"@ {
                    CState {
                        cur_name: Seq::empty(),
                        cur_val: Map::empty(),
                        auto: st.auto.insert(st.cur_name, st.cur_val),
                        ..st
                    }
                } else {
                    st
                }
            } else {
                st
            }
        },
        _ => st,
    }
}

pub open spec fn content_fold(st: CState, s: Seq<OdtEvent>) -> CState
    decreases s.len(),
{
    if s.len() == 0 {
        st
    } else {
        content_step(content_fold(st, s.drop_last()), s.last())
    }
}

pub proof fn lemma_content_fold_step(st: CState, s: Seq<OdtEvent>, i: int)
    requires
        0 <= i < s.len(),
    ensures
        content_fold(st, s.take(i + 1)) == content_step(content_fold(st, s.take(i)), s[i]),
{
    assert(s.take(i + 1).drop_last() =~= s.take(i));
    assert(s.take(i + 1).last() == s[i]);
}

/// Inside the body — starting there, with a stream that never closes it —
/// the full fold's open and root kinds are exactly the body shape fold's.
pub proof fn lemma_content_fold_body(st0: CState, s: Seq<OdtEvent>)
    requires
        st0.body,
        all_body_events(s),
    ensures
        ({
            let st = content_fold(st0, s);
            let bst = body_fold(
                BodyShape {
                    open_kinds: face_kinds(st0.open),
                    root_kinds: root_face_kinds(st0.root),
                },
                s,
            );
            &&& st.body
            &&& face_kinds(st.open) == bst.open_kinds
            &&& root_face_kinds(st.root) == bst.root_kinds
        }),
    decreases s.len(),
{
    broadcast use vstd::string::group_string_axioms;

    reveal_strlit("text");
    reveal_strlit("office");
    if s.len() > 0 {
        let t = s.drop_last();
        let e = s.last();
        assert(all_body_events(t)) by {
            assert(forall|i: int| 0 <= i < t.len() ==> t[i] == s[i]);
        }
        lemma_content_fold_body(st0, t);
        assert(ev_body_ok(e));
        let stt = content_fold(st0, t);
        let st = content_step(stt, e);
        if ev_tracked_start(e) && stt.body {
            assert(face_kinds(st.open) =~= face_kinds(stt.open).push(ev_kind(e)));
        } else if ev_tracked_end(e) && stt.body && stt.open.len() > 0 {
            let m = stt.open.len() as int;
            if m == 1 {
                assert(face_kinds(st.open) =~= Seq::<Seq<char>>::empty());
                assert(root_face_kinds(st.root) =~= root_face_kinds(stt.root).push(
                    face_kinds(stt.open)[0],
                ));
            } else {
                assert(face_kinds(st.open) =~= face_kinds(stt.open).drop_last());
            }
        } else {
            assert(face_kinds(st.open) =~= face_kinds(stt.open));
            assert(root_face_kinds(st.root) =~= root_face_kinds(stt.root));
        }
    }
}

/// The body flag after a stream: only the body region's own opening and
/// closing tags move it, exactly as the fold does.
pub open spec fn in_body_after(b0: bool, s: Seq<OdtEvent>) -> bool
    decreases s.len(),
{
    if s.len() == 0 {
        b0
    } else {
        let b = in_body_after(b0, s.drop_last());
        match s.last() {
            OdtEvent::Start { prefix, local, .. } => {
                if prefix@.len() == 0 {
                    b
                } else if prefix@ == "office"@ && local@ == "body"@ {
                    true
                } else {
                    b
                }
            },
            OdtEvent::End { prefix, local } => {
                if b && prefix@ == "office"@ && local@ == "body"@ {
                    false
                } else {
                    b
                }
            },
            _ => b,
        }
    }
}

/// The tracked start events arriving inside the body region.
pub open spec fn tracked_starts_in_body(b0: bool, s: Seq<OdtEvent>) -> int
    decreases s.len(),
{
    if s.len() == 0 {
        0
    } else {
        tracked_starts_in_body(b0, s.drop_last()) + if in_body_after(b0, s.drop_last())
            && ev_tracked_start(s.last()) {
            1int
        } else {
            0int
        }
    }
}

/// The tracked end events arriving inside the body region.
pub open spec fn tracked_ends_in_body(b0: bool, s: Seq<OdtEvent>) -> int
    decreases s.len(),
{
    if s.len() == 0 {
        0
    } else {
        tracked_ends_in_body(b0, s.drop_last()) + if in_body_after(b0, s.drop_last())
            && ev_tracked_end(s.last()) {
            1int
        } else {
            0int
        }
    }
}

/// Law: over a whole stream — regions included — the element stack's size
/// is exactly the excess of the body region's tracked starts over its
/// tracked ends, provided no prefix closes more tracked tags than stand
/// open; so the stack is empty at end-of-stream exactly when every tracked
/// start was closed, the structurally complete parse.
pub proof fn lemma_content_fold_stack_size(st0: CState, s: Seq<OdtEvent>)
    requires
        forall|j: int|
            0 <= j <= s.len() ==> tracked_ends_in_body(st0.body, #[trigger] s.take(j))
                <= st0.open.len() + tracked_starts_in_body(st0.body, s.take(j)),
    ensures
        content_fold(st0, s).body == in_body_after(st0.body, s),
        content_fold(st0, s).open.len() == st0.open.len() + tracked_starts_in_body(st0.body, s)
            - tracked_ends_in_body(st0.body, s),
    decreases s.len(),
{
    broadcast use vstd::string::group_string_axioms;

    reveal_strlit("text");
    reveal_strlit("office");
    if s.len() > 0 {
        let t = s.drop_last();
        let e = s.last();
        assert forall|j: int|
            0 <= j <= t.len() implies tracked_ends_in_body(st0.body, #[trigger] t.take(j))
            <= st0.open.len() + tracked_starts_in_body(st0.body, t.take(j)) by {
            assert(t.take(j) =~= s.take(j));
        }
        lemma_content_fold_stack_size(st0, t);
        assert(t =~= s.take(t.len() as int));
        assert(s =~= s.take(s.len() as int));
        let stt = content_fold(st0, t);
        let stx = content_step(stt, e);
        assert("text"@.len() == 4);
        assert("office"@.len() == 6);
        assert(content_fold(st0, s) == stx);
        assert(stx.body == in_body_after(st0.body, s));
        if stt.body && ev_tracked_end(e) {
            assert(tracked_ends_in_body(st0.body, s) == tracked_ends_in_body(st0.body, t) + 1);
            assert(tracked_starts_in_body(st0.body, s) == tracked_starts_in_body(st0.body, t));
            assert(tracked_ends_in_body(st0.body, s) <= st0.open.len()
                + tracked_starts_in_body(st0.body, s));
            assert(stt.open.len() >= 1);
        }
    }
}

/// Law: the root receives only elements. Every subtree the content fold
/// appends to the root is an element face — character data outside any open
/// element is dropped, never attached to the root.
pub proof fn lemma_content_fold_root_elements(st0: CState, s: Seq<OdtEvent>)
    requires
        forall|j: int| 0 <= j < st0.root.len() ==> (#[trigger] st0.root[j]) is Element,
    ensures
        forall|j: int|
            0 <= j < content_fold(st0, s).root.len() ==> (#[trigger] content_fold(
                st0,
                s,
            ).root[j]) is Element,
    decreases s.len(),
{
    if s.len() > 0 {
        lemma_content_fold_root_elements(st0, s.drop_last());
    }
}

impl ODTParser {
    /// Feeds a whole event stream through the two handlers, carrying the
    /// pending automatic style slots between them exactly as the stream
    /// orders it.
    ///
    /// The parser follows the content fold: region flags, the automatic
    /// style table, the underline flag stacks and the element stack's deep
    /// faces end where the fold ends, and the root's children — as whole
    /// subtrees — are the old ones followed by exactly the fold's root
    /// subtrees, the named-style table untouched.
    pub fn process_events(&mut self, events: &Vec<OdtEvent>)
        requires
            old(self).stacks_aligned(),
        ensures
            final(self).stacks_aligned(),
            ({
                let st = content_fold(cstate_of(*old(self)), events@);
                &&& final(self).body_begin == st.body
                &&& final(self).styles_begin == st.styles_on
                &&& final(self).auto_styles@ == st.auto
                &&& final(self).set_children_underline@ == st.scu
                &&& final(self).ensure_children_no_underline@ == st.ecnu
                &&& stack_faces(final(self).document_hierarchy@) == st.open
                &&& node_faces(final(self).document_root.children@) == node_faces(
                    old(self).document_root.children@,
                ) + st.root
                &&& final(self).document_root.styles == old(self).document_root.styles
            }),
    {
        let ghost init = cstate_of(*old(self));
        let mut current_style_name: String = String::new();
        let mut current_style_value: PropMap = AssocMap::new();
        let n = events.len();
        let mut i: usize = 0;
        while i < n
            invariant
                n == events.len(),
                0 <= i <= n,
                self.stacks_aligned(),
                init == cstate_of(*old(self)),
                ({
                    let st = content_fold(init, events@.take(i as int));
                    &&& self.body_begin == st.body
                    &&& self.styles_begin == st.styles_on
                    &&& self.auto_styles@ == st.auto
                    &&& current_style_name@ == st.cur_name
                    &&& current_style_value@ == st.cur_val
                    &&& self.set_children_underline@ == st.scu
                    &&& self.ensure_children_no_underline@ == st.ecnu
                    &&& stack_faces(self.document_hierarchy@) == st.open
                    &&& node_faces(self.document_root.children@) == node_faces(
                        old(self).document_root.children@,
                    ) + st.root
                    &&& self.document_root.styles == old(self).document_root.styles
                }),
            decreases n - i,
        {
            proof {
                broadcast use vstd::string::group_string_axioms;

                reveal_strlit("text");
                reveal_strlit("office");
                lemma_content_fold_step(init, events@, i as int);
            }
            let ghost p0 = *self;
            let ghost e = events@[i as int];
            let ghost st = content_fold(init, events@.take(i as int));
            match &events[i] {
                OdtEvent::Start { prefix, local, attributes } => {
                    let (name_new, value_new) = self.handle_element_start(
                        prefix.as_str(),
                        local.as_str(),
                        attributes,
                    );
                    if let Some(x) = name_new {
                        current_style_name = x;
                    }
                    if let Some(x) = value_new {
                        current_style_value = x;
                    }
                    proof {
                        reveal_strlit("text");
                        reveal_strlit("office");
                        if st.body && ev_tracked_start(e) {
                            assert("text"@.len() == 4);
                            assert("office"@.len() == 6);
                            let av = match e {
                                OdtEvent::Start { attributes, .. } => attributes@,
                                _ => Seq::empty(),
                            };
                            let pushed = self.document_hierarchy@.last();
                            assert(node_faces(pushed.children@) =~= Seq::<NodeFace>::empty());
                            assert(elem_face(pushed) =~= opened_face(st.auto, local@, av));
                            assert(stack_faces(self.document_hierarchy@) =~= stack_faces(
                                p0.document_hierarchy@,
                            ).push(elem_face(pushed)));
                        }
                    }
                },
                OdtEvent::Characters { content } => {
                    self.handle_characters(content.clone());
                    proof {
                        if p0.document_hierarchy@.len() > 0 {
                            let m = p0.document_hierarchy@.len() as int;
                            let top0 = p0.document_hierarchy@[m - 1];
                            let top1 = self.document_hierarchy@[m - 1];
                            lemma_node_faces_push(top0.children@, Node::Text(*content));
                            assert(elem_face(top1) =~= (ElementFace {
                                children: elem_face(top0).children.push(NodeFace::Text(content@)),
                                ..elem_face(top0)
                            }));
                            assert(stack_faces(self.document_hierarchy@) =~= stack_faces(
                                p0.document_hierarchy@,
                            ).update(m - 1, elem_face(top1)));
                        }
                    }
                },
                OdtEvent::End { prefix, local } => {
                    let r = self.handle_element_end(
                        prefix.as_str(),
                        local.as_str(),
                        current_style_name,
                        current_style_value,
                    );
                    match r {
                        Some(x) => {
                            current_style_name = x.0;
                            current_style_value = x.1;
                        },
                        None => {
                            current_style_name = String::new();
                            current_style_value = AssocMap::new();
                        },
                    }
                    proof {
                        reveal_strlit("text");
                        reveal_strlit("office");
                        if st.body && ev_tracked_end(e) {
                            assert("text"@.len() == 4);
                            assert("office"@.len() == 6);
                            let m = p0.document_hierarchy@.len() as int;
                            if m > 0 {
                                assert(pops_tracked(p0, *self, local@));
                                let popped = p0.document_hierarchy@[m - 1];
                                let scu_flag = flag_top(p0.set_children_underline@.drop_last());
                                let ecnu_flag = flag_top(
                                    p0.ensure_children_no_underline@.drop_last(),
                                );
                                let closed = ElementFace {
                                    styles: if local@ == "span"@ {
                                        close_underline(elem_face(popped).styles, scu_flag, ecnu_flag)
                                    } else {
                                        elem_face(popped).styles
                                    },
                                    ..elem_face(popped)
                                };
                                if m == 1 {
                                    let child = choose|c: Element|
                                        closed_child_ok(popped, c, local@, scu_flag, ecnu_flag)
                                            && self.document_root.children@
                                            == p0.document_root.children@.push(Node::Element(c));
                                    assert(node_faces(child.children@) =~= node_faces(
                                        popped.children@,
                                    ));
                                    assert(elem_face(child) =~= closed);
                                    lemma_node_faces_push(
                                        p0.document_root.children@,
                                        Node::Element(child),
                                    );
                                    assert(stack_faces(self.document_hierarchy@)
                                        =~= Seq::<ElementFace>::empty());
                                    assert(node_faces(self.document_root.children@) =~= node_faces(
                                        old(self).document_root.children@,
                                    ) + st.root.push(NodeFace::Element(closed)));
                                } else {
                                    let parent0 = p0.document_hierarchy@[m - 2];
                                    let child = choose|c: Element|
                                        closed_child_ok(popped, c, local@, scu_flag, ecnu_flag)
                                            && self.document_hierarchy@[m - 2]@ == (
                                        crate::model::ElementV {
                                            children: parent0@.children.push(Node::Element(c)),
                                            ..parent0@
                                        });
                                    assert(node_faces(child.children@) =~= node_faces(
                                        popped.children@,
                                    ));
                                    assert(elem_face(child) =~= closed);
                                    lemma_node_faces_push(parent0.children@, Node::Element(child));
                                    assert(elem_face(self.document_hierarchy@[m - 2])
                                        =~= (ElementFace {
                                        children: elem_face(parent0).children.push(
                                            NodeFace::Element(closed),
                                        ),
                                        ..elem_face(parent0)
                                    }));
                                    assert(stack_faces(self.document_hierarchy@) =~= stack_faces(
                                        p0.document_hierarchy@,
                                    ).drop_last().update(
                                        m - 2,
                                        elem_face(self.document_hierarchy@[m - 2]),
                                    ));
                                }
                            }
                        }
                    }
                },
                _ => {},
            }
            i = i + 1;
        }
        proof {
            assert(events@.take(n as int) =~= events@);
            assert(node_faces(old(self).document_root.children@) + Seq::<NodeFace>::empty()
                =~= node_faces(old(self).document_root.children@));
        }
    }
}

/// The number of tracked start events in a stream.
pub open spec fn tracked_starts(s: Seq<OdtEvent>) -> int
    decreases s.len(),
{
    if s.len() == 0 {
        0
    } else {
        tracked_starts(s.drop_last()) + if ev_tracked_start(s.last()) {
            1int
        } else {
            0int
        }
    }
}

/// The number of tracked end events in a stream.
pub open spec fn tracked_ends(s: Seq<OdtEvent>) -> int
    decreases s.len(),
{
    if s.len() == 0 {
        0
    } else {
        tracked_ends(s.drop_last()) + if ev_tracked_end(s.last()) {
            1int
        } else {
            0int
        }
    }
}

/// No prefix of the stream closes more tracked tags than it has opened.
pub open spec fn no_unmatched_end(s: Seq<OdtEvent>) -> bool {
    forall|j: int| 0 <= j <= s.len() ==> tracked_ends(#[trigger] s.take(j)) <= tracked_starts(s.take(j))
}

/// The kinds of the tracked start events standing at nesting depth zero, in
/// document order.
pub open spec fn depth0_kinds(s: Seq<OdtEvent>) -> Seq<Seq<char>>
    decreases s.len(),
{
    if s.len() == 0 {
        Seq::empty()
    } else if ev_tracked_start(s.last()) && tracked_starts(s.drop_last()) == tracked_ends(
        s.drop_last(),
    ) {
        depth0_kinds(s.drop_last()).push(ev_kind(s.last()))
    } else {
        depth0_kinds(s.drop_last())
    }
}

/// The first open kind as a sequence: one element when anything is open.
pub open spec fn first_open(ks: Seq<Seq<char>>) -> Seq<Seq<char>> {
    if ks.len() > 0 {
        seq![ks[0]]
    } else {
        Seq::empty()
    }
}

proof fn lemma_no_unmatched_drop(s: Seq<OdtEvent>)
    requires
        s.len() > 0,
        no_unmatched_end(s),
    ensures
        no_unmatched_end(s.drop_last()),
{
    assert forall|j: int| 0 <= j <= s.drop_last().len() implies tracked_ends(
        #[trigger] s.drop_last().take(j),
    ) <= tracked_starts(s.drop_last().take(j)) by {
        assert(s.drop_last().take(j) =~= s.take(j));
    }
}

proof fn lemma_body_fold_shape(s: Seq<OdtEvent>)
    requires
        no_unmatched_end(s),
    ensures
        ({
            let st = body_fold(
                BodyShape { open_kinds: Seq::empty(), root_kinds: Seq::empty() },
                s,
            );
            &&& st.open_kinds.len() == tracked_starts(s) - tracked_ends(s)
            &&& st.root_kinds + first_open(st.open_kinds) == depth0_kinds(s)
        }),
    decreases s.len(),
{
    let empty_st = BodyShape { open_kinds: Seq::<Seq<char>>::empty(), root_kinds: Seq::<
        Seq<char>,
    >::empty() };
    if s.len() == 0 {
        assert(s.take(0) =~= s);
        assert(body_fold(empty_st, s).root_kinds + first_open(body_fold(empty_st, s).open_kinds)
            =~= depth0_kinds(s));
    } else {
        let t = s.drop_last();
        let e = s.last();
        lemma_no_unmatched_drop(s);
        lemma_body_fold_shape(t);
        let st_t = body_fold(empty_st, t);
        assert(tracked_ends(t) <= tracked_starts(t)) by {
            assert(s.take(t.len() as int) =~= t);
        }
        assert(tracked_ends(s) <= tracked_starts(s)) by {
            assert(s.take(s.len() as int) =~= s);
        }
        let st = body_fold(empty_st, s);
        if ev_tracked_start(e) {
            if st_t.open_kinds.len() == 0 {
                assert(st.root_kinds + first_open(st.open_kinds) =~= st_t.root_kinds.push(
                    ev_kind(e),
                ));
                assert(st_t.root_kinds =~= depth0_kinds(t));
            } else {
                assert(st.root_kinds + first_open(st.open_kinds) =~= st_t.root_kinds + first_open(
                    st_t.open_kinds,
                ));
            }
        } else if ev_tracked_end(e) {
            assert(st_t.open_kinds.len() >= 1);
            if st_t.open_kinds.len() == 1 {
                assert(st.root_kinds + first_open(st.open_kinds) =~= st_t.root_kinds.push(
                    st_t.open_kinds[0],
                ));
                assert(st_t.root_kinds + first_open(st_t.open_kinds) =~= st_t.root_kinds.push(
                    st_t.open_kinds[0],
                ));
            } else {
                assert(st.open_kinds[0] == st_t.open_kinds[0]);
                assert(st.root_kinds + first_open(st.open_kinds) =~= st_t.root_kinds + first_open(
                    st_t.open_kinds,
                ));
            }
        } else {
            assert(st == st_t);
        }
    }
}

/// Law: for a well-formed body — no prefix closes more tracked tags than it
/// opened — the element stack's size after the stream is exactly the excess
/// of tracked starts over tracked ends, so it is empty exactly when they
/// balance; and when they balance, the root has received exactly the
/// depth-zero tracked elements' kinds, in document order.
pub proof fn lemma_balanced_body_shape(s: Seq<OdtEvent>)
    requires
        no_unmatched_end(s),
    ensures
        ({
            let st = body_fold(
                BodyShape { open_kinds: Seq::empty(), root_kinds: Seq::empty() },
                s,
            );
            &&& st.open_kinds.len() == tracked_starts(s) - tracked_ends(s)
            &&& tracked_starts(s) == tracked_ends(s) ==> st.open_kinds
                == Seq::<Seq<char>>::empty() && st.root_kinds == depth0_kinds(s)
        }),
{
    lemma_body_fold_shape(s);
    let st = body_fold(BodyShape { open_kinds: Seq::empty(), root_kinds: Seq::empty() }, s);
    if tracked_starts(s) == tracked_ends(s) {
        assert(st.open_kinds =~= Seq::<Seq<char>>::empty());
        assert(st.root_kinds =~= st.root_kinds + first_open(st.open_kinds));
    }
}



impl ODTParser {
    /// Parses the package's content entry: extracts `content.xml` from the
    /// archive's bytes, tokenizes it, and — only when the tokenizer reports
    /// no fault — feeds the whole event stream through the handlers.
    ///
    /// The result is classified exactly: extraction failure surfaces as the
    /// distinct entry-missing or archive error; a tokenizer fault as the
    /// syntax error; otherwise the parse succeeds and the parser follows
    /// the content fold of the entry's token stream. Every failure is
    /// terminal: the parser is then left exactly as it was, never holding a
    /// partial tree.
    pub fn parse(&mut self, archive: &Vec<u8>) -> (r: Result<(), OdtError>)
        requires
            old(self).stacks_aligned(),
        ensures
            final(self).stacks_aligned(),
            r is Err ==> *final(self) == *old(self),
            ({
                let entry = entry_of(archive@, "content.xml"@);
                match entry {
                    Ok(bytes) => {
                        if stream_has_fault(tokens_of(bytes)) {
                            r matches Err(OdtError::XmlSyntax { .. })
                        } else {
                            let st = content_fold(cstate_of(*old(self)), tokens_of(bytes));
                            &&& r is Ok
                            &&& final(self).body_begin == st.body
                            &&& final(self).styles_begin == st.styles_on
                            &&& final(self).auto_styles@ == st.auto
                            &&& final(self).set_children_underline@ == st.scu
                            &&& final(self).ensure_children_no_underline@ == st.ecnu
                            &&& stack_faces(final(self).document_hierarchy@) == st.open
                            &&& node_faces(final(self).document_root.children@) == node_faces(
                                old(self).document_root.children@,
                            ) + st.root
                            &&& final(self).document_root.styles == old(
                                self,
                            ).document_root.styles
                        }
                    },
                    Err(missing) => {
                        &&& r is Err
                        &&& (missing ==> (r matches Err(OdtError::EntryMissing)))
                        &&& (!missing ==> (r matches Err(OdtError::Archive { .. })))
                    },
                }
            }),
    {
        let content = match zip_entry(archive, "content.xml") {
            Ok(b) => b,
            Err(e) => {
                return Err(e);
            },
        };
        let events = collect_events(content.as_slice());
        match first_fault(&events) {
            Some(message) => Err(OdtError::XmlSyntax { message }),
            None => {
                self.process_events(&events);
                Ok(())
            },
        }
    }
}

} // verus!
