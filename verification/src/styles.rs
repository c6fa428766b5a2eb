//! The named style table builder: consumes the ordered event stream of a
//! package's styles entry, resolving style definitions with parent links and
//! heading templates, feeding nested property tags through the shared
//! translators, and populating per-list-style bullet slots.

use crate::assoc::{AssocMap, PropMap};
use crate::content::ODTParser;
use crate::outside::{collect_events, entry_of, tokens_of, zip_entry};
use crate::OdtError;
use crate::events::{attr_last, attr_or_empty, find_attr, first_fault, stream_has_fault, OdtEvent, XmlAttribute};
use crate::model::{Element, ElementV, ListBullet, Style, StyleV};
use crate::strutil::{dec_str, spec_parse_u32_or, str_eq, u32_to_string, parse_u32_or};
use crate::translators::{
    apply_table_props, apply_text_props, table_cell_properties_begin,
    table_column_properties_begin, table_properties_begin, table_row_properties_begin,
    text_properties_begin, TableTagKind,
};
use vstd::prelude::*;

verus! {

pub open spec fn opt_view(o: Option<String>) -> Option<Seq<char>> {
    match o {
        Some(s) => Some(s@),
        None => None,
    }
}

/// The name a style-definition tag declares.
pub open spec fn spec_style_name(attrs: Seq<XmlAttribute>) -> Seq<char> {
    attr_or_empty(attrs, "style"@, "name"@)
}

/// The displayed name a style-definition tag declares.
pub open spec fn spec_display_name(attrs: Seq<XmlAttribute>) -> Seq<char> {
    attr_or_empty(attrs, "style"@, "display-name"@)
}

/// The parent link a style-definition tag declares: its explicit parent
/// style reference, or, as the fallback, its family.
pub open spec fn spec_parent(attrs: Seq<XmlAttribute>) -> Seq<char> {
    match attr_last(attrs, "style"@, "parent-style-name"@) {
        Some(p) => p,
        None => attr_or_empty(attrs, "style"@, "family"@),
    }
}

/// The default outline level a style-definition tag declares: present and
/// non-empty, it parses with fallback one; otherwise there is none.
pub open spec fn spec_outline_level(attrs: Seq<XmlAttribute>) -> Option<u32> {
    match attr_last(attrs, "style"@, "default-outline-level"@) {
        Some(v) => if v.len() > 0 {
            Some(spec_parse_u32_or(v, 1))
        } else {
            None
        },
        None => None,
    }
}

/// The mathematical face of a heading template element for a level.
pub open spec fn heading_template_v(level: u32) -> ElementV {
    ElementV {
        kind: "heading"@,
        attributes: Map::<Seq<char>, Seq<char>>::empty().insert(
            "level"@,
            dec_str(level as nat),
        ),
        styles: Map::<Seq<char>, Seq<char>>::empty(),
        children: Seq::empty(),
    }
}

/// The style entry a style-definition tag opens.
pub open spec fn spec_style_entry(attrs: Seq<XmlAttribute>) -> StyleV {
    StyleV {
        display_name: spec_display_name(attrs),
        parent: Some(spec_parent(attrs)),
        template: match spec_outline_level(attrs) {
            Some(l) => Some(heading_template_v(l)),
            None => None,
        },
        styles: Map::empty(),
    }
}

/// The style entry a default-style tag opens: keyed by its family, with an
/// empty display name, no parent and no template.
pub open spec fn spec_default_entry() -> StyleV {
    StyleV {
        display_name: Seq::empty(),
        parent: None,
        template: None,
        styles: Map::empty(),
    }
}

/// Reads a style-definition tag's attributes: the style's name, its
/// displayed name, its parent link — the explicit parent reference, or the
/// family as the fallback — and its default outline level, if any.
pub fn style_begin_helper(attributes: &Vec<XmlAttribute>) -> (r: (String, String, String, Option<
    u32,
>))
    ensures
        r.0@ == spec_style_name(attributes@),
        r.1@ == spec_display_name(attributes@),
        r.2@ == spec_parent(attributes@),
        r.3 == spec_outline_level(attributes@),
{
    let style_name: String = match find_attr(attributes, "style", "name") {
        Some(v) => v.clone(),
        None => String::new(),
    };
    let display_name: String = match find_attr(attributes, "style", "display-name") {
        Some(v) => v.clone(),
        None => String::new(),
    };
    let parent: String = match find_attr(attributes, "style", "parent-style-name") {
        Some(v) => v.clone(),
        None => match find_attr(attributes, "style", "family") {
            Some(v) => v.clone(),
            None => String::new(),
        },
    };
    let outline_level: Option<u32> = match find_attr(attributes, "style", "default-outline-level") {
        Some(v) => {
            if v.as_str().is_empty() {
                None
            } else {
                Some(parse_u32_or(v.as_str(), 1))
            }
        },
        None => None,
    };
    (style_name, display_name, parent, outline_level)
}

/// The name and parent link of a style-definition tag.
pub fn style_begin(attributes: &Vec<XmlAttribute>) -> (r: (String, String))
    ensures
        r.0@ == spec_style_name(attributes@),
        r.1@ == spec_parent(attributes@),
{
    let (style_name, _display, parent, _level) = style_begin_helper(attributes);
    (style_name, parent)
}

/// Builds a heading template element for an outline level.
fn heading_template(level: u32) -> (r: Element)
    ensures
        r@ == heading_template_v(level),
{
    let mut element = Element::new("heading".to_owned());
    element.attributes.insert("level".to_owned(), u32_to_string(level));
    element
}

/// Opens a style entry from a style-definition tag: display name, parent
/// link, and a heading template exactly when a default outline level is
/// declared.
pub fn style_style_begin(attributes: &Vec<XmlAttribute>) -> (r: (String, Style))
    ensures
        r.0@ == spec_style_name(attributes@),
        r.1@ == spec_style_entry(attributes@),
{
    let (style_name, display_name, parent, outline_level) = style_begin_helper(attributes);
    let template: Option<Element> = match outline_level {
        Some(l) => Some(heading_template(l)),
        None => None,
    };
    (style_name, Style::new(display_name, Some(parent), template))
}

/// Opens a style entry from a default-style tag, keyed by its family.
pub fn default_style_begin(attributes: &Vec<XmlAttribute>) -> (r: (String, Style))
    ensures
        r.0@ == attr_or_empty(attributes@, "style"@, "family"@),
        r.1@ == spec_default_entry(),
{
    let family: String = match find_attr(attributes, "style", "family") {
        Some(v) => v.clone(),
        None => String::new(),
    };
    (family, Style::new(String::new(), None, None))
}

/// The name and optional displayed name of a list-style tag.
pub fn list_style_begin(attributes: &Vec<XmlAttribute>) -> (r: (String, Option<String>))
    ensures
        r.0@ == spec_style_name(attributes@),
        opt_view(r.1) == attr_last(attributes@, "style"@, "display-name"@),
{
    let style_name: String = match find_attr(attributes, "style", "name") {
        Some(v) => v.clone(),
        None => String::new(),
    };
    let display_name: Option<String> = match find_attr(attributes, "style", "display-name") {
        Some(v) => Some(v.clone()),
        None => None,
    };
    (style_name, display_name)
}

/// The outline level a list-level tag addresses: parsed with fallback one,
/// and one when absent.
pub open spec fn spec_list_level(attrs: Seq<XmlAttribute>) -> u32 {
    match attr_last(attrs, "text"@, "level"@) {
        Some(v) => spec_parse_u32_or(v, 1),
        None => 1,
    }
}

pub open spec fn spec_num_prefix(attrs: Seq<XmlAttribute>) -> Option<Seq<char>> {
    attr_last(attrs, "style"@, "num-prefix"@)
}

pub open spec fn spec_num_suffix(attrs: Seq<XmlAttribute>) -> Option<Seq<char>> {
    attr_last(attrs, "style"@, "num-suffix"@)
}

/// The start value a numbering tag declares, parsed with fallback one.
pub open spec fn spec_start_value(attrs: Seq<XmlAttribute>) -> Option<u32> {
    match attr_last(attrs, "text"@, "start-value"@) {
        Some(v) => Some(spec_parse_u32_or(v, 1)),
        None => None,
    }
}

/// The numbering scheme a format code selects; a code outside the table
/// falls back to a literal character bullet using the code itself.
pub open spec fn spec_num_variant(format: Seq<char>) -> (Seq<char>, bool) {
    if format == "1"@ {
        ("decimal"@, true)
    } else if format == "a"@ {
        ("lowerLatin"@, true)
    } else if format == "A"@ {
        ("upperLatin"@, true)
    } else if format == "i"@ {
        ("lowerRoman"@, true)
    } else if format == "I"@ {
        ("upperRoman"@, true)
    } else {
        (format, false)
    }
}

pub open spec fn is_char_bullet(
    b: ListBullet,
    p: Option<Seq<char>>,
    s: Option<Seq<char>>,
    c: Seq<char>,
) -> bool {
    match b {
        ListBullet::Character { prefix, suffix, bullet_char } => opt_view(prefix) == p && opt_view(
            suffix,
        ) == s && bullet_char@ == c,
        _ => false,
    }
}

pub open spec fn is_variant_bullet(
    b: ListBullet,
    p: Option<Seq<char>>,
    s: Option<Seq<char>>,
    sv: Option<u32>,
    v: Seq<char>,
) -> bool {
    match b {
        ListBullet::Variant { prefix, suffix, start_value, variant } => opt_view(prefix) == p
            && opt_view(suffix) == s && start_value == sv && variant@ == v,
        _ => false,
    }
}

pub open spec fn is_image_bullet(
    b: ListBullet,
    p: Option<Seq<char>>,
    s: Option<Seq<char>>,
    h: Seq<char>,
) -> bool {
    match b {
        ListBullet::Image { prefix, suffix, href } => opt_view(prefix) == p && opt_view(suffix)
            == s && href@ == h,
        _ => false,
    }
}

fn clone_opt(o: Option<&String>) -> (r: Option<String>)
    ensures
        opt_view(r) == match o {
            Some(v) => Some(v@),
            None => None::<Seq<char>>,
        },
{
    match o {
        Some(v) => Some(v.clone()),
        None => None,
    }
}

/// Reads a bullet-character tag: its level, and a literal character bullet
/// with optional prefix and suffix.
pub fn list_style_bullet_begin(attributes: &Vec<XmlAttribute>) -> (r: (u32, ListBullet))
    ensures
        r.0 == spec_list_level(attributes@),
        is_char_bullet(
            r.1,
            spec_num_prefix(attributes@),
            spec_num_suffix(attributes@),
            attr_or_empty(attributes@, "text"@, "bullet-char"@),
        ),
{
    let prefix = clone_opt(find_attr(attributes, "style", "num-prefix"));
    let suffix = clone_opt(find_attr(attributes, "style", "num-suffix"));
    let level: u32 = match find_attr(attributes, "text", "level") {
        Some(v) => parse_u32_or(v.as_str(), 1),
        None => 1,
    };
    let bullet_char: String = match find_attr(attributes, "text", "bullet-char") {
        Some(v) => v.clone(),
        None => String::new(),
    };
    (level, ListBullet::Character { prefix, suffix, bullet_char })
}

/// Reads a bullet-number tag: its level, and either a numbering variant or —
/// for a format code outside the fixed table — a literal character bullet
/// carrying the code itself.
pub fn list_style_number_begin(attributes: &Vec<XmlAttribute>) -> (r: (u32, ListBullet))
    ensures
        r.0 == spec_list_level(attributes@),
        ({
            let f = spec_num_variant(attr_or_empty(attributes@, "style"@, "num-format"@));
            if f.1 {
                is_variant_bullet(
                    r.1,
                    spec_num_prefix(attributes@),
                    spec_num_suffix(attributes@),
                    spec_start_value(attributes@),
                    f.0,
                )
            } else {
                is_char_bullet(
                    r.1,
                    spec_num_prefix(attributes@),
                    spec_num_suffix(attributes@),
                    f.0,
                )
            }
        }),
{
    let prefix = clone_opt(find_attr(attributes, "style", "num-prefix"));
    let suffix = clone_opt(find_attr(attributes, "style", "num-suffix"));
    let level: u32 = match find_attr(attributes, "text", "level") {
        Some(v) => parse_u32_or(v.as_str(), 1),
        None => 1,
    };
    let start_value: Option<u32> = match find_attr(attributes, "text", "start-value") {
        Some(v) => Some(parse_u32_or(v.as_str(), 1)),
        None => None,
    };
    let format: String = match find_attr(attributes, "style", "num-format") {
        Some(v) => v.clone(),
        None => String::new(),
    };
    let (variant, is_number) = list_style_number_begin_helper(format.as_str());
    if is_number {
        (level, ListBullet::Variant { prefix, suffix, start_value, variant })
    } else {
        (level, ListBullet::Character { prefix, suffix, bullet_char: variant })
    }
}

/// Maps a numbering format code to the target numbering scheme, with the
/// fallback to a literal character bullet.
pub fn list_style_number_begin_helper(format: &str) -> (r: (String, bool))
    ensures
        (r.0@, r.1) == spec_num_variant(format@),
{
    if str_eq(format, "1") {
        ("decimal".to_owned(), true)
    } else if str_eq(format, "a") {
        ("lowerLatin".to_owned(), true)
    } else if str_eq(format, "A") {
        ("upperLatin".to_owned(), true)
    } else if str_eq(format, "i") {
        ("lowerRoman".to_owned(), true)
    } else if str_eq(format, "I") {
        ("upperRoman".to_owned(), true)
    } else {
        (format.to_owned(), false)
    }
}

/// Reads a bullet-image tag: its level, and an image bullet holding the
/// hyperlink reference.
pub fn list_style_image_begin(attributes: &Vec<XmlAttribute>) -> (r: (u32, ListBullet))
    ensures
        r.0 == spec_list_level(attributes@),
        is_image_bullet(r.1, None, None, attr_or_empty(attributes@, "xlink"@, "href"@)),
{
    let level: u32 = match find_attr(attributes, "text", "level") {
        Some(v) => parse_u32_or(v.as_str(), 1),
        None => 1,
    };
    let href: String = match find_attr(attributes, "xlink", "href") {
        Some(v) => v.clone(),
        None => String::new(),
    };
    (level, ListBullet::Image { prefix: None, suffix: None, href })
}


/// Whether a tag is one of the nested property tags the translators accept,
/// under either of the namespace prefixes the property tags appear with.
pub open spec fn is_prop_tag(prefix: Seq<char>, local: Seq<char>) -> bool {
    (prefix == "style"@ || prefix == "table"@) && (local == "text-properties"@ || local
        == "table-properties"@ || local == "table-cell-properties"@ || local
        == "table-row-properties"@ || local == "table-column-properties"@)
}

/// What a property map becomes under the translator a property tag's local
/// name selects.
pub open spec fn style_props_apply(
    local: Seq<char>,
    m: Map<Seq<char>, Seq<char>>,
    attrs: Seq<XmlAttribute>,
) -> Map<Seq<char>, Seq<char>> {
    if local == "text-properties"@ {
        apply_text_props(m, attrs)
    } else if local == "table-properties"@ {
        apply_table_props(TableTagKind::Table, m, attrs)
    } else if local == "table-cell-properties"@ {
        apply_table_props(TableTagKind::Cell, m, attrs)
    } else if local == "table-row-properties"@ {
        apply_table_props(TableTagKind::Row, m, attrs)
    } else if local == "table-column-properties"@ {
        apply_table_props(TableTagKind::Column, m, attrs)
    } else {
        m
    }
}

/// Law: every property translator is overwrite-idempotent. Feeding the same
/// tag through its translator twice yields the map one run yields.
pub proof fn lemma_style_props_idempotent(
    local: Seq<char>,
    m: Map<Seq<char>, Seq<char>>,
    attrs: Seq<XmlAttribute>,
)
    ensures
        style_props_apply(local, style_props_apply(local, m, attrs), attrs) == style_props_apply(
            local,
            m,
            attrs,
        ),
{
    if local == "text-properties"@ {
        crate::translators::lemma_text_props_idempotent(m, attrs);
    } else if local == "table-properties"@ {
        crate::translators::lemma_table_props_idempotent(TableTagKind::Table, m, attrs);
    } else if local == "table-cell-properties"@ {
        crate::translators::lemma_table_props_idempotent(TableTagKind::Cell, m, attrs);
    } else if local == "table-row-properties"@ {
        crate::translators::lemma_table_props_idempotent(TableTagKind::Row, m, attrs);
    } else if local == "table-column-properties"@ {
        crate::translators::lemma_table_props_idempotent(TableTagKind::Column, m, attrs);
    }
}

/// Feeds one property tag through the translator its name selects; a tag
/// that is no property tag leaves the map alone.
fn style_properties_dispatch(prefix: &str, local: &str, attributes: &Vec<XmlAttribute>, map: &mut
    PropMap) -> (applied: bool)
    ensures
        applied == is_prop_tag(prefix@, local@),
        applied ==> final(map)@ == style_props_apply(local@, old(map)@, attributes@),
        !applied ==> *final(map) == *old(map),
{
    proof {
        reveal_strlit("text-properties");
        reveal_strlit("table-properties");
        reveal_strlit("table-cell-properties");
        reveal_strlit("table-row-properties");
        reveal_strlit("table-column-properties");
    }
    if !(str_eq(prefix, "style") || str_eq(prefix, "table")) {
        return false;
    }
    if str_eq(local, "text-properties") {
        text_properties_begin(attributes, map);
        true
    } else if str_eq(local, "table-properties") {
        table_properties_begin(attributes, map);
        true
    } else if str_eq(local, "table-cell-properties") {
        table_cell_properties_begin(attributes, map);
        true
    } else if str_eq(local, "table-row-properties") {
        table_row_properties_begin(attributes, map);
        true
    } else if str_eq(local, "table-column-properties") {
        table_column_properties_begin(attributes, map);
        true
    } else {
        false
    }
}

/// Responds to a self-closed property tag: feeds it through the translator
/// its local name selects, into the given property map.
pub fn handle_element_empty_style(local_name: &str, attributes: &Vec<XmlAttribute>, style: &mut
    PropMap)
    ensures
        is_prop_tag("style"@, local_name@) ==> final(style)@ == style_props_apply(
            local_name@,
            old(style)@,
            attributes@,
        ),
        !is_prop_tag("style"@, local_name@) ==> *final(style) == *old(style),
{
    style_properties_dispatch("style", local_name, attributes, style);
}

/// Responds to an opening property or style-definition tag: a
/// style-definition tag yields the pending style name and a fresh map seeded
/// with the parent link; a property tag yields a fresh translated map; the
/// list bullet slot of the result is never used here.
pub fn handle_element_start_style(local_name: &str, attributes: &Vec<XmlAttribute>) -> (r: (
    Option<String>,
    Option<PropMap>,
    Option<(u32, ListBullet)>,
))
    ensures
        r.2 is None,
        local_name@ == "style"@ ==> ({
            &&& opt_view(r.0) == Some(spec_style_name(attributes@))
            &&& r.1 matches Some(m) && m@ == Map::<Seq<char>, Seq<char>>::empty().insert(
                "_parent"@,
                spec_parent(attributes@),
            )
        }),
        local_name@ != "style"@ && is_prop_tag("style"@, local_name@) ==> ({
            &&& r.0 is None
            &&& r.1 matches Some(m) && m@ == style_props_apply(
                local_name@,
                Map::<Seq<char>, Seq<char>>::empty(),
                attributes@,
            )
        }),
        local_name@ != "style"@ && !is_prop_tag("style"@, local_name@) ==> r.0 is None && r.1
            is None,
{
    proof {
        reveal_strlit("style");
        reveal_strlit("text-properties");
        reveal_strlit("table-properties");
        reveal_strlit("table-cell-properties");
        reveal_strlit("table-row-properties");
        reveal_strlit("table-column-properties");
    }
    if str_eq(local_name, "style") {
        let (style_name, parent) = style_begin(attributes);
        let mut value: PropMap = AssocMap::new();
        value.insert("_parent".to_owned(), parent);
        return (Some(style_name), Some(value), None);
    }
    let mut value: PropMap = AssocMap::new();
    if style_properties_dispatch("style", local_name, attributes, &mut value) {
        (None, Some(value), None)
    } else {
        (None, None, None)
    }
}

/// Whether a tag is one of the three list-level tags that define a bullet.
pub open spec fn is_list_level_tag(prefix: Seq<char>, local: Seq<char>) -> bool {
    prefix == "text"@ && (local == "list-level-style-bullet"@ || local
        == "list-level-style-number"@ || local == "list-level-style-image"@)
}

/// The bullet a list-level tag defines.
pub open spec fn special_bullet_ok(
    b: ListBullet,
    prefix: Seq<char>,
    local: Seq<char>,
    attrs: Seq<XmlAttribute>,
) -> bool {
    if prefix == "text"@ && local == "list-level-style-bullet"@ {
        is_char_bullet(
            b,
            spec_num_prefix(attrs),
            spec_num_suffix(attrs),
            attr_or_empty(attrs, "text"@, "bullet-char"@),
        )
    } else if prefix == "text"@ && local == "list-level-style-number"@ {
        ({
            let f = spec_num_variant(attr_or_empty(attrs, "style"@, "num-format"@));
            if f.1 {
                is_variant_bullet(
                    b,
                    spec_num_prefix(attrs),
                    spec_num_suffix(attrs),
                    spec_start_value(attrs),
                    f.0,
                )
            } else {
                is_char_bullet(b, spec_num_prefix(attrs), spec_num_suffix(attrs), f.0)
            }
        })
    } else if prefix == "text"@ && local == "list-level-style-image"@ {
        is_image_bullet(b, None, None, attr_or_empty(attrs, "xlink"@, "href"@))
    } else {
        false
    }
}

/// The outline level a list-level tag addresses.
pub open spec fn special_level(prefix: Seq<char>, local: Seq<char>, attrs: Seq<XmlAttribute>) -> u32 {
    if is_list_level_tag(prefix, local) {
        spec_list_level(attrs)
    } else {
        1
    }
}

/// Responds to a self-closed list-level tag: writes the defined bullet into
/// its level's slot of the ten-slot bullet sequence; a level outside one to
/// ten is ignored; every other slot keeps its bullet, and a tag that is
/// none of the three list-level tags changes nothing at all.
pub fn handle_element_empty_style_special(prefix: &str, local: &str, attributes: &Vec<
    XmlAttribute,
>, bullet_list: &mut Vec<ListBullet>)
    requires
        old(bullet_list)@.len() == 10,
    ensures
        final(bullet_list)@.len() == 10,
        !is_list_level_tag(prefix@, local@) ==> *final(bullet_list) == *old(bullet_list),
        is_list_level_tag(prefix@, local@) ==> ({
            let lvl = special_level(prefix@, local@, attributes@) as int;
            &&& (forall|j: int|
                0 <= j < 10 && j != lvl - 1 ==> final(bullet_list)@[j] == old(bullet_list)@[j])
            &&& (1 <= lvl <= 10 ==> special_bullet_ok(
                final(bullet_list)@[lvl - 1],
                prefix@,
                local@,
                attributes@,
            ))
        }),
{
    proof {
        reveal_strlit("list-level-style-bullet");
        reveal_strlit("list-level-style-number");
        reveal_strlit("list-level-style-image");
    }
    let mut level: u32 = 1;
    let mut bullet = crate::model::default_bullet();
    let mut recognized = false;
    if str_eq(prefix, "text") && str_eq(local, "list-level-style-bullet") {
        let (l, b) = list_style_bullet_begin(attributes);
        level = l;
        bullet = b;
        recognized = true;
    } else if str_eq(prefix, "text") && str_eq(local, "list-level-style-number") {
        let (l, b) = list_style_number_begin(attributes);
        level = l;
        bullet = b;
        recognized = true;
    } else if str_eq(prefix, "text") && str_eq(local, "list-level-style-image") {
        let (l, b) = list_style_image_begin(attributes);
        level = l;
        bullet = b;
        recognized = true;
    }
    if recognized && 1 <= level && level <= 10 {
        bullet_list.set((level - 1) as usize, bullet);
    }
}

/// Responds to an opening list tag: a list-style tag yields the pending
/// style name (its display name is discarded in this automatic-style
/// context); a list-level tag yields its level and bullet.
pub fn handle_element_start_style_special(prefix: &str, local: &str, attributes: &Vec<
    XmlAttribute,
>) -> (r: (Option<String>, Option<PropMap>, Option<(u32, ListBullet)>))
    ensures
        r.1 is None,
        prefix@ == "text"@ && local@ == "list-style"@ ==> opt_view(r.0) == Some(
            spec_style_name(attributes@),
        ) && r.2 is None,
        prefix@ == "text"@ && (local@ == "list-level-style-bullet"@ || local@
            == "list-level-style-number"@ || local@ == "list-level-style-image"@) ==> ({
            &&& r.0 is None
            &&& r.2 matches Some(lb) && lb.0 == special_level(prefix@, local@, attributes@)
                && special_bullet_ok(lb.1, prefix@, local@, attributes@)
        }),
        !(prefix@ == "text"@ && (local@ == "list-style"@ || local@ == "list-level-style-bullet"@
            || local@ == "list-level-style-number"@ || local@ == "list-level-style-image"@)) ==> (
        r.0 is None && r.2 is None),
{
    proof {
        broadcast use vstd::string::group_string_axioms;

        reveal_strlit("list-style");
        reveal_strlit("list-level-style-bullet");
        reveal_strlit("list-level-style-number");
        reveal_strlit("list-level-style-image");
    }
    if str_eq(prefix, "text") && str_eq(local, "list-style") {
        let (style_name, _display) = list_style_begin(attributes);
        proof {
            assert("list-style"@.len() == 10);
            assert("list-level-style-bullet"@.len() == 23);
            assert("list-level-style-number"@.len() == 23);
            assert("list-level-style-image"@.len() == 22);
            assert(local@ != "list-level-style-bullet"@);
            assert(local@ != "list-level-style-number"@);
            assert(local@ != "list-level-style-image"@);
        }
        (Some(style_name), None, None)
    } else if str_eq(prefix, "text") && str_eq(local, "list-level-style-bullet") {
        let lb = list_style_bullet_begin(attributes);
        proof {
            assert(lb.0 == special_level(prefix@, local@, attributes@));
            assert(special_bullet_ok(lb.1, prefix@, local@, attributes@));
        }
        (None, None, Some(lb))
    } else if str_eq(prefix, "text") && str_eq(local, "list-level-style-number") {
        let lb = list_style_number_begin(attributes);
        proof {
            assert(local@ != "list-level-style-bullet"@);
            assert(lb.0 == special_level(prefix@, local@, attributes@));
            assert(special_bullet_ok(lb.1, prefix@, local@, attributes@));
        }
        (None, None, Some(lb))
    } else if str_eq(prefix, "text") && str_eq(local, "list-level-style-image") {
        let lb = list_style_image_begin(attributes);
        proof {
            assert(local@ != "list-level-style-bullet"@);
            assert(local@ != "list-level-style-number"@);
            assert(lb.0 == special_level(prefix@, local@, attributes@));
            assert(special_bullet_ok(lb.1, prefix@, local@, attributes@));
        }
        (None, None, Some(lb))
    } else {
        (None, None, None)
    }
}



pub open spec fn opt_style_view(o: Option<Style>) -> Option<StyleV> {
    match o {
        Some(st) => Some(st@),
        None => None,
    }
}

/// The styles pass's abstract state: the pending entry's name, the pending
/// entry itself — open but not yet committed — and the committed table.
#[verifier::ext_equal]
pub ghost struct StylesState {
    pub cur_name: Seq<char>,
    pub cur: Option<StyleV>,
    pub classes: Map<Seq<char>, StyleV>,
}

/// How one styles event moves the abstract state: a definition tag opens a
/// pending entry; a nested property tag — in paired or self-closed form —
/// feeds the translators into the pending entry; the definition tag's end
/// commits the pending entry to the table; everything else changes nothing.
pub open spec fn styles_step(st: StylesState, e: OdtEvent) -> StylesState {
    match e {
        OdtEvent::Start { prefix, local, attributes } => {
            if prefix@ == "style"@ && local@ == "default-style"@ {
                StylesState {
                    cur_name: attr_or_empty(attributes@, "style"@, "family"@),
                    cur: Some(spec_default_entry()),
                    classes: st.classes,
                }
            } else if prefix@ == "style"@ && local@ == "style"@ {
                StylesState {
                    cur_name: spec_style_name(attributes@),
                    cur: Some(spec_style_entry(attributes@)),
                    classes: st.classes,
                }
            } else if is_prop_tag(prefix@, local@) && st.cur is Some {
                StylesState {
                    cur: Some(
                        StyleV {
                            styles: style_props_apply(local@, st.cur->0.styles, attributes@),
                            ..st.cur->0
                        },
                    ),
                    ..st
                }
            } else {
                st
            }
        },
        OdtEvent::End { prefix, local } => {
            if prefix@ == "style"@ && (local@ == "default-style"@ || local@ == "style"@)
                && st.cur is Some {
                StylesState {
                    cur_name: Seq::empty(),
                    cur: None,
                    classes: st.classes.insert(st.cur_name, st.cur->0),
                }
            } else {
                st
            }
        },
        OdtEvent::Empty { prefix, local, attributes } => {
            if is_prop_tag(prefix@, local@) && st.cur is Some {
                StylesState {
                    cur: Some(
                        StyleV {
                            styles: style_props_apply(local@, st.cur->0.styles, attributes@),
                            ..st.cur->0
                        },
                    ),
                    ..st
                }
            } else {
                st
            }
        },
        _ => st,
    }
}

pub open spec fn styles_fold(st: StylesState, s: Seq<OdtEvent>) -> StylesState
    decreases s.len(),
{
    if s.len() == 0 {
        st
    } else {
        styles_step(styles_fold(st, s.drop_last()), s.last())
    }
}

pub proof fn lemma_styles_fold_step(st: StylesState, s: Seq<OdtEvent>, i: int)
    requires
        0 <= i < s.len(),
    ensures
        styles_fold(st, s.take(i + 1)) == styles_step(styles_fold(st, s.take(i)), s[i]),
{
    assert(s.take(i + 1).drop_last() =~= s.take(i));
    assert(s.take(i + 1).last() == s[i]);
}

impl ODTParser {
    /// Handles a styles-pass StartElement event: a definition tag opens a
    /// pending entry, a nested property tag — spec-wise equal to its
    /// self-closed form — feeds the translators into the pending entry.
    pub fn styles_handle_element_start(
        &self,
        prefix: &str,
        local: &str,
        attributes: &Vec<XmlAttribute>,
        style: &mut Option<Style>,
    ) -> (r: Option<(String, Style)>)
        ensures
            prefix@ == "style"@ && local@ == "default-style"@ ==> ({
                &&& *final(style) == *old(style)
                &&& r is Some
                &&& (r->0).0@ == attr_or_empty(attributes@, "style"@, "family"@)
                &&& (r->0).1@ == spec_default_entry()
            }),
            prefix@ == "style"@ && local@ == "style"@ ==> ({
                &&& *final(style) == *old(style)
                &&& r is Some
                &&& (r->0).0@ == spec_style_name(attributes@)
                &&& (r->0).1@ == spec_style_entry(attributes@)
            }),
            !(prefix@ == "style"@ && (local@ == "default-style"@ || local@ == "style"@)) ==> ({
                &&& r is None
                &&& (is_prop_tag(prefix@, local@) && (*old(style)) is Some ==> ({
                    &&& (*final(style)) is Some
                    &&& (*final(style))->0@ == (StyleV {
                        styles: style_props_apply(local@, (*old(style))->0@.styles, attributes@),
                        ..(*old(style))->0@
                    })
                }))
                &&& (!(is_prop_tag(prefix@, local@) && (*old(style)) is Some) ==> *final(style)
                    == *old(style))
            }),
    {
        proof {
            reveal_strlit("style");
            reveal_strlit("default-style");
            reveal_strlit("text-properties");
            reveal_strlit("table-properties");
            reveal_strlit("table-cell-properties");
            reveal_strlit("table-row-properties");
            reveal_strlit("table-column-properties");
        }
        if str_eq(prefix, "style") && str_eq(local, "default-style") {
            proof {
                assert("default-style"@.len() == 13);
                assert("style"@.len() == 5);
            }
            return Some(default_style_begin(attributes));
        }
        if str_eq(prefix, "style") && str_eq(local, "style") {
            return Some(style_style_begin(attributes));
        }
        match style {
            Some(st) => {
                style_properties_dispatch(prefix, local, attributes, &mut st.styles);
            },
            None => {},
        }
        None
    }

    /// Handles a styles-pass EndElement event: a definition tag's end commits
    /// the pending entry to the named-style table under the pending name;
    /// any other end tag hands the pending pair back.
    pub fn styles_handle_element_end(
        &mut self,
        prefix: &str,
        local: &str,
        style_name: String,
        style: Option<Style>,
    ) -> (r: Option<(String, Option<Style>)>)
        ensures
            (prefix@ == "style"@ && (local@ == "default-style"@ || local@ == "style"@)
                && style is Some) ==> ({
                &&& final(self).document_root.styles.classes@ == old(
                    self,
                ).document_root.styles.classes@.insert(style_name@, style->0@)
                &&& final(self).document_root.children == old(self).document_root.children
                &&& final(self).body_begin == old(self).body_begin
                &&& final(self).styles_begin == old(self).styles_begin
                &&& final(self).auto_styles == old(self).auto_styles
                &&& final(self).set_children_underline == old(self).set_children_underline
                &&& final(self).ensure_children_no_underline == old(
                    self,
                ).ensure_children_no_underline
                &&& final(self).document_hierarchy == old(self).document_hierarchy
                &&& r is None
            }),
            !(prefix@ == "style"@ && (local@ == "default-style"@ || local@ == "style"@)
                && style is Some) ==> ({
                &&& *final(self) == *old(self)
                &&& r is Some
                &&& (r->0).0@ == style_name@
                &&& opt_style_view((r->0).1) == opt_style_view(style)
            }),
    {
        proof {
            reveal_strlit("style");
            reveal_strlit("default-style");
        }
        if str_eq(prefix, "style") && (str_eq(local, "default-style") || str_eq(local, "style")) {
            match style {
                Some(st) => {
                    self.document_root.styles.classes.insert(style_name, st);
                    return None;
                },
                None => {
                    return Some((style_name, None));
                },
            }
        }
        Some((style_name, style))
    }

    /// Handles a styles-pass self-closed tag: a property tag feeds the
    /// translators into the pending entry.
    pub fn styles_handle_element_empty(
        &self,
        prefix: &str,
        local: &str,
        attributes: &Vec<XmlAttribute>,
        style: &mut Style,
    )
        ensures
            is_prop_tag(prefix@, local@) ==> final(style)@ == (StyleV {
                styles: style_props_apply(local@, old(style)@.styles, attributes@),
                ..old(style)@
            }),
            !is_prop_tag(prefix@, local@) ==> *final(style) == *old(style),
    {
        style_properties_dispatch(prefix, local, attributes, &mut style.styles);
    }

    /// Feeds a whole styles event stream through the three handlers. The
    /// named-style table follows the styles fold: it gains exactly the
    /// committed entries, and nothing else of the parser moves.
    pub fn process_style_events(&mut self, events: &Vec<OdtEvent>)
        ensures
            ({
                let st = styles_fold(
                    StylesState {
                        cur_name: Seq::empty(),
                        cur: None,
                        classes: old(self).document_root.styles.classes@,
                    },
                    events@,
                );
                &&& final(self).document_root.styles.classes@ == st.classes
                &&& final(self).document_root.children == old(self).document_root.children
                &&& final(self).body_begin == old(self).body_begin
                &&& final(self).styles_begin == old(self).styles_begin
                &&& final(self).auto_styles == old(self).auto_styles
                &&& final(self).set_children_underline == old(self).set_children_underline
                &&& final(self).ensure_children_no_underline == old(
                    self,
                ).ensure_children_no_underline
                &&& final(self).document_hierarchy == old(self).document_hierarchy
            }),
    {
        let ghost init = StylesState {
            cur_name: Seq::<char>::empty(),
            cur: None,
            classes: old(self).document_root.styles.classes@,
        };
        let mut current_style_name: String = String::new();
        let mut current_style_value: Option<Style> = None;
        let n = events.len();
        let mut i: usize = 0;
        while i < n
            invariant
                n == events.len(),
                0 <= i <= n,
                init == (StylesState {
                    cur_name: Seq::<char>::empty(),
                    cur: None,
                    classes: old(self).document_root.styles.classes@,
                }),
                ({
                    let st = styles_fold(init, events@.take(i as int));
                    &&& current_style_name@ == st.cur_name
                    &&& opt_style_view(current_style_value) == st.cur
                    &&& self.document_root.styles.classes@ == st.classes
                }),
                self.document_root.children == old(self).document_root.children,
                self.body_begin == old(self).body_begin,
                self.styles_begin == old(self).styles_begin,
                self.auto_styles == old(self).auto_styles,
                self.set_children_underline == old(self).set_children_underline,
                self.ensure_children_no_underline == old(self).ensure_children_no_underline,
                self.document_hierarchy == old(self).document_hierarchy,
            decreases n - i,
        {
            proof {
                lemma_styles_fold_step(init, events@, i as int);
            }
            match &events[i] {
                OdtEvent::Start { prefix, local, attributes } => {
                    let r = self.styles_handle_element_start(
                        prefix.as_str(),
                        local.as_str(),
                        attributes,
                        &mut current_style_value,
                    );
                    if let Some(p) = r {
                        current_style_name = p.0;
                        current_style_value = Some(p.1);
                    }
                },
                OdtEvent::End { prefix, local } => {
                    let r = self.styles_handle_element_end(
                        prefix.as_str(),
                        local.as_str(),
                        current_style_name,
                        current_style_value,
                    );
                    match r {
                        Some(p) => {
                            current_style_name = p.0;
                            current_style_value = p.1;
                        },
                        None => {
                            current_style_name = String::new();
                            current_style_value = None;
                        },
                    }
                },
                OdtEvent::Empty { prefix, local, attributes } => {
                    match &mut current_style_value {
                        Some(st) => {
                            self.styles_handle_element_empty(
                                prefix.as_str(),
                                local.as_str(),
                                attributes,
                                st,
                            );
                        },
                        None => {},
                    }
                },
                _ => {},
            }
            i = i + 1;
        }
        proof {
            assert(events@.take(n as int) =~= events@);
        }
    }
}


impl ODTParser {
    /// Parses the package's styles entry: extracts `styles.xml` from the
    /// archive's bytes, tokenizes it, and — only when the tokenizer reports
    /// no fault — feeds the whole event stream through the handlers.
    ///
    /// The result is classified exactly: extraction failure surfaces as the
    /// distinct entry-missing or archive error; a tokenizer fault as the
    /// syntax error; otherwise the parse succeeds and the named-style table
    /// follows the styles fold of the entry's token stream. Every failure
    /// is terminal: the parser is then left exactly as it was, never
    /// holding a partial table; nothing else of the parser ever moves.
    pub fn parse_styles(&mut self, archive: &Vec<u8>) -> (r: Result<(), OdtError>)
        ensures
            r is Err ==> *final(self) == *old(self),
            final(self).document_root.children == old(self).document_root.children,
            final(self).body_begin == old(self).body_begin,
            final(self).styles_begin == old(self).styles_begin,
            final(self).auto_styles == old(self).auto_styles,
            final(self).set_children_underline == old(self).set_children_underline,
            final(self).ensure_children_no_underline == old(self).ensure_children_no_underline,
            final(self).document_hierarchy == old(self).document_hierarchy,
            ({
                let entry = entry_of(archive@, "styles.xml"@);
                match entry {
                    Ok(bytes) => {
                        if stream_has_fault(tokens_of(bytes)) {
                            r matches Err(OdtError::XmlSyntax { .. })
                        } else {
                            let st = styles_fold(
                                StylesState {
                                    cur_name: Seq::empty(),
                                    cur: None,
                                    classes: old(self).document_root.styles.classes@,
                                },
                                tokens_of(bytes),
                            );
                            &&& r is Ok
                            &&& final(self).document_root.styles.classes@ == st.classes
                        }
                    },
                    Err(missing) => {
                        &&& r is Err
                        &&& (missing ==> (r matches Err(OdtError::EntryMissing)))
                        &&& (!missing ==> (r matches Err(OdtError::Archive { .. })))
                    },
                }
            }),
    {
        let styles = match zip_entry(archive, "styles.xml") {
            Ok(b) => b,
            Err(e) => {
                return Err(e);
            },
        };
        let events = collect_events(styles.as_slice());
        match first_fault(&events) {
            Some(message) => Err(OdtError::XmlSyntax { message }),
            None => {
                self.process_style_events(&events);
                Ok(())
            },
        }
    }
}

} // verus!
