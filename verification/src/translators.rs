//! Style property translators: pure functions from one tag's attribute list
//! to insert-or-overwrite mutations of a property map. They never delete, and
//! they are stateless, so both parsing passes share them.

use crate::assoc::PropMap;
use crate::events::XmlAttribute;
use crate::strutil::str_eq;
use vstd::prelude::*;

verus! {

/// A one-entry property map.
pub open spec fn prop1(k: Seq<char>, v: Seq<char>) -> Map<Seq<char>, Seq<char>> {
    Map::empty().insert(k, v)
}

/// The target decoration style an underline style value selects: a fixed
/// table, everything unknown (and "solid" itself) falling back to solid.
pub open spec fn underline_style_css(v: Seq<char>) -> Seq<char> {
    if v == "dash"@ {
        "dashed"@
    } else if v == "dotted"@ {
        "dotted"@
    } else if v == "wave"@ {
        "wavy"@
    } else {
        "solid"@
    }
}

/// The insertions a single text-properties attribute makes, except the
/// double-underline override, which applies after the whole tag.
pub open spec fn text_prop_delta(a: XmlAttribute) -> Map<Seq<char>, Seq<char>> {
    if a.prefix@ == "fo"@ {
        if a.local@ == "font-weight"@ {
            prop1("fontWeight"@, a.value@)
        } else if a.local@ == "font-style"@ {
            if a.value@ == "backslant"@ {
                Map::empty()
            } else {
                prop1("fontStyle"@, a.value@)
            }
        } else if a.local@ == "color"@ {
            prop1("color"@, a.value@)
        } else if a.local@ == "font-size"@ {
            prop1("fontSize"@, a.value@)
        } else {
            Map::empty()
        }
    } else if a.prefix@ == "style"@ {
        if a.local@ == "text-underline-style"@ {
            if a.value@ == "none"@ {
                prop1("textDecorationLine"@, "none"@)
            } else {
                Map::empty().insert("textDecorationLine"@, "underline"@).insert(
                    "textDecorationStyle"@,
                    underline_style_css(a.value@),
                )
            }
        } else if a.local@ == "text-underline-color"@ {
            if a.value@ == "font-color"@ {
                prop1("textDecorationColor"@, "currentcolor"@)
            } else {
                prop1("textDecorationColor"@, a.value@)
            }
        } else if a.local@ == "font-name"@ {
            prop1("fontFamily"@, a.value@)
        } else {
            Map::empty()
        }
    } else {
        Map::empty()
    }
}

/// Whether a tag's attributes ask for a double underline.
pub open spec fn has_double_underline(attrs: Seq<XmlAttribute>) -> bool {
    exists|i: int|
        0 <= i < attrs.len() && (#[trigger] attrs[i]).prefix@ == "style"@ && attrs[i].local@
            == "text-underline-type"@ && attrs[i].value@ == "double"@
}

/// The folded per-attribute insertions of the text-properties translator, in
/// document order.
pub open spec fn tp_fold(attrs: Seq<XmlAttribute>) -> Map<Seq<char>, Seq<char>>
    decreases attrs.len(),
{
    if attrs.len() == 0 {
        Map::empty()
    } else {
        tp_fold(attrs.drop_last()).union_prefer_right(text_prop_delta(attrs.last()))
    }
}

/// Everything the text-properties translator writes for one tag: the folded
/// per-attribute insertions, then the double-underline override, which wins
/// over any decoration style regardless of attribute order.
pub open spec fn text_props_delta(attrs: Seq<XmlAttribute>) -> Map<Seq<char>, Seq<char>> {
    if has_double_underline(attrs) {
        tp_fold(attrs).insert("textDecorationStyle"@, "double"@)
    } else {
        tp_fold(attrs)
    }
}

/// What a property map becomes under one run of the text-properties
/// translator: its old entries, overwritten by the tag's insertions.
pub open spec fn apply_text_props(
    m: Map<Seq<char>, Seq<char>>,
    attrs: Seq<XmlAttribute>,
) -> Map<Seq<char>, Seq<char>> {
    m.union_prefer_right(text_props_delta(attrs))
}

pub proof fn lemma_tp_fold_step(attrs: Seq<XmlAttribute>, i: int)
    requires
        0 <= i < attrs.len(),
    ensures
        tp_fold(attrs.take(i + 1)) == tp_fold(attrs.take(i)).union_prefer_right(
            text_prop_delta(attrs[i]),
        ),
{
    assert(attrs.take(i + 1).drop_last() =~= attrs.take(i));
    assert(attrs.take(i + 1).last() == attrs[i]);
}

pub proof fn lemma_has_double_step(attrs: Seq<XmlAttribute>, i: int)
    requires
        0 <= i < attrs.len(),
    ensures
        has_double_underline(attrs.take(i + 1)) == (has_double_underline(attrs.take(i)) || (
        attrs[i].prefix@ == "style"@ && attrs[i].local@ == "text-underline-type"@
            && attrs[i].value@ == "double"@)),
{
    let s = attrs.take(i + 1);
    let t = attrs.take(i);
    if has_double_underline(t) {
        let j = choose|j: int|
            0 <= j < t.len() && (#[trigger] t[j]).prefix@ == "style"@ && t[j].local@
                == "text-underline-type"@ && t[j].value@ == "double"@;
        assert(s[j] == t[j]);
    }
    if attrs[i].prefix@ == "style"@ && attrs[i].local@ == "text-underline-type"@
        && attrs[i].value@ == "double"@ {
        assert(s[i] == attrs[i]);
    }
    if has_double_underline(s) && !(attrs[i].prefix@ == "style"@ && attrs[i].local@
        == "text-underline-type"@ && attrs[i].value@ == "double"@) {
        let j = choose|j: int|
            0 <= j < s.len() && (#[trigger] s[j]).prefix@ == "style"@ && s[j].local@
                == "text-underline-type"@ && s[j].value@ == "double"@;
        assert(j < i ==> t[j] == s[j]);
    }
}

/// Translates one text-properties tag's attributes into the property map:
/// font weight, style, size, colour and family move over verbatim (the one
/// value without a target equivalent is dropped); underline style, type and
/// colour become decoration properties, a double underline type overriding
/// the decoration style whatever the attribute order.
pub fn text_properties_begin(attributes: &Vec<XmlAttribute>, map: &mut PropMap)
    ensures
        final(map)@ == apply_text_props(old(map)@, attributes@),
{
    let n = attributes.len();
    let mut is_double: bool = false;
    let mut i: usize = 0;
    while i < n
        invariant
            n == attributes.len(),
            0 <= i <= n,
            map@ == old(map)@.union_prefer_right(tp_fold(attributes@.take(i as int))),
            is_double == has_double_underline(attributes@.take(i as int)),
        decreases n - i,
    {
        proof {
            lemma_tp_fold_step(attributes@, i as int);
            lemma_has_double_step(attributes@, i as int);
        }
        let ghost m0 = map@;
        let ghost av = attributes@[i as int];
        let a = &attributes[i];
        if str_eq(a.prefix.as_str(), "style") && str_eq(a.local.as_str(), "text-underline-type")
            && str_eq(a.value.as_str(), "double") {
            is_double = true;
        }
        if str_eq(a.prefix.as_str(), "fo") {
            if str_eq(a.local.as_str(), "font-weight") {
                map.insert("fontWeight".to_owned(), a.value.clone());
                proof {
                    assert(map@ =~= m0.union_prefer_right(text_prop_delta(av)));
                }
            } else if str_eq(a.local.as_str(), "font-style") {
                if !str_eq(a.value.as_str(), "backslant") {
                    map.insert("fontStyle".to_owned(), a.value.clone());
                    proof {
                        assert(map@ =~= m0.union_prefer_right(text_prop_delta(av)));
                    }
                } else {
                    proof {
                        assert(map@ =~= m0.union_prefer_right(text_prop_delta(av)));
                    }
                }
            } else if str_eq(a.local.as_str(), "color") {
                map.insert("color".to_owned(), a.value.clone());
                proof {
                    assert(map@ =~= m0.union_prefer_right(text_prop_delta(av)));
                }
            } else if str_eq(a.local.as_str(), "font-size") {
                map.insert("fontSize".to_owned(), a.value.clone());
                proof {
                    assert(map@ =~= m0.union_prefer_right(text_prop_delta(av)));
                }
            } else {
                proof {
                    assert(map@ =~= m0.union_prefer_right(text_prop_delta(av)));
                }
            }
        } else if str_eq(a.prefix.as_str(), "style") {
            if str_eq(a.local.as_str(), "text-underline-style") {
                if str_eq(a.value.as_str(), "none") {
                    map.insert("textDecorationLine".to_owned(), "none".to_owned());
                    proof {
                        assert(map@ =~= m0.union_prefer_right(text_prop_delta(av)));
                    }
                } else {
                    map.insert("textDecorationLine".to_owned(), "underline".to_owned());
                    if str_eq(a.value.as_str(), "dash") {
                        map.insert("textDecorationStyle".to_owned(), "dashed".to_owned());
                        proof {
                            assert(map@ =~= m0.union_prefer_right(text_prop_delta(av)));
                        }
                    } else if str_eq(a.value.as_str(), "dotted") {
                        map.insert("textDecorationStyle".to_owned(), "dotted".to_owned());
                        proof {
                            assert(map@ =~= m0.union_prefer_right(text_prop_delta(av)));
                        }
                    } else if str_eq(a.value.as_str(), "wave") {
                        map.insert("textDecorationStyle".to_owned(), "wavy".to_owned());
                        proof {
                            assert(map@ =~= m0.union_prefer_right(text_prop_delta(av)));
                        }
                    } else {
                        map.insert("textDecorationStyle".to_owned(), "solid".to_owned());
                        proof {
                            assert(map@ =~= m0.union_prefer_right(text_prop_delta(av)));
                        }
                    }
                }
            } else if str_eq(a.local.as_str(), "text-underline-color") {
                if str_eq(a.value.as_str(), "font-color") {
                    map.insert("textDecorationColor".to_owned(), "currentcolor".to_owned());
                    proof {
                        assert(map@ =~= m0.union_prefer_right(text_prop_delta(av)));
                    }
                } else {
                    map.insert("textDecorationColor".to_owned(), a.value.clone());
                    proof {
                        assert(map@ =~= m0.union_prefer_right(text_prop_delta(av)));
                    }
                }
            } else if str_eq(a.local.as_str(), "font-name") {
                map.insert("fontFamily".to_owned(), a.value.clone());
                proof {
                    assert(map@ =~= m0.union_prefer_right(text_prop_delta(av)));
                }
            } else {
                proof {
                    assert(map@ =~= m0.union_prefer_right(text_prop_delta(av)));
                }
            }
        } else {
            proof {
                assert(map@ =~= m0.union_prefer_right(text_prop_delta(av)));
            }
        }
        proof {
            assert(map@ =~= old(map)@.union_prefer_right(
                tp_fold(attributes@.take(i as int)).union_prefer_right(text_prop_delta(av)),
            ));
        }
        i = i + 1;
    }
    proof {
        assert(attributes@.take(n as int) =~= attributes@);
    }
    if is_double {
        map.insert("textDecorationStyle".to_owned(), "double".to_owned());
        proof {
            assert(map@ =~= apply_text_props(old(map)@, attributes@));
        }
    }
}

/// Law: translators are overwrite-idempotent. Applying the text-properties
/// translator twice with the same attribute set yields the map one
/// application yields.
pub proof fn lemma_text_props_idempotent(m: Map<Seq<char>, Seq<char>>, attrs: Seq<XmlAttribute>)
    ensures
        apply_text_props(apply_text_props(m, attrs), attrs) == apply_text_props(m, attrs),
{
    assert(apply_text_props(apply_text_props(m, attrs), attrs) =~= apply_text_props(m, attrs));
}


/// Which table-family tag a set of attributes belongs to.
#[derive(Clone, Copy, PartialEq, Eq, Structural)]
pub enum TableTagKind {
    Table,
    Cell,
    Row,
    Column,
}

/// The insertions a single table-family attribute makes: dimensions, borders
/// and alignment move over verbatim under target property names.
pub open spec fn table_prop_delta(kind: TableTagKind, a: XmlAttribute) -> Map<Seq<char>, Seq<char>> {
    match kind {
        TableTagKind::Table => {
            if a.prefix@ == "style"@ && a.local@ == "width"@ {
                prop1("width"@, a.value@)
            } else if a.prefix@ == "table"@ && a.local@ == "align"@ {
                prop1("align"@, a.value@)
            } else if a.prefix@ == "fo"@ && a.local@ == "background-color"@ {
                prop1("backgroundColor"@, a.value@)
            } else {
                Map::empty()
            }
        },
        TableTagKind::Cell => {
            if a.prefix@ == "fo"@ && a.local@ == "border"@ {
                prop1("border"@, a.value@)
            } else if a.prefix@ == "fo"@ && a.local@ == "padding"@ {
                prop1("padding"@, a.value@)
            } else if a.prefix@ == "style"@ && a.local@ == "vertical-align"@ {
                prop1("verticalAlign"@, a.value@)
            } else if a.prefix@ == "fo"@ && a.local@ == "background-color"@ {
                prop1("backgroundColor"@, a.value@)
            } else {
                Map::empty()
            }
        },
        TableTagKind::Row => {
            if a.prefix@ == "style"@ && a.local@ == "row-height"@ {
                prop1("rowHeight"@, a.value@)
            } else if a.prefix@ == "style"@ && a.local@ == "min-row-height"@ {
                prop1("minRowHeight"@, a.value@)
            } else if a.prefix@ == "fo"@ && a.local@ == "background-color"@ {
                prop1("backgroundColor"@, a.value@)
            } else {
                Map::empty()
            }
        },
        TableTagKind::Column => {
            if a.prefix@ == "style"@ && a.local@ == "column-width"@ {
                prop1("columnWidth"@, a.value@)
            } else if a.prefix@ == "style"@ && a.local@ == "rel-column-width"@ {
                prop1("relColumnWidth"@, a.value@)
            } else {
                Map::empty()
            }
        },
    }
}

/// The folded insertions of a whole table-family tag, in document order.
pub open spec fn table_props_delta(kind: TableTagKind, attrs: Seq<XmlAttribute>) -> Map<
    Seq<char>,
    Seq<char>,
>
    decreases attrs.len(),
{
    if attrs.len() == 0 {
        Map::empty()
    } else {
        table_props_delta(kind, attrs.drop_last()).union_prefer_right(
            table_prop_delta(kind, attrs.last()),
        )
    }
}

/// What a property map becomes under one run of a table-family translator.
pub open spec fn apply_table_props(
    kind: TableTagKind,
    m: Map<Seq<char>, Seq<char>>,
    attrs: Seq<XmlAttribute>,
) -> Map<Seq<char>, Seq<char>> {
    m.union_prefer_right(table_props_delta(kind, attrs))
}

pub proof fn lemma_table_props_step(kind: TableTagKind, attrs: Seq<XmlAttribute>, i: int)
    requires
        0 <= i < attrs.len(),
    ensures
        table_props_delta(kind, attrs.take(i + 1)) == table_props_delta(
            kind,
            attrs.take(i),
        ).union_prefer_right(table_prop_delta(kind, attrs[i])),
{
    assert(attrs.take(i + 1).drop_last() =~= attrs.take(i));
    assert(attrs.take(i + 1).last() == attrs[i]);
}

/// One attribute's translation, shared by the four table-family translators.
fn table_attr_step(kind: TableTagKind, a: &XmlAttribute, map: &mut PropMap)
    ensures
        final(map)@ == old(map)@.union_prefer_right(table_prop_delta(kind, *a)),
{
    let ghost av = *a;
    let is_style = str_eq(a.prefix.as_str(), "style");
    let is_fo = str_eq(a.prefix.as_str(), "fo");
    let is_table = str_eq(a.prefix.as_str(), "table");
    match kind {
        TableTagKind::Table => {
            if is_style && str_eq(a.local.as_str(), "width") {
                map.insert("width".to_owned(), a.value.clone());
            } else if is_table && str_eq(a.local.as_str(), "align") {
                map.insert("align".to_owned(), a.value.clone());
            } else if is_fo && str_eq(a.local.as_str(), "background-color") {
                map.insert("backgroundColor".to_owned(), a.value.clone());
            }
        },
        TableTagKind::Cell => {
            if is_fo && str_eq(a.local.as_str(), "border") {
                map.insert("border".to_owned(), a.value.clone());
            } else if is_fo && str_eq(a.local.as_str(), "padding") {
                map.insert("padding".to_owned(), a.value.clone());
            } else if is_style && str_eq(a.local.as_str(), "vertical-align") {
                map.insert("verticalAlign".to_owned(), a.value.clone());
            } else if is_fo && str_eq(a.local.as_str(), "background-color") {
                map.insert("backgroundColor".to_owned(), a.value.clone());
            }
        },
        TableTagKind::Row => {
            if is_style && str_eq(a.local.as_str(), "row-height") {
                map.insert("rowHeight".to_owned(), a.value.clone());
            } else if is_style && str_eq(a.local.as_str(), "min-row-height") {
                map.insert("minRowHeight".to_owned(), a.value.clone());
            } else if is_fo && str_eq(a.local.as_str(), "background-color") {
                map.insert("backgroundColor".to_owned(), a.value.clone());
            }
        },
        TableTagKind::Column => {
            if is_style && str_eq(a.local.as_str(), "column-width") {
                map.insert("columnWidth".to_owned(), a.value.clone());
            } else if is_style && str_eq(a.local.as_str(), "rel-column-width") {
                map.insert("relColumnWidth".to_owned(), a.value.clone());
            }
        },
    }
    proof {
        assert(map@ =~= old(map)@.union_prefer_right(table_prop_delta(kind, av)));
    }
}

/// The translation loop shared by the four table-family translators.
fn table_props_begin(kind: TableTagKind, attributes: &Vec<XmlAttribute>, map: &mut PropMap)
    ensures
        final(map)@ == apply_table_props(kind, old(map)@, attributes@),
{
    let n = attributes.len();
    let mut i: usize = 0;
    while i < n
        invariant
            n == attributes.len(),
            0 <= i <= n,
            map@ == old(map)@.union_prefer_right(
                table_props_delta(kind, attributes@.take(i as int)),
            ),
        decreases n - i,
    {
        proof {
            lemma_table_props_step(kind, attributes@, i as int);
        }
        let ghost m0 = map@;
        table_attr_step(kind, &attributes[i], map);
        proof {
            assert(map@ =~= old(map)@.union_prefer_right(
                table_props_delta(kind, attributes@.take(i as int)).union_prefer_right(
                    table_prop_delta(kind, attributes@[i as int]),
                ),
            ));
        }
        i = i + 1;
    }
    proof {
        assert(attributes@.take(n as int) =~= attributes@);
    }
}

/// Translates one table-properties tag's attributes into the property map.
pub fn table_properties_begin(attributes: &Vec<XmlAttribute>, map: &mut PropMap)
    ensures
        final(map)@ == apply_table_props(TableTagKind::Table, old(map)@, attributes@),
{
    table_props_begin(TableTagKind::Table, attributes, map);
}

/// Translates one table-cell-properties tag's attributes into the map.
pub fn table_cell_properties_begin(attributes: &Vec<XmlAttribute>, map: &mut PropMap)
    ensures
        final(map)@ == apply_table_props(TableTagKind::Cell, old(map)@, attributes@),
{
    table_props_begin(TableTagKind::Cell, attributes, map);
}

/// Translates one table-row-properties tag's attributes into the map.
pub fn table_row_properties_begin(attributes: &Vec<XmlAttribute>, map: &mut PropMap)
    ensures
        final(map)@ == apply_table_props(TableTagKind::Row, old(map)@, attributes@),
{
    table_props_begin(TableTagKind::Row, attributes, map);
}

/// Translates one table-column-properties tag's attributes into the map.
pub fn table_column_properties_begin(attributes: &Vec<XmlAttribute>, map: &mut PropMap)
    ensures
        final(map)@ == apply_table_props(TableTagKind::Column, old(map)@, attributes@),
{
    table_props_begin(TableTagKind::Column, attributes, map);
}

/// Law: the table-family translators are overwrite-idempotent too.
pub proof fn lemma_table_props_idempotent(
    kind: TableTagKind,
    m: Map<Seq<char>, Seq<char>>,
    attrs: Seq<XmlAttribute>,
)
    ensures
        apply_table_props(kind, apply_table_props(kind, m, attrs), attrs) == apply_table_props(
            kind,
            m,
            attrs,
        ),
{
    assert(apply_table_props(kind, apply_table_props(kind, m, attrs), attrs) =~= apply_table_props(
        kind,
        m,
        attrs,
    ));
}

} // verus!
