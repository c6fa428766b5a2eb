use odt_parser::assoc::{AssocMap, PropMap};
use odt_parser::codec::{parse_props, serialize_props};
use odt_parser::content::ODTParser;
use odt_parser::events::{OdtEvent, XmlAttribute};
use odt_parser::model::{default_bullet_list, ListBullet};
use odt_parser::styles::{
    default_style_begin, handle_element_empty_style, handle_element_empty_style_special,
    handle_element_start_style, handle_element_start_style_special, list_style_begin,
    list_style_bullet_begin, list_style_image_begin, list_style_number_begin,
    list_style_number_begin_helper, style_begin, style_begin_helper, style_style_begin,
};
use odt_parser::translators::text_properties_begin;
use odt_parser::OdtError;

fn attr(prefix: &str, local: &str, value: &str) -> XmlAttribute {
    XmlAttribute {
        prefix: prefix.to_string(),
        local: local.to_string(),
        value: value.to_string(),
    }
}

fn start(prefix: &str, local: &str, attributes: Vec<XmlAttribute>) -> OdtEvent {
    OdtEvent::Start {
        prefix: prefix.to_string(),
        local: local.to_string(),
        attributes,
    }
}

fn end(prefix: &str, local: &str) -> OdtEvent {
    OdtEvent::End {
        prefix: prefix.to_string(),
        local: local.to_string(),
    }
}

#[test]
fn family_is_the_fallback_parent() {
    let attrs = vec![
        attr("style", "name", "Heading_1"),
        attr("style", "family", "Standard"),
    ];
    let (name, _display, parent, level) = style_begin_helper(&attrs);
    assert_eq!(name, "Heading_1");
    assert_eq!(parent, "Standard");
    assert_eq!(level, None);

    // An explicit parent reference wins over the family.
    let attrs = vec![
        attr("style", "family", "Standard"),
        attr("style", "parent-style-name", "Base"),
    ];
    let (_, _, parent, _) = style_begin_helper(&attrs);
    assert_eq!(parent, "Base");

    let (name, parent) = style_begin(&vec![attr("style", "family", "Standard")]);
    assert_eq!(name, "");
    assert_eq!(parent, "Standard");
}

#[test]
fn style_entry_with_heading_template() {
    let attrs = vec![
        attr("style", "name", "H2"),
        attr("style", "display-name", "Heading 2"),
        attr("style", "family", "paragraph"),
        attr("style", "default-outline-level", "2"),
    ];
    let (name, style) = style_style_begin(&attrs);
    assert_eq!(name, "H2");
    assert_eq!(style.display_name, "Heading 2");
    assert_eq!(style.parent, Some("paragraph".to_string()));
    let template = style.template.expect("a template heading");
    assert_eq!(template.kind, "heading");
    assert_eq!(template.attributes.get("level"), Some(&"2".to_string()));

    // An unparsable level falls back to one; an empty one means none.
    let attrs = vec![attr("style", "default-outline-level", "deep")];
    let (_, style) = style_style_begin(&attrs);
    let template = style.template.expect("a template heading");
    assert_eq!(template.attributes.get("level"), Some(&"1".to_string()));
    let attrs = vec![attr("style", "default-outline-level", "")];
    let (_, style) = style_style_begin(&attrs);
    assert!(style.template.is_none());
}

#[test]
fn default_style_keyed_by_family() {
    let (name, style) = default_style_begin(&vec![attr("style", "family", "graphic")]);
    assert_eq!(name, "graphic");
    assert_eq!(style.display_name, "");
    assert_eq!(style.parent, None);
    assert!(style.template.is_none());
}

#[test]
fn list_bullets_read_their_tags() {
    let (name, display) = list_style_begin(&vec![
        attr("style", "name", "L1"),
        attr("style", "display-name", "List One"),
    ]);
    assert_eq!(name, "L1");
    assert_eq!(display, Some("List One".to_string()));

    let (level, bullet) = list_style_bullet_begin(&vec![
        attr("text", "level", "2"),
        attr("text", "bullet-char", "*"),
        attr("style", "num-prefix", "("),
        attr("style", "num-suffix", ")"),
    ]);
    assert_eq!(level, 2);
    match bullet {
        ListBullet::Character { prefix, suffix, bullet_char } => {
            assert_eq!(prefix, Some("(".to_string()));
            assert_eq!(suffix, Some(")".to_string()));
            assert_eq!(bullet_char, "*");
        }
        _ => panic!("expected a character bullet"),
    }

    let (level, bullet) = list_style_image_begin(&vec![
        attr("text", "level", "4"),
        attr("xlink", "href", "Pictures/dot.png"),
    ]);
    assert_eq!(level, 4);
    match bullet {
        ListBullet::Image { href, .. } => assert_eq!(href, "Pictures/dot.png"),
        _ => panic!("expected an image bullet"),
    }
}

#[test]
fn number_format_table() {
    assert_eq!(list_style_number_begin_helper("1"), ("decimal".to_string(), true));
    assert_eq!(list_style_number_begin_helper("a"), ("lowerLatin".to_string(), true));
    assert_eq!(list_style_number_begin_helper("A"), ("upperLatin".to_string(), true));
    assert_eq!(list_style_number_begin_helper("i"), ("lowerRoman".to_string(), true));
    assert_eq!(list_style_number_begin_helper("I"), ("upperRoman".to_string(), true));
    assert_eq!(list_style_number_begin_helper("z"), ("z".to_string(), false));

    let (level, bullet) = list_style_number_begin(&vec![
        attr("text", "level", "3"),
        attr("style", "num-format", "i"),
        attr("text", "start-value", "7"),
    ]);
    assert_eq!(level, 3);
    match bullet {
        ListBullet::Variant { start_value, variant, .. } => {
            assert_eq!(start_value, Some(7));
            assert_eq!(variant, "lowerRoman");
        }
        _ => panic!("expected a numbering variant"),
    }

    // An unknown format code becomes a literal character bullet.
    let (_, bullet) = list_style_number_begin(&vec![attr("style", "num-format", "->")]);
    match bullet {
        ListBullet::Character { bullet_char, .. } => assert_eq!(bullet_char, "->"),
        _ => panic!("expected a character bullet"),
    }

    // An unparsable start value falls back to one.
    let (_, bullet) = list_style_number_begin(&vec![
        attr("style", "num-format", "1"),
        attr("text", "start-value", "many"),
    ]);
    match bullet {
        ListBullet::Variant { start_value, .. } => assert_eq!(start_value, Some(1)),
        _ => panic!("expected a numbering variant"),
    }
}

fn is_default(b: &ListBullet) -> bool {
    match b {
        ListBullet::Variant { prefix, suffix, start_value, variant } => {
            prefix.is_none() && suffix.is_none() && start_value.is_none() && variant == "filledBullet"
        }
        _ => false,
    }
}

#[test]
fn level_three_only_leaves_other_slots_default() {
    let mut bullets = default_bullet_list();
    handle_element_empty_style_special(
        "text",
        "list-level-style-bullet",
        &vec![attr("text", "level", "3"), attr("text", "bullet-char", "-")],
        &mut bullets,
    );
    assert_eq!(bullets.len(), 10);
    for (i, b) in bullets.iter().enumerate() {
        if i == 2 {
            match b {
                ListBullet::Character { bullet_char, .. } => assert_eq!(bullet_char, "-"),
                _ => panic!("expected a character bullet at level three"),
            }
        } else {
            assert!(is_default(b), "slot {} should be the default bullet", i);
        }
    }
}

#[test]
fn unrecognized_tag_leaves_bullets_alone() {
    let mut bullets = default_bullet_list();
    // Customize the level-one slot first.
    handle_element_empty_style_special(
        "text",
        "list-level-style-bullet",
        &vec![attr("text", "level", "1"), attr("text", "bullet-char", "#")],
        &mut bullets,
    );
    // A tag that is none of the three list-level tags changes nothing.
    handle_element_empty_style_special("text", "list-header", &vec![], &mut bullets);
    handle_element_empty_style_special("style", "list-level-properties", &vec![], &mut bullets);
    match &bullets[0] {
        ListBullet::Character { bullet_char, .. } => assert_eq!(bullet_char, "#"),
        _ => panic!("the customized slot must survive unrelated tags"),
    }
    for b in bullets.iter().skip(1) {
        assert!(is_default(b));
    }
}

#[test]
fn leading_plus_sign_parses() {
    let (_, bullet) = list_style_number_begin(&vec![
        attr("style", "num-format", "1"),
        attr("text", "start-value", "+7"),
    ]);
    match bullet {
        ListBullet::Variant { start_value, .. } => assert_eq!(start_value, Some(7)),
        _ => panic!("expected a numbering variant"),
    }
    // A lone sign, a doubled sign and a signed non-number all fall back.
    for bad in ["+", "++7", "+x"] {
        let (_, bullet) = list_style_number_begin(&vec![
            attr("style", "num-format", "1"),
            attr("text", "start-value", bad),
        ]);
        match bullet {
            ListBullet::Variant { start_value, .. } => assert_eq!(start_value, Some(1)),
            _ => panic!("expected a numbering variant"),
        }
    }
}

#[test]
fn out_of_range_levels_are_ignored() {
    let mut bullets = default_bullet_list();
    handle_element_empty_style_special(
        "text",
        "list-level-style-bullet",
        &vec![attr("text", "level", "11"), attr("text", "bullet-char", "-")],
        &mut bullets,
    );
    for b in bullets.iter() {
        assert!(is_default(b));
    }
}

#[test]
fn empty_style_helper_dispatches() {
    let mut map: PropMap = AssocMap::new();
    handle_element_empty_style(
        "text-properties",
        &vec![attr("fo", "font-weight", "bold")],
        &mut map,
    );
    assert_eq!(map.get("fontWeight"), Some(&"bold".to_string()));
    handle_element_empty_style(
        "table-column-properties",
        &vec![attr("style", "column-width", "2cm")],
        &mut map,
    );
    assert_eq!(map.get("columnWidth"), Some(&"2cm".to_string()));
}

#[test]
fn start_style_helper_seeds_parent() {
    let (name, map, bullet) = handle_element_start_style(
        "style",
        &vec![
            attr("style", "name", "S"),
            attr("style", "family", "Standard"),
        ],
    );
    assert_eq!(name, Some("S".to_string()));
    let map = map.expect("a seeded map");
    assert_eq!(map.get("_parent"), Some(&"Standard".to_string()));
    assert!(bullet.is_none());

    let (name, map, _) = handle_element_start_style(
        "table-row-properties",
        &vec![attr("style", "row-height", "1cm")],
    );
    assert!(name.is_none());
    assert_eq!(map.expect("a map").get("rowHeight"), Some(&"1cm".to_string()));

    let (name, map, bullet) = handle_element_start_style("unrelated", &vec![]);
    assert!(name.is_none() && map.is_none() && bullet.is_none());
}

#[test]
fn start_style_special_helper() {
    let (name, map, bullet) = handle_element_start_style_special(
        "text",
        "list-style",
        &vec![attr("style", "name", "L"), attr("style", "display-name", "List")],
    );
    assert_eq!(name, Some("L".to_string()));
    assert!(map.is_none() && bullet.is_none());

    let (name, _, bullet) = handle_element_start_style_special(
        "text",
        "list-level-style-number",
        &vec![attr("text", "level", "2"), attr("style", "num-format", "A")],
    );
    assert!(name.is_none());
    let (level, bullet) = bullet.expect("a bullet");
    assert_eq!(level, 2);
    match bullet {
        ListBullet::Variant { variant, .. } => assert_eq!(variant, "upperLatin"),
        _ => panic!("expected a numbering variant"),
    }
}

#[test]
fn styles_pass_builds_the_table() {
    let mut parser = ODTParser::new();
    let events = vec![
        start("office", "document-styles", vec![]),
        start("office", "styles", vec![]),
        start("style", "default-style", vec![attr("style", "family", "paragraph")]),
        OdtEvent::Empty {
            prefix: "style".to_string(),
            local: "text-properties".to_string(),
            attributes: vec![attr("fo", "font-size", "11pt")],
        },
        end("style", "default-style"),
        start(
            "style",
            "style",
            vec![
                attr("style", "name", "T1"),
                attr("style", "family", "table"),
            ],
        ),
        start("style", "table-properties", vec![attr("style", "width", "17cm")]),
        end("style", "table-properties"),
        end("style", "style"),
        end("office", "styles"),
        end("office", "document-styles"),
        OdtEvent::Eof,
    ];
    parser.process_style_events(&events);
    let classes = &parser.document_root.styles.classes;
    let default = classes.get("paragraph").expect("the default style");
    assert_eq!(default.display_name, "");
    assert_eq!(default.parent, None);
    assert_eq!(default.styles.get("fontSize"), Some(&"11pt".to_string()));
    let table = classes.get("T1").expect("the named style");
    assert_eq!(table.parent, Some("table".to_string()));
    assert_eq!(table.styles.get("width"), Some(&"17cm".to_string()));
    // An uncommitted entry never reaches the table.
    assert!(classes.get("").is_none());
}

#[test]
fn property_map_round_trip() {
    let attrs = vec![
        attr("fo", "font-weight", "bold"),
        attr("fo", "color", "#0a0b0c"),
        attr("style", "text-underline-style", "solid"),
        attr("style", "font-name", "A=B\\C\nD"),
    ];
    let mut map: PropMap = AssocMap::new();
    text_properties_begin(&attrs, &mut map);
    let wire = serialize_props(&map);
    let back = parse_props(&wire);
    for key in [
        "fontWeight",
        "color",
        "textDecorationLine",
        "textDecorationStyle",
        "fontFamily",
    ] {
        assert_eq!(back.get(key), map.get(key), "key {} must survive", key);
    }
    assert_eq!(back.get("fontFamily"), Some(&"A=B\\C\nD".to_string()));
    assert!(back.get("unrelated").is_none());
}

#[test]
fn empty_map_round_trip() {
    let map: PropMap = AssocMap::new();
    let wire = serialize_props(&map);
    assert!(wire.is_empty());
    let back = parse_props(&wire);
    assert!(back.get("anything").is_none());
}

#[test]
fn error_enum_is_cloneable() {
    let e = OdtError::EntryMissing;
    match e.clone() {
        OdtError::EntryMissing => {}
        _ => panic!("clone changed the variant"),
    }
}

#[test]
fn parse_props_reads_plain_lines() {
    let wire: Vec<char> = "color=#123456\nwidth=2cm\n".chars().collect();
    let map = parse_props(&wire);
    assert_eq!(map.get("color"), Some(&"#123456".to_string()));
    assert_eq!(map.get("width"), Some(&"2cm".to_string()));
    // A later line overwrites an earlier one with the same key.
    let wire: Vec<char> = "k=a\nk=b\n".chars().collect();
    let map = parse_props(&wire);
    assert_eq!(map.get("k"), Some(&"b".to_string()));
    // An unterminated trailing line is dropped.
    let wire: Vec<char> = "k=a\nq=c".chars().collect();
    let map = parse_props(&wire);
    assert_eq!(map.get("k"), Some(&"a".to_string()));
    assert_eq!(map.get("q"), None);
    // Escapes stand for their characters.
    let wire: Vec<char> = "a\\=b=c\\\nd\n".chars().collect();
    let map = parse_props(&wire);
    assert_eq!(map.get("a=b"), Some(&"c\nd".to_string()));
}

#[test]
fn map_duplicate_and_keys() {
    let mut map: PropMap = AssocMap::new();
    map.insert("one".to_string(), "1".to_string());
    map.insert("two".to_string(), "2".to_string());
    map.insert("one".to_string(), "uno".to_string());
    assert!(map.contains_key("one"));
    assert!(!map.contains_key("three"));
    let copy = map.duplicate();
    assert_eq!(copy.get("one"), Some(&"uno".to_string()));
    assert_eq!(copy.get("two"), Some(&"2".to_string()));
    let mut keys = map.keys();
    keys.sort();
    assert_eq!(keys, vec!["one".to_string(), "two".to_string()]);
}
