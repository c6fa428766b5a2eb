use odt_parser::assoc::{AssocMap, PropMap};
use odt_parser::content::{
    check_underline, handle_underline, heading_begin, paragraph_begin, span_begin, ODTParser,
};
use odt_parser::events::{OdtEvent, XmlAttribute};
use odt_parser::model::Node;
use odt_parser::translators::{table_cell_properties_begin, text_properties_begin};

fn attr(prefix: &str, local: &str, value: &str) -> XmlAttribute {
    XmlAttribute {
        prefix: prefix.to_string(),
        local: local.to_string(),
        value: value.to_string(),
    }
}

fn start(prefix: &str, local: &str, attributes: Vec<XmlAttribute>) -> OdtEvent {
    OdtEvent::Start {
        prefix: prefix.to_string(),
        local: local.to_string(),
        attributes,
    }
}

fn end(prefix: &str, local: &str) -> OdtEvent {
    OdtEvent::End {
        prefix: prefix.to_string(),
        local: local.to_string(),
    }
}

fn got<'a>(m: &'a PropMap, key: &str) -> Option<&'a String> {
    m.get(key)
}

#[test]
fn translator_maps_text_properties() {
    let attrs = vec![
        attr("fo", "font-weight", "bold"),
        attr("fo", "font-style", "italic"),
        attr("fo", "color", "#102030"),
        attr("fo", "font-size", "12pt"),
        attr("style", "font-name", "Liberation Serif"),
    ];
    let mut map: PropMap = AssocMap::new();
    text_properties_begin(&attrs, &mut map);
    assert_eq!(got(&map, "fontWeight"), Some(&"bold".to_string()));
    assert_eq!(got(&map, "fontStyle"), Some(&"italic".to_string()));
    assert_eq!(got(&map, "color"), Some(&"#102030".to_string()));
    assert_eq!(got(&map, "fontSize"), Some(&"12pt".to_string()));
    assert_eq!(got(&map, "fontFamily"), Some(&"Liberation Serif".to_string()));
    assert_eq!(got(&map, "textDecorationLine"), None);
}

#[test]
fn translator_drops_backslant() {
    let attrs = vec![attr("fo", "font-style", "backslant")];
    let mut map: PropMap = AssocMap::new();
    text_properties_begin(&attrs, &mut map);
    assert_eq!(got(&map, "fontStyle"), None);
}

#[test]
fn translator_underline_table() {
    for (odt, css) in [
        ("dash", "dashed"),
        ("dotted", "dotted"),
        ("wave", "wavy"),
        ("solid", "solid"),
        ("dot-dash", "solid"),
    ] {
        let attrs = vec![attr("style", "text-underline-style", odt)];
        let mut map: PropMap = AssocMap::new();
        text_properties_begin(&attrs, &mut map);
        assert_eq!(got(&map, "textDecorationLine"), Some(&"underline".to_string()));
        assert_eq!(got(&map, "textDecorationStyle"), Some(&css.to_string()));
    }
    let attrs = vec![attr("style", "text-underline-style", "none")];
    let mut map: PropMap = AssocMap::new();
    text_properties_begin(&attrs, &mut map);
    assert_eq!(got(&map, "textDecorationLine"), Some(&"none".to_string()));
    assert_eq!(got(&map, "textDecorationStyle"), None);
}

#[test]
fn translator_underline_color() {
    let attrs = vec![attr("style", "text-underline-color", "font-color")];
    let mut map: PropMap = AssocMap::new();
    text_properties_begin(&attrs, &mut map);
    assert_eq!(got(&map, "textDecorationColor"), Some(&"currentcolor".to_string()));

    let attrs = vec![attr("style", "text-underline-color", "#ff0000")];
    let mut map: PropMap = AssocMap::new();
    text_properties_begin(&attrs, &mut map);
    assert_eq!(got(&map, "textDecorationColor"), Some(&"#ff0000".to_string()));
}

#[test]
fn double_underline_overrides_style() {
    // Whatever the attribute order, the double type wins over the style.
    let forwards = vec![
        attr("style", "text-underline-style", "dotted"),
        attr("style", "text-underline-type", "double"),
    ];
    let backwards = vec![
        attr("style", "text-underline-type", "double"),
        attr("style", "text-underline-style", "dotted"),
    ];
    for attrs in [forwards, backwards] {
        let mut map: PropMap = AssocMap::new();
        text_properties_begin(&attrs, &mut map);
        assert_eq!(got(&map, "textDecorationLine"), Some(&"underline".to_string()));
        assert_eq!(got(&map, "textDecorationStyle"), Some(&"double".to_string()));
    }
}

#[test]
fn translator_twice_same_result() {
    let attrs = vec![
        attr("fo", "font-weight", "bold"),
        attr("style", "text-underline-style", "wave"),
        attr("style", "text-underline-type", "double"),
    ];
    let mut once: PropMap = AssocMap::new();
    text_properties_begin(&attrs, &mut once);
    let mut twice: PropMap = AssocMap::new();
    text_properties_begin(&attrs, &mut twice);
    text_properties_begin(&attrs, &mut twice);
    for key in [
        "fontWeight",
        "textDecorationLine",
        "textDecorationStyle",
        "fontWeight",
    ] {
        assert_eq!(got(&once, key), got(&twice, key));
    }
}

#[test]
fn table_cell_translator() {
    let attrs = vec![
        attr("fo", "border", "0.5pt solid #000000"),
        attr("style", "vertical-align", "middle"),
    ];
    let mut map: PropMap = AssocMap::new();
    table_cell_properties_begin(&attrs, &mut map);
    assert_eq!(got(&map, "border"), Some(&"0.5pt solid #000000".to_string()));
    assert_eq!(got(&map, "verticalAlign"), Some(&"middle".to_string()));
}

#[test]
fn extractors_read_attributes() {
    let (heading, style_name) = heading_begin(&vec![
        attr("text", "outline-level", "3"),
        attr("text", "style-name", "Title"),
    ]);
    assert_eq!(heading.kind, "heading");
    assert_eq!(heading.attributes.get("level"), Some(&"3".to_string()));
    assert_eq!(style_name, "Title");

    // An unparsable level falls back to one; an absent one stays at zero.
    let (heading, _) = heading_begin(&vec![attr("text", "outline-level", "soon")]);
    assert_eq!(heading.attributes.get("level"), Some(&"1".to_string()));
    let (heading, _) = heading_begin(&vec![]);
    assert_eq!(heading.attributes.get("level"), Some(&"0".to_string()));
    let (heading, _) = heading_begin(&vec![attr("text", "outline-level", "35")]);
    assert_eq!(heading.attributes.get("level"), Some(&"35".to_string()));

    let (p, name) = paragraph_begin(&vec![attr("text", "style-name", "Body")]);
    assert_eq!(p.kind, "paragraph");
    assert_eq!(name, "Body");
    let (s, name) = span_begin(&vec![]);
    assert_eq!(s.kind, "span");
    assert_eq!(name, "");
}

#[test]
fn check_underline_flags() {
    let mut auto: AssocMap<PropMap> = AssocMap::new();
    let mut with_underline: PropMap = AssocMap::new();
    with_underline.insert("textDecorationLine".to_string(), "underline".to_string());
    with_underline.insert("textDecorationColor".to_string(), "currentcolor".to_string());
    auto.insert("u".to_string(), with_underline);
    let mut no_underline: PropMap = AssocMap::new();
    no_underline.insert("textDecorationLine".to_string(), "none".to_string());
    auto.insert("n".to_string(), no_underline);

    let (e, set, ensure) = check_underline(span_begin(&vec![attr("text", "style-name", "u")]), &auto, false, false);
    assert!(set && ensure);
    assert_eq!(e.styles.get("textDecorationLine"), Some(&"underline".to_string()));

    let (_, set, ensure) = check_underline(span_begin(&vec![attr("text", "style-name", "n")]), &auto, true, true);
    assert!(set && !ensure);

    // An absent style name resolves to the empty map and inherits the flags.
    let (e, set, ensure) = check_underline(span_begin(&vec![]), &auto, true, false);
    assert!(set && !ensure);
    assert_eq!(e.styles.get("textDecorationLine"), None);

    // An underline in an explicit colour other than the font colour leaves
    // the propagation flag inherited, in either state.
    let mut green: PropMap = AssocMap::new();
    green.insert("textDecorationLine".to_string(), "underline".to_string());
    green.insert("textDecorationColor".to_string(), "#00aa00".to_string());
    auto.insert("g".to_string(), green);
    let (_, set, ensure) = check_underline(span_begin(&vec![attr("text", "style-name", "g")]), &auto, true, false);
    assert!(set && ensure);
    let (_, set, _) = check_underline(span_begin(&vec![attr("text", "style-name", "g")]), &auto, false, false);
    assert!(!set);
}

#[test]
fn handle_underline_cases() {
    // Propagated underline onto a declared non-none line.
    let mut m: PropMap = AssocMap::new();
    m.insert("textDecorationLine".to_string(), "overline".to_string());
    handle_underline(&mut m, true, false);
    assert_eq!(m.get("textDecorationLine"), Some(&"underline".to_string()));

    // Declared none under suppression gains the structural isolation mark.
    let mut m: PropMap = AssocMap::new();
    m.insert("textDecorationLine".to_string(), "none".to_string());
    handle_underline(&mut m, true, true);
    assert_eq!(m.get("textDecorationLine"), Some(&"none".to_string()));
    assert_eq!(m.get("display"), Some(&"inline-block".to_string()));

    // No declared line at all: the underline is declared.
    let mut m: PropMap = AssocMap::new();
    handle_underline(&mut m, true, false);
    assert_eq!(m.get("textDecoration"), Some(&"underline".to_string()));

    // Suppression alone, none declared.
    let mut m: PropMap = AssocMap::new();
    m.insert("textDecorationLine".to_string(), "none".to_string());
    handle_underline(&mut m, false, true);
    assert_eq!(m.get("display"), Some(&"inline-block".to_string()));
}

fn body_parser_with_styles() -> ODTParser {
    let mut parser = ODTParser::new();
    let events = vec![
        start("office", "automatic-styles", vec![]),
        start("style", "style", vec![attr("style", "name", "apex")]),
        start(
            "style",
            "text-properties",
            vec![
                attr("style", "text-underline-style", "solid"),
                attr("style", "text-underline-color", "font-color"),
            ],
        ),
        end("style", "text-properties"),
        end("style", "style"),
        start("style", "style", vec![attr("style", "name", "nomark")]),
        start(
            "style",
            "text-properties",
            vec![attr("style", "text-underline-style", "none")],
        ),
        end("style", "text-properties"),
        end("style", "style"),
        end("office", "automatic-styles"),
        start("office", "body", vec![]),
    ];
    parser.process_events(&events);
    assert!(parser.body_begin);
    parser
}

#[test]
fn underline_reconciliation_through_nesting() {
    let mut parser = body_parser_with_styles();
    let events = vec![
        start("text", "p", vec![attr("text", "style-name", "apex")]),
        start("text", "span", vec![attr("text", "style-name", "nomark")]),
        start("text", "span", vec![]),
        OdtEvent::Characters { content: "deep".to_string() },
        end("text", "span"),
        end("text", "span"),
        end("text", "p"),
    ];
    parser.process_events(&events);
    assert_eq!(parser.document_hierarchy.len(), 0);
    assert_eq!(parser.document_root.children.len(), 1);
    let p = match &parser.document_root.children[0] {
        Node::Element(e) => e,
        _ => panic!("expected an element"),
    };
    // The parent resolves to a declared underline in the font's colour.
    assert_eq!(p.kind, "paragraph");
    assert_eq!(p.styles.get("textDecorationLine"), Some(&"underline".to_string()));
    assert_eq!(p.styles.get("textDecorationColor"), Some(&"currentcolor".to_string()));
    // The child span declares none and gains the isolation override.
    let child = match &p.children[0] {
        Node::Element(e) => e,
        _ => panic!("expected an element"),
    };
    assert_eq!(child.kind, "span");
    assert_eq!(child.styles.get("textDecorationLine"), Some(&"none".to_string()));
    assert_eq!(child.styles.get("display"), Some(&"inline-block".to_string()));
    // The grandchild declares nothing and still ends up underlined.
    let grandchild = match &child.children[0] {
        Node::Element(e) => e,
        _ => panic!("expected an element"),
    };
    assert_eq!(grandchild.kind, "span");
    assert_eq!(grandchild.styles.get("textDecoration"), Some(&"underline".to_string()));
    match &grandchild.children[0] {
        Node::Text(t) => assert_eq!(t, "deep"),
        _ => panic!("expected text"),
    }
}

#[test]
fn unmatched_end_tag_is_a_no_op() {
    let mut parser = body_parser_with_styles();
    let events = vec![
        start("text", "p", vec![]),
        end("text", "p"),
        end("text", "span"),
        end("text", "p"),
    ];
    parser.process_events(&events);
    // The two bare closing tags left the root's children unchanged.
    assert_eq!(parser.document_root.children.len(), 1);
    assert_eq!(parser.document_hierarchy.len(), 0);
    assert!(parser.body_begin);
}

#[test]
fn nested_tracked_tags_attach_in_document_order() {
    let mut parser = body_parser_with_styles();
    let events = vec![
        start("text", "h", vec![attr("text", "outline-level", "1")]),
        end("text", "h"),
        start("text", "p", vec![]),
        start("text", "span", vec![]),
        end("text", "span"),
        end("text", "p"),
        start("text", "p", vec![]),
        end("text", "p"),
    ];
    parser.process_events(&events);
    assert_eq!(parser.document_hierarchy.len(), 0);
    let kinds: Vec<&str> = parser
        .document_root
        .children
        .iter()
        .map(|n| match n {
            Node::Element(e) => e.kind.as_str(),
            Node::Text(_) => "text",
        })
        .collect();
    assert_eq!(kinds, vec!["heading", "paragraph", "paragraph"]);
}

#[test]
fn characters_outside_any_element_are_dropped() {
    let mut parser = body_parser_with_styles();
    let events = vec![OdtEvent::Characters { content: "stray".to_string() }];
    parser.process_events(&events);
    assert_eq!(parser.document_root.children.len(), 0);
}

#[test]
fn untracked_tags_are_structurally_inert() {
    let mut parser = body_parser_with_styles();
    let events = vec![
        start("text", "p", vec![]),
        start("text", "line-break", vec![]),
        OdtEvent::Characters { content: "inside".to_string() },
        end("text", "line-break"),
        end("text", "p"),
    ];
    parser.process_events(&events);
    assert_eq!(parser.document_root.children.len(), 1);
    let p = match &parser.document_root.children[0] {
        Node::Element(e) => e,
        _ => panic!("expected an element"),
    };
    // The character data attached to the nearest open tracked element.
    match &p.children[0] {
        Node::Text(t) => assert_eq!(t, "inside"),
        _ => panic!("expected text"),
    }
}
