use odt_parser::content::ODTParser;
use odt_parser::model::Node;
use odt_parser::OdtError;
use std::io::Write;

fn build_archive(entries: &[(&str, &str)]) -> Vec<u8> {
    let mut writer = zip::ZipWriter::new(std::io::Cursor::new(Vec::new()));
    let options = zip::write::SimpleFileOptions::default();
    for (name, content) in entries {
        writer.start_file(*name, options).unwrap();
        writer.write_all(content.as_bytes()).unwrap();
    }
    writer.finish().unwrap().into_inner()
}

const CONTENT_XML: &str = r#"<?xml version="1.0" encoding="UTF-8"?><office:document-content xmlns:office="urn:oasis:names:tc:opendocument:xmlns:office:1.0" xmlns:text="urn:oasis:names:tc:opendocument:xmlns:text:1.0" xmlns:style="urn:oasis:names:tc:opendocument:xmlns:style:1.0" xmlns:fo="urn:oasis:names:tc:opendocument:xmlns:xsl-fo-compatible:1.0"><office:automatic-styles><style:style style:name="B1" style:family="text"><style:text-properties fo:font-weight="bold"/></style:style></office:automatic-styles><office:body><office:text><text:h text:outline-level="2">Title</text:h><text:p text:style-name="B1">Hello</text:p></office:text></office:body></office:document-content>"#;

const STYLES_XML: &str = r#"<?xml version="1.0" encoding="UTF-8"?><office:document-styles xmlns:office="urn:oasis:names:tc:opendocument:xmlns:office:1.0" xmlns:style="urn:oasis:names:tc:opendocument:xmlns:style:1.0" xmlns:fo="urn:oasis:names:tc:opendocument:xmlns:xsl-fo-compatible:1.0"><office:styles><style:default-style style:family="paragraph"><style:text-properties fo:font-size="11pt"/></style:default-style><style:style style:name="S" style:family="Standard"/></office:styles></office:document-styles>"#;

#[test]
fn parses_a_whole_package() {
    let archive = build_archive(&[("content.xml", CONTENT_XML), ("styles.xml", STYLES_XML)]);
    let mut parser = ODTParser::new();
    parser.parse_styles(&archive).expect("styles parse");
    parser.parse(&archive).expect("content parse");

    assert_eq!(parser.document_root.children.len(), 2);
    let heading = match &parser.document_root.children[0] {
        Node::Element(e) => e,
        _ => panic!("expected an element"),
    };
    assert_eq!(heading.kind, "heading");
    assert_eq!(heading.attributes.get("level"), Some(&"2".to_string()));
    match &heading.children[0] {
        Node::Text(t) => assert_eq!(t, "Title"),
        _ => panic!("expected text"),
    }
    let paragraph = match &parser.document_root.children[1] {
        Node::Element(e) => e,
        _ => panic!("expected an element"),
    };
    assert_eq!(paragraph.kind, "paragraph");
    assert_eq!(paragraph.styles.get("fontWeight"), Some(&"bold".to_string()));
    match &paragraph.children[0] {
        Node::Text(t) => assert_eq!(t, "Hello"),
        _ => panic!("expected text"),
    }

    let classes = &parser.document_root.styles.classes;
    let default = classes.get("paragraph").expect("the default style");
    assert_eq!(default.styles.get("fontSize"), Some(&"11pt".to_string()));
    let named = classes.get("S").expect("the named style");
    assert_eq!(named.parent, Some("Standard".to_string()));
}

#[test]
fn missing_entry_is_distinct() {
    let archive = build_archive(&[("styles.xml", STYLES_XML)]);
    let mut parser = ODTParser::new();
    match parser.parse(&archive) {
        Err(OdtError::EntryMissing) => {}
        other => panic!("expected the entry-missing error, got {:?}", other),
    }
    // No partial tree is left behind.
    assert_eq!(parser.document_root.children.len(), 0);

    let mut parser = ODTParser::new();
    let archive = build_archive(&[("content.xml", CONTENT_XML)]);
    match parser.parse_styles(&archive) {
        Err(OdtError::EntryMissing) => {}
        other => panic!("expected the entry-missing error, got {:?}", other),
    }
}

#[test]
fn broken_archive_is_an_archive_error() {
    let garbage: Vec<u8> = vec![1, 2, 3, 4, 5, 6, 7, 8];
    let mut parser = ODTParser::new();
    match parser.parse(&garbage) {
        Err(OdtError::Archive { .. }) => {}
        other => panic!("expected an archive error, got {:?}", other),
    }
}

#[test]
fn malformed_xml_is_terminal_without_partial_output() {
    let bad = r#"<office:document-content xmlns:office="urn:oasis:names:tc:opendocument:xmlns:office:1.0" xmlns:text="urn:oasis:names:tc:opendocument:xmlns:text:1.0"><office:body><office:text><text:p>Hello"#;
    let archive = build_archive(&[("content.xml", bad)]);
    let mut parser = ODTParser::new();
    match parser.parse(&archive) {
        Err(OdtError::XmlSyntax { .. }) => {}
        other => panic!("expected a syntax error, got {:?}", other),
    }
    assert_eq!(parser.document_root.children.len(), 0);
    assert_eq!(parser.document_hierarchy.len(), 0);
}
