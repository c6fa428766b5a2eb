//! The trusted boundary: declarations and wrappers for the outside crates
//! (the zip archive reader and the XML tokenizer) and for the few std calls
//! vstd leaves unspecified. Both boundary results are functions of their
//! byte arguments alone, so each carries a name the wrappers' contracts pin
//! the result to; what the names denote on given bytes is stated nowhere,
//! and the callers are verified for every value of them.

use crate::events::{is_terminal_event, OdtEvent, XmlAttribute};
use crate::OdtError;
use vstd::prelude::*;

verus! {

/// Relies on String's FromIterator over char: collecting an iterator of
/// characters yields the string holding exactly those characters in order.
#[verifier::external_body]
pub fn chars_to_string(v: &Vec<char>) -> (s: String)
    ensures
        s@ == v@,
{
    v.iter().collect()
}

/// What extracting a named entry from an archive's bytes yields: the entry's
/// decompressed bytes, or, on failure, whether the failure is the distinct
/// missing-entry condition (true) rather than an unreadable archive (false).
pub uninterp spec fn entry_of(archive: Seq<u8>, name: Seq<char>) -> Result<Seq<u8>, bool>;

/// Relies on zip::ZipArchive over an in-memory cursor: opening the archive's
/// bytes and extracting the named entry, decompressed — a deterministic
/// function of the bytes and the name. zip's by_name answers FileNotFound
/// exactly when the name is absent from the archive's directory, which
/// becomes the distinct entry-missing outcome; every other failure — an
/// unreadable archive, an encrypted entry (InvalidPassword), an unsupported
/// compression method — is answered as an error value, never a panic, and
/// becomes the archive error carrying zip's message.
#[verifier::external_body]
pub fn zip_entry(archive: &Vec<u8>, name: &str) -> (r: Result<Vec<u8>, OdtError>)
    ensures
        match r {
            Ok(bytes) => entry_of(archive@, name@) == Ok::<Seq<u8>, bool>(bytes@),
            Err(OdtError::EntryMissing) => entry_of(archive@, name@) == Err::<Seq<u8>, bool>(
                true,
            ),
            Err(OdtError::Archive { .. }) => entry_of(archive@, name@) == Err::<Seq<u8>, bool>(
                false,
            ),
            Err(OdtError::XmlSyntax { .. }) => false,
        },
{
    let mut ar = match zip::ZipArchive::new(std::io::Cursor::new(archive)) {
        Ok(a) => a,
        Err(e) => return Err(OdtError::Archive { message: e.to_string() }),
    };
    let mut file = match ar.by_name(name) {
        Ok(f) => f,
        Err(zip::result::ZipError::FileNotFound) => return Err(OdtError::EntryMissing),
        Err(e) => return Err(OdtError::Archive { message: e.to_string() }),
    };
    let mut buf = Vec::new();
    match std::io::Read::read_to_end(&mut file, &mut buf) {
        Ok(_) => Ok(buf),
        Err(e) => Err(OdtError::Archive { message: e.to_string() }),
    }
}

/// The tokenizer's event type; relies on xml's XmlEvent.
#[verifier::external_type_specification]
#[verifier::external_body]
pub struct ExXmlEvent(xml::reader::XmlEvent);

/// The tokenizer's error type; relies on xml's reader Error.
#[verifier::external_type_specification]
#[verifier::external_body]
pub struct ExXmlError(xml::reader::Error);

/// The tokenizer's attribute type; relies on xml's OwnedAttribute.
#[verifier::external_type_specification]
#[verifier::external_body]
pub struct ExOwnedAttribute(xml::attribute::OwnedAttribute);

/// Converts the tokenizer's attributes; an absent namespace prefix becomes
/// the empty prefix.
#[verifier::external_body]
fn conv_attrs(attrs: Vec<xml::attribute::OwnedAttribute>) -> (r: Vec<XmlAttribute>) {
    attrs.into_iter().map(
        |a|
            XmlAttribute {
                prefix: a.name.prefix.unwrap_or_default(),
                local: a.name.local_name,
                value: a.value,
            },
    ).collect()
}

/// Converts one tokenizer answer, one arm per variant; the variants the
/// builders never track fall to the inert event.
#[verifier::external_body]
fn conv_event(event: Result<xml::reader::XmlEvent, xml::reader::Error>) -> (e: OdtEvent) {
    match event {
        Ok(xml::reader::XmlEvent::StartElement { name, attributes, .. }) => OdtEvent::Start {
            prefix: name.prefix.unwrap_or_default(),
            local: name.local_name,
            attributes: conv_attrs(attributes),
        },
        Ok(xml::reader::XmlEvent::EndElement { name }) => OdtEvent::End {
            prefix: name.prefix.unwrap_or_default(),
            local: name.local_name,
        },
        Ok(xml::reader::XmlEvent::Characters(content)) => OdtEvent::Characters { content },
        Ok(xml::reader::XmlEvent::EndDocument) => OdtEvent::Eof,
        Ok(_) => OdtEvent::Other,
        Err(e) => OdtEvent::Fault { message: e.to_string() },
    }
}

/// What tokenizing a document's bytes yields: every structural event in
/// document order, ended by exactly one terminal event — the end-of-stream
/// marker, or the fault the tokenizer stopped at.
pub uninterp spec fn tokens_of(bytes: Seq<u8>) -> Seq<OdtEvent>;

/// Relies on xml's EventReader: tokenizing is a deterministic function of
/// the bytes; the reader repeats its answer after the document's end and
/// after an error, so draining it stops at the first terminal event, which
/// the reader always reaches.
#[verifier::external_body]
pub fn collect_events(bytes: &[u8]) -> (events: Vec<OdtEvent>)
    ensures
        events@ == tokens_of(bytes@),
        events@.len() > 0,
        is_terminal_event(events@.last()),
        forall|j: int| 0 <= j < events@.len() - 1 ==> !is_terminal_event(#[trigger] events@[j]),
{
    let mut reader = xml::reader::EventReader::new(bytes);
    let mut events = Vec::new();
    loop {
        let event = conv_event(reader.next());
        let stop = matches!(event, OdtEvent::Eof | OdtEvent::Fault { .. });
        events.push(event);
        if stop {
            return events;
        }
    }
}

} // verus!
