//! Parsing of OpenDocument Text (ODT) packages into a document tree and
//! named-style tables.
//!
//! The package's `content.xml` entry is turned into a hierarchical node tree
//! with inline formatting and underline reconciliation; its `styles.xml`
//! entry is turned into a table of named styles with inheritance links,
//! list-bullet definitions and table property translation.

pub mod assoc;
pub mod codec;
pub mod content;
pub mod events;
pub mod model;
pub mod outside;
pub mod strutil;
pub mod styles;
pub mod translators;

use vstd::prelude::*;

verus! {

/// How a parse can fail terminally.
///
/// A numeric attribute that fails to parse is not an error: it falls back to
/// a default instead. An unmatched end tag is a structural no-op.
#[derive(Debug, Clone)]
pub enum OdtError {
    /// The archive does not contain the requested entry.
    EntryMissing,
    /// The archive itself could not be read as a zip package.
    Archive { message: String },
    /// The entry's XML is malformed; the message comes from the tokenizer.
    XmlSyntax { message: String },
}

} // verus!
