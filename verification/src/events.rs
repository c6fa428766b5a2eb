//! The structural XML events both passes consume, and attribute lookup.
//!
//! The event source is external: a conformant tokenizer yields start, end and
//! self-closed elements with qualified names and attributes, character data,
//! and an end-of-stream marker, in document order. An element without a
//! namespace prefix carries an empty prefix here and is structurally inert.

use crate::strutil::str_eq;
use vstd::prelude::*;

verus! {

/// One attribute of an element: qualified name and value.
pub struct XmlAttribute {
    pub prefix: String,
    pub local: String,
    pub value: String,
}

/// One structural event of an XML document, in document order.
pub enum OdtEvent {
    /// An opening tag.
    Start { prefix: String, local: String, attributes: Vec<XmlAttribute> },
    /// A closing tag.
    End { prefix: String, local: String },
    /// A self-closed tag.
    Empty { prefix: String, local: String, attributes: Vec<XmlAttribute> },
    /// Character data between tags.
    Characters { content: String },
    /// End of the stream.
    Eof,
    /// A structural event with no meaning here (declarations, comments).
    Other,
    /// The tokenizer found malformed XML; terminal.
    Fault { message: String },
}

pub open spec fn attr_is(a: XmlAttribute, prefix: Seq<char>, local: Seq<char>) -> bool {
    a.prefix@ == prefix && a.local@ == local
}

/// The value of the last attribute named `prefix:local`, if any; when an
/// attribute repeats, the later occurrence wins.
pub open spec fn attr_last(attrs: Seq<XmlAttribute>, prefix: Seq<char>, local: Seq<char>) -> Option<
    Seq<char>,
>
    decreases attrs.len(),
{
    if attrs.len() == 0 {
        None
    } else if attr_is(attrs.last(), prefix, local) {
        Some(attrs.last().value@)
    } else {
        attr_last(attrs.drop_last(), prefix, local)
    }
}

/// As `attr_last`, with the empty string for an absent attribute.
pub open spec fn attr_or_empty(
    attrs: Seq<XmlAttribute>,
    prefix: Seq<char>,
    local: Seq<char>,
) -> Seq<char> {
    match attr_last(attrs, prefix, local) {
        Some(v) => v,
        None => Seq::empty(),
    }
}

pub proof fn lemma_attr_last_take_step(
    attrs: Seq<XmlAttribute>,
    i: int,
    prefix: Seq<char>,
    local: Seq<char>,
)
    requires
        0 <= i < attrs.len(),
    ensures
        attr_last(attrs.take(i + 1), prefix, local) == if attr_is(attrs[i], prefix, local) {
            Some(attrs[i].value@)
        } else {
            attr_last(attrs.take(i), prefix, local)
        },
{
    assert(attrs.take(i + 1).drop_last() =~= attrs.take(i));
    assert(attrs.take(i + 1).last() == attrs[i]);
}

/// Finds the last attribute named `prefix:local`, scanning in order so that a
/// repeated attribute's later occurrence wins.
pub fn find_attr<'a>(attrs: &'a Vec<XmlAttribute>, prefix: &str, local: &str) -> (r: Option<
    &'a String,
>)
    ensures
        match r {
            Some(v) => attr_last(attrs@, prefix@, local@) == Some(v@),
            None => attr_last(attrs@, prefix@, local@) is None,
        },
{
    let n = attrs.len();
    let mut found: Option<&'a String> = None;
    let mut i: usize = 0;
    while i < n
        invariant
            n == attrs.len(),
            0 <= i <= n,
            match found {
                Some(v) => attr_last(attrs@.take(i as int), prefix@, local@) == Some(v@),
                None => attr_last(attrs@.take(i as int), prefix@, local@) is None,
            },
        decreases n - i,
    {
        proof {
            lemma_attr_last_take_step(attrs@, i as int, prefix@, local@);
        }
        if str_eq(attrs[i].prefix.as_str(), prefix) && str_eq(attrs[i].local.as_str(), local) {
            found = Some(&attrs[i].value);
        }
        i = i + 1;
    }
    proof {
        assert(attrs@.take(n as int) =~= attrs@);
    }
    found
}

/// Whether an event ends the stream: the end-of-stream marker or a fault.
pub open spec fn is_terminal_event(e: OdtEvent) -> bool {
    e is Eof || e is Fault
}

/// Whether a stream holds a fault event anywhere.
pub open spec fn stream_has_fault(s: Seq<OdtEvent>) -> bool {
    exists|j: int| 0 <= j < s.len() && (#[trigger] s[j]) is Fault
}

/// The first fault's message, when the stream holds one.
pub fn first_fault(events: &Vec<OdtEvent>) -> (r: Option<String>)
    ensures
        r is Some <==> stream_has_fault(events@),
{
    let n = events.len();
    let mut i: usize = 0;
    while i < n
        invariant
            n == events.len(),
            0 <= i <= n,
            forall|j: int| 0 <= j < i ==> !((#[trigger] events@[j]) is Fault),
        decreases n - i,
    {
        match &events[i] {
            OdtEvent::Fault { message } => {
                return Some(message.clone());
            },
            _ => {},
        }
        i = i + 1;
    }
    None
}

} // verus!
