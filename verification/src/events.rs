//! The structural XML events the parser consumes and the writer
//! produces, together with the two trusted bridges to the tokenizer:
//! bytes to events, and events to bytes.

use vstd::prelude::*;

use xml::reader::XmlEvent as RE;
use xml::writer::XmlEvent as WE;
use xml::{EmitterConfig, EventReader, ParserConfig};

use crate::errors::GpxError;

verus! {

/// One attribute of an element-open event: local name and value.
#[derive(Clone, Debug, PartialEq)]
pub struct Attribute {
    pub name: String,
    pub value: String,
}

/// The mathematical model of an `Attribute`.
pub struct AttrS {
    pub name: Seq<char>,
    pub value: Seq<char>,
}

impl DeepView for Attribute {
    type V = AttrS;

    open spec fn deep_view(&self) -> AttrS {
        AttrS { name: self.name@, value: self.value@ }
    }
}

/// A structural event of an XML document: an element opening with its
/// attributes, an element closing, or character data. `Failure` marks
/// the point at which the tokenizer reported malformed XML; it can only
/// end a stream.
#[derive(Clone, Debug, PartialEq)]
pub enum Event {
    Open { name: String, attributes: Vec<Attribute> },
    Close { name: String },
    Text { content: String },
    Failure,
}

/// The mathematical model of an `Event`.
pub enum EventS {
    Open { name: Seq<char>, attributes: Seq<AttrS> },
    Close { name: Seq<char> },
    Text { content: Seq<char> },
    Failure,
}

impl DeepView for Event {
    type V = EventS;

    open spec fn deep_view(&self) -> EventS {
        match self {
            Event::Open { name, attributes } => EventS::Open {
                name: name@,
                attributes: attributes.deep_view(),
            },
            Event::Close { name } => EventS::Close { name: name@ },
            Event::Text { content } => EventS::Text { content: content@ },
            Event::Failure => EventS::Failure,
        }
    }
}

/// The event sequence that the tokenizer derives from a byte stream:
/// whitespace and CDATA normalized to text, other non-structural events
/// dropped, and the first tokenizer error rendered as one trailing
/// `Failure`.
pub uninterp spec fn tokens_of(data: Seq<u8>) -> Seq<EventS>;

/// The bytes that the emitter renders for an event sequence, or `None`
/// where it refuses the sequence.
pub uninterp spec fn emitted_of(events: Seq<EventS>) -> Option<Seq<u8>>;

/// Relies on xml::reader::EventReader (crate xml-rs): tokenizes an XML
/// byte stream into structural events. Whitespace and CDATA become
/// character data; document markers, comments and processing
/// instructions are dropped; the iterator ends at the first error,
/// which becomes a trailing `Failure` event.
#[verifier::external_body]
pub(crate) fn tokenize_xml(data: &[u8]) -> (r: Vec<Event>)
    ensures
        r.deep_view() == tokens_of(data@),
{
    let cfg = ParserConfig { whitespace_to_characters: true, cdata_to_characters: true, ..ParserConfig::new() };
    let mut out = Vec::new();
    for ev in EventReader::new_with_config(data, cfg) {
        match ev {
            Ok(RE::StartElement { name, attributes, .. }) => out.push(Event::Open {
                name: name.local_name,
                attributes: attributes.into_iter().map(|a| Attribute { name: a.name.local_name, value: a.value }).collect(),
            }),
            Ok(RE::EndElement { name }) => out.push(Event::Close { name: name.local_name }),
            Ok(RE::Characters(c)) => out.push(Event::Text { content: c }),
            Ok(_) => {},
            Err(_) => out.push(Event::Failure),
        }
    }
    out
}

/// Relies on xml::writer::EventWriter (crate xml-rs): renders
/// structural events as an indented XML document, escaping character
/// data and attribute values.
#[verifier::external_body]
pub(crate) fn emit_xml(events: &Vec<Event>) -> (r: Result<Vec<u8>, GpxError>)
    ensures
        match emitted_of(events.deep_view()) {
            Some(bytes) => r matches Ok(b) && b@ == bytes,
            None => r == Result::<Vec<u8>, GpxError>::Err(GpxError::XmlWriteError),
        },
{
    let mut sink: Vec<u8> = Vec::new();
    let mut w = EmitterConfig::new().perform_indent(true).create_writer(&mut sink);
    for ev in events.iter() {
        let res = match ev {
            Event::Open { name, attributes } => w.write(attributes.iter().fold(
                WE::start_element(name.as_str()),
                |b, a| b.attr(a.name.as_str(), a.value.as_str()),
            )),
            Event::Close { .. } => w.write(WE::end_element()),
            Event::Text { content } => w.write(WE::characters(content)),
            Event::Failure => return Err(GpxError::XmlWriteError),
        };
        if res.is_err() { return Err(GpxError::XmlWriteError); }
    }
    drop(w); Ok(sink)
}

} // verus!
