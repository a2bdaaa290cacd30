//! Structural events of an XML document.
use vstd::prelude::*;
use xml::reader::XmlEvent as XmlReaderEvent;

verus! {

/// An attribute of an element start, by local name.
pub struct Attribute {
    pub name: String,
    pub value: String,
}

impl Attribute {
    pub fn new(name: String, value: String) -> (r: Attribute)
        ensures
            r@ == (name@, value@),
    {
        Attribute { name, value }
    }
}

impl View for Attribute {
    type V = (Seq<char>, Seq<char>);

    open spec fn view(&self) -> (Seq<char>, Seq<char>) {
        (self.name@, self.value@)
    }
}

/// One structural event of a document.
pub enum Event {
    /// An element opens; `name` is its local name.
    Start { name: String, attributes: Vec<Attribute> },
    /// An element closes.
    End { name: String },
    /// Character data, CDATA or white space.
    Text { text: String },
    /// The document is malformed at this point; nothing after it is read.
    Malformed,
    /// Anything else (declarations, comments, processing instructions).
    Other,
}

pub enum EventView {
    Start { name: Seq<char>, attributes: Seq<(Seq<char>, Seq<char>)> },
    End { name: Seq<char> },
    Text { text: Seq<char> },
    Malformed,
    Other,
}

impl View for Event {
    type V = EventView;

    open spec fn view(&self) -> EventView {
        match self {
            Event::Start { name, attributes } => EventView::Start {
                name: name@,
                attributes: attributes@.map_values(|a: Attribute| a@),
            },
            Event::End { name } => EventView::End { name: name@ },
            Event::Text { text } => EventView::Text { text: text@ },
            Event::Malformed => EventView::Malformed,
            Event::Other => EventView::Other,
        }
    }
}

pub open spec fn events_view(v: Seq<Event>) -> Seq<EventView> {
    v.map_values(|e: Event| e@)
}

/// The events that `xml-rs` reads from a document, up to and including the
/// first error.
pub uninterp spec fn xml_events(doc: Seq<char>) -> Seq<EventView>;

/// Relies on `xml::reader::EventReader::from_str` and its event iterator,
/// which ends after the first error; each event is converted one for one.
#[verifier::external_body]
pub(crate) fn read_events(doc: &str) -> (r: Vec<Event>)
    ensures
        events_view(r@) == xml_events(doc@),
{
    let mut out = Vec::new();
    for e in xml::reader::EventReader::from_str(doc) {
        out.push(match e {
            Ok(XmlReaderEvent::StartElement { name, attributes, .. }) => Event::Start {
                name: name.local_name,
                attributes: attributes.into_iter().map(|a| Attribute::new(a.name.local_name, a.value)).collect(),
            },
            Ok(XmlReaderEvent::EndElement { name }) => Event::End { name: name.local_name },
            Ok(XmlReaderEvent::Characters(text) | XmlReaderEvent::CData(text) | XmlReaderEvent::Whitespace(text)) => Event::Text { text },
            Ok(_) => Event::Other,
            Err(_) => Event::Malformed,
        });
    }
    out
}

} // verus!
