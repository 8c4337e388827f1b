//! The tokenizer under the package-document scan.
//!
//! `quick_xml` cuts the document into events; this module hands them on as
//! plain values and says, as far as that can be said, what they are.

use quick_xml::events::attributes::Attributes;
use quick_xml::events::{BytesText, Event};
use quick_xml::Reader;
use vstd::prelude::*;

verus! {

/// One tokenizer event, reduced to what the scan reads of it.
#[derive(Debug, Clone, PartialEq, Eq)]
pub enum XmlEvent {
    /// An opening tag, by its name.
    Start { name: Vec<u8> },
    /// A closing tag, by its name.
    End { name: Vec<u8> },
    /// A self-closing tag: its name, and all that stands between its angle
    /// brackets and before the closing slash (the name first).
    Empty { name: Vec<u8>, tag: Vec<u8> },
    /// Character data between tags, still escaped.
    Text { escaped: Vec<u8> },
    /// The end of the document.
    Eof,
    /// A comment, a declaration, or another event that the scan passes over.
    Other,
}

/// What an [`XmlEvent`] holds.
pub enum XmlToken {
    Start { name: Seq<u8> },
    End { name: Seq<u8> },
    Empty { name: Seq<u8>, tag: Seq<u8> },
    Text { escaped: Seq<u8> },
    Eof,
    Other,
}

impl View for XmlEvent {
    type V = XmlToken;

    open spec fn view(&self) -> XmlToken {
        match *self {
            XmlEvent::Start { name } => XmlToken::Start { name: name@ },
            XmlEvent::End { name } => XmlToken::End { name: name@ },
            XmlEvent::Empty { name, tag } => XmlToken::Empty { name: name@, tag: tag@ },
            XmlEvent::Text { escaped } => XmlToken::Text { escaped: escaped@ },
            XmlEvent::Eof => XmlToken::Eof,
            XmlEvent::Other => XmlToken::Other,
        }
    }
}

/// One attribute of a tag: its key, and its value as written (escapes kept).
#[derive(Debug, Clone, PartialEq, Eq)]
pub struct XmlAttribute {
    pub key: Vec<u8>,
    pub value: Vec<u8>,
}

impl View for XmlAttribute {
    type V = (Seq<u8>, Seq<u8>);

    open spec fn view(&self) -> (Seq<u8>, Seq<u8>) {
        (self.key@, self.value@)
    }
}

/// The keys and values of a list of attributes.
pub open spec fn attribute_pairs(attrs: Seq<XmlAttribute>) -> Seq<(Seq<u8>, Seq<u8>)> {
    attrs.map_values(|a: XmlAttribute| a@)
}

/// `quick_xml::Error`, which this crate only ever counts as a failure.
#[verifier::external_type_specification]
#[verifier::external_body]
pub struct ExXmlError(quick_xml::Error);

/// A `quick_xml::Reader` over a document held in memory, somewhere on its way
/// through it.
#[verifier::external_body]
pub struct EventReader<'a> {
    inner: Reader<&'a [u8]>,
}

/// The results of `Reader::read_event`, called again and again on a fresh
/// reader over `xml`, up to and including the first end-of-document event or
/// the first error. `None` stands for an error.
pub uninterp spec fn xml_events(xml: Seq<char>) -> Seq<Option<XmlToken>>;

/// The part of its document's events that `reader` has yet to hand out.
pub uninterp spec fn pending_events(reader: EventReader) -> Seq<Option<XmlToken>>;

/// What `Attributes` yields for a tag whose name is `name_len` bytes long:
/// the keys and values in the order written, or `None` where the iterator
/// reports an error.
pub uninterp spec fn xml_attributes(tag: Seq<u8>, name_len: int) -> Option<Seq<(Seq<u8>, Seq<u8>)>>;

/// What `BytesText::unescape_and_decode` makes of escaped character data, or
/// `None` where it fails.
pub uninterp spec fn xml_unescaped(escaped: Seq<u8>) -> Option<Seq<char>>;

/// The token that a result of `read_event` stands for.
pub open spec fn token_of(r: Result<XmlEvent, quick_xml::Error>) -> Option<XmlToken> {
    match r {
        Ok(event) => Some(event@),
        Err(_) => None,
    }
}

/// The attributes that a result of [`tag_attributes`] stands for.
pub open spec fn attributes_of(r: Result<Vec<XmlAttribute>, quick_xml::Error>) -> Option<
    Seq<(Seq<u8>, Seq<u8>)>,
> {
    match r {
        Ok(attrs) => Some(attribute_pairs(attrs@)),
        Err(_) => None,
    }
}

/// The text that a result of [`unescape_text`] stands for.
pub open spec fn text_of(r: Result<String, quick_xml::Error>) -> Option<Seq<char>> {
    match r {
        Ok(text) => Some(text@),
        Err(_) => None,
    }
}

/// `Reader::from_str`: a reader at the start of `xml`, with every event of the
/// document still to come.
#[verifier::external_body]
pub(crate) fn open_reader<'a>(xml: &'a str) -> (reader: EventReader<'a>)
    ensures
        pending_events(reader) == xml_events(xml@),
{
    EventReader { inner: Reader::from_str(xml) }
}

/// `Reader::read_event`, into a buffer of its own. The reader hands out the
/// next of its pending events and has one fewer left; once none is left (the
/// document ended, or an error came) it reports the end of the document at
/// every call.
#[verifier::external_body]
pub(crate) fn next_event(reader: &mut EventReader) -> (r: Result<XmlEvent, quick_xml::Error>)
    ensures
        pending_events(*old(reader)).len() > 0 ==> token_of(r) == pending_events(*old(reader))[0],
        pending_events(*old(reader)).len() > 0 ==> pending_events(*final(reader))
            == pending_events(*old(reader)).drop_first(),
        pending_events(*old(reader)).len() == 0 ==> token_of(r) == Some(XmlToken::Eof),
        pending_events(*old(reader)).len() == 0 ==> pending_events(*final(reader)).len() == 0,
{
    let mut buf = Vec::new();
    reader.inner.read_event(&mut buf).map(|event| match event {
        Event::Start(e) => XmlEvent::Start { name: e.name().to_vec() },
        Event::End(e) => XmlEvent::End { name: e.name().to_vec() },
        Event::Empty(e) => XmlEvent::Empty { name: e.name().to_vec(), tag: e.to_vec() },
        Event::Text(e) => XmlEvent::Text { escaped: e.escaped().to_vec() },
        Event::Eof => XmlEvent::Eof,
        _ => XmlEvent::Other,
    })
}

/// `Attributes::new` on a tag's content, run to its end: the attributes in
/// the order written, or the first error.
#[verifier::external_body]
pub(crate) fn tag_attributes(tag: &[u8], name_len: usize) -> (r: Result<
    Vec<XmlAttribute>,
    quick_xml::Error,
>)
    ensures
        attributes_of(r) == xml_attributes(tag@, name_len as int),
{
    Attributes::new(tag, name_len)
        .map(|a| a.map(|a| XmlAttribute { key: a.key.to_vec(), value: a.value.into_owned() }))
        .collect()
}

/// `BytesText::unescape_and_decode` on escaped character data. Built without
/// the `encoding` feature, the tokenizer decodes as UTF-8 whatever the
/// document declares, so the reader it asks for has no say in the result.
#[verifier::external_body]
pub(crate) fn unescape_text(escaped: &[u8], reader: &EventReader) -> (r: Result<
    String,
    quick_xml::Error,
>)
    ensures
        text_of(r) == xml_unescaped(escaped@),
{
    BytesText::from_escaped(escaped).unescape_and_decode(&reader.inner)
}

} // verus!
