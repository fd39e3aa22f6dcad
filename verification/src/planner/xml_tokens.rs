//! The events of an XML reader, as plain values.
use vstd::prelude::*;
use quick_xml::events::BytesStart;
use std::borrow::Cow;
use quick_xml::events::Event::{Empty, End, Eof, Start, Text};

verus! {

#[verifier::external_type_specification]
#[verifier::external_body]
#[verifier::reject_recursive_types(R)]
pub struct ExXmlReader<R>(quick_xml::Reader<R>);

/// The attributes of a tag that parse: key and value bytes.
pub type Attrs = Vec<(Vec<u8>, Vec<u8>)>;

/// One event of the XML reader.
pub enum XmlToken {
    /// A tag that opens an element, or (when the flag is set) a self-closing tag: its
    /// name and attributes.
    Tag(bool, Vec<u8>, Attrs),
    /// Text between tags, unescaped; `None` when unescaping failed.
    Text(Option<String>),
    /// A closing tag: its name.
    End(Vec<u8>),
    /// The end of the document.
    Eof,
    /// A declaration, comment or other event that plans do not use.
    Other,
    /// A syntax error, as the reader describes it.
    Error(String),
}

/// The attributes of a tag, as plain values.
pub open spec fn attr_views(a: Seq<(Vec<u8>, Vec<u8>)>) -> Seq<(Seq<u8>, Seq<u8>)> {
    a.map_values(|x: (Vec<u8>, Vec<u8>)| (x.0@, x.1@))
}

/// An event of the XML reader, as plain values.
pub enum TokenView {
    Start(Seq<u8>, Seq<(Seq<u8>, Seq<u8>)>),
    Empty(Seq<u8>, Seq<(Seq<u8>, Seq<u8>)>),
    Text(Option<Seq<char>>),
    End(Seq<u8>),
    Eof,
    Other,
    Error(Seq<char>),
}

impl View for XmlToken {
    type V = TokenView;

    open spec fn view(&self) -> TokenView {
        match self {
            XmlToken::Tag(empty, n, a) => if *empty {
                TokenView::Empty(n@, attr_views(a@))
            } else {
                TokenView::Start(n@, attr_views(a@))
            },
            XmlToken::Text(t) => TokenView::Text(
                match t {
                    Some(s) => Some(s@),
                    None => None,
                },
            ),
            XmlToken::End(n) => TokenView::End(n@),
            XmlToken::Eof => TokenView::Eof,
            XmlToken::Other => TokenView::Other,
            XmlToken::Error(m) => TokenView::Error(m@),
        }
    }
}

/// The event ends the reading: the end of the document or an error.
pub open spec fn is_final(t: TokenView) -> bool {
    t is Eof || t is Error
}

/// A run of events that ends with the first end of document or error.
pub open spec fn stream_ends(evs: Seq<TokenView>) -> bool {
    &&& evs.len() > 0
    &&& is_final(evs.last())
    &&& forall|i: int| 0 <= i < evs.len() - 1 ==> !is_final(#[trigger] evs[i])
}

/// The events that `quick_xml` reads from `text` with text trimming on, one per call
/// of `read_event`, up to and including the first end of document or error.
pub uninterp spec fn xml_events(text: Seq<char>) -> Seq<TokenView>;

/// The events a reader has still to give, up to and including the first end of
/// document or error.
pub uninterp spec fn pending_events(r: quick_xml::Reader<&[u8]>) -> Seq<TokenView>;

/// `quick_xml::Reader::from_str` with `trim_text(true)`: a reader that has all the
/// events of `xml` still to give, a run that ends with an end of document or an error.
#[verifier::external_body]
pub(crate) fn open_reader(xml: &str) -> (r: quick_xml::Reader<&[u8]>)
    ensures
        pending_events(r) == xml_events(xml@),
        stream_ends(pending_events(r)),
{
    let mut r = quick_xml::Reader::from_str(xml);
    r.config_mut().trim_text(true);
    r
}

/// `quick_xml::Reader::read_event`, converted to an `XmlToken`: gives the next pending
/// event and, unless that event ends the reading, leaves the rest pending. After an
/// end of document or an error nothing is stated of the reader (a reader that has
/// reached the end stays as it is and keeps giving `Eof`). Of a tag it keeps the
/// attributes that parse, as the reader's `attributes().flatten()` gives them.
#[verifier::external_body]
pub(crate) fn next_token(reader: &mut quick_xml::Reader<&[u8]>) -> (t: XmlToken)
    requires
        pending_events(*old(reader)).len() > 0,
    ensures
        t@ == pending_events(*old(reader))[0],
        !is_final(t@) ==> pending_events(*final(reader)) == pending_events(*old(reader)).drop_first(),
{
    let tag = |e: BytesStart, empty| XmlToken::Tag(empty, e.name().0.to_vec(), e.attributes()
        .flatten().map(|a| (a.key.0.to_vec(), a.value.to_vec())).collect());
    match reader.read_event() {
        Ok(Start(e)) => tag(e, false),
        Ok(Empty(e)) => tag(e, true),
        Ok(Text(e)) => XmlToken::Text(e.unescape().ok().map(Cow::into_owned)),
        Ok(End(e)) => XmlToken::End(e.name().0.to_vec()),
        Ok(Eof) => XmlToken::Eof,
        Ok(_) => XmlToken::Other,
        Err(e) => XmlToken::Error(e.to_string()),
    }
}

} // verus!
