//! Reading XML documents as a sequence of events, with `quick_xml`.
use vstd::prelude::*;
use quick_xml::Reader;
use quick_xml::events::attributes::Attributes;
use quick_xml::events::Event::{Empty, End, Eof, GeneralRef, Start, Text};
use crate::opds::xml::{XmlAttr, attrs_view};
use crate::text::{find_char, lowercase_chars, slice_chars, to_chars, from_chars, unicode_lowercase};

verus! {

/// One event read from an XML document. Names are the qualified names as
/// written; text is the content as written between markup.
pub enum XmlInEvent {
    /// An opening tag: its name and its attributes as written.
    Start(String, String),
    /// A self-closing tag: its name and its attributes as written.
    Empty(String, String),
    End(String),
    Text(String),
    /// A general entity reference such as `&amp;`, by its name.
    EntityRef(String),
    /// Any other event (declaration, comment, CDATA, processing instruction, doctype).
    Other,
}

pub enum XmlInEventView {
    Start(Seq<char>, Seq<(Seq<char>, Seq<char>)>),
    Empty(Seq<char>, Seq<(Seq<char>, Seq<char>)>),
    End(Seq<char>),
    Text(Seq<char>),
    EntityRef(Seq<char>),
    Other,
}

impl View for XmlInEvent {
    type V = XmlInEventView;

    open spec fn view(&self) -> XmlInEventView {
        match *self {
            XmlInEvent::Start(n, a) => XmlInEventView::Start(n@, xml_attributes(a@)),
            XmlInEvent::Empty(n, a) => XmlInEventView::Empty(n@, xml_attributes(a@)),
            XmlInEvent::End(n) => XmlInEventView::End(n@),
            XmlInEvent::Text(t) => XmlInEventView::Text(t@),
            XmlInEvent::EntityRef(t) => XmlInEventView::EntityRef(t@),
            XmlInEvent::Other => XmlInEventView::Other,
        }
    }
}

pub open spec fn events_view(v: Seq<XmlInEvent>) -> Seq<XmlInEventView> {
    v.map_values(|e: XmlInEvent| e@)
}

#[verifier::external_type_specification]
#[verifier::external_body]
#[verifier::reject_recursive_types(R)]
pub struct ExXmlReader<R>(quick_xml::Reader<R>);

/// The events `quick_xml` reads from a document with text trimming on, up to
/// the end of the document or the first error.
pub uninterp spec fn xml_events(data: Seq<u8>) -> Seq<XmlInEventView>;

/// The attributes `quick_xml` reads from the attribute text of a tag, keys
/// and values, values unescaped (empty where unescaping fails), attributes
/// that do not parse left out.
pub uninterp spec fn xml_attributes(raw: Seq<char>) -> Seq<(Seq<char>, Seq<char>)>;

/// `quick_xml::events::attributes::Attributes`, converted: the attributes of
/// a tag's attribute text.
#[verifier::external_body]
#[allow(deprecated)]
pub(crate) fn xml_attrs(raw: &str) -> (r: Vec<XmlAttr>)
    ensures
        attrs_view(r@) == xml_attributes(raw@),
{
    Attributes::new(raw, 0).flatten().map(|a| XmlAttr { name: a.key.0.into(),
        value: a.unescape_value().unwrap_or_default().into() }).collect()
}

/// The events a reader has still to deliver.
pub uninterp spec fn xml_reader_pending(r: Reader<&[u8]>) -> Seq<XmlInEventView>;

/// `quick_xml::Reader::from_reader` over the bytes, with text trimming on: a
/// reader that will deliver the document's events.
#[verifier::external_body]
fn xml_reader(data: &[u8]) -> (r: Reader<&[u8]>)
    ensures
        xml_reader_pending(r) == xml_events(data@),
{
    let mut r = Reader::from_reader(data);
    r.config_mut().trim_text(true);
    r
}

/// `quick_xml::Reader::read_event`, converted: the next pending event, or
/// `None` at the end of the document or on an error.
#[verifier::external_body]
fn xml_next(r: &mut Reader<&[u8]>) -> (e: Option<XmlInEvent>)
    ensures
        match e {
            Some(ev) => xml_reader_pending(*old(r)).len() > 0 && ev@ == xml_reader_pending(*old(r))[0]
                && xml_reader_pending(*final(r)) == xml_reader_pending(*old(r)).drop_first(),
            None => xml_reader_pending(*old(r)).len() == 0,
        },
{
    Some(match r.read_event() {
        Ok(Start(e)) => XmlInEvent::Start(e.name().0.into(), e.attributes_raw().into()),
        Ok(Empty(e)) => XmlInEvent::Empty(e.name().0.into(), e.attributes_raw().into()),
        Ok(End(e)) => XmlInEvent::End(e.name().0.into()),
        Ok(Text(e)) => XmlInEvent::Text(e.into_inner().into()),
        Ok(GeneralRef(e)) => XmlInEvent::EntityRef(e.into_inner().into()),
        Ok(Eof) | Err(_) => return None,
        Ok(_) => XmlInEvent::Other,
    })
}

/// All events of a document, in order.
pub fn read_xml_events(data: &[u8]) -> (r: Vec<XmlInEvent>)
    ensures
        events_view(r@) == xml_events(data@),
{
    let mut reader = xml_reader(data);
    let mut out: Vec<XmlInEvent> = Vec::new();
    loop
        invariant_except_break
            events_view(out@) + xml_reader_pending(reader) == xml_events(data@),
        ensures
            events_view(out@) == xml_events(data@),
        decreases xml_reader_pending(reader).len(),
    {
        let ghost before = xml_reader_pending(reader);
        let ghost done = out@;
        match xml_next(&mut reader) {
            Some(ev) => {
                out.push(ev);
                proof {
                    assert(events_view(out@) =~= events_view(done).push(before[0]));
                    assert(events_view(out@) + xml_reader_pending(reader) =~= events_view(done)
                        + before);
                }
            },
            None => {
                proof {
                    assert(events_view(out@) + before =~= events_view(out@));
                }
                break;
            },
        }
    }
    out
}

/// The part of a qualified name after its last `:`.
pub open spec fn after_last_colon(s: Seq<char>) -> Seq<char>
    decreases s.len(),
{
    if s.len() == 0 {
        s
    } else if s.last() == ':' {
        Seq::empty()
    } else {
        after_last_colon(s.drop_last()).push(s.last())
    }
}

/// The local part of a qualified name, lower-cased.
pub open spec fn local_name_spec(raw: Seq<char>) -> Seq<char> {
    unicode_lowercase(after_last_colon(raw))
}

pub fn local_name(raw: &str) -> (r: String)
    ensures
        r@ == local_name_spec(raw@),
{
    let chars = to_chars(raw);
    let mut start: usize = chars.len();
    proof {
        assert(raw@.take(start as int) =~= raw@);
        assert(raw@.subrange(start as int, raw@.len() as int) =~= Seq::<char>::empty());
        assert(after_last_colon(raw@) =~= after_last_colon(raw@.take(start as int)) + raw@.subrange(
            start as int,
            raw@.len() as int,
        ));
    }
    while start > 0 && chars[start - 1] != ':'
        invariant
            start <= chars.len(),
            chars@ == raw@,
            after_last_colon(raw@) == after_last_colon(raw@.take(start as int)) + raw@.subrange(
                start as int,
                raw@.len() as int,
            ),
        decreases start,
    {
        proof {
            let t = raw@.take(start as int);
            assert(t.drop_last() =~= raw@.take(start - 1));
            assert(raw@.subrange(start - 1, raw@.len() as int) =~= seq![t.last()] + raw@.subrange(
                start as int,
                raw@.len() as int,
            ));
            assert(after_last_colon(t) == after_last_colon(t.drop_last()).push(t.last()));
            assert(after_last_colon(t.drop_last()).push(t.last()) + raw@.subrange(
                start as int,
                raw@.len() as int,
            ) =~= after_last_colon(t.drop_last()) + raw@.subrange(start - 1, raw@.len() as int));
        }
        start -= 1;
    }
    proof {
        if start > 0 {
            assert(raw@.take(start as int).last() == ':');
        }
        assert(after_last_colon(raw@.take(start as int)) =~= Seq::<char>::empty());
    }
    let tail = slice_chars(chars.as_slice(), start, chars.len());
    let lower = lowercase_chars(tail.as_slice());
    proof {
        assert(tail@ =~= after_last_colon(raw@));
    }
    from_chars(lower.as_slice())
}

} // verus!
