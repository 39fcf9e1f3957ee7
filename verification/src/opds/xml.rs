//! OPDS Atom documents.
//!
//! A feed is described by the sequence of XML events written for it
//! (`XmlEventView`); each builder method states exactly which events it
//! appends, and `quick_xml` turns the final sequence into bytes.
use vstd::prelude::*;
use quick_xml::Writer;
use quick_xml::events::{BytesDecl, BytesEnd, BytesStart, BytesText, Event};
use crate::decimal::{push_signed_decimal, signed_decimal};
use crate::text::{extend_str, from_chars, str_eq, to_chars};

verus! {

/// OPDS Atom content types.
pub const ATOM_XML: &'static str = "application/atom+xml; charset=utf-8";
pub const NAV_TYPE: &'static str = "application/atom+xml;profile=opds-catalog;kind=navigation";
pub const ACQ_TYPE: &'static str = "application/atom+xml;profile=opds-catalog";
pub const OPENSEARCH_TYPE: &'static str = "application/opensearchdescription+xml";

/// OPDS link relations.
pub const REL_ACQUISITION: &'static str = "http://opds-spec.org/acquisition/open-access";
pub const REL_IMAGE: &'static str = "http://opds-spec.org/image";
pub const REL_THUMBNAIL: &'static str = "http://opds-spec.org/thumbnail";
pub const REL_FACET: &'static str = "http://opds-spec.org/facet";

// ---------------------------------------------------------------------------
// MIME types of book formats
// ---------------------------------------------------------------------------

pub open spec fn mime_for_format_spec(format: Seq<char>) -> Seq<char> {
    if format == "fb2"@ {
        "application/fb2+xml"@
    } else if format == "epub"@ {
        "application/epub+zip"@
    } else if format == "mobi"@ {
        "application/x-mobipocket-ebook"@
    } else if format == "pdf"@ {
        "application/pdf"@
    } else if format == "doc"@ || format == "docx"@ {
        "application/msword"@
    } else if format == "djvu"@ {
        "image/vnd.djvu"@
    } else if format == "txt"@ {
        "text/plain"@
    } else if format == "rtf"@ {
        "text/rtf"@
    } else {
        "application/octet-stream"@
    }
}

/// MIME type of a book format; `application/octet-stream` for unknown formats.
pub fn mime_for_format(format: &str) -> (r: &'static str)
    ensures
        r@ == mime_for_format_spec(format@),
{
    if str_eq(format, "fb2") {
        "application/fb2+xml"
    } else if str_eq(format, "epub") {
        "application/epub+zip"
    } else if str_eq(format, "mobi") {
        "application/x-mobipocket-ebook"
    } else if str_eq(format, "pdf") {
        "application/pdf"
    } else if str_eq(format, "doc") || str_eq(format, "docx") {
        "application/msword"
    } else if str_eq(format, "djvu") {
        "image/vnd.djvu"
    } else if str_eq(format, "txt") {
        "text/plain"
    } else if str_eq(format, "rtf") {
        "text/rtf"
    } else {
        "application/octet-stream"
    }
}

pub open spec fn is_nozip_format_spec(format: Seq<char>) -> bool {
    format == "epub"@ || format == "mobi"@
}

/// Formats that are never offered as zipped downloads (they are archives already).
pub fn is_nozip_format(format: &str) -> (r: bool)
    ensures
        r == is_nozip_format_spec(format@),
{
    str_eq(format, "epub") || str_eq(format, "mobi")
}

pub open spec fn mime_for_zip_spec(format: Seq<char>) -> Seq<char> {
    if format == "fb2"@ {
        "application/fb2+zip"@
    } else {
        mime_for_format_spec(format) + "+zip"@
    }
}

/// MIME type of a zipped book download.
pub fn mime_for_zip(format: &str) -> (r: String)
    ensures
        r@ == mime_for_zip_spec(format@),
{
    if str_eq(format, "fb2") {
        "application/fb2+zip".to_owned()
    } else {
        let mut v = to_chars(mime_for_format(format));
        extend_str(&mut v, "+zip");
        from_chars(v.as_slice())
    }
}

// ---------------------------------------------------------------------------
// Feed parts
// ---------------------------------------------------------------------------

/// A link to include in a feed or an entry.
pub struct Link {
    pub href: String,
    pub rel: String,
    pub link_type: String,
    pub title: Option<String>,
}

/// An author element.
pub struct Author {
    pub name: String,
}

/// A category element.
pub struct Category {
    pub term: String,
    pub label: String,
}

// ---------------------------------------------------------------------------
// XML events
// ---------------------------------------------------------------------------

/// An attribute of an element; its value is escaped when written.
pub struct XmlAttr {
    pub name: String,
    pub value: String,
}

/// One event of an XML document.
pub enum XmlEvent {
    /// `<?xml version="1.0" encoding="utf-8"?>`
    Decl,
    /// An opening tag with its attributes.
    Start(String, Vec<XmlAttr>),
    /// A self-closing tag with its attributes.
    Empty(String, Vec<XmlAttr>),
    /// Character data, escaped when written.
    Text(String),
    /// Markup written as given.
    RawText(String),
    /// A closing tag.
    End(String),
}

/// The mathematical value of an `XmlEvent`.
pub enum XmlEventView {
    Decl,
    Start(Seq<char>, Seq<(Seq<char>, Seq<char>)>),
    Empty(Seq<char>, Seq<(Seq<char>, Seq<char>)>),
    Text(Seq<char>),
    RawText(Seq<char>),
    End(Seq<char>),
}

pub open spec fn attrs_view(a: Seq<XmlAttr>) -> Seq<(Seq<char>, Seq<char>)> {
    a.map_values(|x: XmlAttr| (x.name@, x.value@))
}

impl View for XmlEvent {
    type V = XmlEventView;

    open spec fn view(&self) -> XmlEventView {
        match *self {
            XmlEvent::Decl => XmlEventView::Decl,
            XmlEvent::Start(n, a) => XmlEventView::Start(n@, attrs_view(a@)),
            XmlEvent::Empty(n, a) => XmlEventView::Empty(n@, attrs_view(a@)),
            XmlEvent::Text(t) => XmlEventView::Text(t@),
            XmlEvent::RawText(t) => XmlEventView::RawText(t@),
            XmlEvent::End(n) => XmlEventView::End(n@),
        }
    }
}

/// Error of the feed builder: the underlying writer refused a write (which
/// writing to memory never does).
pub enum XmlError {
    Io,
}

// ---------------------------------------------------------------------------
// quick_xml
// ---------------------------------------------------------------------------

#[verifier::external_type_specification]
#[verifier::external_body]
#[verifier::reject_recursive_types(W)]
pub struct ExXmlWriter<W>(quick_xml::Writer<W>);

#[verifier::external_type_specification]
#[verifier::external_body]
pub struct ExIoError(std::io::Error);

/// The events that a `quick_xml` writer has been given, in order.
pub uninterp spec fn xml_writer_events(w: Writer<Vec<u8>>) -> Seq<XmlEventView>;

/// The bytes that `quick_xml`'s writer, indenting by two spaces, writes for a
/// sequence of events.
pub uninterp spec fn xml_document(events: Seq<XmlEventView>) -> Seq<u8>;

/// `quick_xml::Writer::new_with_indent` over an empty `Vec<u8>`, indenting by
/// two spaces: a writer that has been given no event.
#[verifier::external_body]
fn new_indented_writer() -> (w: Writer<Vec<u8>>)
    ensures
        xml_writer_events(w) == Seq::<XmlEventView>::empty(),
{
    Writer::new_with_indent(Vec::new(), b' ', 2)
}

/// `quick_xml::Writer::write_event`, the event converted to `quick_xml`'s own
/// type: the writer has been given that one event more. `write_event` fails
/// only where the inner writer's `write_all` fails, and writing to a `Vec<u8>`
/// appends to it, growing it as needed, so the call succeeds.
#[verifier::external_body]
fn write_xml_event(w: &mut Writer<Vec<u8>>, ev: &XmlEvent) -> (r: Result<(), std::io::Error>)
    ensures
        r is Ok,
        xml_writer_events(*final(w)) == xml_writer_events(*old(w)).push(ev@),
{
    let start = |n: &String, a: &Vec<XmlAttr>| BytesStart::new(n.clone())
        .with_attributes(a.iter().map(|x| (x.name.as_str(), x.value.as_str())));
    w.write_event(match ev {
        XmlEvent::Decl => Event::Decl(BytesDecl::new("1.0", Some("utf-8"), None)),
        XmlEvent::Start(n, a) => Event::Start(start(n, a)),
        XmlEvent::Empty(n, a) => Event::Empty(start(n, a)),
        XmlEvent::Text(t) => Event::Text(BytesText::new(t)),
        XmlEvent::RawText(t) => Event::Text(BytesText::from_escaped(t)),
        XmlEvent::End(n) => Event::End(BytesEnd::new(n)),
    })
}

/// `quick_xml::Writer::into_inner`: the document written for the events the
/// writer was given.
#[verifier::external_body]
fn xml_writer_bytes(w: Writer<Vec<u8>>) -> (r: Vec<u8>)
    ensures
        r@ == xml_document(xml_writer_events(w)),
{
    w.into_inner()
}

// ---------------------------------------------------------------------------
// Event sequences of the feed parts
// ---------------------------------------------------------------------------

pub open spec fn opt_string_view(o: Option<String>) -> Option<Seq<char>> {
    match o {
        Some(s) => Some(s@),
        None => None,
    }
}

pub open spec fn opt_str_view(o: Option<&str>) -> Option<Seq<char>> {
    match o {
        Some(s) => Some(s@),
        None => None,
    }
}

/// `<tag>text</tag>`
pub open spec fn text_element(tag: Seq<char>, text: Seq<char>) -> Seq<XmlEventView> {
    seq![XmlEventView::Start(tag, seq![]), XmlEventView::Text(text), XmlEventView::End(tag)]
}

pub open spec fn link_attrs(
    href: Seq<char>,
    rel: Seq<char>,
    link_type: Seq<char>,
    title: Option<Seq<char>>,
) -> Seq<(Seq<char>, Seq<char>)> {
    let base = seq![("href"@, href), ("rel"@, rel), ("type"@, link_type)];
    match title {
        Some(t) => base.push(("title"@, t)),
        None => base,
    }
}

/// `<link href=".." rel=".." type=".." [title=".."]/>`
pub open spec fn link_event(
    href: Seq<char>,
    rel: Seq<char>,
    link_type: Seq<char>,
    title: Option<Seq<char>>,
) -> XmlEventView {
    XmlEventView::Empty("link"@, link_attrs(href, rel, link_type, title))
}


pub open spec fn feed_attrs() -> Seq<(Seq<char>, Seq<char>)> {
    seq![
        ("xmlns"@, "http://www.w3.org/2005/Atom"@),
        ("xmlns:dcterms"@, "http://purl.org/dc/terms"@),
        ("xmlns:opds"@, "http://opds-spec.org/2010/catalog"@),
    ]
}

/// The declaration, the opening `<feed>` and the feed's header elements.
pub open spec fn feed_head_events(
    id: Seq<char>,
    title: Seq<char>,
    subtitle: Seq<char>,
    updated: Seq<char>,
    self_href: Seq<char>,
    start_href: Seq<char>,
) -> Seq<XmlEventView> {
    seq![XmlEventView::Decl, XmlEventView::Start("feed"@, feed_attrs())] + text_element("id"@, id)
        + text_element("title"@, title) + (if subtitle.len() > 0 {
        text_element("subtitle"@, subtitle)
    } else {
        seq![]
    }) + text_element("updated"@, updated) + seq![
        link_event(self_href, "self"@, NAV_TYPE@, None),
        link_event(start_href, "start"@, NAV_TYPE@, None),
    ]
}

/// `<content type="text">text</content>`
pub open spec fn content_text_events(text: Seq<char>) -> Seq<XmlEventView> {
    seq![
        XmlEventView::Start("content"@, seq![("type"@, "text"@)]),
        XmlEventView::Text(text),
        XmlEventView::End("content"@),
    ]
}

/// `<content type="text/html">html</content>`, the markup written as given.
pub open spec fn content_html_events(html: Seq<char>) -> Seq<XmlEventView> {
    seq![
        XmlEventView::Start("content"@, seq![("type"@, "text/html"@)]),
        XmlEventView::RawText(html),
        XmlEventView::End("content"@),
    ]
}

/// A navigation entry: id, title, a `subsection` link, the update time and,
/// when not empty, a text content.
pub open spec fn nav_entry_events(
    id: Seq<char>,
    title: Seq<char>,
    href: Seq<char>,
    content: Seq<char>,
    updated: Seq<char>,
) -> Seq<XmlEventView> {
    seq![XmlEventView::Start("entry"@, seq![])] + text_element("id"@, id) + text_element(
        "title"@,
        title,
    ) + seq![link_event(href, "subsection"@, NAV_TYPE@, None)] + text_element("updated"@, updated)
        + (if content.len() > 0 {
        content_text_events(content)
    } else {
        seq![]
    }) + seq![XmlEventView::End("entry"@)]
}

/// The opening of a book entry: id, title and update time.
pub open spec fn entry_head_events(id: Seq<char>, title: Seq<char>, updated: Seq<char>) -> Seq<
    XmlEventView,
> {
    seq![XmlEventView::Start("entry"@, seq![])] + text_element("id"@, id) + text_element(
        "title"@,
        title,
    ) + text_element("updated"@, updated)
}

/// `prefix` + decimal id + `suffix`.
pub open spec fn id_href_spec(prefix: Seq<char>, id: int, suffix: Seq<char>) -> Seq<char> {
    prefix + signed_decimal(id) + suffix
}

/// Download links (original and, unless the format is an archive already,
/// zipped) and, for a book with a cover, the cover and thumbnail links.
pub open spec fn acquisition_events(book_id: int, format: Seq<char>, has_cover: bool) -> Seq<
    XmlEventView,
> {
    seq![
        link_event(
            id_href_spec("/opds/download/"@, book_id, "/0/"@),
            REL_ACQUISITION@,
            mime_for_format_spec(format),
            None,
        ),
    ] + (if !is_nozip_format_spec(format) {
        seq![
            link_event(
                id_href_spec("/opds/download/"@, book_id, "/1/"@),
                REL_ACQUISITION@,
                mime_for_zip_spec(format),
                None,
            ),
        ]
    } else {
        seq![]
    }) + (if has_cover {
        seq![
            link_event(id_href_spec("/opds/cover/"@, book_id, "/"@), REL_IMAGE@, "image/jpeg"@, None),
            link_event(
                id_href_spec("/opds/thumb/"@, book_id, "/"@),
                REL_THUMBNAIL@,
                "image/jpeg"@,
                None,
            ),
        ]
    } else {
        seq![]
    })
}

/// `prev` and `next` links, each where given.
pub open spec fn pagination_events(prev: Option<Seq<char>>, next: Option<Seq<char>>) -> Seq<
    XmlEventView,
> {
    (match prev {
        Some(p) => seq![link_event(p, "prev"@, ACQ_TYPE@, Some("Previous Page"@))],
        None => seq![],
    }) + (match next {
        Some(n) => seq![link_event(n, "next"@, ACQ_TYPE@, Some("Next Page"@))],
        None => seq![],
    })
}

/// `<author><name>name</name></author>`
pub open spec fn author_events(name: Seq<char>) -> Seq<XmlEventView> {
    seq![XmlEventView::Start("author"@, seq![])] + text_element("name"@, name) + seq![
        XmlEventView::End("author"@),
    ]
}

/// A facet link of an OPDS facet group, marked active where selected.
pub open spec fn facet_event(
    href: Seq<char>,
    link_type: Seq<char>,
    title: Seq<char>,
    group: Seq<char>,
    active: bool,
) -> XmlEventView {
    let base = seq![
        ("href"@, href),
        ("rel"@, REL_FACET@),
        ("type"@, link_type),
        ("title"@, title),
        ("opds:facetGroup"@, group),
    ];
    XmlEventView::Empty(
        "link"@,
        if active {
            base.push(("opds:activeFacet"@, "true"@))
        } else {
            base
        },
    )
}

fn attr(name: &str, value: &str) -> (a: XmlAttr)
    ensures
        a.name@ == name@,
        a.value@ == value@,
{
    XmlAttr { name: name.to_owned(), value: value.to_owned() }
}

fn id_href(prefix: &str, id: i64, suffix: &str) -> (s: String)
    ensures
        s@ == id_href_spec(prefix@, id as int, suffix@),
{
    let mut v = to_chars(prefix);
    push_signed_decimal(&mut v, id);
    extend_str(&mut v, suffix);
    from_chars(v.as_slice())
}

// ---------------------------------------------------------------------------
// The feed builder
// ---------------------------------------------------------------------------

/// Builds an OPDS Atom feed. Its view is the sequence of events written so far.
pub struct FeedBuilder {
    writer: Writer<Vec<u8>>,
}

impl View for FeedBuilder {
    type V = Seq<XmlEventView>;

    closed spec fn view(&self) -> Seq<XmlEventView> {
        xml_writer_events(self.writer)
    }
}

impl FeedBuilder {
    pub fn new() -> (fb: Self)
        ensures
            fb@ == Seq::<XmlEventView>::empty(),
    {
        FeedBuilder { writer: new_indented_writer() }
    }

    fn emit(&mut self, ev: XmlEvent) -> (r: Result<(), XmlError>)
        ensures
            r is Ok,
            final(self)@ == old(self)@.push(ev@),
    {
        match write_xml_event(&mut self.writer, &ev) {
            Ok(()) => Ok(()),
            Err(_) => Err(XmlError::Io),
        }
    }

    fn emit_start(&mut self, tag: &str) -> (r: Result<(), XmlError>)
        ensures
            r is Ok,
            final(self)@ == old(self)@.push(XmlEventView::Start(tag@, seq![])),
    {
        let attrs: Vec<XmlAttr> = Vec::new();
        proof {
            assert(attrs_view(attrs@) =~= seq![]);
        }
        self.emit(XmlEvent::Start(tag.to_owned(), attrs))
    }

    fn emit_end(&mut self, tag: &str) -> (r: Result<(), XmlError>)
        ensures
            r is Ok,
            final(self)@ == old(self)@.push(XmlEventView::End(tag@)),
    {
        self.emit(XmlEvent::End(tag.to_owned()))
    }

    fn write_text_element(&mut self, tag: &str, text: &str) -> (r: Result<(), XmlError>)
        ensures
            r is Ok,
            final(self)@ == old(self)@ + text_element(tag@, text@),
    {
        self.emit_start(tag)?;
        self.emit(XmlEvent::Text(text.to_owned()))?;
        self.emit_end(tag)?;
        proof {
            assert(self@ =~= old(self)@ + text_element(tag@, text@));
        }
        Ok(())
    }

    /// Write a `<link>` element.
    pub fn write_link(&mut self, href: &str, rel: &str, link_type: &str, title: Option<&str>) -> (r:
        Result<(), XmlError>)
        ensures
            r is Ok,
            final(self)@ == old(self)@.push(
                link_event(href@, rel@, link_type@, opt_str_view(title)),
            ),
    {
        let mut attrs: Vec<XmlAttr> = Vec::new();
        attrs.push(attr("href", href));
        attrs.push(attr("rel", rel));
        attrs.push(attr("type", link_type));
        if let Some(t) = title {
            attrs.push(attr("title", t));
        }
        proof {
            assert(attrs_view(attrs@) =~= link_attrs(href@, rel@, link_type@, opt_str_view(title)));
        }
        self.emit(XmlEvent::Empty("link".to_owned(), attrs))
    }

    /// Write the XML declaration, open `<feed>` with its namespaces and write
    /// the feed's id, title, subtitle (when not empty), update time and its
    /// `self` and `start` links.
    pub fn begin_feed(
        &mut self,
        id: &str,
        title: &str,
        subtitle: &str,
        updated: &str,
        self_href: &str,
        start_href: &str,
    ) -> (r: Result<(), XmlError>)
        ensures
            r is Ok,
            final(self)@ == old(self)@ + feed_head_events(
                id@,
                title@,
                subtitle@,
                updated@,
                self_href@,
                start_href@,
            ),
    {
        self.emit(XmlEvent::Decl)?;
        let mut attrs: Vec<XmlAttr> = Vec::new();
        attrs.push(attr("xmlns", "http://www.w3.org/2005/Atom"));
        attrs.push(attr("xmlns:dcterms", "http://purl.org/dc/terms"));
        attrs.push(attr("xmlns:opds", "http://opds-spec.org/2010/catalog"));
        proof {
            assert(attrs_view(attrs@) =~= feed_attrs());
        }
        self.emit(XmlEvent::Start("feed".to_owned(), attrs))?;
        let ghost opened = self@;
        self.write_text_element("id", id)?;
        self.write_text_element("title", title)?;
        let ghost titled = self@;
        if !subtitle.is_empty() {
            self.write_text_element("subtitle", subtitle)?;
        }
        let ghost subtitled = self@;
        self.write_text_element("updated", updated)?;
        self.write_link(self_href, "self", NAV_TYPE, None)?;
        self.write_link(start_href, "start", NAV_TYPE, None)?;
        proof {
            if subtitle@.len() > 0 {
                assert(subtitled =~= titled + text_element("subtitle"@, subtitle@));
            } else {
                assert(subtitled =~= titled);
            }
            assert(self@ =~= old(self)@ + feed_head_events(
                id@,
                title@,
                subtitle@,
                updated@,
                self_href@,
                start_href@,
            ));
        }
        Ok(())
    }

    /// Write the OpenSearch description link and the search template link.
    pub fn write_search_links(&mut self, search_href: &str, template_href: &str) -> (r: Result<
        (),
        XmlError,
    >)
        ensures
            r is Ok,
            final(self)@ == old(self)@ + seq![
                link_event(search_href@, "search"@, OPENSEARCH_TYPE@, None),
                link_event(template_href@, "search"@, "application/atom+xml"@, None),
            ],
    {
        self.write_link(search_href, "search", OPENSEARCH_TYPE, None)?;
        self.write_link(template_href, "search", "application/atom+xml", None)?;
        proof {
            assert(self@ =~= old(self)@ + seq![
                link_event(search_href@, "search"@, OPENSEARCH_TYPE@, None),
                link_event(template_href@, "search"@, "application/atom+xml"@, None),
            ]);
        }
        Ok(())
    }

    /// Write the `prev` and `next` links that are given.
    pub fn write_pagination(&mut self, prev_href: Option<&str>, next_href: Option<&str>) -> (r:
        Result<(), XmlError>)
        ensures
            r is Ok,
            final(self)@ == old(self)@ + pagination_events(
                opt_str_view(prev_href),
                opt_str_view(next_href),
            ),
    {
        if let Some(prev) = prev_href {
            self.write_link(prev, "prev", ACQ_TYPE, Some("Previous Page"))?;
        }
        let ghost mid = self@;
        if let Some(next) = next_href {
            self.write_link(next, "next", ACQ_TYPE, Some("Next Page"))?;
        }
        proof {
            assert(self@ =~= old(self)@ + pagination_events(
                opt_str_view(prev_href),
                opt_str_view(next_href),
            ));
        }
        Ok(())
    }

    /// Write a navigation entry (catalog, author, genre or series link).
    pub fn write_nav_entry(
        &mut self,
        id: &str,
        title: &str,
        href: &str,
        content: &str,
        updated: &str,
    ) -> (r: Result<(), XmlError>)
        ensures
            r is Ok,
            final(self)@ == old(self)@ + nav_entry_events(
                id@,
                title@,
                href@,
                content@,
                updated@,
            ),
    {
        self.emit_start("entry")?;
        self.write_text_element("id", id)?;
        self.write_text_element("title", title)?;
        self.write_link(href, "subsection", NAV_TYPE, None)?;
        self.write_text_element("updated", updated)?;
        let ghost before_content = self@;
        if !content.is_empty() {
            self.write_content_text(content)?;
        }
        proof {
            if content@.len() > 0 {
                assert(self@ =~= before_content + content_text_events(content@));
            } else {
                assert(self@ =~= before_content);
            }
        }
        self.emit_end("entry")?;
        proof {
            assert(self@ =~= old(self)@ + nav_entry_events(id@, title@, href@, content@, updated@));
        }
        Ok(())
    }

    /// Open a book acquisition entry with its id, title and update time.
    pub fn begin_entry(&mut self, id: &str, title: &str, updated: &str) -> (r: Result<(), XmlError>)
        ensures
            r is Ok,
            final(self)@ == old(self)@ + entry_head_events(id@, title@, updated@),
    {
        self.emit_start("entry")?;
        self.write_text_element("id", id)?;
        self.write_text_element("title", title)?;
        self.write_text_element("updated", updated)?;
        proof {
            assert(self@ =~= old(self)@ + entry_head_events(id@, title@, updated@));
        }
        Ok(())
    }

    /// Write a book's acquisition links: the original download, the zipped
    /// download unless the format is an archive already, and the cover and
    /// thumbnail links when the book has a cover.
    pub fn write_acquisition_links(&mut self, book_id: i64, format: &str, has_cover: bool) -> (r:
        Result<(), XmlError>)
        ensures
            r is Ok,
            final(self)@ == old(self)@ + acquisition_events(
                book_id as int,
                format@,
                has_cover,
            ),
    {
        let dl_href = id_href("/opds/download/", book_id, "/0/");
        let mime = mime_for_format(format);
        self.write_link(dl_href.as_str(), REL_ACQUISITION, mime, None)?;
        let ghost first = self@;
        if !is_nozip_format(format) {
            let zip_href = id_href("/opds/download/", book_id, "/1/");
            let zip_mime = mime_for_zip(format);
            self.write_link(zip_href.as_str(), REL_ACQUISITION, zip_mime.as_str(), None)?;
        }
        let ghost second = self@;
        if has_cover {
            let cover_href = id_href("/opds/cover/", book_id, "/");
            let thumb_href = id_href("/opds/thumb/", book_id, "/");
            self.write_link(cover_href.as_str(), REL_IMAGE, "image/jpeg", None)?;
            self.write_link(thumb_href.as_str(), REL_THUMBNAIL, "image/jpeg", None)?;
        }
        proof {
            assert(self@ =~= old(self)@ + acquisition_events(book_id as int, format@, has_cover));
        }
        Ok(())
    }

    /// Write an HTML content element (a book's description), the markup as given.
    pub fn write_content_html(&mut self, html: &str) -> (r: Result<(), XmlError>)
        ensures
            r is Ok,
            final(self)@ == old(self)@ + content_html_events(html@),
    {
        let mut attrs: Vec<XmlAttr> = Vec::new();
        attrs.push(attr("type", "text/html"));
        proof {
            assert(attrs_view(attrs@) =~= seq![("type"@, "text/html"@)]);
        }
        self.emit(XmlEvent::Start("content".to_owned(), attrs))?;
        self.emit(XmlEvent::RawText(html.to_owned()))?;
        self.emit_end("content")?;
        proof {
            assert(self@ =~= old(self)@ + content_html_events(html@));
        }
        Ok(())
    }

    /// Write a plain-text content element.
    pub fn write_content_text(&mut self, text: &str) -> (r: Result<(), XmlError>)
        ensures
            r is Ok,
            final(self)@ == old(self)@ + content_text_events(text@),
    {
        let mut attrs: Vec<XmlAttr> = Vec::new();
        attrs.push(attr("type", "text"));
        proof {
            assert(attrs_view(attrs@) =~= seq![("type"@, "text"@)]);
        }
        self.emit(XmlEvent::Start("content".to_owned(), attrs))?;
        self.emit(XmlEvent::Text(text.to_owned()))?;
        self.emit_end("content")?;
        proof {
            assert(self@ =~= old(self)@ + content_text_events(text@));
        }
        Ok(())
    }

    /// Write an `<author>` element.
    pub fn write_author(&mut self, name: &str) -> (r: Result<(), XmlError>)
        ensures
            r is Ok,
            final(self)@ == old(self)@ + author_events(name@),
    {
        self.emit_start("author")?;
        self.write_text_element("name", name)?;
        self.emit_end("author")?;
        proof {
            assert(self@ =~= old(self)@ + author_events(name@));
        }
        Ok(())
    }

    /// Write a `<category>` element.
    pub fn write_category(&mut self, term: &str, label: &str) -> (r: Result<(), XmlError>)
        ensures
            r is Ok,
            final(self)@ == old(self)@.push(
                XmlEventView::Empty("category"@, seq![("term"@, term@), ("label"@, label@)]),
            ),
    {
        let mut attrs: Vec<XmlAttr> = Vec::new();
        attrs.push(attr("term", term));
        attrs.push(attr("label", label));
        proof {
            assert(attrs_view(attrs@) =~= seq![("term"@, term@), ("label"@, label@)]);
        }
        self.emit(XmlEvent::Empty("category".to_owned(), attrs))
    }

    /// Write a facet link of an OPDS facet group, marked active where selected.
    pub fn write_facet_link(
        &mut self,
        href: &str,
        link_type: &str,
        title: &str,
        group: &str,
        active: bool,
    ) -> (r: Result<(), XmlError>)
        ensures
            r is Ok,
            final(self)@ == old(self)@.push(
                facet_event(href@, link_type@, title@, group@, active),
            ),
    {
        let mut attrs: Vec<XmlAttr> = Vec::new();
        attrs.push(attr("href", href));
        attrs.push(attr("rel", REL_FACET));
        attrs.push(attr("type", link_type));
        attrs.push(attr("title", title));
        attrs.push(attr("opds:facetGroup", group));
        if active {
            attrs.push(attr("opds:activeFacet", "true"));
        }
        proof {
            let e = facet_event(href@, link_type@, title@, group@, active);
            assert(attrs_view(attrs@) =~= e->Empty_1);
        }
        self.emit(XmlEvent::Empty("link".to_owned(), attrs))
    }

    /// Write a `<link>` element from a link value.
    pub fn write_link_obj(&mut self, link: &Link) -> (r: Result<(), XmlError>)
        ensures
            r is Ok,
            final(self)@ == old(self)@.push(
                link_event(link.href@, link.rel@, link.link_type@, opt_string_view(link.title)),
            ),
    {
        let title: Option<&str> = match &link.title {
            Some(t) => Some(t.as_str()),
            None => None,
        };
        proof {
            assert(opt_str_view(title) == opt_string_view(link.title));
        }
        self.write_link(link.href.as_str(), link.rel.as_str(), link.link_type.as_str(), title)
    }

    /// Write an `<author>` element from an author value.
    pub fn write_author_obj(&mut self, author: &Author) -> (r: Result<(), XmlError>)
        ensures
            r is Ok,
            final(self)@ == old(self)@ + author_events(author.name@),
    {
        self.write_author(author.name.as_str())
    }

    /// Write a `<category>` element from a category value.
    pub fn write_category_obj(&mut self, category: &Category) -> (r: Result<(), XmlError>)
        ensures
            r is Ok,
            final(self)@ == old(self)@.push(
                XmlEventView::Empty(
                    "category"@,
                    seq![("term"@, category.term@), ("label"@, category.label@)],
                ),
            ),
    {
        self.write_category(category.term.as_str(), category.label.as_str())
    }

    /// Close the current `<entry>`.
    pub fn end_entry(&mut self) -> (r: Result<(), XmlError>)
        ensures
            r is Ok,
            final(self)@ == old(self)@.push(XmlEventView::End("entry"@)),
    {
        self.emit_end("entry")
    }

    /// Close the `</feed>` and return the complete document.
    pub fn finish(self) -> (r: Result<Vec<u8>, XmlError>)
        ensures
            r matches Ok(bytes) && bytes@ == xml_document(self@.push(XmlEventView::End("feed"@))),
    {
        let mut fb = self;
        fb.emit_end("feed")?;
        Ok(xml_writer_bytes(fb.writer))
    }
}

} // verus!
