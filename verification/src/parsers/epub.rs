//! EPUB metadata: the package (OPF) document read as a stream of XML events.
use vstd::prelude::*;
use crate::opds::xml::XmlAttr;
use crate::parsers::{BookMeta, string_views, strip_meta, strip_meta_spec};
use crate::text::{
    CharClass, ascii_lower_seq, char_ascii_lower, starts_with_chars, trim_start_chars, trim_start_class, extend_chars, from_chars, str_eq, to_chars, to_lowercase, trim, trim_chars, unicode_lowercase,
    extend_str,
};
use crate::ziparchive::{
    MemZip, ZipReadError, zip_entry_data, zip_entry_found, zip_len, zip_listing, zip_name_at, zip_open,
    zip_opens, zip_read,
    zip_source,
};
use zip::result::ZipError;
use crate::xmlread::{
    XmlInEvent, XmlInEventView, events_view, local_name, local_name_spec, read_xml_events, xml_attrs,
    xml_events,
};

verus! {

// ---------------------------------------------------------------------------
// Attributes
// ---------------------------------------------------------------------------

/// The value of the last attribute with the given key.
pub open spec fn last_attr(attrs: Seq<(Seq<char>, Seq<char>)>, key: Seq<char>) -> Option<Seq<char>>
    decreases attrs.len(),
{
    if attrs.len() == 0 {
        None
    } else if attrs.last().0 == key {
        Some(attrs.last().1)
    } else {
        last_attr(attrs.drop_last(), key)
    }
}

/// The value of the last attribute with the given key, or empty.
pub open spec fn attr_or_empty(attrs: Seq<(Seq<char>, Seq<char>)>, key: Seq<char>) -> Seq<char> {
    match last_attr(attrs, key) {
        Some(v) => v,
        None => Seq::empty(),
    }
}

pub fn find_attr(attrs: &Vec<XmlAttr>, key: &str) -> (r: Option<String>)
    ensures
        crate::ziparchive::opt_string_view(r) == last_attr(crate::opds::xml::attrs_view(attrs@), key@),
{
    let ghost av = crate::opds::xml::attrs_view(attrs@);
    let mut n: usize = attrs.len();
    proof {
        assert(av.take(n as int) =~= av);
    }
    while n > 0
        invariant
            n <= attrs.len(),
            av == crate::opds::xml::attrs_view(attrs@),
            last_attr(av, key@) == last_attr(av.take(n as int), key@),
        decreases n,
    {
        proof {
            assert(av.take(n as int).drop_last() =~= av.take(n - 1));
            assert(av.take(n as int).last() == (attrs@[n - 1].name@, attrs@[n - 1].value@));
        }
        if str_eq(attrs[n - 1].name.as_str(), key) {
            return Some(attrs[n - 1].value.clone());
        }
        n -= 1;
    }
    None
}

fn attr_value_or_empty(attrs: &Vec<XmlAttr>, key: &str) -> (r: String)
    ensures
        r@ == attr_or_empty(crate::opds::xml::attrs_view(attrs@), key@),
{
    match find_attr(attrs, key) {
        Some(v) => v,
        None => String::new(),
    }
}

/// A key naming a role: `role`, or any prefixed `…:role`.
pub open spec fn is_role_key(key: Seq<char>) -> bool {
    key == "role"@ || (key.len() >= 5 && key.subrange(key.len() - 5, key.len() as int) == ":role"@)
}

/// The value of the last role attribute.
pub open spec fn last_role(attrs: Seq<(Seq<char>, Seq<char>)>) -> Option<Seq<char>>
    decreases attrs.len(),
{
    if attrs.len() == 0 {
        None
    } else if is_role_key(attrs.last().0) {
        Some(attrs.last().1)
    } else {
        last_role(attrs.drop_last())
    }
}

fn is_role_key_exec(key: &str) -> (r: bool)
    ensures
        r == is_role_key(key@),
{
    if str_eq(key, "role") {
        return true;
    }
    let k = to_chars(key);
    proof {
        reveal_strlit(":role");
    }
    if k.len() < 5 {
        return false;
    }
    let n = k.len();
    let r = k[n - 5] == ':' && k[n - 4] == 'r' && k[n - 3] == 'o' && k[n - 2] == 'l' && k[n - 1] == 'e';
    proof {
        let t = k@.subrange(n - 5, n as int);
        if r {
            assert(t =~= ":role"@);
        } else if t == ":role"@ {
            assert(t[0] == ':' && t[1] == 'r' && t[2] == 'o' && t[3] == 'l' && t[4] == 'e');
        }
    }
    r
}

fn find_role(attrs: &Vec<XmlAttr>) -> (r: Option<String>)
    ensures
        crate::ziparchive::opt_string_view(r) == last_role(crate::opds::xml::attrs_view(attrs@)),
{
    let ghost av = crate::opds::xml::attrs_view(attrs@);
    let mut n: usize = attrs.len();
    proof {
        assert(av.take(n as int) =~= av);
    }
    while n > 0
        invariant
            n <= attrs.len(),
            av == crate::opds::xml::attrs_view(attrs@),
            last_role(av) == last_role(av.take(n as int)),
        decreases n,
    {
        proof {
            assert(av.take(n as int).drop_last() =~= av.take(n - 1));
            assert(av.take(n as int).last() == (attrs@[n - 1].name@, attrs@[n - 1].value@));
        }
        if is_role_key_exec(attrs[n - 1].name.as_str()) {
            return Some(attrs[n - 1].value.clone());
        }
        n -= 1;
    }
    None
}


// ---------------------------------------------------------------------------
// The package document
// ---------------------------------------------------------------------------

/// What has been read of a package document so far.
#[verifier::ext_equal]
pub struct OpfView {
    pub title: Seq<char>,
    pub lang: Seq<char>,
    pub annotation: Seq<char>,
    pub docdate: Seq<char>,
    pub genres: Seq<Seq<char>>,
    pub series_title: Option<Seq<char>>,
    pub series_index_text: Option<Seq<char>>,
    /// Local names of the open elements.
    pub path: Seq<Seq<char>>,
    /// Text since the last opening or closing tag.
    pub text: Seq<char>,
    /// Role of the creator element being read.
    pub role: Option<Seq<char>>,
    /// Creators with role `aut`, and all creators.
    pub aut: Seq<Seq<char>>,
    pub all: Seq<Seq<char>>,
}

pub open spec fn opf_initial() -> OpfView {
    OpfView {
        title: Seq::empty(),
        lang: Seq::empty(),
        annotation: Seq::empty(),
        docdate: Seq::empty(),
        genres: Seq::empty(),
        series_title: None,
        series_index_text: None,
        path: Seq::empty(),
        text: Seq::empty(),
        role: None,
        aut: Seq::empty(),
        all: Seq::empty(),
    }
}

/// The attributes of an opening or empty element: calibre's series and series
/// number on `meta`, the creator's role on `creator`.
pub open spec fn opf_open(local: Seq<char>, attrs: Seq<(Seq<char>, Seq<char>)>, s: OpfView) -> OpfView {
    let s1 = if local == "meta"@ {
        let name = attr_or_empty(attrs, "name"@);
        let content = attr_or_empty(attrs, "content"@);
        if name == "calibre:series"@ {
            OpfView { series_title: Some(strip_meta_spec(content)), ..s }
        } else if name == "calibre:series_index"@ {
            OpfView { series_index_text: Some(content), ..s }
        } else {
            s
        }
    } else {
        s
    };
    if local == "creator"@ {
        OpfView { role: last_role(attrs), ..s1 }
    } else {
        s1
    }
}

/// A closing tag: the text read inside a metadata element is kept according
/// to the element (the first title, language, description and date; every
/// subject and creator), then the element is left.
pub open spec fn opf_close(s: OpfView) -> OpfView {
    let tag = if s.path.len() > 0 {
        s.path.last()
    } else {
        Seq::empty()
    };
    let t = trim(s.text);
    let in_meta = s.path.contains("metadata"@);
    let s1 = if tag == "title"@ && in_meta && s.title.len() == 0 {
        OpfView { title: strip_meta_spec(t), ..s }
    } else if tag == "creator"@ && in_meta {
        OpfView {
            aut: if t.len() > 0 && s.role == Some("aut"@) {
                s.aut.push(t)
            } else {
                s.aut
            },
            all: if t.len() > 0 {
                s.all.push(t)
            } else {
                s.all
            },
            role: None,
            ..s
        }
    } else if tag == "language"@ && in_meta && s.lang.len() == 0 {
        OpfView { lang: strip_meta_spec(t), ..s }
    } else if tag == "subject"@ && in_meta {
        let g = unicode_lowercase(strip_meta_spec(t));
        if g.len() > 0 {
            OpfView { genres: s.genres.push(g), ..s }
        } else {
            s
        }
    } else if tag == "description"@ && in_meta && s.annotation.len() == 0 {
        OpfView { annotation: strip_meta_spec(t), ..s }
    } else if tag == "date"@ && in_meta && s.docdate.len() == 0 {
        OpfView { docdate: strip_meta_spec(t), ..s }
    } else {
        s
    };
    OpfView {
        path: if s1.path.len() > 0 {
            s1.path.drop_last()
        } else {
            s1.path
        },
        text: Seq::empty(),
        ..s1
    }
}

/// The effect of one event.
pub open spec fn opf_step(s: OpfView, ev: XmlInEventView) -> OpfView {
    match ev {
        XmlInEventView::Start(n, a) => {
            let l = local_name_spec(n);
            let s1 = opf_open(l, a, s);
            OpfView { path: s1.path.push(l), text: Seq::empty(), ..s1 }
        },
        XmlInEventView::Empty(n, a) => opf_open(local_name_spec(n), a, s),
        XmlInEventView::End(_) => opf_close(s),
        XmlInEventView::Text(t) => OpfView { text: s.text + t, ..s },
        XmlInEventView::EntityRef(n) => OpfView { text: s.text + seq!['&'] + n + seq![';'], ..s },
        XmlInEventView::Other => s,
    }
}

/// The state after reading the events in order.
pub open spec fn opf_fold(events: Seq<XmlInEventView>) -> OpfView
    decreases events.len(),
{
    if events.len() == 0 {
        opf_initial()
    } else {
        opf_step(opf_fold(events.drop_last()), events.last())
    }
}

/// Metadata of a package document, with calibre's series number as written.
pub struct OpfMetadata {
    pub meta: BookMeta,
    pub series_index_text: Option<String>,
}

/// The metadata read from a package document's events: creators with role
/// `aut` as authors, or all creators when none has that role.
pub open spec fn opf_metadata_of(m: OpfMetadata, s: OpfView) -> bool {
    &&& m.meta.title@ == s.title
    &&& string_views(m.meta.authors@) == (if s.aut.len() > 0 {
        s.aut
    } else {
        s.all
    })
    &&& string_views(m.meta.genres@) == s.genres
    &&& m.meta.annotation@ == s.annotation
    &&& m.meta.lang@ == s.lang
    &&& crate::ziparchive::opt_string_view(m.meta.series_title) == s.series_title
    &&& m.meta.series_index == 0
    &&& m.meta.docdate@ == s.docdate
    &&& m.meta.cover_data is None
    &&& m.meta.cover_type@.len() == 0
    &&& crate::ziparchive::opt_string_view(m.series_index_text) == s.series_index_text
}

struct OpfScan {
    title: String,
    lang: String,
    annotation: String,
    docdate: String,
    genres: Vec<String>,
    series_title: Option<String>,
    series_index_text: Option<String>,
    path: Vec<String>,
    text: Vec<char>,
    role: Option<String>,
    aut: Vec<String>,
    all: Vec<String>,
}

impl OpfScan {
    spec fn view(&self) -> OpfView {
        OpfView {
            title: self.title@,
            lang: self.lang@,
            annotation: self.annotation@,
            docdate: self.docdate@,
            genres: string_views(self.genres@),
            series_title: crate::ziparchive::opt_string_view(self.series_title),
            series_index_text: crate::ziparchive::opt_string_view(self.series_index_text),
            path: string_views(self.path@),
            text: self.text@,
            role: crate::ziparchive::opt_string_view(self.role),
            aut: string_views(self.aut@),
            all: string_views(self.all@),
        }
    }

    fn new() -> (s: Self)
        ensures
            s.view() == opf_initial(),
    {
        let s = OpfScan {
            title: String::new(),
            lang: String::new(),
            annotation: String::new(),
            docdate: String::new(),
            genres: Vec::new(),
            series_title: None,
            series_index_text: None,
            path: Vec::new(),
            text: Vec::new(),
            role: None,
            aut: Vec::new(),
            all: Vec::new(),
        };
        proof {
            assert(string_views(s.genres@) =~= Seq::<Seq<char>>::empty());
            assert(string_views(s.path@) =~= Seq::<Seq<char>>::empty());
            assert(string_views(s.aut@) =~= Seq::<Seq<char>>::empty());
            assert(string_views(s.all@) =~= Seq::<Seq<char>>::empty());
            assert(s.view() =~= opf_initial());
        }
        s
    }

    fn open(&mut self, local: &str, attrs: &Vec<XmlAttr>)
        ensures
            final(self).view() == opf_open(local@, crate::opds::xml::attrs_view(attrs@), old(self).view()),
    {
        if str_eq(local, "meta") {
            let name = attr_value_or_empty(attrs, "name");
            let content = attr_value_or_empty(attrs, "content");
            if str_eq(name.as_str(), "calibre:series") {
                self.series_title = Some(strip_meta(content.as_str()));
            } else if str_eq(name.as_str(), "calibre:series_index") {
                self.series_index_text = Some(content);
            }
        }
        if str_eq(local, "creator") {
            self.role = find_role(attrs);
        }
    }

    fn path_has_metadata(&self) -> (r: bool)
        ensures
            r == self.view().path.contains("metadata"@),
    {
        let mut i: usize = 0;
        while i < self.path.len()
            invariant
                i <= self.path.len(),
                forall|j: int| 0 <= j < i ==> self.path@[j]@ != "metadata"@,
            decreases self.path.len() - i,
        {
            if str_eq(self.path[i].as_str(), "metadata") {
                proof {
                    assert(self.view().path[i as int] == "metadata"@);
                }
                return true;
            }
            i += 1;
        }
        proof {
            if self.view().path.contains("metadata"@) {
                let j = choose|j: int| 0 <= j < self.view().path.len() && self.view().path[j] == "metadata"@;
                assert(self.path@[j]@ == "metadata"@);
            }
        }
        false
    }

    fn close(&mut self)
        ensures
            final(self).view() == opf_close(old(self).view()),
    {
        let in_meta = self.path_has_metadata();
        let t = trim_chars(self.text.as_slice(), CharClass::Space);
        let n = self.path.len();
        let tag: String = if n > 0 {
            self.path[n - 1].clone()
        } else {
            String::new()
        };
        proof {
            if n > 0 {
                assert(tag@ == old(self).view().path.last());
            }
        }
        if str_eq(tag.as_str(), "title") && in_meta && self.title.as_str().is_empty() {
            self.title = strip_meta(from_chars(t.as_slice()).as_str());
        } else if str_eq(tag.as_str(), "creator") && in_meta {
            if t.len() > 0 {
                let is_aut = match &self.role {
                    Some(r) => str_eq(r.as_str(), "aut"),
                    None => false,
                };
                if is_aut {
                    let ghost before = self.aut@;
                    self.aut.push(from_chars(t.as_slice()));
                    proof {
                        assert(string_views(self.aut@) =~= string_views(before).push(t@));
                    }
                }
                let ghost before_all = self.all@;
                self.all.push(from_chars(t.as_slice()));
                proof {
                    assert(string_views(self.all@) =~= string_views(before_all).push(t@));
                }
            }
            self.role = None;
        } else if str_eq(tag.as_str(), "language") && in_meta && self.lang.as_str().is_empty() {
            self.lang = strip_meta(from_chars(t.as_slice()).as_str());
        } else if str_eq(tag.as_str(), "subject") && in_meta {
            let g = to_lowercase(strip_meta(from_chars(t.as_slice()).as_str()).as_str());
            if !g.as_str().is_empty() {
                let ghost before = self.genres@;
                self.genres.push(g);
                proof {
                    assert(string_views(self.genres@) =~= string_views(before).push(
                        self.genres@.last()@,
                    ));
                }
            }
        } else if str_eq(tag.as_str(), "description") && in_meta && self.annotation.as_str().is_empty() {
            self.annotation = strip_meta(from_chars(t.as_slice()).as_str());
        } else if str_eq(tag.as_str(), "date") && in_meta && self.docdate.as_str().is_empty() {
            self.docdate = strip_meta(from_chars(t.as_slice()).as_str());
        }
        if self.path.len() > 0 {
            let ghost before = self.path@;
            self.path.pop();
            proof {
                assert(string_views(self.path@) =~= string_views(before).drop_last());
            }
        }
        self.text = Vec::new();
        proof {
            assert(self.view() =~= opf_close(old(self).view()));
        }
    }

    fn step(&mut self, ev: &XmlInEvent)
        ensures
            final(self).view() == opf_step(old(self).view(), ev@),
    {
        match ev {
            XmlInEvent::Start(n, raw) => {
                let a = xml_attrs(raw.as_str());
                let l = local_name(n.as_str());
                self.open(l.as_str(), &a);
                let ghost before = self.path@;
                self.path.push(l);
                self.text = Vec::new();
                proof {
                    assert(string_views(self.path@) =~= string_views(before).push(
                        local_name_spec(n@),
                    ));
                    assert(self.view() =~= opf_step(old(self).view(), ev@));
                }
            },
            XmlInEvent::Empty(n, raw) => {
                let a = xml_attrs(raw.as_str());
                let l = local_name(n.as_str());
                self.open(l.as_str(), &a);
            },
            XmlInEvent::End(_) => {
                self.close();
            },
            XmlInEvent::Text(t) => {
                extend_str(&mut self.text, t.as_str());
                proof {
                    assert(self.view() =~= opf_step(old(self).view(), ev@));
                }
            },
            XmlInEvent::EntityRef(n) => {
                self.text.push('&');
                extend_str(&mut self.text, n.as_str());
                self.text.push(';');
                proof {
                    assert(self.text@ =~= old(self).text@ + seq!['&'] + n@ + seq![';']);
                    assert(self.view() =~= opf_step(old(self).view(), ev@));
                }
            },
            XmlInEvent::Other => {},
        }
    }
}

/// Metadata of a package document from its events.
pub fn parse_opf_events(events: &Vec<XmlInEvent>) -> (r: OpfMetadata)
    ensures
        opf_metadata_of(r, opf_fold(events_view(events@))),
{
    let ghost evs = events_view(events@);
    let mut scan = OpfScan::new();
    let mut i: usize = 0;
    proof {
        assert(evs.take(0) =~= Seq::<XmlInEventView>::empty());
    }
    while i < events.len()
        invariant
            i <= events.len(),
            evs == events_view(events@),
            scan.view() == opf_fold(evs.take(i as int)),
        decreases events.len() - i,
    {
        scan.step(&events[i]);
        proof {
            assert(evs.take(i + 1).drop_last() =~= evs.take(i as int));
            assert(evs.take(i + 1).last() == events@[i as int]@);
        }
        i += 1;
    }
    proof {
        assert(evs.take(events.len() as int) =~= evs);
    }
    let OpfScan {
        title,
        lang,
        annotation,
        docdate,
        genres,
        series_title,
        series_index_text,
        aut,
        all,
        ..
    } = scan;
    let authors = if aut.len() > 0 {
        aut
    } else {
        all
    };
    let mut meta = BookMeta::empty();
    meta.title = title;
    meta.authors = authors;
    meta.genres = genres;
    meta.annotation = annotation;
    meta.lang = lang;
    meta.series_title = series_title;
    meta.docdate = docdate;
    OpfMetadata { meta, series_index_text }
}

/// Metadata of a package document.
pub fn parse_opf(data: &[u8]) -> (r: OpfMetadata)
    ensures
        opf_metadata_of(r, opf_fold(xml_events(data@))),
{
    let events = read_xml_events(data);
    parse_opf_events(&events)
}


// ---------------------------------------------------------------------------
// The container document
// ---------------------------------------------------------------------------

/// The package path a container event names: the `full-path` of a
/// `rootfile` element.
pub open spec fn rootfile_path(ev: XmlInEventView) -> Option<Seq<char>> {
    match ev {
        XmlInEventView::Start(n, a) => if local_name_spec(n) == "rootfile"@ {
            last_attr(a, "full-path"@)
        } else {
            None
        },
        XmlInEventView::Empty(n, a) => if local_name_spec(n) == "rootfile"@ {
            last_attr(a, "full-path"@)
        } else {
            None
        },
        _ => None,
    }
}

/// The first package path named in the container's events.
pub open spec fn container_rootfile(events: Seq<XmlInEventView>) -> Option<Seq<char>>
    decreases events.len(),
{
    if events.len() == 0 {
        None
    } else {
        match rootfile_path(events[0]) {
            Some(p) => Some(p),
            None => container_rootfile(events.drop_first()),
        }
    }
}

fn rootfile_path_exec(ev: &XmlInEvent) -> (r: Option<String>)
    ensures
        crate::ziparchive::opt_string_view(r) == rootfile_path(ev@),
{
    match ev {
        XmlInEvent::Start(n, raw) | XmlInEvent::Empty(n, raw) => {
            let l = local_name(n.as_str());
            if str_eq(l.as_str(), "rootfile") {
                let a = xml_attrs(raw.as_str());
                find_attr(&a, "full-path")
            } else {
                None
            }
        },
        _ => None,
    }
}

/// The package path named in a container document's events.
pub fn parse_container_events(events: &Vec<XmlInEvent>) -> (r: Option<String>)
    ensures
        crate::ziparchive::opt_string_view(r) == container_rootfile(events_view(events@)),
{
    let ghost evs = events_view(events@);
    let mut i: usize = 0;
    proof {
        assert(evs.skip(0) =~= evs);
    }
    while i < events.len()
        invariant
            i <= events.len(),
            evs == events_view(events@),
            container_rootfile(evs) == container_rootfile(evs.skip(i as int)),
        decreases events.len() - i,
    {
        proof {
            assert(evs.skip(i as int)[0] == events@[i as int]@);
            assert(evs.skip(i as int).drop_first() =~= evs.skip(i + 1));
        }
        match rootfile_path_exec(&events[i]) {
            Some(p) => {
                return Some(p);
            },
            None => {},
        }
        i += 1;
    }
    proof {
        assert(evs.skip(i as int).len() == 0);
    }
    None
}

/// Parse META-INF/container.xml to find the rootfile full-path.
pub fn parse_container_xml(data: &[u8]) -> (r: Option<String>)
    ensures
        crate::ziparchive::opt_string_view(r) == container_rootfile(xml_events(data@)),
{
    let events = read_xml_events(data);
    parse_container_events(&events)
}

// ---------------------------------------------------------------------------
// The manifest
// ---------------------------------------------------------------------------

/// An item of the package manifest.
pub struct ManifestItem {
    pub id: String,
    pub href: String,
    pub media_type: String,
    pub properties: String,
}

/// id, href, media type and properties.
pub open spec fn item_view(it: ManifestItem) -> (Seq<char>, Seq<char>, Seq<char>, Seq<char>) {
    (it.id@, it.href@, it.media_type@, it.properties@)
}

pub open spec fn items_view(v: Seq<ManifestItem>) -> Seq<(Seq<char>, Seq<char>, Seq<char>, Seq<char>)> {
    v.map_values(|it: ManifestItem| item_view(it))
}

/// The manifest items and the cover id named by `<meta name="cover">`, after one event.
pub open spec fn manifest_step(
    acc: (Seq<(Seq<char>, Seq<char>, Seq<char>, Seq<char>)>, Option<Seq<char>>),
    ev: XmlInEventView,
) -> (Seq<(Seq<char>, Seq<char>, Seq<char>, Seq<char>)>, Option<Seq<char>>) {
    match ev {
        XmlInEventView::Start(n, a) => manifest_open(acc, local_name_spec(n), a),
        XmlInEventView::Empty(n, a) => manifest_open(acc, local_name_spec(n), a),
        _ => acc,
    }
}

pub open spec fn manifest_open(
    acc: (Seq<(Seq<char>, Seq<char>, Seq<char>, Seq<char>)>, Option<Seq<char>>),
    l: Seq<char>,
    a: Seq<(Seq<char>, Seq<char>)>,
) -> (Seq<(Seq<char>, Seq<char>, Seq<char>, Seq<char>)>, Option<Seq<char>>) {
    let items = if l == "item"@ {
        acc.0.push(
            (
                attr_or_empty(a, "id"@),
                attr_or_empty(a, "href"@),
                attr_or_empty(a, "media-type"@),
                attr_or_empty(a, "properties"@),
            ),
        )
    } else {
        acc.0
    };
    let cover = if l == "meta"@ && attr_or_empty(a, "name"@) == "cover"@ && attr_or_empty(
        a,
        "content"@,
    ).len() > 0 {
        Some(attr_or_empty(a, "content"@))
    } else {
        acc.1
    };
    (items, cover)
}

pub open spec fn manifest_fold(events: Seq<XmlInEventView>) -> (
    Seq<(Seq<char>, Seq<char>, Seq<char>, Seq<char>)>,
    Option<Seq<char>>,
)
    decreases events.len(),
{
    if events.len() == 0 {
        (Seq::empty(), None)
    } else {
        manifest_step(manifest_fold(events.drop_last()), events.last())
    }
}

/// The manifest items and the cover id of a package document's events.
pub fn parse_manifest_events(events: &Vec<XmlInEvent>) -> (r: (Vec<ManifestItem>, Option<String>))
    ensures
        (items_view(r.0@), crate::ziparchive::opt_string_view(r.1)) == manifest_fold(
            events_view(events@),
        ),
{
    let ghost evs = events_view(events@);
    let mut items: Vec<ManifestItem> = Vec::new();
    let mut cover: Option<String> = None;
    let mut i: usize = 0;
    proof {
        assert(evs.take(0) =~= Seq::<XmlInEventView>::empty());
        assert(items_view(items@) =~= Seq::<(Seq<char>, Seq<char>, Seq<char>, Seq<char>)>::empty());
    }
    while i < events.len()
        invariant
            i <= events.len(),
            evs == events_view(events@),
            (items_view(items@), crate::ziparchive::opt_string_view(cover)) == manifest_fold(
                evs.take(i as int),
            ),
        decreases events.len() - i,
    {
        proof {
            assert(evs.take(i + 1).drop_last() =~= evs.take(i as int));
            assert(evs.take(i + 1).last() == events@[i as int]@);
        }
        match &events[i] {
            XmlInEvent::Start(n, raw) | XmlInEvent::Empty(n, raw) => {
                let l = local_name(n.as_str());
                let a = &xml_attrs(raw.as_str());
                if str_eq(l.as_str(), "item") {
                    let it = ManifestItem {
                        id: attr_value_or_empty(a, "id"),
                        href: attr_value_or_empty(a, "href"),
                        media_type: attr_value_or_empty(a, "media-type"),
                        properties: attr_value_or_empty(a, "properties"),
                    };
                    let ghost before = items@;
                    items.push(it);
                    proof {
                        assert(items_view(items@) =~= items_view(before).push(item_view(it)));
                    }
                }
                if str_eq(l.as_str(), "meta") {
                    let name = attr_value_or_empty(a, "name");
                    let content = attr_value_or_empty(a, "content");
                    if str_eq(name.as_str(), "cover") && !content.as_str().is_empty() {
                        cover = Some(content);
                    }
                }
            },
            _ => {},
        }
        i += 1;
    }
    proof {
        assert(evs.take(events.len() as int) =~= evs);
    }
    (items, cover)
}


// ---------------------------------------------------------------------------
// Cover images
// ---------------------------------------------------------------------------

/// The index of the last `/`, or -1.
pub open spec fn last_slash(p: Seq<char>) -> int
    decreases p.len(),
{
    if p.len() == 0 {
        -1
    } else if p.last() == '/' {
        p.len() - 1
    } else {
        last_slash(p.drop_last())
    }
}

/// The directory of the package document, with its trailing `/`.
pub open spec fn opf_dir_spec(opf_path: Seq<char>) -> Seq<char> {
    if last_slash(opf_path) < 0 {
        Seq::empty()
    } else {
        opf_path.take(last_slash(opf_path) + 1)
    }
}

proof fn lemma_last_slash_bounds(p: Seq<char>)
    ensures
        -1 <= last_slash(p) < p.len(),
    decreases p.len(),
{
    if p.len() > 0 && p.last() != '/' {
        lemma_last_slash_bounds(p.drop_last());
    }
}

pub fn opf_dir(opf_path: &str) -> (r: Vec<char>)
    ensures
        r@ == opf_dir_spec(opf_path@),
{
    let p = to_chars(opf_path);
    proof {
        lemma_last_slash_bounds(opf_path@);
    }
    let mut n: usize = p.len();
    proof {
        assert(opf_path@.take(n as int) =~= opf_path@);
    }
    while n > 0
        invariant
            n <= p.len(),
            p@ == opf_path@,
            last_slash(opf_path@) == last_slash(opf_path@.take(n as int)),
        decreases n,
    {
        proof {
            assert(opf_path@.take(n as int).drop_last() =~= opf_path@.take(n - 1));
        }
        if p[n - 1] == '/' {
            proof {
                assert(opf_path@.take(n as int).last() == '/');
            }
            return crate::text::slice_chars(p.as_slice(), 0, n);
        }
        n -= 1;
    }
    Vec::new()
}

/// A manifest reference resolved against the package directory; absolute
/// references are taken from the archive root.
pub open spec fn resolve_path_spec(base_dir: Seq<char>, href: Seq<char>) -> Seq<char> {
    if href.len() > 0 && href[0] == '/' {
        trim_start_class(href, CharClass::Exact('/'))
    } else {
        base_dir + href
    }
}

pub fn resolve_path(base_dir: &[char], href: &str) -> (r: String)
    ensures
        r@ == resolve_path_spec(base_dir@, href@),
{
    let h = to_chars(href);
    if h.len() > 0 && h[0] == '/' {
        let t = trim_start_chars(h.as_slice(), CharClass::Exact('/'));
        from_chars(t.as_slice())
    } else {
        let mut out = crate::text::copy_chars(base_dir);
        extend_chars(&mut out, h.as_slice());
        from_chars(out.as_slice())
    }
}

pub open spec fn contains_sub(s: Seq<char>, sub: Seq<char>) -> bool {
    exists|i: int| 0 <= i <= s.len() - sub.len() && #[trigger] s.subrange(i, i + sub.len()) == sub
}

pub fn str_contains(s: &str, sub: &str) -> (r: bool)
    ensures
        r == contains_sub(s@, sub@),
{
    let a = to_chars(s);
    let b = to_chars(sub);
    if b.len() > a.len() {
        return false;
    }
    if b.len() == 0 {
        proof {
            assert(s@.subrange(0, 0 + sub@.len() as int) =~= sub@);
        }
        return true;
    }
    let mut i: usize = 0;
    while i <= a.len() - b.len()
        invariant
            a@ == s@,
            b@ == sub@,
            1 <= b.len() <= a.len(),
            i <= a.len() - b.len() + 1,
            forall|k: int| 0 <= k < i ==> #[trigger] s@.subrange(k, k + sub@.len()) != sub@,
        decreases a.len() - b.len() + 1 - i,
    {
        let tail = crate::text::slice_chars(a.as_slice(), i, a.len());
        if starts_with_chars(tail.as_slice(), b.as_slice()) {
            proof {
                assert(s@.subrange(i as int, i + sub@.len()) =~= tail@.take(sub@.len() as int));
            }
            return true;
        }
        proof {
            assert(s@.subrange(i as int, i + sub@.len()) =~= tail@.take(sub@.len() as int));
        }
        i += 1;
    }
    proof {
        if contains_sub(s@, sub@) {
            let k = choose|k: int|
                0 <= k <= s@.len() - sub@.len() && #[trigger] s@.subrange(k, k + sub@.len()) == sub@;
            assert(k < i);
        }
    }
    false
}

pub open spec fn is_image_type(media_type: Seq<char>) -> bool {
    media_type.len() >= 6 && media_type.take(6) == "image/"@
}

fn is_image_type_exec(media_type: &str) -> (r: bool)
    ensures
        r == is_image_type(media_type@),
{
    let m = to_chars(media_type);
    let p = to_chars("image/");
    proof {
        reveal_strlit("image/");
    }
    starts_with_chars(m.as_slice(), p.as_slice())
}

/// `eq_ignore_ascii_case("cover")`.
pub open spec fn is_cover_id(id: Seq<char>) -> bool {
    ascii_lower_seq(id) == "cover"@
}

fn is_cover_id_exec(id: &str) -> (r: bool)
    ensures
        r == is_cover_id(id@),
{
    let c = to_chars(id);
    let mut lower: Vec<char> = Vec::new();
    let mut i: usize = 0;
    while i < c.len()
        invariant
            i <= c.len(),
            c@ == id@,
            lower@ == ascii_lower_seq(id@.take(i as int)),
        decreases c.len() - i,
    {
        lower.push(char_ascii_lower(c[i]));
        proof {
            assert(ascii_lower_seq(id@.take(i + 1)) =~= ascii_lower_seq(id@.take(i as int)).push(
                crate::text::ascii_lower(c@[i as int]),
            ));
        }
        i += 1;
    }
    proof {
        assert(id@.take(c.len() as int) =~= id@);
    }
    crate::text::chars_eq_str(lower.as_slice(), "cover")
}

pub type ItemView = (Seq<char>, Seq<char>, Seq<char>, Seq<char>);

pub open spec fn cover_image_pred() -> spec_fn(ItemView) -> bool {
    |it: ItemView| contains_sub(it.3, "cover-image"@) && is_image_type(it.2)
}

pub open spec fn cover_id_pred() -> spec_fn(ItemView) -> bool {
    |it: ItemView| is_cover_id(it.0) && is_image_type(it.2)
}

pub open spec fn id_image_pred(id: Seq<char>) -> spec_fn(ItemView) -> bool {
    |it: ItemView| it.0 == id && is_image_type(it.2)
}

/// The first item with the given id.
pub open spec fn first_with_id(items: Seq<ItemView>, id: Seq<char>) -> Option<ItemView>
    decreases items.len(),
{
    if items.len() == 0 {
        None
    } else if items[0].0 == id {
        Some(items[0])
    } else {
        first_with_id(items.drop_first(), id)
    }
}

/// Items to try as the cover, in order: those with the `cover-image`
/// property; the item the cover meta names (the first with that id, or,
/// `every_match`, each with that id); those with id `cover` in any ASCII case;
/// only items of an image type.
pub open spec fn cover_items(items: Seq<ItemView>, cover_id: Option<Seq<char>>, every_match: bool) -> Seq<ItemView> {
    let named = match cover_id {
        Some(id) => if every_match {
            items.filter(id_image_pred(id))
        } else {
            match first_with_id(items, id) {
                Some(it) => if is_image_type(it.2) {
                    seq![it]
                } else {
                    seq![]
                },
                None => seq![],
            }
        },
        None => seq![],
    };
    items.filter(cover_image_pred()) + named + items.filter(cover_id_pred())
}

/// Archive paths and media types of the cover candidates.
pub open spec fn cover_candidates_spec(
    items: Seq<ItemView>,
    cover_id: Option<Seq<char>>,
    every_match: bool,
    dir: Seq<char>,
) -> Seq<(Seq<char>, Seq<char>)> {
    cover_items(items, cover_id, every_match).map_values(
        |it: ItemView| (resolve_path_spec(dir, it.1), it.2),
    )
}

fn filter_items(
    items: &Vec<ManifestItem>,
    kind: u8,
    id: &str,
    dir: &[char],
    out: &mut Vec<(String, String)>,
)
    requires
        kind <= 2,
    ensures
        ({
            let pred = if kind == 0 {
                cover_image_pred()
            } else if kind == 1 {
                cover_id_pred()
            } else {
                id_image_pred(id@)
            };
            pairs_view(final(out)@) == pairs_view(old(out)@) + items_view(items@).filter(
                pred,
            ).map_values(|it: ItemView| (resolve_path_spec(dir@, it.1), it.2))
        }),
{
    let ghost pred = if kind == 0 {
        cover_image_pred()
    } else if kind == 1 {
        cover_id_pred()
    } else {
        id_image_pred(id@)
    };
    let ghost f = |it: ItemView| (resolve_path_spec(dir@, it.1), it.2);
    let ghost iv = items_view(items@);
    let ghost start = pairs_view(out@);
    let mut i: usize = 0;
    proof {
        reveal(Seq::filter);
        assert(iv.take(0).filter(pred) =~= Seq::<ItemView>::empty());
        assert(start + iv.take(0).filter(pred).map_values(f) =~= start);
    }
    while i < items.len()
        invariant
            i <= items.len(),
            iv == items_view(items@),
            kind <= 2,
            pred == (if kind == 0 {
                cover_image_pred()
            } else if kind == 1 {
                cover_id_pred()
            } else {
                id_image_pred(id@)
            }),
            f == (|it: ItemView| (resolve_path_spec(dir@, it.1), it.2)),
            pairs_view(out@) == start + iv.take(i as int).filter(pred).map_values(f),
        decreases items.len() - i,
    {
        let it = &items[i];
        let image = is_image_type_exec(it.media_type.as_str());
        let keep = if kind == 0 {
            str_contains(it.properties.as_str(), "cover-image") && image
        } else if kind == 1 {
            is_cover_id_exec(it.id.as_str()) && image
        } else {
            str_eq(it.id.as_str(), id) && image
        };
        proof {
            assert(iv[i as int] == item_view(*it));
            assert(keep == pred(iv[i as int]));
            assert(iv.take(i + 1) =~= iv.take(i as int).push(iv[i as int]));
            iv.take(i as int).lemma_filter_push(iv[i as int], pred);
        }
        if keep {
            let path = resolve_path(dir, it.href.as_str());
            let ghost before = out@;
            out.push((path, it.media_type.clone()));
            proof {
                assert(pairs_view(out@) =~= pairs_view(before).push(f(iv[i as int])));
                assert(iv.take(i as int).filter(pred).push(iv[i as int]).map_values(f) =~= iv.take(
                    i as int,
                ).filter(pred).map_values(f).push(f(iv[i as int])));
            }
        }
        i += 1;
    }
    proof {
        assert(iv.take(items.len() as int) =~= iv);
    }
}

pub open spec fn pairs_view(v: Seq<(String, String)>) -> Seq<(Seq<char>, Seq<char>)> {
    v.map_values(|p: (String, String)| (p.0@, p.1@))
}

/// Archive paths and media types of the cover candidates, in the order they are tried.
pub fn cover_candidates(
    items: &Vec<ManifestItem>,
    cover_id: Option<&str>,
    every_match: bool,
    dir: &[char],
) -> (r: Vec<(String, String)>)
    ensures
        pairs_view(r@) == cover_candidates_spec(
            items_view(items@),
            crate::opds::xml::opt_str_view(cover_id),
            every_match,
            dir@,
        ),
{
    let ghost f = |it: ItemView| (resolve_path_spec(dir@, it.1), it.2);
    let ghost iv = items_view(items@);
    let mut out: Vec<(String, String)> = Vec::new();
    proof {
        assert(pairs_view(out@) =~= Seq::<(Seq<char>, Seq<char>)>::empty());
    }
    filter_items(items, 0, "", dir, &mut out);
    let ghost after1 = pairs_view(out@);
    let ghost named: Seq<ItemView> = seq![];
    match cover_id {
        Some(id) => {
            if every_match {
                filter_items(items, 2, id, dir, &mut out);
                proof {
                    named = iv.filter(id_image_pred(id@));
                }
            } else {
                let mut j: usize = 0;
                proof {
                    assert(iv.skip(0) =~= iv);
                }
                while j < items.len()
                    invariant
                        j <= items.len(),
                        iv == items_view(items@),
                        first_with_id(iv, id@) == first_with_id(iv.skip(j as int), id@),
                    ensures
                        j <= items.len(),
                        first_with_id(iv, id@) == first_with_id(iv.skip(j as int), id@),
                        j < items.len() ==> items@[j as int].id@ == id@,
                    decreases items.len() - j,
                {
                    proof {
                        assert(iv.skip(j as int)[0] == item_view(items@[j as int]));
                        assert(iv.skip(j as int).drop_first() =~= iv.skip(j + 1));
                    }
                    if str_eq(items[j].id.as_str(), id) {
                        break;
                    }
                    j += 1;
                }
                if j < items.len() {
                    proof {
                        assert(iv.skip(j as int)[0] == item_view(items@[j as int]));
                        assert(first_with_id(iv, id@) == Some(iv[j as int]));
                        assert(iv[j as int] == item_view(items@[j as int]));
                    }
                    if is_image_type_exec(items[j].media_type.as_str()) {
                        let path = resolve_path(dir, items[j].href.as_str());
                        out.push((path, items[j].media_type.clone()));
                        proof {
                            named = seq![iv[j as int]];
                        }
                    }
                } else {
                    proof {
                        assert(iv.skip(j as int).len() == 0);
                    }
                }
            }
        },
        None => {},
    }
    let ghost after2 = pairs_view(out@);
    filter_items(items, 1, "", dir, &mut out);
    proof {
        let ci = cover_items(iv, crate::opds::xml::opt_str_view(cover_id), every_match);
        assert(after2 =~= after1 + named.map_values(f));
        assert(ci =~= iv.filter(cover_image_pred()) + named + iv.filter(cover_id_pred()));
        assert(ci.map_values(f) =~= iv.filter(cover_image_pred()).map_values(f) + named.map_values(f)
            + iv.filter(cover_id_pred()).map_values(f));
    }
    out
}


// ---------------------------------------------------------------------------
// Reading an EPUB archive
// ---------------------------------------------------------------------------

/// Why an EPUB could not be read.
pub enum EpubError {
    Zip(ZipError),
    Io(std::io::Error),
    NoOpf,
    MultipleOpf,
}

pub open spec fn ends_with_seq(s: Seq<char>, suffix: Seq<char>) -> bool {
    s.len() >= suffix.len() && s.subrange(s.len() - suffix.len(), s.len() as int) == suffix
}

/// The names of the entries that end with `.opf`, in order.
pub open spec fn opf_name_list(listing: Seq<Option<Seq<char>>>) -> Seq<Seq<char>>
    decreases listing.len(),
{
    if listing.len() == 0 {
        Seq::empty()
    } else {
        let rest = opf_name_list(listing.drop_last());
        match listing.last() {
            Some(n) => if ends_with_seq(n, ".opf"@) {
                rest.push(n)
            } else {
                rest
            },
            None => rest,
        }
    }
}

fn ends_with_str(s: &str, suffix: &str) -> (r: bool)
    ensures
        r == ends_with_seq(s@, suffix@),
{
    let a = to_chars(s);
    let b = to_chars(suffix);
    if b.len() > a.len() {
        return false;
    }
    let tail = crate::text::slice_chars(a.as_slice(), a.len() - b.len(), a.len());
    crate::text::chars_eq(tail.as_slice(), b.as_slice())
}

/// The names of the archive's entries that end with `.opf`.
fn scan_opf_names(a: &mut MemZip) -> (r: Vec<String>)
    ensures
        zip_source(*final(a)) == zip_source(*old(a)),
        string_views(r@) == opf_name_list(zip_listing(zip_source(*old(a)))),
{
    let ghost listing = zip_listing(zip_source(*a));
    let n = zip_len(a);
    let mut out: Vec<String> = Vec::new();
    let mut i: usize = 0;
    proof {
        assert(listing.take(0) =~= Seq::<Option<Seq<char>>>::empty());
        assert(string_views(out@) =~= Seq::<Seq<char>>::empty());
    }
    while i < n
        invariant
            i <= n,
            n == listing.len(),
            zip_source(*a) == zip_source(*old(a)),
            listing == zip_listing(zip_source(*old(a))),
            string_views(out@) == opf_name_list(listing.take(i as int)),
        decreases n - i,
    {
        let name = zip_name_at(a, i);
        proof {
            assert(listing.take(i + 1).drop_last() =~= listing.take(i as int));
            assert(listing.take(i + 1).last() == listing[i as int]);
        }
        match name {
            Some(nm) => {
                if ends_with_str(nm.as_str(), ".opf") {
                    let ghost before = out@;
                    out.push(nm);
                    proof {
                        assert(string_views(out@) =~= string_views(before).push(out@.last()@));
                    }
                }
            },
            None => {},
        }
        i += 1;
    }
    proof {
        assert(listing.take(n as int) =~= listing);
    }
    out
}

/// The package path of an EPUB: the one its container names, else its only
/// `.opf` entry.
pub open spec fn epub_opf_path(src: Seq<u8>) -> Option<Seq<char>> {
    let from_container = match zip_entry_data(src, "META-INF/container.xml"@) {
        Some(d) => container_rootfile(xml_events(d)),
        None => None,
    };
    match from_container {
        Some(p) => Some(p),
        None => if opf_name_list(zip_listing(src)).len() == 1 {
            Some(opf_name_list(zip_listing(src))[0])
        } else {
            None
        },
    }
}

/// Why reading the package document of an EPUB fails.
#[derive(Debug, Clone, Copy, PartialEq, Eq, Structural)]
pub enum EpubFailure {
    Zip,
    Io,
    NoOpf,
    MultipleOpf,
}

/// The kind of an [`EpubError`].
pub open spec fn epub_error_kind(e: EpubError) -> EpubFailure {
    match e {
        EpubError::Zip(_) => EpubFailure::Zip,
        EpubError::Io(_) => EpubFailure::Io,
        EpubError::NoOpf => EpubFailure::NoOpf,
        EpubError::MultipleOpf => EpubFailure::MultipleOpf,
    }
}

/// Where locating the package document fails: the container opens but cannot
/// be read; or neither the container names a package nor does the archive
/// hold exactly one `.opf` file (none, or several).
pub open spec fn opf_path_failure(src: Seq<u8>) -> Option<EpubFailure> {
    if zip_entry_found(src, "META-INF/container.xml"@) && zip_entry_data(
        src,
        "META-INF/container.xml"@,
    ) is None {
        Some(EpubFailure::Io)
    } else if epub_opf_path(src) is Some {
        None
    } else if opf_name_list(zip_listing(src)).len() == 0 {
        Some(EpubFailure::NoOpf)
    } else {
        Some(EpubFailure::MultipleOpf)
    }
}

/// Locate the package document inside the EPUB archive.
pub fn find_opf_path(a: &mut MemZip) -> (r: Result<String, EpubError>)
    ensures
        zip_source(*final(a)) == zip_source(*old(a)),
        match opf_path_failure(zip_source(*old(a))) {
            None => r matches Ok(p) && epub_opf_path(zip_source(*old(a))) == Some(p@),
            Some(k) => r matches Err(e) && epub_error_kind(e) == k,
        },
{
    match zip_read(a, "META-INF/container.xml") {
        Ok(data) => {
            match parse_container_xml(data.as_slice()) {
                Some(p) => {
                    return Ok(p);
                },
                None => {},
            }
        },
        Err(ZipReadError::Io(e)) => {
            return Err(EpubError::Io(e));
        },
        Err(ZipReadError::Zip(_)) => {},
    }
    let mut names = scan_opf_names(a);
    if names.len() == 1 {
        let p = names.remove(0);
        Ok(p)
    } else if names.len() == 0 {
        Err(EpubError::NoOpf)
    } else {
        Err(EpubError::MultipleOpf)
    }
}

/// The first candidate whose entry can be read, with its bytes and media type.
pub open spec fn first_readable(src: Seq<u8>, cands: Seq<(Seq<char>, Seq<char>)>) -> Option<(Seq<u8>, Seq<char>)>
    decreases cands.len(),
{
    if cands.len() == 0 {
        None
    } else {
        match zip_entry_data(src, cands[0].0) {
            Some(d) => Some((d, cands[0].1)),
            None => first_readable(src, cands.drop_first()),
        }
    }
}

pub open spec fn cover_view(c: Option<(Vec<u8>, String)>) -> Option<(Seq<u8>, Seq<char>)> {
    match c {
        Some((d, m)) => Some((d@, m@)),
        None => None,
    }
}

fn read_first(a: &mut MemZip, cands: &Vec<(String, String)>) -> (r: Option<(Vec<u8>, String)>)
    ensures
        zip_source(*final(a)) == zip_source(*old(a)),
        cover_view(r) == first_readable(zip_source(*old(a)), pairs_view(cands@)),
{
    let ghost cv = pairs_view(cands@);
    let ghost src = zip_source(*a);
    let mut i: usize = 0;
    proof {
        assert(cv.skip(0) =~= cv);
    }
    while i < cands.len()
        invariant
            i <= cands.len(),
            cv == pairs_view(cands@),
            src == zip_source(*old(a)),
            zip_source(*a) == src,
            first_readable(src, cv) == first_readable(src, cv.skip(i as int)),
        decreases cands.len() - i,
    {
        proof {
            assert(cv.skip(i as int)[0] == (cands@[i as int].0@, cands@[i as int].1@));
            assert(cv.skip(i as int).drop_first() =~= cv.skip(i + 1));
        }
        match zip_read(a, cands[i].0.as_str()) {
            Ok(d) => {
                return Some((d, cands[i].1.clone()));
            },
            Err(_) => {},
        }
        i += 1;
    }
    proof {
        assert(cv.skip(i as int).len() == 0);
    }
    None
}

/// The cover of an EPUB, tried in the order of `cover_candidates`.
pub open spec fn epub_cover_spec(src: Seq<u8>, opf: Seq<u8>, opf_path: Seq<char>, every_match: bool) -> Option<
    (Seq<u8>, Seq<char>),
> {
    let m = manifest_fold(xml_events(opf));
    first_readable(src, cover_candidates_spec(m.0, m.1, every_match, opf_dir_spec(opf_path)))
}

fn extract_cover(opf_data: &[u8], opf_path: &str, a: &mut MemZip, every_match: bool) -> (r: Option<
    (Vec<u8>, String),
>)
    ensures
        zip_source(*final(a)) == zip_source(*old(a)),
        cover_view(r) == epub_cover_spec(zip_source(*old(a)), opf_data@, opf_path@, every_match),
{
    let dir = opf_dir(opf_path);
    let events = read_xml_events(opf_data);
    let (items, cover_id) = parse_manifest_events(&events);
    let cid: Option<&str> = match &cover_id {
        Some(c) => Some(c.as_str()),
        None => None,
    };
    proof {
        assert(crate::opds::xml::opt_str_view(cid) == crate::ziparchive::opt_string_view(cover_id));
    }
    let cands = cover_candidates(&items, cid, every_match, dir.as_slice());
    read_first(a, &cands)
}

/// The cover of a scanned EPUB: the first readable image among the items
/// with the `cover-image` property, the first item the cover meta names, and
/// the items with id `cover`.
pub fn extract_cover_from_opf(opf_data: &[u8], opf_path: &str, a: &mut MemZip) -> (r: Option<
    (Vec<u8>, String),
>)
    ensures
        zip_source(*final(a)) == zip_source(*old(a)),
        cover_view(r) == epub_cover_spec(zip_source(*old(a)), opf_data@, opf_path@, false),
{
    extract_cover(opf_data, opf_path, a, false)
}

/// The cover of an EPUB being served: as for scanning, but every item the
/// cover meta names is tried.
pub fn extract_epub_cover(opf_data: &[u8], opf_path: &str, a: &mut MemZip) -> (r: Option<
    (Vec<u8>, String),
>)
    ensures
        zip_source(*final(a)) == zip_source(*old(a)),
        cover_view(r) == epub_cover_spec(zip_source(*old(a)), opf_data@, opf_path@, true),
{
    extract_cover(opf_data, opf_path, a, true)
}

/// Where parsing an EPUB fails: the bytes are no archive; the package
/// document cannot be located; or it is named but cannot be opened (`Zip`)
/// or read (`Io`).
pub open spec fn epub_failure(src: Seq<u8>) -> Option<EpubFailure> {
    if !zip_opens(src) {
        Some(EpubFailure::Zip)
    } else {
        match opf_path_failure(src) {
            Some(k) => Some(k),
            None => {
                let p = epub_opf_path(src)->0;
                if zip_entry_data(src, p) is Some {
                    None
                } else if zip_entry_found(src, p) {
                    Some(EpubFailure::Io)
                } else {
                    Some(EpubFailure::Zip)
                }
            },
        }
    }
}

/// Parse EPUB metadata from the bytes of the archive: the package document's
/// metadata and the first readable cover.
pub fn parse(data: Vec<u8>) -> (r: Result<OpfMetadata, EpubError>)
    ensures
        r matches Ok(m) ==> ({
            &&& epub_opf_path(data@) is Some
            &&& zip_entry_data(data@, epub_opf_path(data@)->0) is Some
            &&& {
                let opf = zip_entry_data(data@, epub_opf_path(data@)->0)->0;
                let s = opf_fold(xml_events(opf));
                let cover = epub_cover_spec(data@, opf, epub_opf_path(data@)->0, false);
                &&& m.meta.title@ == s.title
                &&& string_views(m.meta.authors@) == (if s.aut.len() > 0 {
                    s.aut
                } else {
                    s.all
                })
                &&& string_views(m.meta.genres@) == s.genres
                &&& m.meta.annotation@ == s.annotation
                &&& m.meta.lang@ == s.lang
                &&& crate::ziparchive::opt_string_view(m.meta.series_title) == s.series_title
                &&& m.meta.docdate@ == s.docdate
                &&& crate::ziparchive::opt_string_view(m.series_index_text) == s.series_index_text
                &&& match cover {
                    Some((d, t)) => m.meta.cover_data matches Some(c) && c@ == d && m.meta.cover_type@ == t,
                    None => m.meta.cover_data is None && m.meta.cover_type@.len() == 0,
                }
            }
        }),
        r is Ok <==> epub_failure(data@) is None,
        r matches Err(e) ==> epub_failure(data@) == Some(epub_error_kind(e)),
{
    let ghost src = data@;
    let mut a = match zip_open(data) {
        Ok(a) => a,
        Err(e) => {
            return Err(EpubError::Zip(e));
        },
    };
    let opf_path = find_opf_path(&mut a)?;
    let opf_data = match zip_read(&mut a, opf_path.as_str()) {
        Ok(d) => d,
        Err(ZipReadError::Zip(e)) => {
            return Err(EpubError::Zip(e));
        },
        Err(ZipReadError::Io(e)) => {
            return Err(EpubError::Io(e));
        },
    };
    let mut m = parse_opf(opf_data.as_slice());
    match extract_cover_from_opf(opf_data.as_slice(), opf_path.as_str(), &mut a) {
        Some((d, t)) => {
            m.meta.cover_data = Some(d);
            m.meta.cover_type = t;
        },
        None => {},
    }
    Ok(m)
}


// ---------------------------------------------------------------------------
// Covers of served EPUBs
// ---------------------------------------------------------------------------

/// The first `full-path` of an element whose qualified name ends with `rootfile`.
pub open spec fn raw_rootfile_path(ev: XmlInEventView) -> Option<Seq<char>> {
    match ev {
        XmlInEventView::Start(n, a) => if ends_with_seq(n, "rootfile"@) {
            first_attr(a, "full-path"@)
        } else {
            None
        },
        XmlInEventView::Empty(n, a) => if ends_with_seq(n, "rootfile"@) {
            first_attr(a, "full-path"@)
        } else {
            None
        },
        _ => None,
    }
}

/// The value of the first attribute with the given key.
pub open spec fn first_attr(attrs: Seq<(Seq<char>, Seq<char>)>, key: Seq<char>) -> Option<Seq<char>>
    decreases attrs.len(),
{
    if attrs.len() == 0 {
        None
    } else if attrs[0].0 == key {
        Some(attrs[0].1)
    } else {
        first_attr(attrs.drop_first(), key)
    }
}

/// The first package path a container's events name, by element name suffix.
pub open spec fn raw_container_rootfile(events: Seq<XmlInEventView>) -> Option<Seq<char>>
    decreases events.len(),
{
    if events.len() == 0 {
        None
    } else {
        match raw_rootfile_path(events[0]) {
            Some(p) => Some(p),
            None => raw_container_rootfile(events.drop_first()),
        }
    }
}

fn first_attr_exec(attrs: &Vec<XmlAttr>, key: &str) -> (r: Option<String>)
    ensures
        crate::ziparchive::opt_string_view(r) == first_attr(crate::opds::xml::attrs_view(attrs@), key@),
{
    let ghost av = crate::opds::xml::attrs_view(attrs@);
    let mut i: usize = 0;
    proof {
        assert(av.skip(0) =~= av);
    }
    while i < attrs.len()
        invariant
            i <= attrs.len(),
            av == crate::opds::xml::attrs_view(attrs@),
            first_attr(av, key@) == first_attr(av.skip(i as int), key@),
        decreases attrs.len() - i,
    {
        proof {
            assert(av.skip(i as int)[0] == (attrs@[i as int].name@, attrs@[i as int].value@));
            assert(av.skip(i as int).drop_first() =~= av.skip(i + 1));
        }
        if str_eq(attrs[i].name.as_str(), key) {
            return Some(attrs[i].value.clone());
        }
        i += 1;
    }
    proof {
        assert(av.skip(i as int).len() == 0);
    }
    None
}

fn raw_container_events(events: &Vec<XmlInEvent>) -> (r: Option<String>)
    ensures
        crate::ziparchive::opt_string_view(r) == raw_container_rootfile(events_view(events@)),
{
    let ghost evs = events_view(events@);
    let mut i: usize = 0;
    proof {
        assert(evs.skip(0) =~= evs);
    }
    while i < events.len()
        invariant
            i <= events.len(),
            evs == events_view(events@),
            raw_container_rootfile(evs) == raw_container_rootfile(evs.skip(i as int)),
        decreases events.len() - i,
    {
        proof {
            assert(evs.skip(i as int)[0] == events@[i as int]@);
            assert(evs.skip(i as int).drop_first() =~= evs.skip(i + 1));
        }
        let found = match &events[i] {
            XmlInEvent::Start(n, raw) | XmlInEvent::Empty(n, raw) => {
                if ends_with_str(n.as_str(), "rootfile") {
                    let a = xml_attrs(raw.as_str());
                    first_attr_exec(&a, "full-path")
                } else {
                    None
                }
            },
            _ => None,
        };
        if found.is_some() {
            return found;
        }
        i += 1;
    }
    proof {
        assert(evs.skip(i as int).len() == 0);
    }
    None
}

/// The first entry name ending with `.opf`.
pub open spec fn first_opf_name(listing: Seq<Option<Seq<char>>>) -> Option<Seq<char>> {
    if opf_name_list(listing).len() > 0 {
        Some(opf_name_list(listing)[0])
    } else {
        None
    }
}

/// The package path of a served EPUB: the one its container names, else the
/// first `.opf` entry; none when the container cannot be read after opening.
pub open spec fn served_opf_path(src: Seq<u8>) -> Option<Seq<char>> {
    match zip_entry_data(src, "META-INF/container.xml"@) {
        Some(d) => match raw_container_rootfile(xml_events(d)) {
            Some(p) => Some(p),
            None => first_opf_name(zip_listing(src)),
        },
        None => first_opf_name(zip_listing(src)),
    }
}

/// The package path `find_epub_opf` gives: none when the container opens but
/// cannot be read, else the served package path.
pub open spec fn served_opf_lookup(src: Seq<u8>) -> Option<Seq<char>> {
    if zip_entry_found(src, "META-INF/container.xml"@) && zip_entry_data(
        src,
        "META-INF/container.xml"@,
    ) is None {
        None
    } else {
        served_opf_path(src)
    }
}

pub fn find_epub_opf(a: &mut MemZip) -> (r: Option<String>)
    ensures
        zip_source(*final(a)) == zip_source(*old(a)),
        crate::ziparchive::opt_string_view(r) == served_opf_lookup(zip_source(*old(a))),
{
    match zip_read(a, "META-INF/container.xml") {
        Ok(data) => {
            let events = read_xml_events(data.as_slice());
            match raw_container_events(&events) {
                Some(p) => {
                    return Some(p);
                },
                None => {},
            }
        },
        Err(ZipReadError::Io(_)) => {
            return None;
        },
        Err(ZipReadError::Zip(_)) => {},
    }
    let names = scan_opf_names(a);
    if names.len() > 0 {
        proof {
            assert(string_views(names@)[0] == names@[0]@);
        }
        Some(names[0].clone())
    } else {
        None
    }
}

/// The cover served for an EPUB: none when the bytes are no archive, no
/// package is found or it cannot be read; else the cover its package names.
pub open spec fn served_epub_cover(src: Seq<u8>) -> Option<(Seq<u8>, Seq<char>)> {
    if !zip_opens(src) {
        None
    } else {
        match served_opf_lookup(src) {
            None => None,
            Some(p) => match zip_entry_data(src, p) {
                None => None,
                Some(opf) => epub_cover_spec(src, opf, p, true),
            },
        }
    }
}

/// The cover of an EPUB held in memory, as served: the package found by
/// `find_epub_opf`, read, and its cover extracted.
pub fn epub_cover(data: Vec<u8>) -> (r: Option<(Vec<u8>, String)>)
    ensures
        cover_view(r) == served_epub_cover(data@),
{
    let mut a = match zip_open(data) {
        Ok(a) => a,
        Err(_) => {
            return None;
        },
    };
    let opf_path = match find_epub_opf(&mut a) {
        Some(p) => p,
        None => {
            return None;
        },
    };
    let opf_data = match zip_read(&mut a, opf_path.as_str()) {
        Ok(d) => d,
        Err(_) => {
            return None;
        },
    };
    extract_epub_cover(opf_data.as_slice(), opf_path.as_str(), &mut a)
}


/// Every manifest item marked with the `cover-image` property and of an image
/// type is a cover candidate, resolved against the package's directory, and
/// every candidate tried before it is also such a marked item: items named by
/// the cover meta or with id `cover` come only after the marked ones.
pub proof fn lemma_cover_image_items_tried_first(
    items: Seq<ItemView>,
    cover_id: Option<Seq<char>>,
    every_match: bool,
    dir: Seq<char>,
    k: int,
)
    requires
        0 <= k < items.len(),
        contains_sub(items[k].3, "cover-image"@),
        is_image_type(items[k].2),
    ensures
        ({
            let c = cover_candidates_spec(items, cover_id, every_match, dir);
            exists|j: int|
                #![trigger c[j]]
                0 <= j < c.len() && c[j] == (resolve_path_spec(dir, items[k].1), items[k].2) && forall|
                    j2: int,
                |
                    #![trigger c[j2]]
                    0 <= j2 < j ==> exists|k2: int|
                        0 <= k2 < items.len() && contains_sub(#[trigger] items[k2].3, "cover-image"@)
                            && is_image_type(items[k2].2) && c[j2] == (
                            resolve_path_spec(dir, items[k2].1),
                            items[k2].2,
                        )
        }),
{
    let p = cover_image_pred();
    let f = |it: ItemView| (resolve_path_spec(dir, it.1), it.2);
    let a = items.filter(p);
    let ci = cover_items(items, cover_id, every_match);
    let c = cover_candidates_spec(items, cover_id, every_match, dir);
    assert(p(items[k]));
    items.lemma_filter_contains(p, k);
    assert(a.contains(items[k]));
    let j = choose|j: int| 0 <= j < a.len() && a[j] == items[k];
    assert(c == ci.map_values(f));
    assert(ci.len() >= a.len());
    assert(ci[j] == a[j]);
    assert(c[j] == f(items[k]));
    assert forall|j2: int| #![trigger c[j2]] 0 <= j2 < j implies exists|k2: int|
        0 <= k2 < items.len() && contains_sub(#[trigger] items[k2].3, "cover-image"@) && is_image_type(
            items[k2].2,
        ) && c[j2] == (resolve_path_spec(dir, items[k2].1), items[k2].2) by {
        items.lemma_filter_pred(p, j2);
        assert(a.contains(a[j2]));
        items.lemma_filter_contains_rev(p, a[j2]);
        let k2 = choose|k2: int| 0 <= k2 < items.len() && items[k2] == a[j2];
        assert(ci[j2] == a[j2]);
        assert(c[j2] == f(items[k2]));
        assert(contains_sub(items[k2].3, "cover-image"@));
    }
}

} // verus!
