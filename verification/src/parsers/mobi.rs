//! MOBI metadata: what is kept of the fields the `mobi` crate reads.
use vstd::prelude::*;
use crate::parsers::{BookMeta, string_views, strip_meta, strip_meta_spec};
use crate::parsers::epub::cover_view;
use crate::scanner::cover::opt_bytes;
use crate::ziparchive::opt_string_view;
use ::mobi::headers::ExthRecord;
use crate::scanner::cover::copy_bytes;
use crate::text::{
    CharClass, from_chars, nonempty_pred, split_chars, split_class, to_chars, trim, trim_chars,
    views_of,
};

verus! {

// ---------------------------------------------------------------------------
// Authors and descriptions
// ---------------------------------------------------------------------------

/// The author field split at `&` and `;`, each name trimmed, empty names dropped.
pub open spec fn split_authors_spec(author: Seq<char>) -> Seq<Seq<char>> {
    split_class(author, CharClass::Either('&', ';')).map_values(|p: Seq<char>| trim(p)).filter(
        nonempty_pred(),
    )
}

pub fn split_authors(author: &str) -> (r: Vec<String>)
    ensures
        string_views(r@) == split_authors_spec(author@),
{
    let chars = to_chars(author);
    let pieces = split_chars(chars.as_slice(), CharClass::Either('&', ';'));
    let ghost trimmed = views_of(pieces@).map_values(|p: Seq<char>| trim(p));
    let mut r: Vec<String> = Vec::new();
    let mut i: usize = 0;
    proof {
        reveal(Seq::filter);
        assert(trimmed.take(0).filter(nonempty_pred()) =~= Seq::<Seq<char>>::empty());
        assert(string_views(r@) =~= Seq::<Seq<char>>::empty());
    }
    while i < pieces.len()
        invariant
            i <= pieces.len(),
            trimmed == views_of(pieces@).map_values(|p: Seq<char>| trim(p)),
            views_of(pieces@) == split_class(author@, CharClass::Either('&', ';')),
            string_views(r@) == trimmed.take(i as int).filter(nonempty_pred()),
        decreases pieces.len() - i,
    {
        let t = trim_chars(pieces[i].as_slice(), CharClass::Space);
        proof {
            assert(trimmed[i as int] == t@);
            assert(trimmed.take(i + 1) =~= trimmed.take(i as int).push(t@));
            trimmed.take(i as int).lemma_filter_push(t@, nonempty_pred());
        }
        if t.len() > 0 {
            let s = from_chars(t.as_slice());
            let ghost before = r@;
            r.push(s);
            proof {
                assert(string_views(r@) =~= string_views(before).push(t@));
            }
        }
        i += 1;
    }
    proof {
        assert(trimmed.take(pieces.len() as int) =~= trimmed);
    }
    r
}

/// Whether the text read so far ends inside a tag.
pub open spec fn inside_tag(s: Seq<char>) -> bool
    decreases s.len(),
{
    if s.len() == 0 {
        false
    } else if s.last() == '<' {
        true
    } else if s.last() == '>' {
        false
    } else {
        inside_tag(s.drop_last())
    }
}

/// The characters outside tags: `<` opens a tag, `>` closes it, and neither is kept.
pub open spec fn untagged(s: Seq<char>) -> Seq<char>
    decreases s.len(),
{
    if s.len() == 0 {
        Seq::empty()
    } else {
        let prev = untagged(s.drop_last());
        let c = s.last();
        if c == '<' || c == '>' || inside_tag(s.drop_last()) {
            prev
        } else {
            prev.push(c)
        }
    }
}

pub open spec fn strip_html_tags_spec(s: Seq<char>) -> Seq<char> {
    trim(untagged(s))
}

/// Strip HTML tags from a string, keeping only text content, trimmed.
pub fn strip_html_tags(s: &str) -> (r: String)
    ensures
        r@ == strip_html_tags_spec(s@),
{
    let chars = to_chars(s);
    let mut out: Vec<char> = Vec::new();
    let mut inside = false;
    let mut i: usize = 0;
    while i < chars.len()
        invariant
            i <= chars.len(),
            chars@ == s@,
            out@ == untagged(s@.take(i as int)),
            inside == inside_tag(s@.take(i as int)),
        decreases chars.len() - i,
    {
        let c = chars[i];
        proof {
            assert(s@.take(i + 1).drop_last() =~= s@.take(i as int));
            assert(s@.take(i + 1).last() == c);
        }
        if c == '<' {
            inside = true;
        } else if c == '>' {
            inside = false;
        } else if !inside {
            out.push(c);
        }
        i += 1;
    }
    proof {
        assert(s@.take(chars.len() as int) =~= s@);
    }
    let t = trim_chars(out.as_slice(), CharClass::Space);
    from_chars(t.as_slice())
}

// ---------------------------------------------------------------------------
// Images
// ---------------------------------------------------------------------------

pub open spec fn starts_with_bytes(data: Seq<u8>, prefix: Seq<u8>) -> bool {
    data.len() >= prefix.len() && data.take(prefix.len() as int) == prefix
}

/// Image type by its magic bytes: JPEG, PNG, GIF, or unknown.
pub open spec fn detect_image_mime_spec(data: Seq<u8>) -> Seq<char> {
    if starts_with_bytes(data, seq![0xFFu8, 0xD8u8]) {
        "image/jpeg"@
    } else if starts_with_bytes(data, seq![0x89u8, 0x50u8, 0x4Eu8, 0x47u8]) {
        "image/png"@
    } else if starts_with_bytes(data, seq![0x47u8, 0x49u8, 0x46u8]) {
        "image/gif"@
    } else {
        "application/octet-stream"@
    }
}

/// Detect image MIME type from magic bytes.
pub fn detect_image_mime(data: &[u8]) -> (r: &'static str)
    ensures
        r@ == detect_image_mime_spec(data@),
{
    if data.len() >= 2 && data[0] == 0xFF && data[1] == 0xD8 {
        proof {
            assert(data@.take(2) =~= seq![0xFFu8, 0xD8u8]);
        }
        return "image/jpeg";
    }
    proof {
        if starts_with_bytes(data@, seq![0xFFu8, 0xD8u8]) {
            assert(data@.take(2)[0] == 0xFFu8 && data@.take(2)[1] == 0xD8u8);
        }
    }
    if data.len() >= 4 && data[0] == 0x89 && data[1] == 0x50 && data[2] == 0x4E && data[3] == 0x47 {
        proof {
            assert(data@.take(4) =~= seq![0x89u8, 0x50u8, 0x4Eu8, 0x47u8]);
        }
        return "image/png";
    }
    proof {
        if starts_with_bytes(data@, seq![0x89u8, 0x50u8, 0x4Eu8, 0x47u8]) {
            let t = data@.take(4);
            assert(t[0] == 0x89u8 && t[1] == 0x50u8 && t[2] == 0x4Eu8 && t[3] == 0x47u8);
        }
    }
    if data.len() >= 3 && data[0] == 0x47 && data[1] == 0x49 && data[2] == 0x46 {
        proof {
            assert(data@.take(3) =~= seq![0x47u8, 0x49u8, 0x46u8]);
        }
        return "image/gif";
    }
    proof {
        if starts_with_bytes(data@, seq![0x47u8, 0x49u8, 0x46u8]) {
            let t = data@.take(3);
            assert(t[0] == 0x47u8 && t[1] == 0x49u8 && t[2] == 0x46u8);
        }
    }
    "application/octet-stream"
}

/// A record is taken as a cover when it is longer than four bytes and its
/// magic bytes name an image type.
pub open spec fn is_cover_image(data: Seq<u8>) -> bool {
    data.len() > 4 && detect_image_mime_spec(data) != "application/octet-stream"@
}

/// The record as a cover image with its MIME type, if it is one.
pub fn try_image_data(data: &[u8]) -> (r: Option<(Vec<u8>, String)>)
    ensures
        match r {
            Some((bytes, mime)) => is_cover_image(data@) && bytes@ == data@ && mime@
                == detect_image_mime_spec(data@),
            None => !is_cover_image(data@),
        },
{
    if data.len() > 4 {
        let mime = detect_image_mime(data);
        if !crate::text::str_eq(mime, "application/octet-stream") {
            return Some((copy_bytes(data), mime.to_owned()));
        }
    }
    None
}

/// The record index named by an EXTH cover offset: the first image record's
/// index plus the big-endian number in the record's first four bytes.
pub open spec fn cover_record_index_spec(offset_record: Option<Seq<u8>>, first_image: u32) -> Option<
    int,
> {
    match offset_record {
        Some(d) => if d.len() >= 4 {
            Some(first_image + d[0] * 0x1000000 + d[1] * 0x10000 + d[2] * 0x100 + d[3])
        } else {
            None
        },
        None => None,
    }
}

pub open spec fn opt_bytes_view(o: Option<&[u8]>) -> Option<Seq<u8>> {
    match o {
        Some(d) => Some(d@),
        None => None,
    }
}

pub fn cover_record_index(offset_record: Option<&[u8]>, first_image: u32) -> (r: Option<u64>)
    ensures
        match cover_record_index_spec(opt_bytes_view(offset_record), first_image) {
            Some(i) => r == Some(i as u64),
            None => r is None,
        },
{
    match offset_record {
        Some(d) => {
            if d.len() >= 4 {
                let v: u64 = (d[0] as u64) * 0x1000000 + (d[1] as u64) * 0x10000 + (d[2] as u64)
                    * 0x100 + (d[3] as u64);
                Some(first_image as u64 + v)
            } else {
                None
            }
        },
        None => None,
    }
}

// ---------------------------------------------------------------------------
// Languages
// ---------------------------------------------------------------------------

/// ISO 639-1 code of a MOBI language number (the `mobi` crate's numbering);
/// empty for languages without one here.
pub open spec fn language_code_spec(n: u8) -> Seq<char> {
    if n == 9 { "en"@ }
    else if n == 25 { "ru"@ }
    else if n == 7 { "de"@ }
    else if n == 12 { "fr"@ }
    else if n == 10 { "es"@ }
    else if n == 16 { "it"@ }
    else if n == 22 { "pt"@ }
    else if n == 19 { "nl"@ }
    else if n == 29 { "sv"@ }
    else if n == 20 { "no"@ }
    else if n == 6 { "da"@ }
    else if n == 11 { "fi"@ }
    else if n == 21 { "pl"@ }
    else if n == 5 { "cs"@ }
    else if n == 14 { "hu"@ }
    else if n == 24 { "ro"@ }
    else if n == 2 { "bg"@ }
    else if n == 26 { "sr"@ }
    else if n == 34 { "uk"@ }
    else if n == 35 { "be"@ }
    else if n == 31 { "tr"@ }
    else if n == 8 { "el"@ }
    else if n == 1 { "ar"@ }
    else if n == 13 { "he"@ }
    else if n == 4 { "zh"@ }
    else if n == 17 { "ja"@ }
    else if n == 18 { "ko"@ }
    else if n == 57 { "hi"@ }
    else if n == 30 { "th"@ }
    else if n == 42 { "vi"@ }
    else if n == 33 { "id"@ }
    else if n == 28 { "sq"@ }
    else if n == 3 { "ca"@ }
    else if n == 37 { "et"@ }
    else if n == 15 { "is"@ }
    else if n == 38 { "lv"@ }
    else if n == 39 { "lt"@ }
    else if n == 47 { "mk"@ }
    else if n == 62 { "ms"@ }
    else if n == 27 { "sk"@ }
    else if n == 36 { "sl"@ }
    else { Seq::empty() }
}

fn language_code_str(n: u8) -> (r: &'static str)
    ensures
        r@ == language_code_spec(n),
{
    proof {
        reveal_strlit("");
    }
    match n {
        9 => "en",
        25 => "ru",
        7 => "de",
        12 => "fr",
        10 => "es",
        16 => "it",
        22 => "pt",
        19 => "nl",
        29 => "sv",
        20 => "no",
        6 => "da",
        11 => "fi",
        21 => "pl",
        5 => "cs",
        14 => "hu",
        24 => "ro",
        2 => "bg",
        26 => "sr",
        34 => "uk",
        35 => "be",
        31 => "tr",
        8 => "el",
        1 => "ar",
        13 => "he",
        4 => "zh",
        17 => "ja",
        18 => "ko",
        57 => "hi",
        30 => "th",
        42 => "vi",
        33 => "id",
        28 => "sq",
        3 => "ca",
        37 => "et",
        15 => "is",
        38 => "lv",
        39 => "lt",
        47 => "mk",
        62 => "ms",
        27 => "sk",
        36 => "sl",
        _ => "",
    }
}

/// Map a MOBI language number to an ISO 639-1 language code.
pub fn language_to_code(n: u8) -> (r: String)
    ensures
        r@ == language_code_spec(n),
{
    language_code_str(n).to_owned()
}

// ---------------------------------------------------------------------------
// Metadata
// ---------------------------------------------------------------------------

/// The fields of a MOBI book that its metadata is made from, as the `mobi`
/// crate reads them, and the cover found among its records.
pub struct MobiFields {
    pub title: String,
    pub author: Option<String>,
    pub description: Option<String>,
    pub language: u8,
    pub publish_date: Option<String>,
    pub cover: Option<(Vec<u8>, String)>,
}

/// The metadata made of a MOBI book's fields: the title without metadata
/// punctuation, the authors split at `&` and `;`, the description without
/// HTML tags, the language code, the publishing date and the cover; no genres
/// or series.
pub open spec fn mobi_meta_spec(
    m: BookMeta,
    title: Seq<char>,
    author: Option<Seq<char>>,
    description: Option<Seq<char>>,
    language: u8,
    publish_date: Option<Seq<char>>,
    cover: Option<(Seq<u8>, Seq<char>)>,
) -> bool {
    &&& m.title@ == strip_meta_spec(title)
    &&& string_views(m.authors@) == (match author {
        Some(a) => split_authors_spec(a),
        None => Seq::empty(),
    })
    &&& m.annotation@ == (match description {
        Some(d) => strip_html_tags_spec(d),
        None => Seq::empty(),
    })
    &&& m.lang@ == language_code_spec(language)
    &&& m.docdate@ == (match publish_date {
        Some(d) => d,
        None => Seq::empty(),
    })
    &&& match cover {
        Some((d, t)) => m.cover_data matches Some(c) && c@ == d && m.cover_type@ == t,
        None => m.cover_data is None && m.cover_type@.len() == 0,
    }
    &&& m.genres@.len() == 0
    &&& m.series_title is None
    &&& m.series_index == 0
}

/// Metadata of a MOBI book: the title without metadata punctuation, the
/// authors split at `&` and `;`, the description without HTML tags, the
/// language code, the publishing date and the cover; no genres or series.
pub fn meta_from_mobi(fields: MobiFields) -> (m: BookMeta)
    ensures
        m.title@ == strip_meta_spec(fields.title@),
        string_views(m.authors@) == (match fields.author {
            Some(a) => split_authors_spec(a@),
            None => Seq::empty(),
        }),
        m.annotation@ == (match fields.description {
            Some(d) => strip_html_tags_spec(d@),
            None => Seq::empty(),
        }),
        m.lang@ == language_code_spec(fields.language),
        m.docdate@ == (match fields.publish_date {
            Some(d) => d@,
            None => Seq::empty(),
        }),
        m.cover_data == (match fields.cover {
            Some(c) => Some(c.0),
            None => None,
        }),
        m.cover_type@ == (match fields.cover {
            Some(c) => c.1@,
            None => Seq::empty(),
        }),
        m.genres@.len() == 0,
        m.series_title is None,
        m.series_index == 0,
        mobi_meta_spec(
            m,
            fields.title@,
            opt_string_view(fields.author),
            opt_string_view(fields.description),
            fields.language,
            opt_string_view(fields.publish_date),
            cover_view(fields.cover),
        ),
{
    let ghost f = fields;
    let mut m = BookMeta::empty();
    m.title = strip_meta(fields.title.as_str());
    match &fields.author {
        Some(a) => {
            m.authors = split_authors(a.as_str());
        },
        None => {
            proof {
                assert(string_views(m.authors@) =~= Seq::<Seq<char>>::empty());
            }
        },
    }
    match &fields.description {
        Some(d) => {
            m.annotation = strip_html_tags(d.as_str());
        },
        None => {},
    }
    m.lang = language_to_code(fields.language);
    match fields.publish_date {
        Some(d) => {
            m.docdate = d;
        },
        None => {},
    }
    match fields.cover {
        Some((data, mime)) => {
            m.cover_data = Some(data);
            m.cover_type = mime;
        },
        None => {},
    }
    proof {
        match f.cover {
            Some(c) => {
                assert(cover_view(f.cover) == Some((c.0@, c.1@)));
                assert(m.cover_data == Some(c.0));
                assert(m.cover_data matches Some(x) && x@ == c.0@ && m.cover_type@ == c.1@);
            },
            None => {
                assert(m.cover_data is None && m.cover_type@.len() == 0);
            },
        }
        assert(m.title@ == strip_meta_spec(f.title@));
        assert(string_views(m.authors@) == (match opt_string_view(f.author) {
            Some(a) => split_authors_spec(a),
            None => Seq::empty(),
        }));
        assert(m.annotation@ == (match opt_string_view(f.description) {
            Some(d) => strip_html_tags_spec(d),
            None => Seq::empty(),
        }));
        assert(m.docdate@ == (match opt_string_view(f.publish_date) {
            Some(d) => d,
            None => Seq::<char>::empty(),
        }));
        assert(mobi_meta_spec(
            m,
            f.title@,
            opt_string_view(f.author),
            opt_string_view(f.description),
            f.language,
            opt_string_view(f.publish_date),
            cover_view(f.cover),
        ));
    }
    m
}

// ---------------------------------------------------------------------------
// Reading a MOBI file
// ---------------------------------------------------------------------------

/// Why a MOBI book could not be read: the `mobi` crate refused the bytes.
#[derive(Debug, Clone, Copy, PartialEq, Eq, Structural)]
pub enum MobiReadError {
    Unreadable,
}

/// What the `mobi` crate reads of a book: its metadata fields, the first
/// image record's index, the EXTH cover offset record, the offsets of the
/// PDB records and the length of the content the records are cut from.
pub struct MobiRead {
    pub title: String,
    pub author: Option<String>,
    pub description: Option<String>,
    pub language: u8,
    pub publish_date: Option<String>,
    pub first_image_index: u32,
    pub cover_offset: Option<Vec<u8>>,
    pub record_offsets: Vec<u32>,
    pub content_len: usize,
}

pub struct MobiReadView {
    pub title: Seq<char>,
    pub author: Option<Seq<char>>,
    pub description: Option<Seq<char>>,
    pub language: u8,
    pub publish_date: Option<Seq<char>>,
    pub first_image_index: u32,
    pub cover_offset: Option<Seq<u8>>,
    pub record_offsets: Seq<u32>,
    pub content_len: usize,
}

impl View for MobiRead {
    type V = MobiReadView;

    open spec fn view(&self) -> MobiReadView {
        MobiReadView {
            title: self.title@,
            author: opt_string_view(self.author),
            description: opt_string_view(self.description),
            language: self.language,
            publish_date: opt_string_view(self.publish_date),
            first_image_index: self.first_image_index,
            cover_offset: opt_bytes(self.cover_offset),
            record_offsets: self.record_offsets@,
            content_len: self.content_len,
        }
    }
}

/// What `Mobi::new` reads from the bytes, as [`MobiRead`] gives it: `Mobi::title`,
/// `author`, `description`, `language` (its number), `publish_date`, the
/// MOBI header's `first_image_index`, the first EXTH `CoverOffset` record,
/// the offsets of the PDB records and the length of `Mobi::content`; `None`
/// where `Mobi::new` fails.
pub uninterp spec fn mobi_parsed(data: Seq<u8>) -> Option<MobiReadView>;

/// `Mobi::new` and the fields named in [`mobi_parsed`]; `None` where
/// `Mobi::new` fails.
#[verifier::external_body]
fn mobi_read(data: &[u8]) -> (r: Option<MobiRead>)
    ensures
        match mobi_parsed(data@) {
            Some(v) => r matches Some(m) && m@ == v,
            None => r is None,
        },
{
    let m = ::mobi::Mobi::new(data.to_vec()).ok()?;
    Some(MobiRead {
        title: m.title(),
        author: m.author(),
        description: m.description(),
        language: u8::from(m.language()),
        publish_date: m.publish_date(),
        first_image_index: m.metadata.mobi.first_image_index,
        cover_offset: m.metadata.exth_record(ExthRecord::CoverOffset).and_then(|r| r.first()).cloned(),
        record_offsets: m.metadata.records.records.iter().map(|r| r.offset).collect(),
        content_len: m.content.len(),
    })
}

/// The big-endian 16-bit number at `at`, 0 past the end.
pub open spec fn be16_at(data: Seq<u8>, at: int) -> int {
    if 0 <= at && at + 2 <= data.len() {
        data[at] * 0x100 + data[at + 1]
    } else {
        0
    }
}

/// The gap the PDB header records after the `n` record entries (the 16-bit
/// number at byte `78 + 8 n` that `PdbRecords` keeps as its extra bytes).
pub open spec fn record_gap(data: Seq<u8>, n: int) -> int {
    be16_at(data, 78 + 8 * n)
}

/// The records can be cut from the content as `PdbRecords::parse` cuts them
/// without leaving it: each record ends, `gap` bytes before the next record's
/// offset, at or after its own offset and within the content, and the last
/// record starts within it.
pub open spec fn records_fit(offsets: Seq<u32>, gap: int, len: int) -> bool {
    &&& forall|i: int|
        0 <= i < offsets.len() - 1 ==> (gap < offsets[i + 1] ==> #[trigger] offsets[i] <= offsets[i
            + 1] - gap && offsets[i + 1] - gap <= len)
    &&& offsets.len() > 0 ==> offsets[offsets.len() - 1] <= len
}

/// The records of the book in these bytes can be read: it parses, its header
/// holds the record table, and the records fit the content.
pub open spec fn mobi_records_readable(data: Seq<u8>) -> bool {
    match mobi_parsed(data) {
        Some(v) => {
            &&& data.len() >= 80 + 8 * v.record_offsets.len()
            &&& records_fit(v.record_offsets, record_gap(data, v.record_offsets.len() as int), v.content_len as int)
        },
        None => false,
    }
}

/// The content of PDB record `i` (`Mobi::raw_records`) of the book in these
/// bytes; `None` where there is no such record.
pub uninterp spec fn mobi_record(data: Seq<u8>, i: int) -> Option<Seq<u8>>;

/// The content of the first image record (`Mobi::image_records`) of the book
/// in these bytes; `None` where it has none.
pub uninterp spec fn mobi_first_image(data: Seq<u8>) -> Option<Seq<u8>>;

/// `Mobi::new`, `Mobi::raw_records` and record `i`. `raw_records` cuts each
/// record from the content at its offset, up to `gap` bytes before the next
/// record's offset, and panics where a cut leaves the content; the
/// precondition rules that out.
#[verifier::external_body]
fn mobi_record_content(data: &[u8], i: usize) -> (r: Option<Vec<u8>>)
    requires
        mobi_records_readable(data@),
    ensures
        opt_bytes(r) == mobi_record(data@, i as int),
{
    let m = ::mobi::Mobi::new(data.to_vec()).ok()?;
    m.raw_records().records().get(i).map(|r| r.content.to_vec())
}

/// `Mobi::new`, `Mobi::image_records` and the first of them (the records
/// from the first image index on whose magic bytes are not those of a
/// non-image record).
#[verifier::external_body]
fn mobi_first_image_content(data: &[u8]) -> (r: Option<Vec<u8>>)
    requires
        mobi_records_readable(data@),
    ensures
        opt_bytes(r) == mobi_first_image(data@),
{
    let m = ::mobi::Mobi::new(data.to_vec()).ok()?;
    m.image_records().first().map(|r| r.content.to_vec())
}

/// The record as a cover image with its MIME type, if it is one.
pub open spec fn image_of(c: Option<Seq<u8>>) -> Option<(Seq<u8>, Seq<char>)> {
    match c {
        Some(d) => if is_cover_image(d) {
            Some((d, detect_image_mime_spec(d)))
        } else {
            None
        },
        None => None,
    }
}

/// The cover of a MOBI book: the record the EXTH cover offset names, when it
/// is an image; else the first image record, when it is one. No cover is
/// taken from a book whose records cannot be cut from its content.
pub open spec fn mobi_cover_spec(data: Seq<u8>, v: MobiReadView) -> Option<(Seq<u8>, Seq<char>)> {
    if !mobi_records_readable(data) {
        None
    } else {
        let via_offset = match cover_record_index_spec(v.cover_offset, v.first_image_index) {
            Some(i) => if i <= usize::MAX {
                image_of(mobi_record(data, i))
            } else {
                None
            },
            None => None,
        };
        match via_offset {
            Some(c) => Some(c),
            None => image_of(mobi_first_image(data)),
        }
    }
}

/// Whether the records of a parsed book can be cut from its content.
fn records_readable(data: &[u8], m: &MobiRead) -> (ok: bool)
    requires
        mobi_parsed(data@) == Some(m@),
    ensures
        ok == mobi_records_readable(data@),
{
    let n = m.record_offsets.len();
    if n > (usize::MAX - 80) / 8 {
        proof {
            assert(80 + 8 * n > usize::MAX) by (nonlinear_arith)
                requires
                    n > (usize::MAX - 80) / 8,
            ;
            assert(data@.len() == data.len());
            assert(data@.len() < 80 + 8 * m@.record_offsets.len());
        }
        return false;
    }
    if data.len() < 80 + 8 * n {
        return false;
    }
    let at = 78 + 8 * n;
    let gap: u64 = (data[at] as u64) * 0x100 + (data[at + 1] as u64);
    proof {
        assert(gap == record_gap(data@, n as int));
    }
    let len = m.content_len as u64;
    let ghost offs = m.record_offsets@;
    let mut i: usize = 1;
    while i < n
        invariant
            1 <= i,
            n == offs.len(),
            offs == m.record_offsets@,
            mobi_parsed(data@) == Some(m@),
            data.len() >= 80 + 8 * n,
            gap == record_gap(data@, n as int),
            len == m.content_len,
            forall|j: int|
                0 <= j < i - 1 && j < n - 1 ==> (gap < offs[j + 1] ==> #[trigger] offs[j] <= offs[j + 1]
                    - gap && offs[j + 1] - gap <= len),
        decreases n - i,
    {
        let cur = m.record_offsets[i - 1] as u64;
        let next = m.record_offsets[i] as u64;
        if gap < next && !(cur <= next - gap && next - gap <= len) {
            proof {
                let j = i - 1;
                assert(!(gap < offs[j + 1] ==> offs[j] <= offs[j + 1] - gap && offs[j + 1] - gap <= len));
                assert(!records_fit(offs, gap as int, len as int));
            }
            return false;
        }
        i += 1;
    }
    if n > 0 && (m.record_offsets[n - 1] as u64) > len {
        return false;
    }
    proof {
        assert forall|j: int| 0 <= j < offs.len() - 1 implies (gap < offs[j + 1] ==> #[trigger] offs[j]
            <= offs[j + 1] - gap && offs[j + 1] - gap <= len) by {}
        assert(records_fit(offs, gap as int, len as int));
        assert(m@.record_offsets == offs);
    }
    true
}

/// Parse MOBI metadata from in-memory bytes: the fields the `mobi` crate
/// reads (see [`mobi_meta_spec`]) and the cover [`mobi_cover_spec`] picks;
/// an error where the `mobi` crate cannot read the bytes.
pub fn parse_bytes(data: &[u8]) -> (r: Result<BookMeta, MobiReadError>)
    ensures
        match mobi_parsed(data@) {
            Some(v) => r matches Ok(m) && mobi_meta_spec(
                m,
                v.title,
                v.author,
                v.description,
                v.language,
                v.publish_date,
                mobi_cover_spec(data@, v),
            ),
            None => r == Err::<BookMeta, MobiReadError>(MobiReadError::Unreadable),
        },
{
    let m = match mobi_read(data) {
        Some(m) => m,
        None => return Err(MobiReadError::Unreadable),
    };
    let mut cover: Option<(Vec<u8>, String)> = None;
    if records_readable(data, &m) {
        let idx = match &m.cover_offset {
            Some(d) => cover_record_index(Some(d.as_slice()), m.first_image_index),
            None => cover_record_index(None, m.first_image_index),
        };
        match idx {
            Some(i) => {
                if i <= usize::MAX as u64 {
                    match mobi_record_content(data, i as usize) {
                        Some(c) => {
                            cover = try_image_data(c.as_slice());
                        },
                        None => {},
                    }
                }
            },
            None => {},
        }
        if cover.is_none() {
            match mobi_first_image_content(data) {
                Some(c) => {
                    cover = try_image_data(c.as_slice());
                },
                None => {},
            }
        }
    }
    let fields = MobiFields {
        title: m.title,
        author: m.author,
        description: m.description,
        language: m.language,
        publish_date: m.publish_date,
        cover,
    };
    Ok(meta_from_mobi(fields))
}

} // verus!
