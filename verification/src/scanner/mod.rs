//! Library scanning: the scan lock and the last result, run statistics and
//! the decisions taken for each book, archive and index found.
pub mod cover;
pub mod steps;
pub mod walk;
pub mod zipbooks;

use vstd::prelude::*;
use crate::db::models::{CatType, Catalog, cat_type_code};
use crate::decimal::{decimal, push_decimal};
use crate::parsers::{
    BookMeta, detect_lang_code, lang_code_spec, normalise_author_name, normalise_author_spec,
    string_views,
};
use crate::paths::{file_stem, file_stem_spec, parent_of, split_parent};
use crate::parsers::inpx::InpxRecord;
use crate::pdf::PdfMetadata;
use crate::text::{chars_eq, extend_str, from_chars, to_chars, to_uppercase, trim, trim_str, unicode_uppercase};

verus! {

// ---------------------------------------------------------------------------
// Statistics
// ---------------------------------------------------------------------------

/// Snapshot of scan statistics.
#[derive(Debug, Clone, Copy)]
pub struct ScanStatsSnapshot {
    pub books_added: u64,
    pub books_skipped: u64,
    pub books_deleted: u64,
    pub archives_scanned: u64,
    pub archives_skipped: u64,
    pub errors: u64,
}

impl ScanStatsSnapshot {
    pub open spec fn is_zero(&self) -> bool {
        &&& self.books_added == 0
        &&& self.books_skipped == 0
        &&& self.books_deleted == 0
        &&& self.archives_scanned == 0
        &&& self.archives_skipped == 0
        &&& self.errors == 0
    }
}

impl Default for ScanStatsSnapshot {
    fn default() -> (s: Self)
        ensures
            s.is_zero(),
    {
        ScanStatsSnapshot {
            books_added: 0,
            books_skipped: 0,
            books_deleted: 0,
            archives_scanned: 0,
            archives_skipped: 0,
            errors: 0,
        }
    }
}

/// The counters that grow by one during a scan.
#[derive(Debug, Clone, Copy, PartialEq, Eq, Structural)]
pub enum ScanCounter {
    BooksAdded,
    BooksSkipped,
    ArchivesScanned,
    ArchivesSkipped,
    Errors,
}

/// `x + 1`, wrapping to 0 after `u64::MAX` (`AtomicU64::fetch_add`).
pub open spec fn wrapping_inc(x: u64) -> u64 {
    if x == u64::MAX {
        0
    } else {
        (x + 1) as u64
    }
}

/// The statistics with one counter incremented.
pub open spec fn counted(s: ScanStatsSnapshot, c: ScanCounter) -> ScanStatsSnapshot {
    match c {
        ScanCounter::BooksAdded => ScanStatsSnapshot { books_added: wrapping_inc(s.books_added), ..s },
        ScanCounter::BooksSkipped => ScanStatsSnapshot {
            books_skipped: wrapping_inc(s.books_skipped),
            ..s
        },
        ScanCounter::ArchivesScanned => ScanStatsSnapshot {
            archives_scanned: wrapping_inc(s.archives_scanned),
            ..s
        },
        ScanCounter::ArchivesSkipped => ScanStatsSnapshot {
            archives_skipped: wrapping_inc(s.archives_skipped),
            ..s
        },
        ScanCounter::Errors => ScanStatsSnapshot { errors: wrapping_inc(s.errors), ..s },
    }
}

/// Statistics collected during a scan run.
#[derive(Debug)]
pub struct ScanStats {
    pub books_added: u64,
    pub books_skipped: u64,
    pub books_deleted: u64,
    pub archives_scanned: u64,
    pub archives_skipped: u64,
    pub errors: u64,
}

impl ScanStats {
    pub open spec fn as_snapshot(&self) -> ScanStatsSnapshot {
        ScanStatsSnapshot {
            books_added: self.books_added,
            books_skipped: self.books_skipped,
            books_deleted: self.books_deleted,
            archives_scanned: self.archives_scanned,
            archives_skipped: self.archives_skipped,
            errors: self.errors,
        }
    }

    /// All counters at zero.
    pub fn new() -> (s: Self)
        ensures
            s.as_snapshot().is_zero(),
    {
        ScanStats {
            books_added: 0,
            books_skipped: 0,
            books_deleted: 0,
            archives_scanned: 0,
            archives_skipped: 0,
            errors: 0,
        }
    }

    fn inc(x: u64) -> (r: u64)
        ensures
            r == wrapping_inc(x),
    {
        if x == u64::MAX {
            0
        } else {
            x + 1
        }
    }

    /// Count one more event of the given kind.
    pub fn count(&mut self, c: ScanCounter)
        ensures
            final(self).as_snapshot() == counted(old(self).as_snapshot(), c),
    {
        match c {
            ScanCounter::BooksAdded => self.books_added = Self::inc(self.books_added),
            ScanCounter::BooksSkipped => self.books_skipped = Self::inc(self.books_skipped),
            ScanCounter::ArchivesScanned => self.archives_scanned = Self::inc(self.archives_scanned),
            ScanCounter::ArchivesSkipped => self.archives_skipped = Self::inc(self.archives_skipped),
            ScanCounter::Errors => self.errors = Self::inc(self.errors),
        }
    }

    /// Record the number of books removed at the end of the scan.
    pub fn set_books_deleted(&mut self, n: u64)
        ensures
            final(self).as_snapshot() == (ScanStatsSnapshot {
                books_deleted: n,
                ..old(self).as_snapshot()
            }),
    {
        self.books_deleted = n;
    }

    /// The current values of all counters.
    pub fn snapshot(&self) -> (s: ScanStatsSnapshot)
        ensures
            s == self.as_snapshot(),
    {
        ScanStatsSnapshot {
            books_added: self.books_added,
            books_skipped: self.books_skipped,
            books_deleted: self.books_deleted,
            archives_scanned: self.archives_scanned,
            archives_skipped: self.archives_skipped,
            errors: self.errors,
        }
    }
}

impl Default for ScanStats {
    fn default() -> (s: Self)
        ensures
            s.as_snapshot().is_zero(),
    {
        ScanStats::new()
    }
}

// ---------------------------------------------------------------------------
// Results, errors and the scan lock
// ---------------------------------------------------------------------------

/// Outcome of a completed scan (statistics or an error message).
#[derive(Debug, Clone)]
pub struct ScanResult {
    pub ok: bool,
    pub stats: Option<ScanStatsSnapshot>,
    pub error: Option<String>,
}

/// Why a scan, or part of one, failed.
#[derive(Debug)]
pub enum ScanError {
    AlreadyRunning,
    Db(String),
    Io(String),
    Zip(String),
    Parse(String),
    Internal(String),
}

/// The scan lock and the last completed scan result. Its view is whether a
/// scan runs, and the result waiting to be taken.
pub struct ScanState {
    scanning: bool,
    last_result: Option<ScanResult>,
}

impl View for ScanState {
    type V = (bool, Option<ScanResult>);

    closed spec fn view(&self) -> (bool, Option<ScanResult>) {
        (self.scanning, self.last_result)
    }
}

/// A scan may start only when none runs; starting takes the lock.
pub open spec fn begin_scan_spec(s: (bool, Option<ScanResult>)) -> Option<(bool, Option<ScanResult>)> {
    if s.0 {
        None
    } else {
        Some((true, s.1))
    }
}

pub open spec fn end_scan_spec(s: (bool, Option<ScanResult>)) -> (bool, Option<ScanResult>) {
    (false, s.1)
}

pub open spec fn store_spec(s: (bool, Option<ScanResult>), r: ScanResult) -> (bool, Option<ScanResult>) {
    (s.0, Some(r))
}

/// Taking leaves no result behind; what was taken is `s.1`.
pub open spec fn take_spec(s: (bool, Option<ScanResult>)) -> (bool, Option<ScanResult>) {
    (s.0, None)
}

impl ScanState {
    /// No scan running and no result stored.
    pub fn new() -> (s: Self)
        ensures
            s@ == (false, None::<ScanResult>),
    {
        ScanState { scanning: false, last_result: None }
    }

    /// Returns `true` if a scan is currently in progress.
    pub fn is_scanning(&self) -> (r: bool)
        ensures
            r == self@.0,
    {
        self.scanning
    }

    /// Take the scan lock; refused while a scan runs.
    pub fn try_begin_scan(&mut self) -> (r: Result<(), ScanError>)
        ensures
            match begin_scan_spec(old(self)@) {
                Some(next) => r is Ok && final(self)@ == next,
                None => r matches Err(ScanError::AlreadyRunning) && final(self)@ == old(self)@,
            },
    {
        if self.scanning {
            Err(ScanError::AlreadyRunning)
        } else {
            self.scanning = true;
            Ok(())
        }
    }

    /// Release the scan lock.
    pub fn end_scan(&mut self)
        ensures
            final(self)@ == end_scan_spec(old(self)@),
    {
        self.scanning = false;
    }

    /// Takes the last scan result, leaving `None` in its place.
    pub fn take_last_scan_result(&mut self) -> (r: Option<ScanResult>)
        ensures
            r == old(self)@.1,
            final(self)@ == take_spec(old(self)@),
    {
        let r = self.last_result.take();
        r
    }

    /// Store the result of a completed scan, replacing any earlier one.
    pub fn store_scan_result(&mut self, result: ScanResult)
        ensures
            final(self)@ == store_spec(old(self)@, result),
    {
        self.last_result = Some(result);
    }
}

/// A stored result is handed out by the next take, and only once; storing and
/// taking leave the scan lock as it was.
pub proof fn lemma_store_then_take(s: (bool, Option<ScanResult>), r: ScanResult)
    ensures
        store_spec(s, r).1 == Some(r),
        take_spec(store_spec(s, r)).1 is None,
        take_spec(store_spec(s, r)).0 == s.0,
{
}

/// Two scans never run at once: once a scan has started, starting another is
/// refused until the first has ended.
pub proof fn lemma_scan_lock_exclusive(s: (bool, Option<ScanResult>))
    ensures
        begin_scan_spec(s) matches Some(t) ==> begin_scan_spec(t) is None,
        begin_scan_spec(end_scan_spec(s)) is Some,
{
}

// ---------------------------------------------------------------------------
// Archives
// ---------------------------------------------------------------------------

/// An archive can be skipped when the catalogue already records it with the
/// same type and size and, with `skip_unchanged`, the same modification time
/// (a missing time on either side does not count as a change).
pub open spec fn archive_unchanged_spec(
    cat: Option<Catalog>,
    expected: CatType,
    size: i64,
    skip_unchanged: bool,
    mtime: Seq<char>,
) -> bool {
    match cat {
        None => false,
        Some(c) => c.cat_type == cat_type_code(expected) && c.cat_size == size && !(skip_unchanged
            && mtime.len() > 0 && c.cat_mtime@.len() > 0 && c.cat_mtime@ != mtime),
    }
}

pub open spec fn opt_catalog(cat: Option<&Catalog>) -> Option<Catalog> {
    match cat {
        Some(c) => Some(*c),
        None => None,
    }
}

pub fn archive_unchanged(
    cat: Option<&Catalog>,
    expected: CatType,
    size: i64,
    skip_unchanged: bool,
    mtime: &str,
) -> (r: bool)
    ensures
        r == archive_unchanged_spec(opt_catalog(cat), expected, size, skip_unchanged, mtime@),
{
    match cat {
        None => false,
        Some(c) => {
            if c.cat_type != expected.code() || c.cat_size != size {
                return false;
            }
            let changed = skip_unchanged && !mtime.is_empty() && !c.cat_mtime.as_str().is_empty()
                && !crate::text::str_eq(c.cat_mtime.as_str(), mtime);
            !changed
        },
    }
}

/// `dir/name`, or `name` alone at the library root.
pub open spec fn rel_join_spec(dir: Seq<char>, name: Seq<char>) -> Seq<char> {
    if dir.len() == 0 {
        name
    } else {
        dir + seq!['/'] + name
    }
}

/// Relative path of an entry of a directory of the library.
pub fn rel_join(dir: &str, name: &str) -> (r: String)
    ensures
        r@ == rel_join_spec(dir@, name@),
{
    if dir.is_empty() {
        name.to_owned()
    } else {
        let mut v = to_chars(dir);
        v.push('/');
        extend_str(&mut v, name);
        from_chars(v.as_slice())
    }
}


// ---------------------------------------------------------------------------
// Book records
// ---------------------------------------------------------------------------

/// What is stored for a new book besides its location and format.
pub struct BookRecord {
    pub title: String,
    pub search_title: String,
    pub annotation: String,
    pub lang_code: i32,
    pub has_cover: i32,
}

/// The title of a book: the parsed title, or the file name's stem.
pub open spec fn record_title_spec(filename: Seq<char>, title: Seq<char>) -> Seq<char> {
    if title.len() == 0 {
        file_stem_spec(filename)
    } else {
        title
    }
}

/// Characters of the Basic Multilingual Plane (three-byte UTF-8 at most).
pub open spec fn in_bmp() -> spec_fn(char) -> bool {
    |c: char| (c as u32) < 0x10000
}

/// The text without characters beyond the Basic Multilingual Plane.
pub open spec fn bmp_only(s: Seq<char>) -> Seq<char> {
    s.filter(in_bmp())
}

pub fn bmp_only_chars(s: &[char]) -> (r: Vec<char>)
    ensures
        r@ == bmp_only(s@),
{
    let mut r: Vec<char> = Vec::new();
    let mut i: usize = 0;
    proof {
        reveal(Seq::filter);
        assert(s@.take(0).filter(in_bmp()) =~= Seq::<char>::empty());
    }
    while i < s.len()
        invariant
            i <= s.len(),
            r@ == s@.take(i as int).filter(in_bmp()),
        decreases s.len() - i,
    {
        let c = s[i];
        proof {
            assert(s@.take(i + 1) =~= s@.take(i as int).push(c));
            s@.take(i as int).lemma_filter_push(c, in_bmp());
        }
        if (c as u32) < 0x10000 {
            r.push(c);
        }
        i += 1;
    }
    proof {
        assert(s@.take(s.len() as int) =~= s@);
    }
    r
}

/// The stored record of a book: its title (or the file name's stem), the
/// upper-cased search title, the script of the title, the annotation without
/// characters beyond the Basic Multilingual Plane, and whether a cover was found.
pub fn book_record(filename: &str, meta: &BookMeta) -> (r: BookRecord)
    ensures
        r.title@ == record_title_spec(filename@, meta.title@),
        r.search_title@ == unicode_uppercase(record_title_spec(filename@, meta.title@)),
        r.lang_code == lang_code_spec(record_title_spec(filename@, meta.title@)),
        r.annotation@ == bmp_only(meta.annotation@),
        r.has_cover == (if meta.cover_data is Some {
            1i32
        } else {
            0i32
        }),
{
    let title = if meta.title.as_str().is_empty() {
        let f = to_chars(filename);
        let stem = file_stem(f.as_slice());
        from_chars(stem.as_slice())
    } else {
        meta.title.clone()
    };
    let search_title = to_uppercase(title.as_str());
    let lang_code = detect_lang_code(title.as_str());
    let has_cover: i32 = if meta.cover_data.is_some() {
        1
    } else {
        0
    };
    let a = to_chars(meta.annotation.as_str());
    let kept = bmp_only_chars(a.as_slice());
    BookRecord {
        title,
        search_title,
        annotation: from_chars(kept.as_slice()),
        lang_code,
        has_cover,
    }
}

/// The author name used for a book without any.
pub open spec fn unknown_author() -> Seq<char> {
    "Unknown"@
}

/// The names a new book is linked to: `Unknown` for a book without authors,
/// otherwise every normalised name that is not empty, in order.
pub open spec fn linked_authors_spec(authors: Seq<Seq<char>>) -> Seq<Seq<char>> {
    if authors.len() == 0 {
        seq![unknown_author()]
    } else {
        authors.map_values(|a: Seq<char>| normalise_author_spec(a)).filter(
            crate::text::nonempty_pred(),
        )
    }
}

pub fn linked_authors(authors: &Vec<String>) -> (r: Vec<String>)
    ensures
        string_views(r@) == linked_authors_spec(string_views(authors@)),
{
    let mut r: Vec<String> = Vec::new();
    if authors.len() == 0 {
        r.push("Unknown".to_owned());
        proof {
            assert(string_views(r@) =~= seq![unknown_author()]);
        }
        return r;
    }
    let ghost norm = string_views(authors@).map_values(|a: Seq<char>| normalise_author_spec(a));
    let mut i: usize = 0;
    proof {
        reveal(Seq::filter);
        assert(norm.take(0).filter(crate::text::nonempty_pred()) =~= Seq::<Seq<char>>::empty());
        assert(string_views(r@) =~= Seq::<Seq<char>>::empty());
    }
    while i < authors.len()
        invariant
            i <= authors.len(),
            norm == string_views(authors@).map_values(|a: Seq<char>| normalise_author_spec(a)),
            string_views(r@) == norm.take(i as int).filter(crate::text::nonempty_pred()),
        decreases authors.len() - i,
    {
        let name = normalise_author_name(authors[i].as_str());
        proof {
            assert(norm[i as int] == name@);
            assert(norm.take(i + 1) =~= norm.take(i as int).push(name@));
            norm.take(i as int).lemma_filter_push(name@, crate::text::nonempty_pred());
        }
        if !name.as_str().is_empty() {
            let ghost before = r@;
            r.push(name);
            proof {
                assert(string_views(r@) =~= string_views(before).push(r@[before.len() as int]@));
            }
        }
        i += 1;
    }
    proof {
        assert(norm.take(authors.len() as int) =~= norm);
    }
    r
}

/// The series a new book is linked to, with its number: only a named series.
pub fn series_link(meta: &BookMeta) -> (r: Option<(String, i32)>)
    ensures
        match meta.series_title {
            Some(t) => if t@.len() > 0 {
                r matches Some(p) && p.0@ == t@ && p.1 == meta.series_index
            } else {
                r is None
            },
            None => r is None,
        },
{
    match &meta.series_title {
        Some(t) => {
            if t.as_str().is_empty() {
                None
            } else {
                Some((t.clone(), meta.series_index))
            }
        },
        None => None,
    }
}


// ---------------------------------------------------------------------------
// Metadata from several sources
// ---------------------------------------------------------------------------

/// Metadata that holds only a title.
pub open spec fn title_only(m: BookMeta, title: Seq<char>) -> bool {
    &&& m.title@ == title
    &&& m.authors@.len() == 0
    &&& m.genres@.len() == 0
    &&& m.annotation@.len() == 0
    &&& m.lang@.len() == 0
    &&& m.series_title is None
    &&& m.series_index == 0
    &&& m.docdate@.len() == 0
    &&& m.cover_data is None
    &&& m.cover_type@.len() == 0
}

/// Metadata of a file no parser reads: the file name's stem as title.
pub fn fallback_meta(filename: &str) -> (m: BookMeta)
    ensures
        title_only(m, file_stem_spec(filename@)),
{
    let f = to_chars(filename);
    let stem = file_stem(f.as_slice());
    let mut m = BookMeta::empty();
    m.title = from_chars(stem.as_slice());
    m
}

/// Metadata of a PDF file: the title and author that `pdfinfo` reported (the
/// file name's stem when the title is missing or blank) and the rendered first
/// page as a JPEG cover.
pub fn pdf_book_meta(filename: &str, info: Option<PdfMetadata>, cover: Option<Vec<u8>>) -> (m:
    BookMeta)
    ensures
        ({
            let fallback = file_stem_spec(filename@);
            let reported = match info {
                Some(i) => match i.title {
                    Some(t) => t@,
                    None => fallback,
                },
                None => fallback,
            };
            &&& m.title@ == (if trim(reported).len() == 0 {
                fallback
            } else {
                reported
            })
            &&& m.authors@.len() == (match info {
                Some(i) => if i.author is Some {
                    1int
                } else {
                    0int
                },
                None => 0int,
            })
            &&& (info matches Some(i) ==> (i.author matches Some(a) ==> m.authors@[0]@ == a@))
            &&& m.cover_data == cover
            &&& m.cover_type@ == (if cover is Some {
                "image/jpeg"@
            } else {
                Seq::<char>::empty()
            })
            &&& m.genres@.len() == 0 && m.annotation@.len() == 0 && m.lang@.len() == 0
            &&& m.series_title is None && m.series_index == 0 && m.docdate@.len() == 0
        }),
{
    let f = to_chars(filename);
    let stem = file_stem(f.as_slice());
    let fallback = from_chars(stem.as_slice());
    let mut m = BookMeta::empty();
    m.title = fallback.clone();
    match info {
        Some(i) => {
            let PdfMetadata { title, author } = i;
            if let Some(t) = title {
                m.title = t;
            }
            match author {
                Some(a) => {
                    let mut authors: Vec<String> = Vec::new();
                    authors.push(a);
                    m.authors = authors;
                },
                None => {},
            }
        },
        None => {},
    }
    let t = trim_str(m.title.as_str());
    if t.len() == 0 {
        m.title = fallback;
    }
    if let Some(c) = cover {
        m.cover_data = Some(c);
        m.cover_type = "image/jpeg".to_owned();
    }
    m
}

/// Metadata of a DjVu file: the file name's stem as title and the rendered
/// first page as a JPEG cover.
pub fn djvu_book_meta(filename: &str, cover: Option<Vec<u8>>) -> (m: BookMeta)
    ensures
        m.title@ == file_stem_spec(filename@),
        m.cover_data == cover,
        m.cover_type@ == (if cover is Some {
            "image/jpeg"@
        } else {
            Seq::<char>::empty()
        }),
        m.authors@.len() == 0 && m.genres@.len() == 0 && m.annotation@.len() == 0,
        m.lang@.len() == 0 && m.series_title is None && m.series_index == 0,
        m.docdate@.len() == 0,
{
    let mut m = fallback_meta(filename);
    if let Some(c) = cover {
        m.cover_data = Some(c);
        m.cover_type = "image/jpeg".to_owned();
    }
    m
}

/// Metadata of an index record enriched from the book file itself: a
/// non-blank annotation and a cover found in the file replace the record's.
pub fn enrich_meta(meta: BookMeta, parsed: Option<BookMeta>) -> (r: BookMeta)
    ensures
        match parsed {
            None => r == meta,
            Some(p) => {
                &&& r.annotation == (if trim(p.annotation@).len() > 0 {
                    p.annotation
                } else {
                    meta.annotation
                })
                &&& r.cover_data == (if p.cover_data is Some {
                    p.cover_data
                } else {
                    meta.cover_data
                })
                &&& r.cover_type == (if p.cover_data is Some {
                    p.cover_type
                } else {
                    meta.cover_type
                })
                &&& r.title == meta.title && r.authors == meta.authors && r.genres == meta.genres
                &&& r.lang == meta.lang && r.series_title == meta.series_title
                &&& r.series_index == meta.series_index && r.docdate == meta.docdate
            },
        },
{
    let mut meta = meta;
    if let Some(p) = parsed {
        let t = trim_str(p.annotation.as_str());
        if t.len() > 0 {
            meta.annotation = p.annotation;
        }
        if p.cover_data.is_some() {
            meta.cover_data = p.cover_data;
            meta.cover_type = p.cover_type;
        }
    }
    meta
}


// ---------------------------------------------------------------------------
// Cover files
// ---------------------------------------------------------------------------

/// Storage path of a cover file:
/// `{covers_dir}/{bucket_millions}/{bucket_thousands}/{book_id}.{ext}`.
pub fn cover_storage_path(covers_path: &str, book_id: i64, ext: &str) -> (r: String)
    ensures
        r@ == cover::two_level_cover_storage_path_spec(covers_path@, book_id, ext@),
{
    cover::two_level_cover_storage_path(covers_path, book_id, ext)
}

/// Legacy flat storage path of a cover file: `{covers_dir}/{book_id}.{ext}`.
pub fn legacy_cover_storage_path(covers_path: &str, book_id: i64, ext: &str) -> (r: String)
    ensures
        r@ == cover::legacy_cover_storage_path_spec(covers_path@, book_id, ext@),
{
    cover::legacy_cover_storage_path(covers_path, book_id, ext)
}

/// The files that may hold a book's cover, removed when the book goes: for
/// each of `jpg`, `png` and `gif`, the storage path and the legacy path.
pub open spec fn cover_candidates_spec(covers: Seq<char>, book_id: i64) -> Seq<Seq<char>> {
    seq![
        cover::two_level_cover_storage_path_spec(covers, book_id, "jpg"@),
        cover::legacy_cover_storage_path_spec(covers, book_id, "jpg"@),
        cover::two_level_cover_storage_path_spec(covers, book_id, "png"@),
        cover::legacy_cover_storage_path_spec(covers, book_id, "png"@),
        cover::two_level_cover_storage_path_spec(covers, book_id, "gif"@),
        cover::legacy_cover_storage_path_spec(covers, book_id, "gif"@),
    ]
}

pub fn cover_candidates(covers_path: &str, book_id: i64) -> (r: Vec<String>)
    ensures
        string_views(r@) == cover_candidates_spec(covers_path@, book_id),
{
    let mut r: Vec<String> = Vec::new();
    r.push(cover_storage_path(covers_path, book_id, "jpg"));
    r.push(legacy_cover_storage_path(covers_path, book_id, "jpg"));
    r.push(cover_storage_path(covers_path, book_id, "png"));
    r.push(legacy_cover_storage_path(covers_path, book_id, "png"));
    r.push(cover_storage_path(covers_path, book_id, "gif"));
    r.push(legacy_cover_storage_path(covers_path, book_id, "gif"));
    proof {
        assert(string_views(r@) =~= cover_candidates_spec(covers_path@, book_id));
    }
    r
}

/// The directories that removing a cover file may leave empty, innermost
/// first: the file's directory and the one above it, each only while it is
/// not the covers directory itself (an empty directory part names none).
pub open spec fn cover_dirs_to_prune_spec(covers: Seq<char>, file: Seq<char>) -> Seq<Seq<char>> {
    let dir = parent_of(file);
    if dir.len() == 0 || dir == covers {
        Seq::empty()
    } else {
        let up = parent_of(dir);
        if up.len() == 0 || up == covers {
            seq![dir]
        } else {
            seq![dir, up]
        }
    }
}

/// The directories to try to remove once a cover file is gone.
pub fn cover_dirs_to_prune(covers_path: &str, file_path: &str) -> (r: Vec<String>)
    ensures
        string_views(r@) == cover_dirs_to_prune_spec(covers_path@, file_path@),
{
    let covers = to_chars(covers_path);
    let file = to_chars(file_path);
    let (dir, _) = split_parent(file.as_slice());
    let mut r: Vec<String> = Vec::new();
    if dir.len() == 0 || chars_eq(dir.as_slice(), covers.as_slice()) {
        proof {
            assert(string_views(r@) =~= cover_dirs_to_prune_spec(covers_path@, file_path@));
        }
        return r;
    }
    let (up, _) = split_parent(dir.as_slice());
    r.push(from_chars(dir.as_slice()));
    if up.len() > 0 && !chars_eq(up.as_slice(), covers.as_slice()) {
        r.push(from_chars(up.as_slice()));
    }
    proof {
        assert(string_views(r@) =~= cover_dirs_to_prune_spec(covers_path@, file_path@));
    }
    r
}


// ---------------------------------------------------------------------------
// INPX records grouped by archive
// ---------------------------------------------------------------------------

/// Strict lexicographic order of character sequences by code point (the
/// order of `String`, whose bytes are UTF-8).
pub open spec fn seq_lt(a: Seq<char>, b: Seq<char>) -> bool
    decreases a.len(),
{
    if a.len() == 0 {
        b.len() > 0
    } else if b.len() == 0 {
        false
    } else if a[0] < b[0] {
        true
    } else if a[0] == b[0] {
        seq_lt(a.drop_first(), b.drop_first())
    } else {
        false
    }
}

/// Of two different sequences, one precedes the other; none precedes itself.
pub proof fn lemma_seq_lt_total(a: Seq<char>, b: Seq<char>)
    ensures
        !seq_lt(a, a),
        a != b ==> seq_lt(a, b) || seq_lt(b, a),
        !(seq_lt(a, b) && seq_lt(b, a)),
    decreases a.len(),
{
    if a.len() > 0 {
        lemma_seq_lt_total(a.drop_first(), a.drop_first());
        if b.len() > 0 {
            lemma_seq_lt_total(a.drop_first(), b.drop_first());
            if a[0] == b[0] && a.drop_first() == b.drop_first() {
                assert(a =~= seq![a[0]] + a.drop_first());
                assert(b =~= seq![b[0]] + b.drop_first());
            }
        }
    } else if b.len() == 0 {
        assert(a =~= b);
    }
}

/// `seq_lt` on characters.
pub fn chars_lt(a: &[char], b: &[char]) -> (r: bool)
    ensures
        r == seq_lt(a@, b@),
{
    let mut i: usize = 0;
    proof {
        assert(a@.skip(0) =~= a@);
        assert(b@.skip(0) =~= b@);
    }
    while i < a.len() && i < b.len()
        invariant
            i <= a.len(),
            i <= b.len(),
            seq_lt(a@, b@) == seq_lt(a@.skip(i as int), b@.skip(i as int)),
        decreases a.len() - i,
    {
        let x = a[i];
        let y = b[i];
        proof {
            assert(a@.skip(i as int)[0] == x);
            assert(b@.skip(i as int)[0] == y);
            assert(a@.skip(i as int).drop_first() =~= a@.skip(i + 1));
            assert(b@.skip(i as int).drop_first() =~= b@.skip(i + 1));
        }
        if x < y {
            return true;
        }
        if x != y {
            return false;
        }
        i += 1;
    }
    proof {
        assert(a@.skip(i as int).len() == a.len() - i);
        assert(b@.skip(i as int).len() == b.len() - i);
    }
    i == a.len() && i < b.len()
}

/// The archive an index record's book lies in, relative to the library root.
pub open spec fn inpx_book_path(inpx_dir: Seq<char>, rec: InpxRecord) -> Seq<char> {
    rel_join_spec(inpx_dir, rec.folder@)
}

/// The records of one archive, in index order.
pub struct InpxGroup {
    pub book_path: String,
    pub records: Vec<InpxRecord>,
}

pub open spec fn in_archive(inpx_dir: Seq<char>, key: Seq<char>) -> spec_fn(InpxRecord) -> bool {
    |r: InpxRecord| inpx_book_path(inpx_dir, r) == key
}

/// Groups by archive path, the paths in increasing order, each holding the
/// records with that path in index order, every record in one group.
pub open spec fn groups_of(inpx_dir: Seq<char>, records: Seq<InpxRecord>, groups: Seq<InpxGroup>) -> bool {
    &&& forall|j: int| 0 <= j < groups.len() - 1 ==> seq_lt(
        #[trigger] groups[j].book_path@,
        groups[j + 1].book_path@,
    )
    &&& forall|j: int|
        0 <= j < groups.len() ==> (#[trigger] groups[j]).records@ == records.filter(
            in_archive(inpx_dir, groups[j].book_path@),
        )
    &&& forall|i: int|
        0 <= i < records.len() ==> has_group(groups, inpx_book_path(inpx_dir, #[trigger] records[i]))
}

/// Some group holds the given archive path.
pub open spec fn has_group(groups: Seq<InpxGroup>, key: Seq<char>) -> bool {
    exists|j: int| 0 <= j < groups.len() && (#[trigger] groups[j]).book_path@ == key
}

/// Group index records by the archive they point into, ordered by path.
pub fn group_inpx_records(inpx_dir: &str, records: Vec<InpxRecord>) -> (r: Vec<InpxGroup>)
    ensures
        groups_of(inpx_dir@, records@, r@),
{
    let ghost all = records@;
    let mut rev: Vec<InpxRecord> = Vec::new();
    let mut rest = records;
    while rest.len() > 0
        invariant
            all == rest@ + rev@.reverse(),
        decreases rest.len(),
    {
        let ghost before_rest = rest@;
        let ghost before_rev = rev@;
        let rec = rest.pop().unwrap();
        rev.push(rec);
        proof {
            assert(rev@.reverse() =~= seq![rec] + before_rev.reverse());
            assert(before_rest =~= rest@.push(rec));
            assert(all =~= rest@ + rev@.reverse());
        }
    }
    proof {
        assert(all =~= rev@.reverse());
    }
    let mut groups: Vec<InpxGroup> = Vec::new();
    let ghost mut done: Seq<InpxRecord> = Seq::empty();
    proof {
        reveal(Seq::filter);
    }
    while rev.len() > 0
        invariant
            all == done + rev@.reverse(),
            groups_of(inpx_dir@, done, groups@),
        decreases rev.len(),
    {
        let ghost before_rev = rev@;
        let rec = rev.pop().unwrap();
        proof {
            assert(before_rev.reverse() =~= seq![rec] + rev@.reverse());
        }
        let key = rel_join(inpx_dir, rec.folder.as_str());
        let key_chars = to_chars(key.as_str());
        // position of the first group whose path is not below the key
        let mut j: usize = 0;
        while j < groups.len()
            invariant
                j <= groups.len(),
                key_chars@ == inpx_book_path(inpx_dir@, rec),
                forall|p: int| 0 <= p < j ==> seq_lt(#[trigger] groups@[p].book_path@, key_chars@),
            ensures
                j <= groups.len(),
                forall|p: int| 0 <= p < j ==> seq_lt(#[trigger] groups@[p].book_path@, key_chars@),
                j < groups.len() ==> !seq_lt(groups@[j as int].book_path@, key_chars@),
            decreases groups.len() - j,
        {
            let g = to_chars(groups[j].book_path.as_str());
            if !chars_lt(g.as_slice(), key_chars.as_slice()) {
                break;
            }
            j += 1;
        }
        let ghost old_groups = groups@;
        let ghost new_done = done.push(rec);
        let found = j < groups.len() && crate::text::str_eq(groups[j].book_path.as_str(), key.as_str());
        if found {
            let mut g = groups.remove(j);
            let ghost g_old = g;
            g.records.push(rec);
            proof {
                assert(g.records@ == g_old.records@.push(rec));
                assert(g.book_path == g_old.book_path);
            }
            groups.insert(j, g);
            proof {
                let k = inpx_book_path(inpx_dir@, rec);
                assert(groups@ =~= old_groups.update(j as int, g));
                assert(old_groups[j as int].book_path@ == k);
                assert forall|q: int| 0 <= q < groups@.len() implies (#[trigger] groups@[q]).records@
                    == new_done.filter(in_archive(inpx_dir@, groups@[q].book_path@)) by {
                    done.lemma_filter_push(rec, in_archive(inpx_dir@, groups@[q].book_path@));
                    if q != j {
                        assert(groups@[q] == old_groups[q]);
                        if q < j {
                            lemma_chain_lt(old_groups, q, j as int);
                        } else {
                            lemma_chain_lt(old_groups, j as int, q);
                        }
                        lemma_seq_lt_total(old_groups[q].book_path@, k);
                    }
                }
                assert forall|q: int| 0 <= q < groups@.len() - 1 implies seq_lt(
                    #[trigger] groups@[q].book_path@,
                    groups@[q + 1].book_path@,
                ) by {
                    assert(groups@[q].book_path == old_groups[q].book_path);
                    assert(groups@[q + 1].book_path == old_groups[q + 1].book_path);
                }
                assert forall|i: int| 0 <= i < new_done.len() implies has_group(
                    groups@,
                    inpx_book_path(inpx_dir@, #[trigger] new_done[i]),
                ) by {
                    if i < done.len() {
                        assert(new_done[i] == done[i]);
                        let q = choose|q: int|
                            0 <= q < old_groups.len() && (#[trigger] old_groups[q]).book_path@
                                == inpx_book_path(inpx_dir@, done[i]);
                        assert(groups@[q].book_path@ == old_groups[q].book_path@);
                        assert(has_group(groups@, inpx_book_path(inpx_dir@, new_done[i])));
                    } else {
                        assert(groups@[j as int].book_path@ == inpx_book_path(inpx_dir@, rec));
                        assert(has_group(groups@, inpx_book_path(inpx_dir@, new_done[i])));
                    }
                }
                assert(groups_of(inpx_dir@, new_done, groups@));
            }
        } else {
            let mut recs: Vec<InpxRecord> = Vec::new();
            recs.push(rec);
            let g = InpxGroup { book_path: key, records: recs };
            groups.insert(j, g);
            proof {
                let k = inpx_book_path(inpx_dir@, rec);
                assert(groups@ =~= old_groups.insert(j as int, g));
                // no earlier record lies in this archive
                assert forall|p: int| 0 <= p < old_groups.len() implies (#[trigger] old_groups[p]).book_path@ != k by {
                    if p < j {
                        lemma_seq_lt_total(old_groups[p].book_path@, k);
                    } else if p == j {
                    } else {
                        lemma_seq_lt_total(old_groups[j as int].book_path@, k);
                        assert(seq_lt(old_groups[j as int].book_path@, old_groups[p].book_path@)
                            || p == j) by {
                            lemma_chain_lt(old_groups, j as int, p);
                        }
                        lemma_seq_lt_total(old_groups[p].book_path@, k);
                        lemma_seq_lt_trans(k, old_groups[j as int].book_path@, old_groups[p].book_path@);
                    }
                }
                assert(done.filter(in_archive(inpx_dir@, k)) =~= Seq::<InpxRecord>::empty()) by {
                    assert forall|i: int| 0 <= i < done.len() implies !in_archive(inpx_dir@, k)(#[trigger] done[i]) by {
                        let q = choose|q: int|
                            0 <= q < old_groups.len() && (#[trigger] old_groups[q]).book_path@
                                == inpx_book_path(inpx_dir@, done[i]);
                    }
                    done.lemma_all_neg_filter_empty(in_archive(inpx_dir@, k));
                }
                assert forall|q: int| 0 <= q < groups@.len() implies (#[trigger] groups@[q]).records@
                    == new_done.filter(in_archive(inpx_dir@, groups@[q].book_path@)) by {
                    done.lemma_filter_push(rec, in_archive(inpx_dir@, groups@[q].book_path@));
                    if q == j {
                        assert(recs@ =~= seq![rec]);
                    } else {
                        let p = if q < j { q } else { q - 1 };
                        assert(groups@[q] == old_groups[p]);
                    }
                }
                assert forall|i: int| 0 <= i < new_done.len() implies has_group(
                    groups@,
                    inpx_book_path(inpx_dir@, #[trigger] new_done[i]),
                ) by {
                    if i < done.len() {
                        assert(new_done[i] == done[i]);
                        let p = choose|p: int|
                            0 <= p < old_groups.len() && (#[trigger] old_groups[p]).book_path@
                                == inpx_book_path(inpx_dir@, done[i]);
                        let q = if p < j { p } else { p + 1 };
                        assert(groups@[q] == old_groups[p]);
                        assert(has_group(groups@, inpx_book_path(inpx_dir@, new_done[i])));
                    } else {
                        assert(groups@[j as int].book_path@ == k);
                        assert(has_group(groups@, inpx_book_path(inpx_dir@, new_done[i])));
                    }
                }
                assert forall|q: int| 0 <= q < groups@.len() - 1 implies seq_lt(
                    #[trigger] groups@[q].book_path@,
                    groups@[q + 1].book_path@,
                ) by {
                    if q + 1 < j {
                        assert(groups@[q] == old_groups[q] && groups@[q + 1] == old_groups[q + 1]);
                    } else if q + 1 == j {
                        assert(groups@[q] == old_groups[q]);
                    } else if q == j {
                        assert(groups@[q + 1] == old_groups[j as int]);
                        lemma_seq_lt_total(old_groups[j as int].book_path@, k);
                    } else {
                        assert(groups@[q] == old_groups[q - 1] && groups@[q + 1] == old_groups[q]);
                    }
                }
                assert(groups_of(inpx_dir@, new_done, groups@));
            }
        }
        proof {
            assert(groups_of(inpx_dir@, new_done, groups@));
            done = new_done;
            assert(all =~= done + rev@.reverse());
        }
    }
    proof {
        assert(done =~= all);
    }
    groups
}

/// `seq_lt` is transitive.
pub proof fn lemma_seq_lt_trans(a: Seq<char>, b: Seq<char>, c: Seq<char>)
    requires
        seq_lt(a, b),
        seq_lt(b, c),
    ensures
        seq_lt(a, c),
    decreases a.len(),
{
    if a.len() > 0 && b.len() > 0 && c.len() > 0 && a[0] == b[0] && b[0] == c[0] {
        lemma_seq_lt_trans(a.drop_first(), b.drop_first(), c.drop_first());
    }
}

/// In a chain ordered pair by pair, an earlier key precedes every later one.
pub proof fn lemma_chain_lt(groups: Seq<InpxGroup>, p: int, q: int)
    requires
        0 <= p < q < groups.len(),
        forall|j: int| 0 <= j < groups.len() - 1 ==> seq_lt(
            #[trigger] groups[j].book_path@,
            groups[j + 1].book_path@,
        ),
    ensures
        seq_lt(groups[p].book_path@, groups[q].book_path@),
    decreases q - p,
{
    if q > p + 1 {
        lemma_chain_lt(groups, p, q - 1);
        assert(seq_lt(groups[q - 1].book_path@, groups[q].book_path@));
        lemma_seq_lt_trans(groups[p].book_path@, groups[q - 1].book_path@, groups[q].book_path@);
    }
}

} // verus!
