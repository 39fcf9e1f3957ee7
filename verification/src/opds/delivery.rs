//! Delivering books and covers: where a book's bytes are, what a download is
//! named and typed, and the cover image served.
use vstd::prelude::*;
use std::io::{Cursor, Write};
use zip::result::ZipError;
use crate::db::models::{Book, CatType, cat_type_code};
use crate::opds::download::{title_to_filename, title_to_filename_spec};
use crate::opds::xml::{
    is_nozip_format, is_nozip_format_spec, mime_for_format, mime_for_format_spec, mime_for_zip,
    mime_for_zip_spec,
};
use crate::parsers::epub::{cover_view, epub_cover, served_epub_cover};
use crate::scanner::cover::{image_decodes, opt_bytes};
use crate::text::{extend_str, from_chars, str_eq, to_chars};
use crate::ziparchive::{zip_entry_data, zip_open, zip_opens, zip_read, zip_source};

verus! {

/// Where the bytes of a book are.
#[derive(Debug, Clone, Copy, PartialEq, Eq, Structural)]
pub enum BookLocation {
    /// A file `{root}/{path}/{filename}`.
    File,
    /// The entry `filename` of the archive `{root}/{path}`.
    InArchive,
    /// An unknown catalogue type.
    Unknown,
}

/// Books of plain catalogues are files; books of ZIP, INPX and INP
/// catalogues are archive entries.
pub open spec fn book_location_spec(cat_type: i32) -> BookLocation {
    if cat_type == cat_type_code(CatType::Normal) {
        BookLocation::File
    } else if cat_type == cat_type_code(CatType::Zip) || cat_type == cat_type_code(CatType::Inpx)
        || cat_type == cat_type_code(CatType::Inp) {
        BookLocation::InArchive
    } else {
        BookLocation::Unknown
    }
}

pub fn book_location(cat_type: i32) -> (r: BookLocation)
    ensures
        r == book_location_spec(cat_type),
{
    if cat_type == CatType::Normal.code() {
        BookLocation::File
    } else if cat_type == CatType::Zip.code() || cat_type == CatType::Inpx.code() || cat_type
        == CatType::Inp.code() {
        BookLocation::InArchive
    } else {
        BookLocation::Unknown
    }
}

/// The bytes of the entry `filename` of the archive in `archive`; `None`
/// when the archive or the entry cannot be read.
pub fn archive_entry_bytes(archive: Vec<u8>, filename: &str) -> (r: Option<Vec<u8>>)
    ensures
        r is Some <==> zip_opens(archive@) && zip_entry_data(archive@, filename@) is Some,
        r matches Some(v) ==> zip_entry_data(archive@, filename@) == Some(v@),
{
    let ghost src = archive@;
    let mut a = match zip_open(archive) {
        Ok(a) => a,
        Err(_) => return None,
    };
    match zip_read(&mut a, filename) {
        Ok(d) => Some(d),
        Err(_) => None,
    }
}

// ---------------------------------------------------------------------------
// Downloads
// ---------------------------------------------------------------------------

/// How a book is sent: as it is stored, or wrapped in a ZIP archive.
pub enum DownloadPlan {
    /// The book's bytes, under this name and type.
    Plain { name: String, mime: &'static str },
    /// A ZIP archive holding the book under its stored file name, sent
    /// under this name and type.
    Zipped { name: String, mime: String, entry_name: String },
}

pub enum DownloadPlanView {
    Plain { name: Seq<char>, mime: Seq<char> },
    Zipped { name: Seq<char>, mime: Seq<char>, entry_name: Seq<char> },
}

impl View for DownloadPlan {
    type V = DownloadPlanView;

    open spec fn view(&self) -> DownloadPlanView {
        match *self {
            DownloadPlan::Plain { name, mime } => DownloadPlanView::Plain { name: name@, mime: mime@ },
            DownloadPlan::Zipped { name, mime, entry_name } => DownloadPlanView::Zipped {
                name: name@,
                mime: mime@,
                entry_name: entry_name@,
            },
        }
    }
}

/// A book asked for zipped (`zip_flag` 1) is zipped unless its format is an
/// archive already; the name is made from the title.
pub open spec fn download_plan_spec(title: Seq<char>, format: Seq<char>, filename: Seq<char>, zip_flag: i32) -> DownloadPlanView {
    let name = title_to_filename_spec(title, format, filename);
    if zip_flag == 1 && !is_nozip_format_spec(format) {
        DownloadPlanView::Zipped { name: name + ".zip"@, mime: mime_for_zip_spec(format), entry_name: filename }
    } else {
        DownloadPlanView::Plain { name, mime: mime_for_format_spec(format) }
    }
}

pub fn download_plan(book: &Book, zip_flag: i32) -> (r: DownloadPlan)
    ensures
        r@ == download_plan_spec(book.title@, book.format@, book.filename@, zip_flag),
{
    let name = title_to_filename(book.title.as_str(), book.format.as_str(), book.filename.as_str());
    if zip_flag == 1 && !is_nozip_format(book.format.as_str()) {
        let mut v = to_chars(name.as_str());
        extend_str(&mut v, ".zip");
        DownloadPlan::Zipped {
            name: from_chars(v.as_slice()),
            mime: mime_for_zip(book.format.as_str()),
            entry_name: book.filename.clone(),
        }
    } else {
        DownloadPlan::Plain { name, mime: mime_for_format(book.format.as_str()) }
    }
}

/// The archive `ZipWriter` writes holding the bytes as one deflated entry
/// under this name. Built without the `zip` crate's `time` feature, as here,
/// the entry carries the fixed default timestamp, so the archive depends on
/// the name and the bytes alone.
pub uninterp spec fn zip_wrapped(name: Seq<char>, data: Seq<u8>) -> Seq<u8>;

/// Whether `ZipWriter` writes such an archive: `start_file` (deflated),
/// `write_all` and `finish` in memory all succeed.
pub uninterp spec fn zip_wrap_ok(name: Seq<char>, data: Seq<u8>) -> bool;

/// `ZipWriter::start_file` (deflated), `write_all` and `finish` in memory.
#[verifier::external_body]
fn zip_wrap(name: &str, data: &[u8]) -> (r: Result<Vec<u8>, ZipError>)
    ensures
        r is Ok <==> zip_wrap_ok(name@, data@),
        r matches Ok(z) ==> z@ == zip_wrapped(name@, data@),
{
    let mut w = zip::ZipWriter::new(Cursor::new(Vec::new()));
    let options = zip::write::SimpleFileOptions::default().compression_method(
        zip::CompressionMethod::Deflated,
    );
    w.start_file(name, options)?;
    w.write_all(data)?;
    Ok(w.finish()?.into_inner())
}

/// Wrap file bytes into a new ZIP archive in memory.
pub fn wrap_in_zip(filename: &str, data: &[u8]) -> (r: Result<Vec<u8>, ZipError>)
    ensures
        r is Ok <==> zip_wrap_ok(filename@, data@),
        r matches Ok(z) ==> z@ == zip_wrapped(filename@, data@),
{
    zip_wrap(filename, data)
}

// ---------------------------------------------------------------------------
// Covers
// ---------------------------------------------------------------------------

/// The side of the square thumbnails fit in.
pub const THUMB_SIZE: u32 = 100;

/// The cover of a book held in memory: for EPUB books, the cover its package
/// names; none for other formats.
pub fn book_cover(format: &str, data: Vec<u8>) -> (r: Option<(Vec<u8>, String)>)
    ensures
        !(format@ == "epub"@) ==> r is None,
        format@ == "epub"@ ==> cover_view(r) == served_epub_cover(data@),
{
    if str_eq(format, "epub") {
        epub_cover(data)
    } else {
        None
    }
}

/// The JPEG thumbnail of the image `image::load_from_memory` decodes from
/// the bytes: scaled with `DynamicImage::resize` (Lanczos filter) to fit a
/// square of side `size`, written with `DynamicImage::write_to` as JPEG;
/// `None` where decoding or writing fails.
pub uninterp spec fn thumbnail_jpeg(data: Seq<u8>, size: u32) -> Option<Seq<u8>>;

/// `image::load_from_memory`, `DynamicImage::resize` (Lanczos filter) and
/// `DynamicImage::write_to` with `ImageFormat::Jpeg` into memory.
#[verifier::external_body]
fn encode_thumbnail(data: &[u8], size: u32) -> (r: Option<Vec<u8>>)
    ensures
        opt_bytes(r) == thumbnail_jpeg(data@, size),
        !image_decodes(data@) ==> r is None,
{
    let img = image::load_from_memory(data).ok()?;
    let thumb = img.resize(size, size, image::imageops::FilterType::Lanczos3);
    let mut buf = Cursor::new(Vec::new());
    thumb.write_to(&mut buf, image::ImageFormat::Jpeg).ok()?;
    Some(buf.into_inner())
}

/// A JPEG thumbnail of an image, scaled to fit a `size` square; `None` when
/// the bytes are not an image or encoding fails.
pub fn make_thumbnail(data: &[u8], size: u32) -> (r: Option<Vec<u8>>)
    ensures
        opt_bytes(r) == thumbnail_jpeg(data@, size),
        !image_decodes(data@) ==> r is None,
{
    encode_thumbnail(data, size)
}

/// What is served for a cover: the image itself, or for a thumbnail a JPEG
/// thumbnail (the image itself when none can be made).
pub fn cover_payload(data: Vec<u8>, mime: String, as_thumbnail: bool) -> (r: (Vec<u8>, String))
    ensures
        !as_thumbnail ==> r.0@ == data@ && r.1@ == mime@,
        as_thumbnail ==> match thumbnail_jpeg(data@, THUMB_SIZE) {
            Some(t) => r.0@ == t && r.1@ == "image/jpeg"@,
            None => r.0@ == data@ && r.1@ == mime@,
        },
{
    if as_thumbnail {
        match make_thumbnail(data.as_slice(), THUMB_SIZE) {
            Some(t) => (t, "image/jpeg".to_owned()),
            None => (data, mime),
        }
    } else {
        (data, mime)
    }
}


/// A download is zipped only when asked for with `zip_flag` 1: any other flag
/// gives the stored file itself, under the name made from the title and with
/// the format's own MIME type; and a zipped plan always comes from flag 1.
pub proof fn lemma_zip_only_on_request(title: Seq<char>, format: Seq<char>, filename: Seq<char>, zip_flag: i32)
    ensures
        zip_flag != 1 ==> download_plan_spec(title, format, filename, zip_flag) == (
        DownloadPlanView::Plain {
            name: title_to_filename_spec(title, format, filename),
            mime: mime_for_format_spec(format),
        }),
        (download_plan_spec(title, format, filename, zip_flag) is Zipped) ==> zip_flag == 1,
        zip_flag == 1 && format == "fb2"@ ==> (download_plan_spec(title, format, filename, zip_flag) is Zipped),
{
    reveal_strlit("fb2");
    reveal_strlit("epub");
    reveal_strlit("mobi");
    if zip_flag == 1 && format == "fb2"@ {
        assert(!is_nozip_format_spec(format)) by {
            assert(format.len() == 3);
        }
    }
}

} // verus!
