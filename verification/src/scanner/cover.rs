//! Cover files: where they are stored and how they are normalised.
use vstd::prelude::*;
use image::GenericImageView;
use image::codecs::jpeg::JpegEncoder;
use crate::config::CoverImageConfig;
use crate::decimal::{digit_char, push_signed_decimal, signed_decimal};
use crate::text::{extend_chars, extend_str, from_chars, str_eq, to_chars};

verus! {

// ---------------------------------------------------------------------------
// Storage paths
// ---------------------------------------------------------------------------

/// `Path::join` of a relative segment that does not start with `/`.
pub open spec fn path_join(base: Seq<char>, seg: Seq<char>) -> Seq<char> {
    if base.len() == 0 {
        seg
    } else if base.last() == '/' {
        base + seg
    } else {
        base + seq!['/'] + seg
    }
}

/// Three decimal digits, zero-padded (`{:03}` of a number below 1000).
pub open spec fn pad3(n: nat) -> Seq<char> {
    seq![digit_char(n / 100), digit_char((n / 10) % 10), digit_char(n % 10)]
}

/// The magnitude of a book id (`i64::unsigned_abs`).
pub open spec fn id_magnitude(book_id: i64) -> nat {
    if book_id < 0 {
        (-book_id) as nat
    } else {
        book_id as nat
    }
}

/// `{book_id}.{ext}`
pub open spec fn cover_file_name(book_id: i64, ext: Seq<char>) -> Seq<char> {
    signed_decimal(book_id as int) + seq!['.'] + ext
}

pub open spec fn thousands_bucket(book_id: i64) -> Seq<char> {
    pad3((id_magnitude(book_id) / 1000) % 1000)
}

pub open spec fn millions_bucket(book_id: i64) -> Seq<char> {
    pad3((id_magnitude(book_id) / 1_000_000) % 1000)
}

/// `{covers}/{thousands:03}/{id}.{ext}`
pub open spec fn cover_storage_path_spec(covers: Seq<char>, book_id: i64, ext: Seq<char>) -> Seq<
    char,
> {
    path_join(path_join(covers, thousands_bucket(book_id)), cover_file_name(book_id, ext))
}

/// `{covers}/{millions:03}/{thousands:03}/{id}.{ext}`
pub open spec fn two_level_cover_storage_path_spec(
    covers: Seq<char>,
    book_id: i64,
    ext: Seq<char>,
) -> Seq<char> {
    path_join(
        path_join(path_join(covers, millions_bucket(book_id)), thousands_bucket(book_id)),
        cover_file_name(book_id, ext),
    )
}

/// `{covers}/{id}.{ext}`
pub open spec fn legacy_cover_storage_path_spec(covers: Seq<char>, book_id: i64, ext: Seq<char>) -> Seq<
    char,
> {
    path_join(covers, cover_file_name(book_id, ext))
}

fn join_seg(base: &mut Vec<char>, seg: &[char])
    ensures
        final(base)@ == path_join(old(base)@, seg@),
{
    if base.len() == 0 {
        extend_chars(base, seg);
        proof {
            assert(base@ =~= seg@);
        }
    } else if base[base.len() - 1] == '/' {
        extend_chars(base, seg);
    } else {
        base.push('/');
        extend_chars(base, seg);
    }
}

fn pad3_chars(n: u64) -> (r: Vec<char>)
    requires
        n < 1000,
    ensures
        r@ == pad3(n as nat),
{
    let mut r: Vec<char> = Vec::new();
    r.push(((('0' as u32) + ((n / 100) as u32)) as u8) as char);
    r.push(((('0' as u32) + (((n / 10) % 10) as u32)) as u8) as char);
    r.push(((('0' as u32) + ((n % 10) as u32)) as u8) as char);
    proof {
        assert(r@ =~= pad3(n as nat));
    }
    r
}

fn magnitude(book_id: i64) -> (r: u64)
    ensures
        r as nat == id_magnitude(book_id),
{
    if book_id < 0 {
        if book_id == i64::MIN {
            9223372036854775808u64
        } else {
            (-book_id) as u64
        }
    } else {
        book_id as u64
    }
}

fn file_name_chars(book_id: i64, ext: &str) -> (r: Vec<char>)
    ensures
        r@ == cover_file_name(book_id, ext@),
{
    let mut r: Vec<char> = Vec::new();
    push_signed_decimal(&mut r, book_id);
    r.push('.');
    extend_str(&mut r, ext);
    proof {
        assert(r@ =~= cover_file_name(book_id, ext@));
    }
    r
}

/// Hierarchical storage path of a cover file:
/// `{covers_dir}/{bucket_thousands}/{book_id}.{ext}`.
pub fn cover_storage_path(covers_path: &str, book_id: i64, ext: &str) -> (r: String)
    ensures
        r@ == cover_storage_path_spec(covers_path@, book_id, ext@),
{
    let id = magnitude(book_id);
    let thousands = pad3_chars((id / 1000) % 1000);
    let mut p = to_chars(covers_path);
    join_seg(&mut p, thousands.as_slice());
    let name = file_name_chars(book_id, ext);
    join_seg(&mut p, name.as_slice());
    from_chars(p.as_slice())
}

/// Two-level hierarchical storage path of a cover file:
/// `{covers_dir}/{bucket_millions}/{bucket_thousands}/{book_id}.{ext}`.
pub fn two_level_cover_storage_path(covers_path: &str, book_id: i64, ext: &str) -> (r: String)
    ensures
        r@ == two_level_cover_storage_path_spec(covers_path@, book_id, ext@),
{
    let id = magnitude(book_id);
    let millions = pad3_chars((id / 1_000_000) % 1000);
    let thousands = pad3_chars((id / 1000) % 1000);
    let mut p = to_chars(covers_path);
    join_seg(&mut p, millions.as_slice());
    join_seg(&mut p, thousands.as_slice());
    let name = file_name_chars(book_id, ext);
    join_seg(&mut p, name.as_slice());
    from_chars(p.as_slice())
}

/// Flat storage path of a cover file: `{covers_dir}/{book_id}.{ext}`.
pub fn legacy_cover_storage_path(covers_path: &str, book_id: i64, ext: &str) -> (r: String)
    ensures
        r@ == legacy_cover_storage_path_spec(covers_path@, book_id, ext@),
{
    let mut p = to_chars(covers_path);
    let name = file_name_chars(book_id, ext);
    join_seg(&mut p, name.as_slice());
    from_chars(p.as_slice())
}

// ---------------------------------------------------------------------------
// MIME types of covers
// ---------------------------------------------------------------------------

pub open spec fn mime_to_ext_spec(mime: Seq<char>) -> Seq<char> {
    if mime == "image/png"@ {
        "png"@
    } else if mime == "image/gif"@ {
        "gif"@
    } else {
        "jpg"@
    }
}

/// File extension of a stored cover.
pub fn mime_to_ext(mime: &str) -> (r: &'static str)
    ensures
        r@ == mime_to_ext_spec(mime@),
{
    if str_eq(mime, "image/png") {
        "png"
    } else if str_eq(mime, "image/gif") {
        "gif"
    } else {
        "jpg"
    }
}

pub open spec fn normalize_mime_spec(mime: Seq<char>) -> Seq<char> {
    if mime == "image/png"@ {
        "image/png"@
    } else if mime == "image/gif"@ {
        "image/gif"@
    } else {
        "image/jpeg"@
    }
}

/// PNG and GIF stay as they are; every other type is stored as JPEG.
pub fn normalize_mime(mime: &str) -> (r: &'static str)
    ensures
        r@ == normalize_mime_spec(mime@),
{
    if str_eq(mime, "image/png") {
        "image/png"
    } else if str_eq(mime, "image/gif") {
        "image/gif"
    } else {
        "image/jpeg"
    }
}

pub open spec fn is_jpeg_mime(mime: Seq<char>) -> bool {
    mime == "image/jpeg"@ || mime == "image/jpg"@ || mime == "image/pjpeg"@
}


// ---------------------------------------------------------------------------
// Normalising cover images
// ---------------------------------------------------------------------------

/// What is done with a cover image before it is stored.
#[derive(Debug, Clone, Copy, PartialEq, Eq, Structural)]
pub enum CoverPlan {
    /// Store the bytes as they came.
    Keep,
    /// Store a JPEG encoding, scaled down first where `resize` is set.
    Reencode { resize: bool },
}

/// Undecodable images, and JPEG images within the size bound, are kept;
/// others are re-encoded as JPEG, scaled down when larger than the bound.
pub open spec fn cover_plan_spec(dims: Option<(u32, u32)>, mime: Seq<char>, max_dimension: u32) -> CoverPlan {
    match dims {
        None => CoverPlan::Keep,
        Some((w, h)) => {
            let needs_resize = (if w >= h {
                w
            } else {
                h
            }) > max_dimension;
            if !needs_resize && is_jpeg_mime(mime) {
                CoverPlan::Keep
            } else {
                CoverPlan::Reencode { resize: needs_resize }
            }
        },
    }
}

pub fn cover_plan(dims: Option<(u32, u32)>, mime: &str, max_dimension: u32) -> (r: CoverPlan)
    ensures
        r == cover_plan_spec(dims, mime@, max_dimension),
{
    match dims {
        None => CoverPlan::Keep,
        Some((w, h)) => {
            let largest = if w >= h {
                w
            } else {
                h
            };
            let needs_resize = largest > max_dimension;
            let is_jpeg = str_eq(mime, "image/jpeg") || str_eq(mime, "image/jpg") || str_eq(
                mime,
                "image/pjpeg",
            );
            if !needs_resize && is_jpeg {
                CoverPlan::Keep
            } else {
                CoverPlan::Reencode { resize: needs_resize }
            }
        },
    }
}

/// Whether `image::load_from_memory` decodes the bytes.
pub uninterp spec fn image_decodes(data: Seq<u8>) -> bool;

/// The width and height in pixels of the image that `image::load_from_memory`
/// decodes from the bytes.
pub uninterp spec fn decoded_dimensions(data: Seq<u8>) -> (u32, u32);

/// `image::load_from_memory`, then `GenericImageView::dimensions` of the
/// image: its size exactly when the bytes decode.
#[verifier::external_body]
pub(crate) fn decoded_size(data: &[u8]) -> (r: Option<(u32, u32)>)
    ensures
        r is Some <==> image_decodes(data@),
        r matches Some(d) ==> d == decoded_dimensions(data@),
{
    match image::load_from_memory(data) {
        Ok(img) => Some(img.dimensions()),
        Err(_) => None,
    }
}

pub open spec fn opt_bytes(o: Option<Vec<u8>>) -> Option<Seq<u8>> {
    match o {
        Some(v) => Some(v@),
        None => None,
    }
}

/// What `JpegEncoder::new_with_quality(.., quality).encode_image` writes for
/// the image `image::load_from_memory` decodes from the bytes; `None` where
/// decoding or encoding fails.
pub uninterp spec fn cover_jpeg(data: Seq<u8>, quality: u8) -> Option<Seq<u8>>;

/// The same for the decoded image first scaled with `DynamicImage::resize`
/// (Lanczos filter) to fit a square of side `max_dimension`.
pub uninterp spec fn resized_cover_jpeg(data: Seq<u8>, max_dimension: u32, quality: u8) -> Option<
    Seq<u8>,
>;

/// `image::load_from_memory`, then `JpegEncoder::encode_image` at the given
/// quality into memory.
#[verifier::external_body]
fn encode_cover_jpeg(data: &[u8], quality: u8) -> (r: Option<Vec<u8>>)
    ensures
        opt_bytes(r) == cover_jpeg(data@, quality),
        !image_decodes(data@) ==> r is None,
{
    let img = image::load_from_memory(data).ok()?;
    let mut out = std::io::Cursor::new(Vec::new());
    let mut encoder = JpegEncoder::new_with_quality(&mut out, quality);
    encoder.encode_image(&img).ok()?;
    Some(out.into_inner())
}

/// `image::load_from_memory`, `DynamicImage::resize` (Lanczos filter) to fit
/// a square of side `max_dimension`, then `JpegEncoder::encode_image` at the
/// given quality into memory.
#[verifier::external_body]
fn encode_resized_cover_jpeg(data: &[u8], max_dimension: u32, quality: u8) -> (r: Option<Vec<u8>>)
    ensures
        opt_bytes(r) == resized_cover_jpeg(data@, max_dimension, quality),
        !image_decodes(data@) ==> r is None,
{
    let img = image::load_from_memory(data).ok()?;
    let img = img.resize(max_dimension, max_dimension, image::imageops::FilterType::Lanczos3);
    let mut out = std::io::Cursor::new(Vec::new());
    let mut encoder = JpegEncoder::new_with_quality(&mut out, quality);
    encoder.encode_image(&img).ok()?;
    Some(out.into_inner())
}

/// A copy of the bytes.
pub fn copy_bytes(data: &[u8]) -> (r: Vec<u8>)
    ensures
        r@ == data@,
{
    let mut r: Vec<u8> = Vec::new();
    let mut i: usize = 0;
    while i < data.len()
        invariant
            i <= data.len(),
            r@ == data@.take(i as int),
        decreases data.len() - i,
    {
        r.push(data[i]);
        proof {
            assert(data@.take(i + 1) =~= data@.take(i as int).push(data@[i as int]));
        }
        i += 1;
    }
    proof {
        assert(data@.take(data.len() as int) =~= data@);
    }
    r
}

/// The stored form of a cover: images that do not decode, and JPEG images
/// within the size bound, keep their bytes (their MIME type normalised);
/// others are re-encoded as JPEG, scaled down first when too large, keeping
/// the original bytes where encoding fails.
pub open spec fn normalized_cover(data: Seq<u8>, mime: Seq<char>, max_dimension: u32, quality: u8) -> (
    Seq<u8>,
    Seq<char>,
) {
    let kept = (data, normalize_mime_spec(mime));
    if !image_decodes(data) {
        kept
    } else {
        match cover_plan_spec(Some(decoded_dimensions(data)), mime, max_dimension) {
            CoverPlan::Keep => kept,
            CoverPlan::Reencode { resize } => {
                let encoded = if resize {
                    resized_cover_jpeg(data, max_dimension, quality)
                } else {
                    cover_jpeg(data, quality)
                };
                match encoded {
                    Some(b) => (b, "image/jpeg"@),
                    None => kept,
                }
            },
        }
    }
}

/// Normalise a cover for storage (see `normalized_cover`).
pub fn normalize_cover_for_storage_with_options(
    data: &[u8],
    mime: &str,
    cover_cfg: CoverImageConfig,
) -> (r: (Vec<u8>, String))
    ensures
        (r.0@, r.1@) == normalized_cover(
            data@,
            mime@,
            cover_cfg.spec_scale_to(),
            cover_cfg.spec_jpeg_quality(),
        ),
{
    let max_dimension = cover_cfg.scale_to();
    let quality = cover_cfg.jpeg_quality();
    let (w, h) = match decoded_size(data) {
        Some(d) => d,
        None => return (copy_bytes(data), normalize_mime(mime).to_owned()),
    };
    match cover_plan(Some((w, h)), mime, max_dimension) {
        CoverPlan::Keep => (copy_bytes(data), normalize_mime(mime).to_owned()),
        CoverPlan::Reencode { resize } => {
            let encoded = if resize {
                encode_resized_cover_jpeg(data, max_dimension, quality)
            } else {
                encode_cover_jpeg(data, quality)
            };
            match encoded {
                Some(bytes) => (bytes, "image/jpeg".to_owned()),
                None => (copy_bytes(data), normalize_mime(mime).to_owned()),
            }
        },
    }
}

/// The file a cover is saved to and the bytes written there: the normalised
/// image, under the two-level storage path for its normalised type.
pub fn prepare_cover(
    covers_path: &str,
    book_id: i64,
    data: &[u8],
    mime: &str,
    cover_cfg: CoverImageConfig,
) -> (r: (String, Vec<u8>))
    ensures
        ({
            let n = normalized_cover(
                data@,
                mime@,
                cover_cfg.spec_scale_to(),
                cover_cfg.spec_jpeg_quality(),
            );
            &&& r.1@ == n.0
            &&& r.0@ == two_level_cover_storage_path_spec(covers_path@, book_id, mime_to_ext_spec(n.1))
        }),
{
    let (bytes, normalized_mime) = normalize_cover_for_storage_with_options(data, mime, cover_cfg);
    proof {
        reveal_strlit("image/jpeg");
        reveal_strlit("image/png");
        reveal_strlit("image/gif");
        assert("image/jpeg"@[6] != "image/png"@[6]);
        assert("image/jpeg"@[6] != "image/gif"@[6]);
    }
    let ext = mime_to_ext(normalized_mime.as_str());
    let path = two_level_cover_storage_path(covers_path, book_id, ext);
    (path, bytes)
}

/// The directories of a two-level cover path, with their separators.
pub open spec fn two_level_prefix(covers: Seq<char>, book_id: i64) -> Seq<char> {
    path_join(covers, millions_bucket(book_id)) + seq!['/'] + thousands_bucket(book_id) + seq!['/']
}

proof fn lemma_joined_shape(covers: Seq<char>, book_id: i64, ext: Seq<char>)
    ensures
        two_level_cover_storage_path_spec(covers, book_id, ext) == two_level_prefix(covers, book_id)
            + cover_file_name(book_id, ext),
        two_level_prefix(covers, book_id).len() == path_join(covers, seq!['0', '0', '0']).len() + 5,
{
    let m = millions_bucket(book_id);
    let j1 = path_join(covers, m);
    assert(m.len() == 3);
    assert(j1.last() == m[2]);
    assert(j1.last() != '/');
    let j2 = path_join(j1, thousands_bucket(book_id));
    assert(j2 == j1 + seq!['/'] + thousands_bucket(book_id));
    assert(j2.last() != '/');
    assert(two_level_cover_storage_path_spec(covers, book_id, ext) =~= two_level_prefix(covers, book_id)
        + cover_file_name(book_id, ext));
}

proof fn lemma_skip_concat(x: Seq<char>, y: Seq<char>)
    ensures
        (x + y).skip(x.len() as int) == y,
{
    assert((x + y).skip(x.len() as int) =~= y);
}

proof fn lemma_decimal_has_no_dot(n: int)
    ensures
        forall|i: int| 0 <= i < signed_decimal(n).len() ==> #[trigger] signed_decimal(n)[i] != '.',
{
    crate::decimal::lemma_parse_signed_decimal(n);
    if n < 0 {
        crate::decimal::lemma_decimal_props((-n) as nat);
        let s = signed_decimal(n);
        assert forall|i: int| 0 <= i < s.len() implies #[trigger] s[i] != '.' by {
            if i > 0 {
                assert(s[i] == crate::decimal::decimal((-n) as nat)[i - 1]);
                assert(crate::decimal::all_digits(crate::decimal::decimal((-n) as nat)));
            }
        }
    } else {
        crate::decimal::lemma_decimal_props(n as nat);
        let s = signed_decimal(n);
        assert forall|i: int| 0 <= i < s.len() implies #[trigger] s[i] != '.' by {
            assert(crate::decimal::all_digits(crate::decimal::decimal(n as nat)));
        }
    }
}

/// Equal file names with the same extension name the same book.
proof fn lemma_cover_file_name_injective(a: i64, b: i64, ext: Seq<char>)
    requires
        cover_file_name(a, ext) == cover_file_name(b, ext),
    ensures
        a == b,
{
    let da = signed_decimal(a as int);
    let db = signed_decimal(b as int);
    let na = cover_file_name(a, ext);
    lemma_decimal_has_no_dot(a as int);
    lemma_decimal_has_no_dot(b as int);
    if da.len() < db.len() {
        assert(na[da.len() as int] == '.');
        assert(cover_file_name(b, ext)[da.len() as int] == db[da.len() as int]);
    } else if db.len() < da.len() {
        assert(cover_file_name(b, ext)[db.len() as int] == '.');
        assert(na[db.len() as int] == da[db.len() as int]);
    } else {
        assert forall|i: int| 0 <= i < da.len() implies da[i] == db[i] by {
            assert(na[i] == da[i]);
            assert(cover_file_name(b, ext)[i] == db[i]);
        }
        assert(da =~= db);
        crate::decimal::lemma_parse_signed_decimal(a as int);
        crate::decimal::lemma_parse_signed_decimal(b as int);
    }
}

/// Each book has its own cover files: for the same covers directory and
/// extension, the storage paths of two different books differ.
pub proof fn lemma_cover_paths_distinct(covers: Seq<char>, a: i64, b: i64, ext: Seq<char>)
    requires
        a != b,
    ensures
        two_level_cover_storage_path_spec(covers, a, ext) != two_level_cover_storage_path_spec(covers, b, ext),
{
    lemma_joined_shape(covers, a, ext);
    lemma_joined_shape(covers, b, ext);
    let xa = two_level_prefix(covers, a);
    let xb = two_level_prefix(covers, b);
    if two_level_cover_storage_path_spec(covers, a, ext) == two_level_cover_storage_path_spec(covers, b, ext) {
        lemma_skip_concat(xa, cover_file_name(a, ext));
        lemma_skip_concat(xb, cover_file_name(b, ext));
        lemma_cover_file_name_injective(a, b, ext);
    }
}

/// The legacy flat paths of two different books differ too.
pub proof fn lemma_legacy_cover_paths_distinct(covers: Seq<char>, a: i64, b: i64, ext: Seq<char>)
    requires
        a != b,
    ensures
        legacy_cover_storage_path_spec(covers, a, ext) != legacy_cover_storage_path_spec(covers, b, ext),
{
    let c = if covers.len() == 0 {
        covers
    } else if covers.last() == '/' {
        covers
    } else {
        covers + seq!['/']
    };
    assert(legacy_cover_storage_path_spec(covers, a, ext) =~= c + cover_file_name(a, ext));
    assert(legacy_cover_storage_path_spec(covers, b, ext) =~= c + cover_file_name(b, ext));
    if legacy_cover_storage_path_spec(covers, a, ext) == legacy_cover_storage_path_spec(covers, b, ext) {
        lemma_skip_concat(c, cover_file_name(a, ext));
        lemma_skip_concat(c, cover_file_name(b, ext));
        lemma_cover_file_name_injective(a, b, ext);
    }
}

} // verus!
