use std::io::{Cursor, Write};

use image::{DynamicImage, GenericImageView};
use mobi::headers::Language;
use ropds::config::CoverImageConfig;
use ropds::parsers::inpx::{default_folder, parse, parse_inp_line, split_byte_lines, InpxError, INPX_SEPARATOR};
use ropds::parsers::mobi::{detect_image_mime, language_to_code, parse_bytes, split_authors, strip_html_tags};
use ropds::scanner::cover::{
    cover_plan, mime_to_ext, normalize_cover_for_storage_with_options, normalize_mime, CoverPlan,
};
use ropds::scanner::{
    cover_candidates, cover_dirs_to_prune, cover_storage_path, fallback_meta, legacy_cover_storage_path, ScanCounter,
    ScanError, ScanResult, ScanState, ScanStats, ScanStatsSnapshot,
};

fn test_cover_cfg() -> CoverImageConfig {
    CoverImageConfig::new(0, 0)
}

fn make_inpx_zip(entries: &[(&str, &str)]) -> Vec<u8> {
    let mut out = Cursor::new(Vec::new());
    {
        let mut zip = zip::ZipWriter::new(&mut out);
        let opts = zip::write::SimpleFileOptions::default()
            .compression_method(zip::CompressionMethod::Stored);
        for (name, data) in entries {
            zip.start_file(*name, opts).unwrap();
            zip.write_all(data.as_bytes()).unwrap();
        }
        zip.finish().unwrap();
    }
    out.into_inner()
}

#[allow(clippy::too_many_arguments)]
fn inpx_line(
    author: &str,
    genre: &str,
    title: &str,
    series: &str,
    ser_no: &str,
    file: &str,
    size: &str,
    del: &str,
    ext: &str,
    date: &str,
    lang: &str,
) -> String {
    let sep = INPX_SEPARATOR;
    format!(
        "{author}{sep}{genre}{sep}{title}{sep}{series}{sep}{ser_no}{sep}{file}{sep}{size}{sep}lib{sep}{del}{sep}{ext}{sep}{date}{sep}{lang}"
    )
}

#[test]
fn test_scan_result_store_and_take() {
    let mut state = ScanState::new();
    state.store_scan_result(ScanResult {
        ok: true,
        stats: Some(ScanStatsSnapshot::default()),
        error: None,
    });
    assert!(state.take_last_scan_result().is_some());
    assert!(state.take_last_scan_result().is_none());
    assert!(!state.is_scanning());
}

#[test]
fn second_scan_is_refused_until_the_first_ends() {
    let mut state = ScanState::new();
    assert!(state.try_begin_scan().is_ok());
    assert!(state.is_scanning());
    assert!(matches!(state.try_begin_scan(), Err(ScanError::AlreadyRunning)));
    state.end_scan();
    assert!(!state.is_scanning());
    assert!(state.try_begin_scan().is_ok());
}

#[test]
fn scan_stats_count_each_counter() {
    let mut stats = ScanStats::new();
    stats.count(ScanCounter::BooksAdded);
    stats.count(ScanCounter::BooksAdded);
    stats.count(ScanCounter::Errors);
    stats.set_books_deleted(4);
    let snap = stats.snapshot();
    assert_eq!(snap.books_added, 2);
    assert_eq!(snap.errors, 1);
    assert_eq!(snap.books_deleted, 4);
    assert_eq!(snap.books_skipped, 0);
}

#[test]
fn test_default_folder() {
    assert_eq!(default_folder("fb2-000001.inp"), "fb2-000001.zip");
    assert_eq!(default_folder("nested/file.inp"), "file.zip");
}

#[test]
fn test_parse_inpx_archive_records() {
    let good = inpx_line(
        "Asimov,Isaac:Clarke,Arthur",
        "sf:space_opera",
        "Foundation",
        "Series:Ignored",
        "2",
        "foundation",
        "12345",
        "0",
        "fb2",
        "1951",
        "en",
    );
    let deleted = inpx_line(
        "Nobody", "sf", "Deleted", "", "0", "deleted", "1", "1", "fb2", "", "en",
    );
    let zip_data = make_inpx_zip(&[(
        "pack-0001.inp",
        &format!("{good}\n{deleted}\nshort{sep}\n", sep = INPX_SEPARATOR),
    )]);

    let records = match parse(zip_data) {
        Ok(r) => r,
        Err(_) => panic!("a valid index must parse"),
    };
    assert_eq!(records.len(), 1);

    let r = &records[0];
    assert_eq!(r.filename, "foundation.fb2");
    assert_eq!(r.folder, "pack-0001.zip");
    assert_eq!(r.format, "fb2");
    assert_eq!(r.size, 12345);
    assert_eq!(r.meta.title, "Foundation");
    assert_eq!(
        r.meta.authors,
        vec!["Asimov Isaac".to_string(), "Clarke Arthur".to_string()]
    );
    assert_eq!(
        r.meta.genres,
        vec!["sf".to_string(), "space_opera".to_string()]
    );
    assert_eq!(r.meta.series_title, Some("Series".to_string()));
    assert_eq!(r.meta.series_index, 2);
    assert_eq!(r.meta.docdate, "1951");
    assert_eq!(r.meta.lang, "en");
}

#[test]
fn test_parse_invalid_zip_error() {
    let err = parse(b"not-a-zip".to_vec());
    assert!(matches!(err, Err(InpxError::Zip(_))));
}

#[test]
fn inp_line_with_too_few_fields_is_skipped() {
    let line = format!("a{sep}b{sep}c", sep = INPX_SEPARATOR);
    assert!(parse_inp_line(&line, "x.zip").is_none());
}

#[test]
fn byte_lines_split_at_newlines_and_drop_carriage_returns() {
    let lines = split_byte_lines(b"one\r\ntwo\nthree");
    assert_eq!(lines, vec![b"one".to_vec(), b"two".to_vec(), b"three".to_vec()]);
}

#[test]
fn test_author_splitting() {
    let input = "Author One & Author Two ; Author Three";
    let authors = split_authors(input);
    assert_eq!(
        authors,
        vec![
            "Author One".to_string(),
            "Author Two".to_string(),
            "Author Three".to_string()
        ]
    );
}

#[test]
fn test_strip_html_tags() {
    assert_eq!(strip_html_tags("<p>Hello</p>"), "Hello");
    assert_eq!(
        strip_html_tags("<b>Bold</b> and <i>italic</i>"),
        "Bold and italic"
    );
    assert_eq!(strip_html_tags("No tags here"), "No tags here");
    assert_eq!(strip_html_tags(""), "");
}

#[test]
fn test_detect_image_mime() {
    assert_eq!(detect_image_mime(&[0xFF, 0xD8, 0xFF, 0xE0]), "image/jpeg");
    assert_eq!(
        detect_image_mime(&[0x89, 0x50, 0x4E, 0x47, 0x0D]),
        "image/png"
    );
    assert_eq!(detect_image_mime(b"GIF89a"), "image/gif");
    assert_eq!(
        detect_image_mime(&[0x00, 0x00, 0x00, 0x00]),
        "application/octet-stream"
    );
}

#[test]
fn test_language_to_code() {
    assert_eq!(language_to_code(u8::from(Language::English)), "en");
    assert_eq!(language_to_code(u8::from(Language::Russian)), "ru");
    assert_eq!(language_to_code(u8::from(Language::Unknown)), "");
}

#[test]
fn cover_paths_use_two_levels_of_thousands() {
    assert_eq!(
        cover_storage_path("/covers", 1_500_123, "jpg"),
        "/covers/001/500/1500123.jpg"
    );
    assert_eq!(legacy_cover_storage_path("/covers", 42, "png"), "/covers/42.png");
    let candidates = cover_candidates("/covers", 42);
    assert!(candidates.contains(&"/covers/000/000/42.jpg".to_string()));
    assert!(candidates.contains(&"/covers/42.gif".to_string()));
}

#[test]
fn cover_dirs_to_prune_stops_at_covers_dir() {
    assert_eq!(
        cover_dirs_to_prune("/covers", "/covers/001/500/1500123.jpg"),
        vec!["/covers/001/500".to_string(), "/covers/001".to_string()]
    );
    assert_eq!(cover_dirs_to_prune("/covers", "/covers/42.jpg"), Vec::<String>::new());
    assert_eq!(cover_dirs_to_prune("covers", "covers/000/7.png"), vec!["covers/000".to_string()]);
    assert_eq!(cover_dirs_to_prune("covers", "7.png"), Vec::<String>::new());
}

#[test]
fn cover_mime_helpers() {
    assert_eq!(mime_to_ext("image/png"), "png");
    assert_eq!(mime_to_ext("image/gif"), "gif");
    assert_eq!(mime_to_ext("image/jpeg"), "jpg");
    assert_eq!(normalize_mime("image/png"), "image/png");
    assert_eq!(normalize_mime("image/webp"), "image/jpeg");
}

#[test]
fn cover_plan_keeps_small_jpeg_and_reencodes_others() {
    assert_eq!(cover_plan(Some((100, 200)), "image/jpeg", 600), CoverPlan::Keep);
    assert_eq!(
        cover_plan(Some((100, 200)), "image/png", 600),
        CoverPlan::Reencode { resize: false }
    );
    assert_eq!(
        cover_plan(Some((1800, 1200)), "image/jpeg", 600),
        CoverPlan::Reencode { resize: true }
    );
    assert_eq!(cover_plan(None, "image/png", 600), CoverPlan::Keep);
}

#[test]
fn test_normalize_cover_for_storage_converts_non_jpeg_and_resizes_when_needed() {
    let small = DynamicImage::new_rgb8(320, 480);
    let mut small_png = Cursor::new(Vec::new());
    small
        .write_to(&mut small_png, image::ImageFormat::Png)
        .unwrap();
    let small_bytes = small_png.into_inner();
    let cfg = test_cover_cfg();
    let (converted_data, converted_mime) =
        normalize_cover_for_storage_with_options(&small_bytes, "image/png", cfg);
    assert_eq!(converted_mime, "image/jpeg");
    assert_ne!(converted_data, small_bytes);
    assert!(matches!(
        image::guess_format(&converted_data),
        Ok(image::ImageFormat::Jpeg)
    ));

    let large = DynamicImage::new_rgb8(1800, 1200);
    let mut large_png = Cursor::new(Vec::new());
    large
        .write_to(&mut large_png, image::ImageFormat::Png)
        .unwrap();
    let (resized_data, resized_mime) =
        normalize_cover_for_storage_with_options(&large_png.into_inner(), "image/png", cfg);
    assert_eq!(resized_mime, "image/jpeg");
    let resized = image::load_from_memory(&resized_data).unwrap();
    let (w, h) = resized.dimensions();
    assert_eq!(w.max(h), cfg.scale_to());
}

#[test]
fn test_normalize_cover_for_storage_converts_gif_to_jpeg() {
    let gif_1x1 = b"GIF89a\x01\x00\x01\x00\x80\x00\x00\
\x00\x00\x00\xff\xff\xff!\xf9\x04\x01\x00\x00\x00\x00,\
\x00\x00\x00\x00\x01\x00\x01\x00\x00\x02\x02D\x01\x00;";
    let cfg = test_cover_cfg();
    let (converted_data, converted_mime) =
        normalize_cover_for_storage_with_options(gif_1x1, "image/gif", cfg);
    assert_eq!(converted_mime, "image/jpeg");
    assert!(matches!(
        image::guess_format(&converted_data),
        Ok(image::ImageFormat::Jpeg)
    ));
}

#[test]
fn undecodable_cover_is_kept_as_is() {
    let (data, mime) =
        normalize_cover_for_storage_with_options(b"not an image", "image/png", test_cover_cfg());
    assert_eq!(data, b"not an image".to_vec());
    assert_eq!(mime, "image/png");
}

#[test]
fn test_parse_book_bytes_fallback_for_unknown_ext() {
    let meta = fallback_meta("my-file.txt");
    assert_eq!(meta.title, "my-file");
}

#[test]
fn test_parse_bytes_invalid_data() {
    let result = parse_bytes(b"not a mobi file");
    assert!(result.is_err(), "should fail on invalid data");
}
