use std::io::{Cursor, Read};

use ropds::db::models::Book;
use ropds::opds::delivery::{
    archive_entry_bytes, book_cover, book_location, cover_payload, download_plan, make_thumbnail,
    wrap_in_zip, BookLocation, DownloadPlan,
};

fn book(format: &str, title: &str, filename: &str) -> Book {
    Book {
        id: 1,
        catalog_id: 1,
        filename: filename.to_string(),
        path: "lib".to_string(),
        format: format.to_string(),
        title: title.to_string(),
        search_title: title.to_uppercase(),
        annotation: String::new(),
        docdate: String::new(),
        lang: String::new(),
        lang_code: 2,
        size: 10,
        avail: 2,
        cat_type: 0,
        cover: 0,
        cover_type: String::new(),
        reg_date: String::new(),
    }
}

#[test]
fn books_are_files_or_archive_entries() {
    assert_eq!(book_location(0), BookLocation::File);
    assert_eq!(book_location(1), BookLocation::InArchive);
    assert_eq!(book_location(2), BookLocation::InArchive);
    assert_eq!(book_location(3), BookLocation::InArchive);
    assert_eq!(book_location(7), BookLocation::Unknown);
}

#[test]
fn downloads_are_named_after_titles_and_zipped_on_request() {
    match download_plan(&book("fb2", "War and Peace", "123.fb2"), 1) {
        DownloadPlan::Zipped { name, mime, entry_name } => {
            assert_eq!(name, "War_and_Peace.fb2.zip");
            assert_eq!(mime, "application/fb2+zip");
            assert_eq!(entry_name, "123.fb2");
        }
        DownloadPlan::Plain { .. } => panic!("fb2 is zipped on request"),
    }
    match download_plan(&book("epub", "War and Peace", "123.epub"), 1) {
        DownloadPlan::Plain { name, mime } => {
            assert_eq!(name, "War_and_Peace.epub");
            assert_eq!(mime, "application/epub+zip");
        }
        DownloadPlan::Zipped { .. } => panic!("epub is never zipped"),
    }
}

#[test]
fn zipped_books_read_back() {
    let z = wrap_in_zip("123.fb2", b"<FictionBook/>").expect("writing to memory must succeed");
    let mut a = zip::ZipArchive::new(Cursor::new(z.clone())).unwrap();
    let mut data = Vec::new();
    a.by_name("123.fb2").unwrap().read_to_end(&mut data).unwrap();
    assert_eq!(data, b"<FictionBook/>".to_vec());
    assert_eq!(archive_entry_bytes(z.clone(), "123.fb2"), Some(b"<FictionBook/>".to_vec()));
    assert_eq!(archive_entry_bytes(z, "missing.fb2"), None);
    assert_eq!(archive_entry_bytes(b"junk".to_vec(), "123.fb2"), None);
}

#[test]
fn covers_and_thumbnails() {
    assert_eq!(book_cover("fb2", b"whatever".to_vec()), None);
    let img = image::DynamicImage::new_rgb8(300, 200);
    let mut png = Cursor::new(Vec::new());
    img.write_to(&mut png, image::ImageFormat::Png).unwrap();
    let png = png.into_inner();
    let thumb = make_thumbnail(&png, 100).expect("a PNG makes a thumbnail");
    let t = image::load_from_memory(&thumb).unwrap();
    assert_eq!(image::GenericImageView::dimensions(&t), (100, 67));
    let (data, mime) = cover_payload(png.clone(), "image/png".to_string(), false);
    assert_eq!((data, mime.as_str()), (png.clone(), "image/png"));
    let (_, mime) = cover_payload(png, "image/png".to_string(), true);
    assert_eq!(mime, "image/jpeg");
    let (data, mime) = cover_payload(b"junk".to_vec(), "image/gif".to_string(), true);
    assert_eq!((data, mime.as_str()), (b"junk".to_vec(), "image/gif"));
}
