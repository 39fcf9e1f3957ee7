use ropds::opds::download::title_to_filename;
use ropds::opds::feeds::{
    add_lang_query, book_search, detect_opds_lang, locale_choices, locale_label, page_offset,
    search_books_href, search_page, BookSearch,
};
use ropds::opds::xml::{is_nozip_format, mime_for_format, mime_for_zip, FeedBuilder, NAV_TYPE};

#[test]
fn test_detect_opds_lang_parses_primary_language() {
    assert_eq!(
        detect_opds_lang(Some("fr-CA,fr;q=0.9,en;q=0.8"), "en", None),
        "fr"
    );
    assert_eq!(detect_opds_lang(Some("RU;q=0.8,en"), "en", None), "ru");
}

#[test]
fn test_detect_opds_lang_fallback_to_config() {
    assert_eq!(detect_opds_lang(None, "de", None), "de");
}

#[test]
fn test_detect_opds_lang_prefers_query_lang() {
    assert_eq!(detect_opds_lang(Some("fr"), "en", Some("ru")), "ru");
}

#[test]
fn detect_opds_lang_falls_back_to_english() {
    assert_eq!(detect_opds_lang(Some("*"), "", Some("x y")), "en");
    assert_eq!(detect_opds_lang(None, " PT-br ", None), "pt-br");
}

#[test]
fn test_add_lang_query_helper() {
    assert_eq!(
        add_lang_query("/opds/genres/", "ru"),
        "/opds/genres/?lang=ru"
    );
    assert_eq!(
        add_lang_query("/opds/genres/?page=1", "en"),
        "/opds/genres/?page=1&lang=en"
    );
}

#[test]
fn lang_query_escapes_reserved_and_multibyte_characters() {
    assert_eq!(add_lang_query("/opds/", "a b/c"), "/opds/?lang=a%20b%2Fc");
    assert_eq!(add_lang_query("/opds/?x=1", "Ж"), "/opds/?x=1&lang=%D0%96");
    assert_eq!(add_lang_query("/opds/", "safe-_.~"), "/opds/?lang=safe-_.~");
}

#[test]
fn locale_choices_are_sorted_and_unique() {
    let codes = vec![
        "ru".to_string(),
        "en".to_string(),
        "ru".to_string(),
        "not valid!".to_string(),
    ];
    assert_eq!(
        locale_choices(&codes, "de"),
        vec!["en".to_string(), "ru".to_string()]
    );
    assert_eq!(locale_choices(&Vec::new(), "de"), vec!["de".to_string()]);
}

#[test]
fn locale_labels() {
    assert_eq!(locale_label(Some("Français"), "fr"), "Français");
    assert_eq!(locale_label(None, "en"), "English");
    assert_eq!(locale_label(None, "ru"), "Русский");
    assert_eq!(locale_label(None, "de"), "DE");
}

#[test]
fn book_search_by_type() {
    assert!(matches!(book_search("a", "42"), BookSearch::ByAuthor(42)));
    assert!(matches!(book_search("s", "x"), BookSearch::BySeries(0)));
    assert!(matches!(book_search("g", "7"), BookSearch::ByGenre(7)));
    match book_search("t", "war and peace") {
        BookSearch::ByTitle(t) => assert_eq!(t, "WAR AND PEACE"),
        _ => panic!("a title search was expected"),
    }
}

#[test]
fn search_paging() {
    assert_eq!(search_page(None), 1);
    assert_eq!(search_page(Some(0)), 1);
    assert_eq!(search_page(Some(3)), 3);
    assert_eq!(page_offset(3, 50), 100);
    assert_eq!(
        search_books_href("t", "a b", 2, "en"),
        "/opds/search/books/t/a%20b/2/?lang=en"
    );
}

#[test]
fn download_names_from_titles() {
    assert_eq!(title_to_filename("War and Peace", "fb2", "x.fb2"), "War_and_Peace.fb2");
    assert_eq!(title_to_filename("  !!Hello, World!! ", "epub", "x.epub"), "Hello_World.epub");
    assert_eq!(title_to_filename("???", "fb2", "orig.fb2"), "orig.fb2");
    assert_eq!(title_to_filename("Война и мир", "fb2", "x.fb2"), "Война_и_мир.fb2");
    assert_eq!(title_to_filename("Don't-Stop", "fb2", "x.fb2"), "Don_t_Stop.fb2");
    assert_eq!(title_to_filename("Vol. 2", "epub", "x.epub"), "Vol_2.epub");
}

#[test]
fn formats_and_mime_types() {
    assert_eq!(mime_for_format("fb2"), "application/fb2+xml");
    assert_eq!(mime_for_format("epub"), "application/epub+zip");
    assert!(is_nozip_format("epub"));
    assert!(!is_nozip_format("fb2"));
    assert_eq!(mime_for_zip("fb2"), "application/fb2+zip");
    assert_eq!(mime_for_zip("pdf"), "application/pdf+zip");
}

#[test]
fn feed_builder_writes_an_atom_document() {
    let mut fb = FeedBuilder::new();
    assert!(fb
        .begin_feed("tag:root", "Catalog", "", "2024-01-01T00:00:00Z", "/opds/", "/opds/")
        .is_ok());
    assert!(fb
        .write_nav_entry("tag:authors", "Authors", "/opds/authors/", "By author", "2024-01-01T00:00:00Z")
        .is_ok());
    let bytes = match fb.finish() {
        Ok(b) => b,
        Err(_) => panic!("writing to memory must succeed"),
    };
    let xml = String::from_utf8(bytes).unwrap();
    assert!(xml.starts_with("<?xml version=\"1.0\" encoding=\"utf-8\"?>"));
    assert!(xml.contains("<feed xmlns=\"http://www.w3.org/2005/Atom\""));
    assert!(xml.contains("<title>Catalog</title>"));
    assert!(!xml.contains("<subtitle>"));
    assert!(xml.contains(&format!(
        "<link href=\"/opds/authors/\" rel=\"subsection\" type=\"{}\"/>",
        NAV_TYPE.replace('"', "&quot;")
    )));
    assert!(xml.contains("<content type=\"text\">By author</content>"));
    assert!(xml.trim_end().ends_with("</feed>"));
}

#[test]
fn feed_builder_escapes_text() {
    let mut fb = FeedBuilder::new();
    assert!(fb.begin_feed("id", "A & B <C>", "sub", "now", "/s", "/t").is_ok());
    let xml = match fb.finish() {
        Ok(b) => String::from_utf8(b).unwrap(),
        Err(_) => panic!("writing to memory must succeed"),
    };
    assert!(xml.contains("<title>A &amp; B &lt;C&gt;</title>"));
    assert!(xml.contains("<subtitle>sub</subtitle>"));
}
