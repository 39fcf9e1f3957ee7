use ropds::db::models::{Book, Genre};
use ropds::opds::documents::{
    catalogs_document, genres_root_document, genres_section_document, lang_selection_document,
    language_facets_document, paged_books_document, prefix_groups_document, prefix_list_document,
    search_names_document, search_types_document, PrefixKind, ScriptLabels, OPENSEARCH_DESCRIPTION,
};
use ropds::opds::feeds::{root_feed_document, BookEntryData, RootFeedText, ShelfEntry};

fn text(r: Result<Vec<u8>, ropds::opds::xml::XmlError>) -> String {
    match r {
        Ok(b) => String::from_utf8(b).unwrap(),
        Err(_) => panic!("writing to memory must succeed"),
    }
}

fn locales() -> Vec<(String, String)> {
    vec![
        ("en".to_string(), "English".to_string()),
        ("ru".to_string(), "Русский".to_string()),
    ]
}

fn sample_book(id: i64, title: &str) -> BookEntryData {
    BookEntryData {
        book: Book {
            id,
            catalog_id: 1,
            filename: format!("{id}.fb2"),
            path: "lib".to_string(),
            format: "fb2".to_string(),
            title: title.to_string(),
            search_title: title.to_uppercase(),
            annotation: String::new(),
            docdate: String::new(),
            lang: "en".to_string(),
            lang_code: 2,
            size: 2048,
            avail: 2,
            cat_type: 0,
            cover: 0,
            cover_type: String::new(),
            reg_date: "2024-05-01".to_string(),
        },
        authors: vec![(7, "Isaac Asimov".to_string())],
        genres: vec![("sf".to_string(), "Science fiction".to_string())],
    }
}

#[test]
fn test_lang_selection_feed_contains_expected_entries() {
    let labels = ScriptLabels {
        all: "Все языки".to_string(),
        cyrillic: "Кириллица".to_string(),
        latin: "Латиница".to_string(),
        digits: "Цифры".to_string(),
        other: "Другие".to_string(),
    };
    let xml = text(lang_selection_document("Авторы", "/opds/authors/", "ru", &locales(), &labels));
    assert!(xml.contains("Авторы"));
    assert!(xml.contains("/opds/authors/1/?lang=ru"));
    assert!(xml.contains("Кириллица"));
    assert!(xml.contains("Цифры"));
    assert!(xml.contains("/opds/authors/9/?lang=ru"));
    assert!(xml.contains("opds:activeFacet=\"true\""));
}

#[test]
fn test_root_feed_contains_recent_nav_entry() {
    let t = RootFeedText {
        title: "ROPDS".to_string(),
        subtitle: String::new(),
        by_catalogs: "By Catalogs".to_string(),
        by_authors: "By Authors".to_string(),
        by_genres: "By Genres".to_string(),
        by_series: "By Series".to_string(),
        by_title: "By Title".to_string(),
        by_recent: "Recently Added".to_string(),
        language_facets: "Language".to_string(),
        by_catalogs_content: "Browse by directory tree".to_string(),
        by_authors_content: "Browse by author".to_string(),
        by_genres_content: "Browse by genre".to_string(),
        by_series_content: "Browse by series".to_string(),
        by_title_content: "Browse by book title".to_string(),
        by_recent_content: "Browse newly scanned books".to_string(),
        language_facets_content: "Switch OPDS language facet".to_string(),
    };
    let xml = text(root_feed_document(&t, "en", &locales(), None));
    assert!(xml.contains("/opds/recent/"));
    assert!(!xml.contains("/opds/bookshelf/"));
    let shelf = ShelfEntry { label: "Shelf".to_string(), books_read_prefix: "Read".to_string(), count: 3 };
    let xml = text(root_feed_document(&t, "en", &locales(), Some(&shelf)));
    assert!(xml.contains("/opds/bookshelf/?lang=en"));
    assert!(xml.contains("Read: 3"));
}

#[test]
fn catalogs_feed_lists_children_and_books() {
    let children = vec![(5, "Fiction".to_string())];
    let books = vec![sample_book(11, "Foundation")];
    let xml = text(catalogs_document(3, 1, 1, "en", &locales(), &children, &books));
    assert!(xml.contains("<id>tag:catalogs:3:1</id>"));
    assert!(xml.contains("/opds/catalogs/5/?lang=en"));
    assert!(xml.contains("<title>Fiction</title>"));
    assert!(xml.contains("/opds/catalogs/3/2/?lang=en"));
    assert!(!xml.contains("rel=\"prev\""));
    assert!(xml.contains("<title>Foundation</title>"));

    let root = text(catalogs_document(0, 1, 50, "en", &locales(), &children, &books));
    assert!(root.contains("/opds/catalogs/?lang=en"));
    assert!(!root.contains("Foundation"));
}

#[test]
fn prefix_groups_open_or_list() {
    let groups = vec![("AS".to_string(), 120), ("AB".to_string(), 3)];
    let xml = text(prefix_groups_document(PrefixKind::Authors, 2, "A", 100, &groups));
    assert!(xml.contains("<id>tag:authors:2:A</id>"));
    assert!(xml.contains("/opds/authors/2/AS/\""));
    assert!(xml.contains("/opds/authors/2/AB/list/"));
    assert!(xml.contains("<content type=\"text\">120</content>"));
    let books = text(prefix_groups_document(PrefixKind::Books, 2, "", 100, &groups));
    assert!(books.contains("/opds/search/books/b/AB/"));
}

#[test]
fn name_lists_link_to_books() {
    let items = vec![(7, "Asimov Isaac".to_string())];
    let xml = text(prefix_list_document(PrefixKind::Series, 2, "F", 2, 1, &items));
    assert!(xml.contains("<title>Series: F</title>"));
    assert!(xml.contains("/opds/search/books/s/7/"));
    assert!(xml.contains("/opds/series/2/F/list/1/"));
    assert!(xml.contains("/opds/series/2/F/list/3/"));
    let found = text(search_names_document(PrefixKind::Authors, "asi mov", 1, 50, &items));
    assert!(found.contains("/opds/search/authors/m/asi%20mov/1/"));
    assert!(found.contains("<id>a:7</id>"));
}

#[test]
fn genre_feeds() {
    let sections = vec![("sf".to_string(), "Fantastic".to_string())];
    let xml = text(genres_root_document("en", &locales(), &sections));
    assert!(xml.contains("<id>gs:0</id>"));
    assert!(xml.contains("/opds/genres/sf/?lang=en"));
    let genres = vec![Genre {
        id: 4,
        code: "sf_space".to_string(),
        section: "Fantastic".to_string(),
        subsection: "Space".to_string(),
    }];
    let xml = text(genres_section_document("sf", "en", &locales(), &genres));
    assert!(xml.contains("<title>Fantastic</title>"));
    assert!(xml.contains("/opds/search/books/g/4/?lang=en"));
    let empty = text(genres_section_document("sf", "en", &locales(), &Vec::new()));
    assert!(empty.contains("<title>sf</title>"));
}

#[test]
fn language_facet_feed_and_paged_books() {
    let xml = text(language_facets_document("en", "Language facets", "Browse OPDS catalog in", &locales()));
    assert!(xml.contains("/opds/lang/ru/"));
    assert!(xml.contains("Browse OPDS catalog in Русский"));
    let books = vec![sample_book(11, "Foundation"), sample_book(12, "I, Robot")];
    let xml = text(paged_books_document("recent", "Recently Added", "/opds/recent/", 2, 2, "en", &locales(), &books));
    assert!(xml.contains("<id>tag:recent:2</id>"));
    assert!(xml.contains("/opds/recent/1/?lang=en"));
    assert!(xml.contains("/opds/recent/3/?lang=en"));
    assert!(xml.contains("I, Robot"));
}

#[test]
fn search_type_choice_and_opensearch() {
    let xml = text(search_types_document("war"));
    assert!(xml.contains("/opds/search/books/m/war/"));
    assert!(xml.contains("/opds/search/series/m/war/"));
    assert!(OPENSEARCH_DESCRIPTION.contains("template=\"/opds/search/{searchTerms}/\""));
}
