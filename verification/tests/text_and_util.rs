use ropds::paths::{path_is_name, rel_path};
use ropds::parsers::{detect_lang_code, normalise_author_name, strip_meta};
use ropds::util::slugify_username;
use ropds::web::pagination::Pagination;

#[test]
fn test_strip_meta_and_quotes() {
    assert_eq!(strip_meta("  --Title.;  "), "Title");
    assert_eq!(strip_meta("'Quoted'"), "Quoted");
    assert_eq!(strip_meta("\"Quoted\""), "Quoted");
    assert_eq!(strip_meta("«Quoted»"), "Quoted");
}

#[test]
fn test_detect_lang_code() {
    assert_eq!(detect_lang_code("Alpha"), 2);
    assert_eq!(detect_lang_code("9lives"), 3);
    assert_eq!(detect_lang_code("Журнал"), 1);
    assert_eq!(detect_lang_code(""), 9);
    assert_eq!(detect_lang_code("🙂"), 9);
}

#[test]
fn test_normalise_author_name() {
    assert_eq!(normalise_author_name("John Tolkien"), "Tolkien John");
    assert_eq!(
        normalise_author_name("John Ronald Tolkien"),
        "John Ronald Tolkien"
    );
    assert_eq!(normalise_author_name("Asimov, Isaac"), "Asimov Isaac");
    assert_eq!(
        normalise_author_name("Asimov, Isaac Jr."),
        "Asimov, Isaac Jr"
    );
    assert_eq!(normalise_author_name("  Single  "), "Single");
    assert_eq!(normalise_author_name(""), "");
}

#[test]
fn strip_meta_keeps_single_quote_character() {
    assert_eq!(strip_meta("'"), "'");
    assert_eq!(strip_meta("«»"), "");
    assert_eq!(strip_meta("#Title#"), "Title");
}

#[test]
fn test_slugify() {
    assert_eq!(slugify_username("John Smith"), "john_smith");
    assert_eq!(slugify_username(""), "user");
    assert_eq!(slugify_username("Иван Петров"), "user");
}

#[test]
fn slugify_collapses_separators() {
    assert_eq!(slugify_username("__A--b  C__"), "a_b_c");
}

#[test]
fn test_single_page() {
    let p = Pagination::new(0, 30, 10);
    assert_eq!(p.total_pages, 1);
    assert!(!p.has_previous);
    assert!(!p.has_next);
    assert_eq!(p.page_range, vec![0]);
}

#[test]
fn test_multiple_pages() {
    let p = Pagination::new(2, 30, 150);
    assert_eq!(p.total_pages, 5);
    assert!(p.has_previous);
    assert!(p.has_next);
    assert_eq!(p.previous_page, 1);
    assert_eq!(p.next_page, 3);
    assert_eq!(p.page_range, vec![0, 1, 2, 3, 4]);
}

#[test]
fn test_last_page() {
    let p = Pagination::new(4, 30, 150);
    assert_eq!(p.current_page, 4);
    assert!(p.has_previous);
    assert!(!p.has_next);
}

#[test]
fn test_empty() {
    let p = Pagination::new(0, 30, 0);
    assert_eq!(p.total_pages, 1);
    assert!(!p.has_previous);
    assert!(!p.has_next);
}

#[test]
fn test_clamp_beyond_last() {
    let p = Pagination::new(999, 30, 60);
    assert_eq!(p.current_page, 1);
    assert!(!p.has_next);
}

#[test]
fn pagination_window_is_seven_pages_wide() {
    let p = Pagination::new(10, 10, 1000);
    assert_eq!(p.page_range, vec![7, 8, 9, 10, 11, 12, 13]);
    assert_eq!(p.total_pages, 100);
}

#[test]
fn path_is_name_compares_as_paths() {
    assert!(path_is_name("covers", "covers"));
    assert!(path_is_name("covers/", "covers"));
    assert!(path_is_name("covers//.", "covers"));
    assert!(!path_is_name("./covers", "covers"));
    assert!(!path_is_name("/covers", "covers"));
    assert!(!path_is_name("covers/x", "covers"));
    assert!(!path_is_name("my-covers", "covers"));
}

#[test]
fn rel_path_strips_the_root_components() {
    assert_eq!(rel_path("/lib", "/lib/a/b.fb2"), "a/b.fb2");
    assert_eq!(rel_path("/lib/", "/lib//a/./b.fb2"), "a/b.fb2");
    assert_eq!(rel_path("/lib", "/other/b.fb2"), "/other/b.fb2");
    assert_eq!(rel_path("lib", "lib"), "");
    assert_eq!(rel_path("/li", "/lib/x"), "/lib/x");
}
