use ropds::opds::feeds::{root_feed_text, root_shelf_entry};
use ropds::web::i18n::{TranslationText, Translations};

fn text(locale: &str, section: &str, key: &str, text: &str) -> TranslationText {
    TranslationText {
        locale: locale.to_string(),
        section: section.to_string(),
        key: key.to_string(),
        text: text.to_string(),
    }
}

fn sample() -> Translations {
    Translations {
        locales: vec!["en".to_string(), "ru".to_string()],
        texts: vec![
            text("en", "nav", "authors", "Authors"),
            text("ru", "nav", "authors", "Авторы"),
            text("ru", "lang", "ru", "Русский"),
        ],
    }
}

#[test]
fn texts_in_the_asked_language_or_english_or_the_fallback() {
    let t = sample();
    assert_eq!(t.tr("ru", "nav", "authors", "x"), "Авторы");
    assert_eq!(t.tr("de", "nav", "authors", "x"), "Authors");
    assert_eq!(t.tr("en", "nav", "series", "Series"), "Series");
    assert_eq!(t.own_label("ru"), Some("Русский".to_string()));
    assert_eq!(t.own_label("en"), None);
}

#[test]
fn root_feed_texts_come_from_the_opds_section() {
    let mut t = sample();
    t.texts.push(text("ru", "opds", "root_by_title", "По названию"));
    let ru = root_feed_text(&t, "ru", "Library", "Books");
    assert_eq!(ru.title, "Library");
    assert_eq!(ru.by_authors, "By Authors");
    assert_eq!(ru.by_title, "По названию");
    assert_eq!(ru.by_recent_content, "Browse newly scanned books");
    assert!(root_shelf_entry(&t, "ru", false, Some(1), 3).is_none());
    assert!(root_shelf_entry(&t, "ru", true, None, 3).is_none());
    let shelf = root_shelf_entry(&t, "en", true, Some(1), 3).expect("a signed-in reader has a shelf");
    assert_eq!(shelf.label, "Book shelf");
    assert_eq!(shelf.books_read_prefix, "Books read");
    assert_eq!(shelf.count, 3);
}
