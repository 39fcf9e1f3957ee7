//! OPDS feed composition: languages, links and the documents of the feeds.
use vstd::prelude::*;
use vstd::utf8::encode_utf8;
use crate::db::models::Book;
use crate::decimal::{parse_i64, parse_i64_spec};
use crate::opds::xml::{
    ACQ_TYPE, Author, Category, Link, acquisition_events, author_events, content_html_events,
    entry_head_events, id_href_spec, mime_for_format, mime_for_format_spec, pagination_events,
    FeedBuilder, NAV_TYPE, XmlError, XmlEventView, facet_event, feed_head_events, nav_entry_events,
    xml_document, link_event, OPENSEARCH_TYPE,
};
use crate::parsers::epub::pairs_view;
use crate::parsers::string_views;
use crate::web::i18n::Translations;
use crate::decimal::{push_signed_decimal, signed_decimal};
use crate::scanner::{chars_lt, lemma_seq_lt_total, lemma_seq_lt_trans, seq_lt};
use crate::text::{
    CharClass, char_is_ascii_alnum, contains_char, extend_chars, extend_str, from_chars, has_char,
    is_ascii_alnum, lowercase_chars, split_class, split_chars, to_chars, to_uppercase, trim,
    trim_chars, unicode_lowercase, unicode_uppercase, views_of,
};

verus! {

// ---------------------------------------------------------------------------
// Request parameters
// ---------------------------------------------------------------------------

/// `?lang=` of a feed request.
pub struct LangQuery {
    pub lang: Option<String>,
}

/// Path parameters of an author prefix feed.
pub struct AuthorsParams {
    pub lang_code: i32,
    pub prefix: Option<String>,
}

/// Path parameters of an author list feed.
pub struct AuthorsListParams {
    pub lang_code: i32,
    pub prefix: String,
    pub page: Option<i32>,
}

/// Path parameters of a catalog feed.
pub struct CatalogsParams {
    pub cat_id: i64,
    pub page: Option<i32>,
}

/// Path parameters of a search result feed.
pub struct SearchBooksParams {
    pub search_type: String,
    pub terms: String,
    pub page: Option<i32>,
}

/// Update time written for feeds whose content has none of its own.
pub const DEFAULT_UPDATED: &'static str = "2024-01-01T00:00:00Z";

// ---------------------------------------------------------------------------
// Percent-encoding
// ---------------------------------------------------------------------------

/// Bytes written as they are: ASCII letters and digits, `-`, `.`, `_`, `~`.
pub open spec fn is_unreserved(b: u8) -> bool {
    (0x30 <= b <= 0x39) || (0x41 <= b <= 0x5A) || (0x61 <= b <= 0x7A) || b == 0x2D || b == 0x2E
        || b == 0x5F || b == 0x7E
}

pub open spec fn hex_upper(d: u8) -> char {
    if d < 10 {
        ((0x30 + d) as u8) as char
    } else {
        ((0x41 - 10 + d) as u8) as char
    }
}

/// Percent-encoding of bytes: unreserved bytes as they are, every other byte
/// as `%` and two upper-case hexadecimal digits.
pub open spec fn percent_encode(bytes: Seq<u8>) -> Seq<char>
    decreases bytes.len(),
{
    if bytes.len() == 0 {
        Seq::empty()
    } else {
        let b = bytes.last();
        percent_encode(bytes.drop_last()) + if is_unreserved(b) {
            seq![b as char]
        } else {
            seq!['%', hex_upper(b / 16), hex_upper(b % 16)]
        }
    }
}

/// `urlencoding::encode`: the percent-encoding of the text's UTF-8 bytes.
#[verifier::external_body]
pub(crate) fn url_encode(s: &str) -> (r: String)
    ensures
        r@ == percent_encode(encode_utf8(s@)),
{
    urlencoding::encode(s).into_owned()
}

// ---------------------------------------------------------------------------
// Languages
// ---------------------------------------------------------------------------

/// A locale code trimmed and lower-cased; refused when empty or when it holds
/// anything but ASCII letters, digits and `-`.
pub open spec fn normalize_locale_code_spec(locale: Seq<char>) -> Option<Seq<char>> {
    let n = unicode_lowercase(trim(locale));
    if n.len() == 0 {
        None
    } else if forall|i: int| 0 <= i < n.len() ==> is_ascii_alnum(#[trigger] n[i]) || n[i] == '-' {
        Some(n)
    } else {
        None
    }
}

pub fn normalize_locale_code(locale: &str) -> (r: Option<String>)
    ensures
        crate::ziparchive::opt_string_view(r) == normalize_locale_code_spec(locale@),
{
    let chars = to_chars(locale);
    let t = trim_chars(chars.as_slice(), CharClass::Space);
    let n = lowercase_chars(t.as_slice());
    if n.len() == 0 {
        return None;
    }
    let mut i: usize = 0;
    while i < n.len()
        invariant
            i <= n.len(),
            n@ == unicode_lowercase(trim(locale@)),
            forall|j: int| 0 <= j < i ==> is_ascii_alnum(#[trigger] n@[j]) || n@[j] == '-',
        decreases n.len() - i,
    {
        if !(char_is_ascii_alnum(n[i]) || n[i] == '-') {
            proof {
                assert(!(is_ascii_alnum(n@[i as int]) || n@[i as int] == '-'));
            }
            return None;
        }
        i += 1;
    }
    Some(from_chars(n.as_slice()))
}

/// The primary language of an `Accept-Language` value: its first entry, up to
/// a `-` or `;`, trimmed.
pub open spec fn primary_language(accept: Seq<char>) -> Seq<char> {
    trim(split_class(split_class(accept, CharClass::Exact(','))[0], CharClass::Either('-', ';'))[0])
}

/// The feed language: the requested one when valid, else the primary language
/// of `Accept-Language` when valid, else the configured one when valid, else `en`.
pub open spec fn detect_opds_lang_spec(
    accept_language: Option<Seq<char>>,
    config_lang: Seq<char>,
    query_lang: Option<Seq<char>>,
) -> Seq<char> {
    let from_query = match query_lang {
        Some(q) => normalize_locale_code_spec(q),
        None => None,
    };
    let from_header = match accept_language {
        Some(a) => normalize_locale_code_spec(primary_language(a)),
        None => None,
    };
    match from_query {
        Some(l) => l,
        None => match from_header {
            Some(l) => l,
            None => match normalize_locale_code_spec(config_lang) {
                Some(l) => l,
                None => "en"@,
            },
        },
    }
}

/// Extract the feed language from the request: the `lang` query parameter,
/// the `Accept-Language` header, the configured language, or English.
pub fn detect_opds_lang(accept_language: Option<&str>, config_lang: &str, query_lang: Option<&str>) -> (r:
    String)
    ensures
        r@ == detect_opds_lang_spec(
            crate::opds::xml::opt_str_view(accept_language),
            config_lang@,
            crate::opds::xml::opt_str_view(query_lang),
        ),
{
    if let Some(q) = query_lang {
        if let Some(l) = normalize_locale_code(q) {
            return l;
        }
    }
    if let Some(a) = accept_language {
        let chars = to_chars(a);
        let entries = split_chars(chars.as_slice(), CharClass::Exact(','));
        proof {
            crate::text::lemma_split_nonempty(a@, CharClass::Exact(','));
            assert(views_of(entries@)[0] == entries@[0]@);
        }
        let parts = split_chars(entries[0].as_slice(), CharClass::Either('-', ';'));
        proof {
            crate::text::lemma_split_nonempty(entries@[0]@, CharClass::Either('-', ';'));
            assert(views_of(parts@)[0] == parts@[0]@);
        }
        let primary = trim_chars(parts[0].as_slice(), CharClass::Space);
        let p = from_chars(primary.as_slice());
        if let Some(l) = normalize_locale_code(p.as_str()) {
            return l;
        }
    }
    match normalize_locale_code(config_lang) {
        Some(l) => l,
        None => "en".to_owned(),
    }
}

/// `href` with `lang` added as a query parameter, percent-encoded.
pub open spec fn add_lang_query_spec(href: Seq<char>, lang: Seq<char>) -> Seq<char> {
    href + (if contains_char(href, '?') {
        "&lang="@
    } else {
        "?lang="@
    }) + percent_encode(encode_utf8(lang))
}

pub fn add_lang_query(href: &str, lang: &str) -> (r: String)
    ensures
        r@ == add_lang_query_spec(href@, lang@),
{
    let encoded = url_encode(lang);
    let mut v = to_chars(href);
    if has_char(v.as_slice(), '?') {
        extend_str(&mut v, "&lang=");
    } else {
        extend_str(&mut v, "?lang=");
    }
    extend_str(&mut v, encoded.as_str());
    from_chars(v.as_slice())
}

/// The display name of a locale: the translated one when there is one, else
/// English or Russian by name, else the code in upper case.
pub open spec fn locale_label_spec(translated: Option<Seq<char>>, locale: Seq<char>) -> Seq<char> {
    match translated {
        Some(t) => t,
        None => if locale == "en"@ {
            "English"@
        } else if locale == "ru"@ {
            "Русский"@
        } else {
            unicode_uppercase(locale)
        },
    }
}

pub fn locale_label(translated: Option<&str>, locale: &str) -> (r: String)
    ensures
        r@ == locale_label_spec(crate::opds::xml::opt_str_view(translated), locale@),
{
    match translated {
        Some(t) => t.to_owned(),
        None => {
            if crate::text::str_eq(locale, "en") {
                "English".to_owned()
            } else if crate::text::str_eq(locale, "ru") {
                "Русский".to_owned()
            } else {
                to_uppercase(locale)
            }
        },
    }
}


// ---------------------------------------------------------------------------
// Locale choices
// ---------------------------------------------------------------------------

/// Each element precedes the next: strictly increasing, hence without repeats.
pub open spec fn strictly_sorted(v: Seq<Seq<char>>) -> bool {
    forall|j: int| 0 <= j < v.len() - 1 ==> seq_lt(#[trigger] v[j], v[j + 1])
}

/// The valid codes among the given ones, normalised.
pub open spec fn valid_codes(codes: Seq<Seq<char>>) -> Seq<Seq<char>>
    decreases codes.len(),
{
    if codes.len() == 0 {
        Seq::empty()
    } else {
        match normalize_locale_code_spec(codes.last()) {
            Some(c) => valid_codes(codes.drop_last()).push(c),
            None => valid_codes(codes.drop_last()),
        }
    }
}

/// The locales offered: the valid translation codes, or else the configured
/// language (English when it is not valid).
pub open spec fn locale_candidates(codes: Seq<Seq<char>>, config_lang: Seq<char>) -> Seq<Seq<char>> {
    if valid_codes(codes).len() > 0 {
        valid_codes(codes)
    } else {
        seq![
            match normalize_locale_code_spec(config_lang) {
                Some(l) => l,
                None => "en"@,
            },
        ]
    }
}

proof fn lemma_chain(v: Seq<Seq<char>>, p: int, q: int)
    requires
        strictly_sorted(v),
        0 <= p < q < v.len(),
    ensures
        seq_lt(v[p], v[q]),
    decreases q - p,
{
    if q > p + 1 {
        lemma_chain(v, p, q - 1);
        assert(seq_lt(v[q - 1], v[q]));
        lemma_seq_lt_trans(v[p], v[q - 1], v[q]);
    }
}

/// Insert a code into a strictly sorted list unless it is there already.
fn insert_sorted(v: &mut Vec<String>, c: String)
    requires
        strictly_sorted(crate::parsers::string_views(old(v)@)),
    ensures
        strictly_sorted(crate::parsers::string_views(final(v)@)),
        crate::parsers::string_views(final(v)@).to_set() == crate::parsers::string_views(
            old(v)@,
        ).to_set().insert(c@),
{
    let ghost old_v = crate::parsers::string_views(v@);
    let key = to_chars(c.as_str());
    let mut j: usize = 0;
    while j < v.len()
        invariant
            j <= v.len(),
            key@ == c@,
            old_v == crate::parsers::string_views(v@),
            forall|p: int| 0 <= p < j ==> seq_lt(#[trigger] old_v[p], c@),
        ensures
            j <= v.len(),
            forall|p: int| 0 <= p < j ==> seq_lt(#[trigger] old_v[p], c@),
            j < v.len() ==> !seq_lt(old_v[j as int], c@),
        decreases v.len() - j,
    {
        let g = to_chars(v[j].as_str());
        proof {
            assert(old_v[j as int] == v@[j as int]@);
        }
        if !chars_lt(g.as_slice(), key.as_slice()) {
            break;
        }
        j += 1;
    }
    if j < v.len() && crate::text::str_eq(v[j].as_str(), c.as_str()) {
        proof {
            assert(old_v[j as int] == c@);
            assert(old_v.to_set().insert(c@) =~= old_v.to_set());
        }
        return;
    }
    let ghost cv = c@;
    v.insert(j, c);
    proof {
        let nv = crate::parsers::string_views(v@);
        assert(nv =~= old_v.insert(j as int, cv));
        if j < old_v.len() {
            lemma_seq_lt_total(old_v[j as int], cv);
        }
        assert forall|q: int| 0 <= q < nv.len() - 1 implies seq_lt(#[trigger] nv[q], nv[q + 1]) by {
            if q + 1 < j {
                assert(nv[q] == old_v[q] && nv[q + 1] == old_v[q + 1]);
            } else if q + 1 == j {
                assert(nv[q] == old_v[q]);
            } else if q == j {
                assert(nv[q + 1] == old_v[j as int]);
            } else {
                assert(nv[q] == old_v[q - 1] && nv[q + 1] == old_v[q]);
            }
        }
        assert forall|x: Seq<char>| nv.to_set().contains(x) <==> old_v.to_set().insert(cv).contains(x) by {
            if nv.to_set().contains(x) {
                let q = choose|q: int| 0 <= q < nv.len() && nv[q] == x;
                if q < j {
                    assert(old_v[q] == x);
                } else if q > j {
                    assert(old_v[q - 1] == x);
                }
            }
            if old_v.to_set().contains(x) {
                let q = choose|q: int| 0 <= q < old_v.len() && old_v[q] == x;
                if q < j {
                    assert(nv[q] == x);
                } else {
                    assert(nv[q + 1] == x);
                }
            }
            if x == cv {
                assert(nv[j as int] == x);
            }
        }
        assert(nv.to_set() =~= old_v.to_set().insert(cv));
    }
}

/// The locales a feed offers as facets: the valid codes of the available
/// translations (or the configured language), sorted, each once.
pub fn locale_choices(codes: &Vec<String>, config_lang: &str) -> (r: Vec<String>)
    ensures
        strictly_sorted(crate::parsers::string_views(r@)),
        crate::parsers::string_views(r@).to_set() == locale_candidates(
            crate::parsers::string_views(codes@),
            config_lang@,
        ).to_set(),
{
    let ghost cs = crate::parsers::string_views(codes@);
    let mut valid: Vec<String> = Vec::new();
    let mut i: usize = 0;
    proof {
        assert(cs.take(0) =~= Seq::<Seq<char>>::empty());
        assert(crate::parsers::string_views(valid@) =~= Seq::<Seq<char>>::empty());
    }
    while i < codes.len()
        invariant
            i <= codes.len(),
            cs == crate::parsers::string_views(codes@),
            crate::parsers::string_views(valid@) == valid_codes(cs.take(i as int)),
        decreases codes.len() - i,
    {
        proof {
            assert(cs.take(i + 1).drop_last() =~= cs.take(i as int));
            assert(cs.take(i + 1).last() == codes@[i as int]@);
        }
        match normalize_locale_code(codes[i].as_str()) {
            Some(c) => {
                let ghost before = valid@;
                valid.push(c);
                proof {
                    assert(crate::parsers::string_views(valid@) =~= crate::parsers::string_views(
                        before,
                    ).push(valid@.last()@));
                }
            },
            None => {},
        }
        i += 1;
    }
    proof {
        assert(cs.take(codes.len() as int) =~= cs);
    }
    if valid.len() == 0 {
        let d = match normalize_locale_code(config_lang) {
            Some(l) => l,
            None => "en".to_owned(),
        };
        valid.push(d);
        proof {
            assert(crate::parsers::string_views(valid@) =~= locale_candidates(cs, config_lang@));
        }
    }
    let ghost cand = crate::parsers::string_views(valid@);
    let mut out: Vec<String> = Vec::new();
    let mut k: usize = 0;
    proof {
        assert(crate::parsers::string_views(out@) =~= Seq::<Seq<char>>::empty());
        assert(cand.take(0).to_set() =~= Set::<Seq<char>>::empty());
        assert(crate::parsers::string_views(out@).to_set() =~= Set::<Seq<char>>::empty());
    }
    while k < valid.len()
        invariant
            k <= valid.len(),
            cand == crate::parsers::string_views(valid@),
            cand == locale_candidates(cs, config_lang@),
            strictly_sorted(crate::parsers::string_views(out@)),
            crate::parsers::string_views(out@).to_set() == cand.take(k as int).to_set(),
        decreases valid.len() - k,
    {
        let c = valid[k].clone();
        proof {
            assert(cand.take(k + 1) =~= cand.take(k as int).push(c@));
            cand.take(k as int).lemma_push_to_set_commute(c@);
        }
        insert_sorted(&mut out, c);
        k += 1;
    }
    proof {
        assert(cand.take(valid.len() as int) =~= cand);
    }
    out
}


// ---------------------------------------------------------------------------
// Language facets
// ---------------------------------------------------------------------------

/// A facet link to the root feed of each locale, the selected one active.
pub open spec fn root_lang_facets(locales: Seq<(Seq<char>, Seq<char>)>, selected: Seq<char>) -> Seq<
    XmlEventView,
> {
    locales.map_values(
        |l: (Seq<char>, Seq<char>)|
            facet_event(
                "/opds/lang/"@ + percent_encode(encode_utf8(l.0)) + "/"@,
                NAV_TYPE@,
                l.1,
                "Language"@,
                l.0 == selected,
            ),
    )
}

/// A facet link to the same feed in each locale, the selected one active.
pub open spec fn href_lang_facets(
    locales: Seq<(Seq<char>, Seq<char>)>,
    selected: Seq<char>,
    target: Seq<char>,
) -> Seq<XmlEventView> {
    locales.map_values(
        |l: (Seq<char>, Seq<char>)|
            facet_event(add_lang_query_spec(target, l.0), NAV_TYPE@, l.1, "Language"@, l.0 == selected),
    )
}

/// Write a language facet for each locale (code and label): links to the
/// locale's root feed when `target` is `None`, else to `target` in that locale.
pub fn write_language_facets(
    fb: &mut FeedBuilder,
    locales: &Vec<(String, String)>,
    selected: &str,
    target: Option<&str>,
) -> (r: Result<(), XmlError>)
    ensures
        r is Ok,
        final(fb)@ == old(fb)@ + match target {
            None => root_lang_facets(pairs_view(locales@), selected@),
            Some(t) => href_lang_facets(pairs_view(locales@), selected@, t@),
        },
{
    let ghost lv = pairs_view(locales@);
    let ghost all = match target {
        None => root_lang_facets(lv, selected@),
        Some(t) => href_lang_facets(lv, selected@, t@),
    };
    let mut i: usize = 0;
    proof {
        assert(old(fb)@ + all.take(0) =~= old(fb)@);
    }
    while i < locales.len()
        invariant
            i <= locales.len(),
            lv == pairs_view(locales@),
            all == (match target {
                None => root_lang_facets(lv, selected@),
                Some(t) => href_lang_facets(lv, selected@, t@),
            }),
            all.len() == locales.len(),
            fb@ == old(fb)@ + all.take(i as int),
        decreases locales.len() - i,
    {
        let code = &locales[i].0;
        let label = &locales[i].1;
        let href = match target {
            None => {
                let enc = url_encode(code.as_str());
                let mut v = to_chars("/opds/lang/");
                extend_str(&mut v, enc.as_str());
                v.push('/');
                proof {
                    reveal_strlit("/");
                    assert(v@ =~= "/opds/lang/"@ + percent_encode(encode_utf8(code@)) + "/"@);
                }
                from_chars(v.as_slice())
            },
            Some(t) => add_lang_query(t, code.as_str()),
        };
        let active = crate::text::str_eq(code.as_str(), selected);
        fb.write_facet_link(href.as_str(), NAV_TYPE, label.as_str(), "Language", active)?;
        proof {
            assert(lv[i as int] == (code@, label@));
            assert(all.take(i + 1) =~= all.take(i as int).push(all[i as int]));
        }
        i += 1;
    }
    proof {
        assert(all.take(locales.len() as int) =~= all);
    }
    Ok(())
}

// ---------------------------------------------------------------------------
// The root feed
// ---------------------------------------------------------------------------

/// Translated texts of the root feed.
pub struct RootFeedText {
    pub title: String,
    pub subtitle: String,
    pub by_catalogs: String,
    pub by_authors: String,
    pub by_genres: String,
    pub by_series: String,
    pub by_title: String,
    pub by_recent: String,
    pub language_facets: String,
    pub by_catalogs_content: String,
    pub by_authors_content: String,
    pub by_genres_content: String,
    pub by_series_content: String,
    pub by_title_content: String,
    pub by_recent_content: String,
    pub language_facets_content: String,
}

/// The book-shelf entry shown to a signed-in reader.
pub struct ShelfEntry {
    pub label: String,
    pub books_read_prefix: String,
    pub count: i64,
}

pub open spec fn root_nav(id: Seq<char>, title: Seq<char>, path: Seq<char>, content: Seq<char>, lang: Seq<char>) -> Seq<
    XmlEventView,
> {
    nav_entry_events(id, title, add_lang_query_spec(path, lang), content, DEFAULT_UPDATED@)
}

/// The events of the root navigation feed, before its closing tag.
pub open spec fn root_feed_events(
    t: RootFeedText,
    lang: Seq<char>,
    locales: Seq<(Seq<char>, Seq<char>)>,
    shelf: Option<ShelfEntry>,
) -> Seq<XmlEventView> {
    feed_head_events("tag:root"@, t.title@, t.subtitle@, DEFAULT_UPDATED@, "/opds/"@, "/opds/"@)
        + seq![
        link_event("/opds/search/"@, "search"@, OPENSEARCH_TYPE@, None),
        link_event("/opds/search/{searchTerms}/"@, "search"@, "application/atom+xml"@, None),
    ] + root_lang_facets(locales, lang) + root_nav(
        "m:1"@,
        t.by_catalogs@,
        "/opds/catalogs/"@,
        t.by_catalogs_content@,
        lang,
    ) + root_nav("m:2"@, t.by_authors@, "/opds/authors/"@, t.by_authors_content@, lang) + root_nav(
        "m:3"@,
        t.by_genres@,
        "/opds/genres/"@,
        t.by_genres_content@,
        lang,
    ) + root_nav("m:4"@, t.by_series@, "/opds/series/"@, t.by_series_content@, lang) + root_nav(
        "m:5"@,
        t.by_title@,
        "/opds/books/"@,
        t.by_title_content@,
        lang,
    ) + root_nav("m:8"@, t.by_recent@, "/opds/recent/"@, t.by_recent_content@, lang) + root_nav(
        "m:7"@,
        t.language_facets@,
        "/opds/facets/languages/"@,
        t.language_facets_content@,
        lang,
    ) + match shelf {
        Some(s) => root_nav(
            "m:6"@,
            s.label@,
            "/opds/bookshelf/"@,
            s.books_read_prefix@ + ": "@ + signed_decimal(s.count as int),
            lang,
        ),
        None => seq![],
    }
}

fn write_root_nav(
    fb: &mut FeedBuilder,
    id: &str,
    title: &str,
    path: &str,
    content: &str,
    lang: &str,
) -> (r: Result<(), XmlError>)
    ensures
        r is Ok,
        final(fb)@ == old(fb)@ + root_nav(id@, title@, path@, content@, lang@),
{
    let href = add_lang_query(path, lang);
    fb.write_nav_entry(id, title, href.as_str(), content, DEFAULT_UPDATED)
}

/// The root navigation feed: the catalogue's title, search links, a language
/// facet per locale, an entry per way of browsing in the feed's language and,
/// for a signed-in reader, the book shelf.
pub fn root_feed_document(
    text: &RootFeedText,
    lang: &str,
    locales: &Vec<(String, String)>,
    shelf: Option<&ShelfEntry>,
) -> (r: Result<Vec<u8>, XmlError>)
    ensures
        r matches Ok(bytes) && bytes@ == xml_document(
            root_feed_events(
                *text,
                lang@,
                pairs_view(locales@),
                match shelf {
                    Some(s) => Some(*s),
                    None => None,
                },
            ).push(XmlEventView::End("feed"@)),
        ),
{
    let mut fb = FeedBuilder::new();
    fb.begin_feed(
        "tag:root",
        text.title.as_str(),
        text.subtitle.as_str(),
        DEFAULT_UPDATED,
        "/opds/",
        "/opds/",
    )?;
    fb.write_search_links("/opds/search/", "/opds/search/{searchTerms}/")?;
    write_language_facets(&mut fb, locales, lang, None)?;
    write_root_nav(
        &mut fb,
        "m:1",
        text.by_catalogs.as_str(),
        "/opds/catalogs/",
        text.by_catalogs_content.as_str(),
        lang,
    )?;
    write_root_nav(
        &mut fb,
        "m:2",
        text.by_authors.as_str(),
        "/opds/authors/",
        text.by_authors_content.as_str(),
        lang,
    )?;
    write_root_nav(
        &mut fb,
        "m:3",
        text.by_genres.as_str(),
        "/opds/genres/",
        text.by_genres_content.as_str(),
        lang,
    )?;
    write_root_nav(
        &mut fb,
        "m:4",
        text.by_series.as_str(),
        "/opds/series/",
        text.by_series_content.as_str(),
        lang,
    )?;
    write_root_nav(
        &mut fb,
        "m:5",
        text.by_title.as_str(),
        "/opds/books/",
        text.by_title_content.as_str(),
        lang,
    )?;
    write_root_nav(
        &mut fb,
        "m:8",
        text.by_recent.as_str(),
        "/opds/recent/",
        text.by_recent_content.as_str(),
        lang,
    )?;
    write_root_nav(
        &mut fb,
        "m:7",
        text.language_facets.as_str(),
        "/opds/facets/languages/",
        text.language_facets_content.as_str(),
        lang,
    )?;
    let ghost before_shelf = fb@;
    if let Some(s) = shelf {
        let mut content = to_chars(s.books_read_prefix.as_str());
        extend_str(&mut content, ": ");
        push_signed_decimal(&mut content, s.count);
        let c = from_chars(content.as_slice());
        write_root_nav(&mut fb, "m:6", s.label.as_str(), "/opds/bookshelf/", c.as_str(), lang)?;
        proof {
            assert(c@ =~= s.books_read_prefix@ + ": "@ + signed_decimal(s.count as int));
        }
    }
    proof {
        let sh = match shelf {
            Some(s) => Some(*s),
            None => None,
        };
        assert(fb@ =~= root_feed_events(*text, lang@, pairs_view(locales@), sh));
    }
    fb.finish()
}


// ---------------------------------------------------------------------------
// Book entries
// ---------------------------------------------------------------------------

/// Division rounding toward zero, as Rust's `/` on integers.
pub open spec fn trunc_div(a: int, b: int) -> int {
    if a >= 0 {
        a / b
    } else {
        -((-a) / b)
    }
}

/// `<b>label</b>value<br/>` when the value is not empty.
pub open spec fn html_field(label: Seq<char>, value: Seq<char>) -> Seq<char> {
    if value.len() > 0 {
        "<b>"@ + label + "</b>"@ + value + "<br/>"@
    } else {
        Seq::empty()
    }
}

/// The HTML description of a book: title, format, size in KB, language,
/// date and annotation (fields that are empty left out).
pub open spec fn book_html(b: Book) -> Seq<char> {
    "<b>Title: </b>"@ + b.title@ + "<br/>"@ + html_field("Format: "@, b.format@)
        + "<b>Size: </b>"@ + signed_decimal(trunc_div(b.size as int, 1024)) + " KB<br/>"@
        + html_field("Language: "@, b.lang@) + html_field("Date: "@, b.docdate@) + (
    if b.annotation@.len() > 0 {
        "<p class='book'>"@ + b.annotation@ + "</p>"@
    } else {
        Seq::empty()
    })
}

/// The author element and the link to the author's books.
pub open spec fn book_author_events(a: (i64, Seq<char>)) -> Seq<XmlEventView> {
    author_events(a.1) + seq![
        link_event(
            id_href_spec("/opds/search/books/a/"@, a.0 as int, "/"@),
            "related"@,
            ACQ_TYPE@,
            Some("All books by "@ + a.1),
        ),
    ]
}

pub open spec fn authors_events(authors: Seq<(i64, Seq<char>)>) -> Seq<XmlEventView>
    decreases authors.len(),
{
    if authors.len() == 0 {
        Seq::empty()
    } else {
        authors_events(authors.drop_last()) + book_author_events(authors.last())
    }
}

pub open spec fn genres_events(genres: Seq<(Seq<char>, Seq<char>)>) -> Seq<XmlEventView> {
    genres.map_values(
        |g: (Seq<char>, Seq<char>)|
            XmlEventView::Empty("category"@, seq![("term"@, g.0), ("label"@, g.1)]),
    )
}

/// A book acquisition entry: id, title, registration date, an alternate
/// download link, the acquisition links, the HTML description, the authors
/// (each with a link to their books) and the genres.
pub open spec fn book_entry_events(
    b: Book,
    authors: Seq<(i64, Seq<char>)>,
    genres: Seq<(Seq<char>, Seq<char>)>,
) -> Seq<XmlEventView> {
    entry_head_events(id_href_spec("b:"@, b.id as int, Seq::empty()), b.title@, b.reg_date@)
        + seq![
        link_event(
            id_href_spec("/opds/download/"@, b.id as int, "/0/"@),
            "alternate"@,
            mime_for_format_spec(b.format@),
            None,
        ),
    ] + acquisition_events(b.id as int, b.format@, b.cover != 0) + content_html_events(book_html(b))
        + authors_events(authors) + genres_events(genres) + seq![XmlEventView::End("entry"@)]
}

pub open spec fn id_names_view(v: Seq<(i64, String)>) -> Seq<(i64, Seq<char>)> {
    v.map_values(|p: (i64, String)| (p.0, p.1@))
}

fn push_html_field(out: &mut Vec<char>, label: &str, value: &str)
    ensures
        final(out)@ == old(out)@ + html_field(label@, value@),
{
    if !value.is_empty() {
        extend_str(out, "<b>");
        extend_str(out, label);
        extend_str(out, "</b>");
        extend_str(out, value);
        extend_str(out, "<br/>");
        proof {
            assert(out@ =~= old(out)@ + html_field(label@, value@));
        }
    } else {
        proof {
            assert(old(out)@ + html_field(label@, value@) =~= old(out)@);
        }
    }
}

fn kilobytes(size: i64) -> (r: i64)
    ensures
        r == trunc_div(size as int, 1024),
{
    if size >= 0 {
        size / 1024
    } else if size == i64::MIN {
        -9007199254740992
    } else {
        -((-size) / 1024)
    }
}

/// The HTML description of a book.
pub fn book_description(b: &Book) -> (r: String)
    ensures
        r@ == book_html(*b),
{
    let mut out = to_chars("<b>Title: </b>");
    extend_str(&mut out, b.title.as_str());
    extend_str(&mut out, "<br/>");
    push_html_field(&mut out, "Format: ", b.format.as_str());
    extend_str(&mut out, "<b>Size: </b>");
    push_signed_decimal(&mut out, kilobytes(b.size));
    extend_str(&mut out, " KB<br/>");
    push_html_field(&mut out, "Language: ", b.lang.as_str());
    push_html_field(&mut out, "Date: ", b.docdate.as_str());
    if !b.annotation.as_str().is_empty() {
        extend_str(&mut out, "<p class='book'>");
        extend_str(&mut out, b.annotation.as_str());
        extend_str(&mut out, "</p>");
    }
    proof {
        assert(out@ =~= book_html(*b));
    }
    from_chars(out.as_slice())
}

fn id_text(prefix: &str, id: i64, suffix: &str) -> (r: String)
    ensures
        r@ == id_href_spec(prefix@, id as int, suffix@),
{
    let mut v = to_chars(prefix);
    push_signed_decimal(&mut v, id);
    extend_str(&mut v, suffix);
    proof {
        assert(v@ =~= id_href_spec(prefix@, id as int, suffix@));
    }
    from_chars(v.as_slice())
}

/// Write a book acquisition entry for a book with its authors (id and name)
/// and genres (code and label).
pub fn write_book_entry(
    fb: &mut FeedBuilder,
    book: &Book,
    authors: &Vec<(i64, String)>,
    genres: &Vec<(String, String)>,
) -> (r: Result<(), XmlError>)
    ensures
        r is Ok,
        final(fb)@ == old(fb)@ + book_entry_events(
            *book,
            id_names_view(authors@),
            pairs_view(genres@),
        ),
{
    let id = id_text("b:", book.id, "");
    proof {
        reveal_strlit("");
        assert(""@ =~= Seq::<char>::empty());
    }
    fb.begin_entry(id.as_str(), book.title.as_str(), book.reg_date.as_str())?;
    let alternate = Link {
        href: id_text("/opds/download/", book.id, "/0/"),
        rel: "alternate".to_owned(),
        link_type: mime_for_format(book.format.as_str()).to_owned(),
        title: None,
    };
    fb.write_link_obj(&alternate)?;
    fb.write_acquisition_links(book.id, book.format.as_str(), book.cover != 0)?;
    let html = book_description(book);
    fb.write_content_html(html.as_str())?;
    let ghost before_authors = fb@;
    proof {
        assert(before_authors =~= old(fb)@ + entry_head_events(
            id_href_spec("b:"@, book.id as int, Seq::empty()),
            book.title@,
            book.reg_date@,
        ) + seq![
            link_event(
                id_href_spec("/opds/download/"@, book.id as int, "/0/"@),
                "alternate"@,
                mime_for_format_spec(book.format@),
                None,
            ),
        ] + acquisition_events(book.id as int, book.format@, book.cover != 0)
            + content_html_events(book_html(*book)));
    }
    let ghost av = id_names_view(authors@);
    let mut i: usize = 0;
    proof {
        assert(av.take(0) =~= Seq::<(i64, Seq<char>)>::empty());
        assert(fb@ =~= before_authors + authors_events(av.take(0)));
    }
    while i < authors.len()
        invariant
            i <= authors.len(),
            av == id_names_view(authors@),
            fb@ == before_authors + authors_events(av.take(i as int)),
        decreases authors.len() - i,
    {
        let name = &authors[i].1;
        let author = Author { name: name.clone() };
        fb.write_author_obj(&author)?;
        let mut t = to_chars("All books by ");
        extend_str(&mut t, name.as_str());
        let related = Link {
            href: id_text("/opds/search/books/a/", authors[i].0, "/"),
            rel: "related".to_owned(),
            link_type: ACQ_TYPE.to_owned(),
            title: Some(from_chars(t.as_slice())),
        };
        fb.write_link_obj(&related)?;
        proof {
            assert(av.take(i + 1).drop_last() =~= av.take(i as int));
            assert(av.take(i + 1).last() == (authors@[i as int].0, authors@[i as int].1@));
            assert(fb@ =~= before_authors + authors_events(av.take(i + 1)));
        }
        i += 1;
    }
    let ghost before_genres = fb@;
    let ghost gv = pairs_view(genres@);
    let mut k: usize = 0;
    proof {
        assert(av.take(authors.len() as int) =~= av);
        assert(fb@ =~= before_genres + genres_events(gv.take(0)));
    }
    while k < genres.len()
        invariant
            k <= genres.len(),
            gv == pairs_view(genres@),
            fb@ == before_genres + genres_events(gv.take(k as int)),
        decreases genres.len() - k,
    {
        let category = Category { term: genres[k].0.clone(), label: genres[k].1.clone() };
        fb.write_category_obj(&category)?;
        proof {
            assert(genres_events(gv.take(k + 1)) =~= genres_events(gv.take(k as int)).push(
                XmlEventView::Empty(
                    "category"@,
                    seq![("term"@, genres@[k as int].0@), ("label"@, genres@[k as int].1@)],
                ),
            ));
        }
        k += 1;
    }
    proof {
        assert(gv.take(genres.len() as int) =~= gv);
    }
    fb.end_entry()?;
    proof {
        assert(fb@ =~= old(fb)@ + book_entry_events(*book, av, gv));
    }
    Ok(())
}


// ---------------------------------------------------------------------------
// Book search results
// ---------------------------------------------------------------------------

/// What a book search asks for.
pub enum BookSearch {
    ByAuthor(i64),
    BySeries(i64),
    ByGenre(i64),
    /// Titles, by the upper-cased search terms.
    ByTitle(String),
}

pub open spec fn id_or_zero(terms: Seq<char>) -> i64 {
    match parse_i64_spec(terms) {
        Some(v) => v,
        None => 0,
    }
}

/// `a`, `s` and `g` search the books of an author, a series or a genre by
/// id (0 when the terms are not a number); any other type searches titles.
pub fn book_search(search_type: &str, terms: &str) -> (r: BookSearch)
    ensures
        search_type@ == "a"@ ==> (r matches BookSearch::ByAuthor(id) && id == id_or_zero(terms@)),
        search_type@ == "s"@ ==> (r matches BookSearch::BySeries(id) && id == id_or_zero(terms@)),
        search_type@ == "g"@ ==> (r matches BookSearch::ByGenre(id) && id == id_or_zero(terms@)),
        !(search_type@ == "a"@ || search_type@ == "s"@ || search_type@ == "g"@) ==> (r matches BookSearch::ByTitle(t)
            && t@ == unicode_uppercase(terms@)),
{
    proof {
        reveal_strlit("a");
        reveal_strlit("s");
        reveal_strlit("g");
        assert("a"@[0] != "s"@[0] && "a"@[0] != "g"@[0] && "s"@[0] != "g"@[0]);
    }
    let t = to_chars(terms);
    let id = match parse_i64(t.as_slice()) {
        Some(v) => v,
        None => 0,
    };
    if crate::text::str_eq(search_type, "a") {
        BookSearch::ByAuthor(id)
    } else if crate::text::str_eq(search_type, "s") {
        BookSearch::BySeries(id)
    } else if crate::text::str_eq(search_type, "g") {
        BookSearch::ByGenre(id)
    } else {
        BookSearch::ByTitle(to_uppercase(terms))
    }
}

/// The requested page, 1 when absent or below 1.
pub fn search_page(page: Option<i32>) -> (r: i32)
    ensures
        r == (match page {
            Some(p) => if p >= 1 {
                p
            } else {
                1
            },
            None => 1,
        }),
{
    match page {
        Some(p) => if p >= 1 {
            p
        } else {
            1
        },
        None => 1,
    }
}

/// The first result of a page.
pub fn page_offset(page: i32, max_items: i32) -> (r: i32)
    requires
        page >= 1,
        i32::MIN <= (page - 1) * max_items <= i32::MAX,
    ensures
        r == (page - 1) * max_items,
{
    (page - 1) * max_items
}

/// `/opds/search/books/{type}/{terms}/{page}/` in the feed's language.
pub open spec fn search_books_href_spec(search_type: Seq<char>, terms: Seq<char>, page: int, lang: Seq<char>) -> Seq<
    char,
> {
    add_lang_query_spec(
        "/opds/search/books/"@ + search_type + "/"@ + percent_encode(encode_utf8(terms)) + "/"@
            + signed_decimal(page) + "/"@,
        lang,
    )
}

pub fn search_books_href(search_type: &str, terms: &str, page: i32, lang: &str) -> (r: String)
    ensures
        r@ == search_books_href_spec(search_type@, terms@, page as int, lang@),
{
    let mut v = to_chars("/opds/search/books/");
    extend_str(&mut v, search_type);
    extend_str(&mut v, "/");
    let enc = url_encode(terms);
    extend_str(&mut v, enc.as_str());
    extend_str(&mut v, "/");
    push_signed_decimal(&mut v, page as i64);
    extend_str(&mut v, "/");
    let href = from_chars(v.as_slice());
    proof {
        assert(href@ =~= "/opds/search/books/"@ + search_type@ + "/"@ + percent_encode(
            encode_utf8(terms@),
        ) + "/"@ + signed_decimal(page as int) + "/"@);
    }
    add_lang_query(href.as_str(), lang)
}

/// A book with its authors (id and name) and genres (code and label).
pub struct BookEntryData {
    pub book: Book,
    pub authors: Vec<(i64, String)>,
    pub genres: Vec<(String, String)>,
}

pub open spec fn entries_events(books: Seq<BookEntryData>) -> Seq<XmlEventView>
    decreases books.len(),
{
    if books.len() == 0 {
        Seq::empty()
    } else {
        let b = books.last();
        entries_events(books.drop_last()) + book_entry_events(
            b.book,
            id_names_view(b.authors@),
            pairs_view(b.genres@),
        )
    }
}

/// The events of a book search result page, before the closing tag: its
/// header, search links, links to the previous page (past the first) and the
/// next page (when the page is full) and an entry per book.
pub open spec fn search_books_events(
    search_type: Seq<char>,
    terms: Seq<char>,
    page: int,
    max_items: int,
    lang: Seq<char>,
    books: Seq<BookEntryData>,
) -> Seq<XmlEventView> {
    feed_head_events(
        "tag:search:books:"@ + search_type + ":"@ + terms + ":"@ + signed_decimal(page),
        "Search: "@ + terms,
        Seq::empty(),
        DEFAULT_UPDATED@,
        search_books_href_spec(search_type, terms, page, lang),
        add_lang_query_spec("/opds/"@, lang),
    ) + seq![
        link_event(add_lang_query_spec("/opds/search/"@, lang), "search"@, OPENSEARCH_TYPE@, None),
        link_event(
            add_lang_query_spec("/opds/search/{searchTerms}/"@, lang),
            "search"@,
            "application/atom+xml"@,
            None,
        ),
    ] + pagination_events(
        if page > 1 {
            Some(search_books_href_spec(search_type, terms, page - 1, lang))
        } else {
            None
        },
        if books.len() >= max_items {
            Some(search_books_href_spec(search_type, terms, page + 1, lang))
        } else {
            None
        },
    ) + entries_events(books)
}

/// The document of a book search result page.
pub fn search_books_document(
    search_type: &str,
    terms: &str,
    page: i32,
    max_items: i32,
    lang: &str,
    books: &Vec<BookEntryData>,
) -> (r: Result<Vec<u8>, XmlError>)
    requires
        1 <= page < i32::MAX,
    ensures
        r matches Ok(bytes) && bytes@ == xml_document(
            search_books_events(
                search_type@,
                terms@,
                page as int,
                max_items as int,
                lang@,
                books@,
            ).push(XmlEventView::End("feed"@)),
        ),
{
    let mut fb = FeedBuilder::new();
    let self_href = search_books_href(search_type, terms, page, lang);
    let start = add_lang_query("/opds/", lang);
    let mut id = to_chars("tag:search:books:");
    extend_str(&mut id, search_type);
    extend_str(&mut id, ":");
    extend_str(&mut id, terms);
    extend_str(&mut id, ":");
    push_signed_decimal(&mut id, page as i64);
    let id = from_chars(id.as_slice());
    let mut title = to_chars("Search: ");
    extend_str(&mut title, terms);
    let title = from_chars(title.as_slice());
    proof {
        reveal_strlit("");
        assert(""@ =~= Seq::<char>::empty());
        assert(id@ =~= "tag:search:books:"@ + search_type@ + ":"@ + terms@ + ":"@ + signed_decimal(
            page as int,
        ));
    }
    fb.begin_feed(
        id.as_str(),
        title.as_str(),
        "",
        DEFAULT_UPDATED,
        self_href.as_str(),
        start.as_str(),
    )?;
    let search = add_lang_query("/opds/search/", lang);
    let template = add_lang_query("/opds/search/{searchTerms}/", lang);
    fb.write_search_links(search.as_str(), template.as_str())?;
    let prev = if page > 1 {
        Some(search_books_href(search_type, terms, page - 1, lang))
    } else {
        None
    };
    let full = if max_items <= 0 {
        true
    } else {
        books.len() >= max_items as usize
    };
    let next = if full {
        Some(search_books_href(search_type, terms, page + 1, lang))
    } else {
        None
    };
    let prev_ref: Option<&str> = match &prev {
        Some(p) => Some(p.as_str()),
        None => None,
    };
    let next_ref: Option<&str> = match &next {
        Some(n) => Some(n.as_str()),
        None => None,
    };
    proof {
        assert(crate::opds::xml::opt_str_view(prev_ref) == (if page > 1 {
            Some(search_books_href_spec(search_type@, terms@, page - 1, lang@))
        } else {
            None
        }));
        assert(crate::opds::xml::opt_str_view(next_ref) == (if books@.len() >= max_items {
            Some(search_books_href_spec(search_type@, terms@, page + 1, lang@))
        } else {
            None
        }));
    }
    fb.write_pagination(prev_ref, next_ref)?;
    let ghost before_entries = fb@;
    let mut i: usize = 0;
    proof {
        assert(books@.take(0) =~= Seq::<BookEntryData>::empty());
        assert(fb@ =~= before_entries + entries_events(books@.take(0)));
    }
    while i < books.len()
        invariant
            i <= books.len(),
            fb@ == before_entries + entries_events(books@.take(i as int)),
        decreases books.len() - i,
    {
        let e = &books[i];
        write_book_entry(&mut fb, &e.book, &e.authors, &e.genres)?;
        proof {
            assert(books@.take(i + 1).drop_last() =~= books@.take(i as int));
            assert(books@.take(i + 1).last() == books@[i as int]);
            assert(fb@ =~= before_entries + entries_events(books@.take(i + 1)));
        }
        i += 1;
    }
    proof {
        assert(books@.take(books.len() as int) =~= books@);
        assert(fb@ =~= search_books_events(
            search_type@,
            terms@,
            page as int,
            max_items as int,
            lang@,
            books@,
        ));
    }
    fb.finish()
}

/// The texts of the root feed in language `lang`: the catalogue's title and
/// subtitle, and each entry's title and description from the `opds` section
/// of the translations, with the English wording where none is given.
pub fn root_feed_text(tr: &Translations, lang: &str, title: &str, subtitle: &str) -> (r: RootFeedText)
    requires
        string_views(tr.locales@).contains(lang@) || string_views(tr.locales@).contains("en"@),
    ensures
        r.title@ == title@,
        r.subtitle@ == subtitle@,
        r.by_catalogs@ == tr.tr_spec(lang@, "opds"@, "root_by_catalogs"@, "By Catalogs"@),
        r.by_authors@ == tr.tr_spec(lang@, "opds"@, "root_by_authors"@, "By Authors"@),
        r.by_genres@ == tr.tr_spec(lang@, "opds"@, "root_by_genres"@, "By Genres"@),
        r.by_series@ == tr.tr_spec(lang@, "opds"@, "root_by_series"@, "By Series"@),
        r.by_title@ == tr.tr_spec(lang@, "opds"@, "root_by_title"@, "By Title"@),
        r.by_recent@ == tr.tr_spec(lang@, "opds"@, "root_by_recent"@, "Recently Added"@),
        r.language_facets@ == tr.tr_spec(lang@, "opds"@, "root_language_facets"@, "Language facets"@),
        r.by_catalogs_content@ == tr.tr_spec(
            lang@,
            "opds"@,
            "root_content_catalogs"@,
            "Browse by directory tree"@,
        ),
        r.by_authors_content@ == tr.tr_spec(lang@, "opds"@, "root_content_authors"@, "Browse by author"@),
        r.by_genres_content@ == tr.tr_spec(lang@, "opds"@, "root_content_genres"@, "Browse by genre"@),
        r.by_series_content@ == tr.tr_spec(lang@, "opds"@, "root_content_series"@, "Browse by series"@),
        r.by_title_content@ == tr.tr_spec(
            lang@,
            "opds"@,
            "root_content_title"@,
            "Browse by book title"@,
        ),
        r.by_recent_content@ == tr.tr_spec(
            lang@,
            "opds"@,
            "root_content_recent"@,
            "Browse newly scanned books"@,
        ),
        r.language_facets_content@ == tr.tr_spec(
            lang@,
            "opds"@,
            "root_content_language_facets"@,
            "Switch OPDS language facet"@,
        ),
{
    RootFeedText {
        title: title.to_owned(),
        subtitle: subtitle.to_owned(),
        by_catalogs: tr.tr(lang, "opds", "root_by_catalogs", "By Catalogs"),
        by_authors: tr.tr(lang, "opds", "root_by_authors", "By Authors"),
        by_genres: tr.tr(lang, "opds", "root_by_genres", "By Genres"),
        by_series: tr.tr(lang, "opds", "root_by_series", "By Series"),
        by_title: tr.tr(lang, "opds", "root_by_title", "By Title"),
        by_recent: tr.tr(lang, "opds", "root_by_recent", "Recently Added"),
        language_facets: tr.tr(lang, "opds", "root_language_facets", "Language facets"),
        by_catalogs_content: tr.tr(lang, "opds", "root_content_catalogs", "Browse by directory tree"),
        by_authors_content: tr.tr(lang, "opds", "root_content_authors", "Browse by author"),
        by_genres_content: tr.tr(lang, "opds", "root_content_genres", "Browse by genre"),
        by_series_content: tr.tr(lang, "opds", "root_content_series", "Browse by series"),
        by_title_content: tr.tr(lang, "opds", "root_content_title", "Browse by book title"),
        by_recent_content: tr.tr(lang, "opds", "root_content_recent", "Browse newly scanned books"),
        language_facets_content: tr.tr(
            lang,
            "opds",
            "root_content_language_facets",
            "Switch OPDS language facet",
        ),
    }
}

/// The book-shelf entry of the root feed: shown only when readers sign in
/// and one is signed in, with the number of books on their shelf.
pub fn root_shelf_entry(
    tr: &Translations,
    lang: &str,
    auth_required: bool,
    user_id: Option<i64>,
    shelf_count: i64,
) -> (r: Option<ShelfEntry>)
    requires
        string_views(tr.locales@).contains(lang@) || string_views(tr.locales@).contains("en"@),
    ensures
        r is Some <==> auth_required && user_id is Some,
        r matches Some(e) ==> {
            &&& e.label@ == tr.tr_spec(lang@, "opds"@, "root_bookshelf"@, "Book shelf"@)
            &&& e.books_read_prefix@ == tr.tr_spec(lang@, "opds"@, "books_read_prefix"@, "Books read"@)
            &&& e.count == shelf_count
        },
{
    if auth_required && user_id.is_some() {
        Some(
            ShelfEntry {
                label: tr.tr(lang, "opds", "root_bookshelf", "Book shelf"),
                books_read_prefix: tr.tr(lang, "opds", "books_read_prefix", "Books read"),
                count: shelf_count,
            },
        )
    } else {
        None
    }
}

} // verus!
