//! The navigation and acquisition feeds of the catalogue, each built from what
//! the database gave for the request: a header, then links and entries.
use vstd::prelude::*;
use crate::opds::xml::{
    opt_string_view, FeedBuilder, NAV_TYPE, XmlError, XmlEventView, facet_event, feed_head_events,
    link_event, nav_entry_events, pagination_events, xml_document, OPENSEARCH_TYPE,
};
use crate::opds::feeds::{
    BookEntryData, DEFAULT_UPDATED, add_lang_query, add_lang_query_spec, entries_events,
    percent_encode, url_encode, write_book_entry,
};
use crate::decimal::{push_signed_decimal, signed_decimal};
use crate::parsers::epub::pairs_view;
use crate::db::models::Genre;
use crate::text::{extend_str, from_chars, to_chars};
use vstd::utf8::encode_utf8;

verus! {

/// A piece of a feed between its header and its book entries.
pub enum FeedPart {
    /// The OpenSearch description and the search template.
    SearchLinks { search: String, template: String },
    /// A language facet link.
    Facet { href: String, title: String, active: bool },
    /// Links to the previous and the next page, where there are such pages.
    Pagination { prev: Option<String>, next: Option<String> },
    /// A navigation entry.
    Nav { id: String, title: String, href: String, content: String },
}

pub enum FeedPartView {
    SearchLinks { search: Seq<char>, template: Seq<char> },
    Facet { href: Seq<char>, title: Seq<char>, active: bool },
    Pagination { prev: Option<Seq<char>>, next: Option<Seq<char>> },
    Nav { id: Seq<char>, title: Seq<char>, href: Seq<char>, content: Seq<char> },
}

impl View for FeedPart {
    type V = FeedPartView;

    open spec fn view(&self) -> FeedPartView {
        match *self {
            FeedPart::SearchLinks { search, template } => FeedPartView::SearchLinks {
                search: search@,
                template: template@,
            },
            FeedPart::Facet { href, title, active } => FeedPartView::Facet {
                href: href@,
                title: title@,
                active,
            },
            FeedPart::Pagination { prev, next } => FeedPartView::Pagination {
                prev: opt_string_view(prev),
                next: opt_string_view(next),
            },
            FeedPart::Nav { id, title, href, content } => FeedPartView::Nav {
                id: id@,
                title: title@,
                href: href@,
                content: content@,
            },
        }
    }
}

pub open spec fn parts_view(v: Seq<FeedPart>) -> Seq<FeedPartView> {
    v.map_values(|p: FeedPart| p@)
}

/// The events of one part.
pub open spec fn part_events(p: FeedPartView) -> Seq<XmlEventView> {
    match p {
        FeedPartView::SearchLinks { search, template } => seq![
            link_event(search, "search"@, OPENSEARCH_TYPE@, None),
            link_event(template, "search"@, "application/atom+xml"@, None),
        ],
        FeedPartView::Facet { href, title, active } => seq![
            facet_event(href, NAV_TYPE@, title, "Language"@, active),
        ],
        FeedPartView::Pagination { prev, next } => pagination_events(prev, next),
        FeedPartView::Nav { id, title, href, content } => nav_entry_events(
            id,
            title,
            href,
            content,
            DEFAULT_UPDATED@,
        ),
    }
}

pub open spec fn parts_events(parts: Seq<FeedPartView>) -> Seq<XmlEventView>
    decreases parts.len(),
{
    if parts.len() == 0 {
        Seq::empty()
    } else {
        parts_events(parts.drop_last()) + part_events(parts.last())
    }
}

/// The events of a feed before its closing tag: the header (without a
/// subtitle), the parts, and an entry per book.
pub open spec fn feed_events(
    id: Seq<char>,
    title: Seq<char>,
    self_href: Seq<char>,
    start_href: Seq<char>,
    parts: Seq<FeedPartView>,
    books: Seq<BookEntryData>,
) -> Seq<XmlEventView> {
    feed_head_events(id, title, Seq::empty(), DEFAULT_UPDATED@, self_href, start_href) + parts_events(
        parts,
    ) + entries_events(books)
}

/// The document of a feed with these events.
pub open spec fn feed_doc(
    id: Seq<char>,
    title: Seq<char>,
    self_href: Seq<char>,
    start_href: Seq<char>,
    parts: Seq<FeedPartView>,
    books: Seq<BookEntryData>,
) -> Seq<u8> {
    xml_document(
        feed_events(id, title, self_href, start_href, parts, books).push(XmlEventView::End("feed"@)),
    )
}

fn write_part(fb: &mut FeedBuilder, part: &FeedPart) -> (r: Result<(), XmlError>)
    ensures
        r is Ok,
        final(fb)@ == old(fb)@ + part_events(part@),
{
    match part {
        FeedPart::SearchLinks { search, template } => {
            fb.write_search_links(search.as_str(), template.as_str())
        },
        FeedPart::Facet { href, title, active } => {
            fb.write_facet_link(href.as_str(), NAV_TYPE, title.as_str(), "Language", *active)?;
            proof {
                assert(fb@ =~= old(fb)@ + part_events(part@));
            }
            Ok(())
        },
        FeedPart::Pagination { prev, next } => {
            let p: Option<&str> = match prev {
                Some(s) => Some(s.as_str()),
                None => None,
            };
            let n: Option<&str> = match next {
                Some(s) => Some(s.as_str()),
                None => None,
            };
            fb.write_pagination(p, n)
        },
        FeedPart::Nav { id, title, href, content } => {
            fb.write_nav_entry(id.as_str(), title.as_str(), href.as_str(), content.as_str(), DEFAULT_UPDATED)
        },
    }
}

/// The document of a feed: its header, its parts in order and an entry per
/// book.
pub fn feed_document(
    id: &str,
    title: &str,
    self_href: &str,
    start_href: &str,
    parts: &Vec<FeedPart>,
    books: &Vec<BookEntryData>,
) -> (r: Result<Vec<u8>, XmlError>)
    ensures
        r matches Ok(bytes) && bytes@ == feed_doc(id@, title@, self_href@, start_href@, parts_view(parts@), books@),
{
    let mut fb = FeedBuilder::new();
    proof {
        reveal_strlit("");
        assert(""@ =~= Seq::<char>::empty());
    }
    fb.begin_feed(id, title, "", DEFAULT_UPDATED, self_href, start_href)?;
    let ghost head = fb@;
    let ghost pv = parts_view(parts@);
    let mut i: usize = 0;
    proof {
        assert(pv.take(0) =~= Seq::<FeedPartView>::empty());
        assert(fb@ =~= head + parts_events(pv.take(0)));
    }
    while i < parts.len()
        invariant
            i <= parts.len(),
            pv == parts_view(parts@),
            fb@ == head + parts_events(pv.take(i as int)),
        decreases parts.len() - i,
    {
        write_part(&mut fb, &parts[i])?;
        proof {
            assert(pv.take(i + 1).drop_last() =~= pv.take(i as int));
            assert(pv.take(i + 1).last() == parts@[i as int]@);
            assert(fb@ =~= head + parts_events(pv.take(i + 1)));
        }
        i += 1;
    }
    let ghost before_books = fb@;
    let mut k: usize = 0;
    proof {
        assert(pv.take(parts.len() as int) =~= pv);
        assert(books@.take(0) =~= Seq::<BookEntryData>::empty());
        assert(fb@ =~= before_books + entries_events(books@.take(0)));
    }
    while k < books.len()
        invariant
            k <= books.len(),
            fb@ == before_books + entries_events(books@.take(k as int)),
        decreases books.len() - k,
    {
        let e = &books[k];
        write_book_entry(&mut fb, &e.book, &e.authors, &e.genres)?;
        proof {
            assert(books@.take(k + 1).drop_last() =~= books@.take(k as int));
            assert(books@.take(k + 1).last() == books@[k as int]);
            assert(fb@ =~= before_books + entries_events(books@.take(k + 1)));
        }
        k += 1;
    }
    proof {
        assert(books@.take(books.len() as int) =~= books@);
        assert(fb@ =~= feed_events(id@, title@, self_href@, start_href@, pv, books@));
    }
    fb.finish()
}

// ---------------------------------------------------------------------------
// Common parts
// ---------------------------------------------------------------------------

/// The search links in the feed's language.
pub open spec fn lang_search_spec(lang: Seq<char>) -> FeedPartView {
    FeedPartView::SearchLinks {
        search: add_lang_query_spec("/opds/search/"@, lang),
        template: add_lang_query_spec("/opds/search/{searchTerms}/"@, lang),
    }
}

/// The search links without a language.
pub open spec fn plain_search_spec() -> FeedPartView {
    FeedPartView::SearchLinks { search: "/opds/search/"@, template: "/opds/search/{searchTerms}/"@ }
}

/// A language facet per locale (code and label) to `target` in that locale.
pub open spec fn facet_parts(locales: Seq<(Seq<char>, Seq<char>)>, selected: Seq<char>, target: Seq<char>) -> Seq<
    FeedPartView,
> {
    locales.map_values(
        |l: (Seq<char>, Seq<char>)|
            FeedPartView::Facet {
                href: add_lang_query_spec(target, l.0),
                title: l.1,
                active: l.0 == selected,
            },
    )
}

/// `base` followed by the page number and `/`, in the language when given.
pub open spec fn paged_href(base: Seq<char>, page: int, lang: Option<Seq<char>>) -> Seq<char> {
    let h = base + signed_decimal(page) + "/"@;
    match lang {
        Some(l) => add_lang_query_spec(h, l),
        None => h,
    }
}

/// Links to the previous page past the first, and to the next page when
/// this one is full.
pub open spec fn paging_spec(base: Seq<char>, page: int, full: bool, lang: Option<Seq<char>>) -> FeedPartView {
    FeedPartView::Pagination {
        prev: if page > 1 {
            Some(paged_href(base, page - 1, lang))
        } else {
            None
        },
        next: if full {
            Some(paged_href(base, page + 1, lang))
        } else {
            None
        },
    }
}

/// The percent-encoding of a text, as it stands in a link.
pub open spec fn enc(s: Seq<char>) -> Seq<char> {
    percent_encode(encode_utf8(s))
}

pub open spec fn opt_str(o: Option<&str>) -> Option<Seq<char>> {
    match o {
        Some(s) => Some(s@),
        None => None,
    }
}

fn cat(a: &str, b: &str) -> (r: String)
    ensures
        r@ == a@ + b@,
{
    let mut v = to_chars(a);
    extend_str(&mut v, b);
    from_chars(v.as_slice())
}

fn cat3(a: &str, b: &str, c: &str) -> (r: String)
    ensures
        r@ == a@ + b@ + c@,
{
    let mut v = to_chars(a);
    extend_str(&mut v, b);
    extend_str(&mut v, c);
    proof {
        assert(v@ =~= a@ + b@ + c@);
    }
    from_chars(v.as_slice())
}

/// `a` followed by the number and `b`.
fn with_number(a: &str, n: i64, b: &str) -> (r: String)
    ensures
        r@ == a@ + signed_decimal(n as int) + b@,
{
    let mut v = to_chars(a);
    push_signed_decimal(&mut v, n);
    extend_str(&mut v, b);
    proof {
        assert(v@ =~= a@ + signed_decimal(n as int) + b@);
    }
    from_chars(v.as_slice())
}

fn lang_search(lang: &str) -> (p: FeedPart)
    ensures
        p@ == lang_search_spec(lang@),
{
    FeedPart::SearchLinks {
        search: add_lang_query("/opds/search/", lang),
        template: add_lang_query("/opds/search/{searchTerms}/", lang),
    }
}

fn plain_search() -> (p: FeedPart)
    ensures
        p@ == plain_search_spec(),
{
    FeedPart::SearchLinks {
        search: "/opds/search/".to_owned(),
        template: "/opds/search/{searchTerms}/".to_owned(),
    }
}

fn push_part(parts: &mut Vec<FeedPart>, p: FeedPart)
    ensures
        parts_view(final(parts)@) == parts_view(old(parts)@).push(p@),
{
    parts.push(p);
    proof {
        assert(parts_view(parts@) =~= parts_view(old(parts)@).push(p@));
    }
}

fn push_facets(parts: &mut Vec<FeedPart>, locales: &Vec<(String, String)>, selected: &str, target: &str)
    ensures
        parts_view(final(parts)@) == parts_view(old(parts)@) + facet_parts(
            pairs_view(locales@),
            selected@,
            target@,
        ),
{
    let ghost all = facet_parts(pairs_view(locales@), selected@, target@);
    let mut i: usize = 0;
    proof {
        assert(parts_view(parts@) =~= parts_view(old(parts)@) + all.take(0));
    }
    while i < locales.len()
        invariant
            i <= locales.len(),
            all == facet_parts(pairs_view(locales@), selected@, target@),
            all.len() == locales.len(),
            parts_view(parts@) == parts_view(old(parts)@) + all.take(i as int),
        decreases locales.len() - i,
    {
        let code = &locales[i].0;
        let p = FeedPart::Facet {
            href: add_lang_query(target, code.as_str()),
            title: locales[i].1.clone(),
            active: crate::text::str_eq(code.as_str(), selected),
        };
        proof {
            assert(pairs_view(locales@)[i as int] == (locales@[i as int].0@, locales@[i as int].1@));
        }
        push_part(parts, p);
        proof {
            assert(all.take(i + 1) =~= all.take(i as int).push(all[i as int]));
        }
        i += 1;
    }
    proof {
        assert(all.take(locales.len() as int) =~= all);
    }
}

fn paged_href_exec(base: &str, page: i64, lang: Option<&str>) -> (r: String)
    ensures
        r@ == paged_href(base@, page as int, opt_str(lang)),
{
    let h = with_number(base, page, "/");
    match lang {
        Some(l) => add_lang_query(h.as_str(), l),
        None => h,
    }
}

fn paging(base: &str, page: i32, full: bool, lang: Option<&str>) -> (p: FeedPart)
    ensures
        p@ == paging_spec(base@, page as int, full, opt_str(lang)),
{
    let prev = if page > 1 {
        Some(paged_href_exec(base, page as i64 - 1, lang))
    } else {
        None
    };
    let next = if full {
        Some(paged_href_exec(base, page as i64 + 1, lang))
    } else {
        None
    };
    FeedPart::Pagination { prev, next }
}

/// Whether a page holding `len` items is full.
fn is_full(len: usize, max_items: i32) -> (r: bool)
    ensures
        r == (len >= max_items),
{
    if max_items <= 0 {
        true
    } else {
        len >= max_items as usize
    }
}

// ---------------------------------------------------------------------------
// Catalogues
// ---------------------------------------------------------------------------

pub open spec fn catalogs_self(cat_id: i64, page: int, lang: Seq<char>) -> Seq<char> {
    if cat_id == 0 {
        add_lang_query_spec("/opds/catalogs/"@, lang)
    } else {
        add_lang_query_spec("/opds/catalogs/"@ + signed_decimal(cat_id as int) + "/"@ + signed_decimal(page) + "/"@, lang)
    }
}

/// A navigation entry per child catalogue (id and name).
pub open spec fn child_catalog_navs(children: Seq<(i64, Seq<char>)>, lang: Seq<char>) -> Seq<FeedPartView> {
    children.map_values(
        |c: (i64, Seq<char>)|
            FeedPartView::Nav {
                id: "c:"@ + signed_decimal(c.0 as int),
                title: c.1,
                href: add_lang_query_spec("/opds/catalogs/"@ + signed_decimal(c.0 as int) + "/"@, lang),
                content: Seq::empty(),
            },
    )
}

/// The parts of a catalogue page: search links and language facets; on the
/// first page, the child catalogues; inside a catalogue (`cat_id > 0`), the
/// page links. Its books follow.
pub open spec fn catalogs_parts(
    cat_id: i64,
    page: int,
    max_items: int,
    lang: Seq<char>,
    locales: Seq<(Seq<char>, Seq<char>)>,
    children: Seq<(i64, Seq<char>)>,
    book_count: int,
) -> Seq<FeedPartView> {
    seq![lang_search_spec(lang)] + facet_parts(locales, lang, "/opds/catalogs/"@) + (if page == 1 {
        child_catalog_navs(children, lang)
    } else {
        Seq::empty()
    }) + (if cat_id > 0 {
        seq![
            paging_spec(
                "/opds/catalogs/"@ + signed_decimal(cat_id as int) + "/"@,
                page,
                book_count >= max_items,
                Some(lang),
            ),
        ]
    } else {
        Seq::empty()
    })
}

pub open spec fn id_names(v: Seq<(i64, String)>) -> Seq<(i64, Seq<char>)> {
    v.map_values(|p: (i64, String)| (p.0, p.1@))
}

/// The catalogue feed: the root catalogues (`cat_id` 0) or a catalogue's
/// children (first page only) and a page of its books.
pub fn catalogs_document(
    cat_id: i64,
    page: i32,
    max_items: i32,
    lang: &str,
    locales: &Vec<(String, String)>,
    children: &Vec<(i64, String)>,
    books: &Vec<BookEntryData>,
) -> (r: Result<Vec<u8>, XmlError>)
    ensures
        r matches Ok(bytes) && bytes@ == feed_doc(
            "tag:catalogs:"@ + signed_decimal(cat_id as int) + ":"@ + signed_decimal(page as int),
            "Catalogs"@,
            catalogs_self(cat_id, page as int, lang@),
            add_lang_query_spec("/opds/"@, lang@),
            catalogs_parts(
                cat_id,
                page as int,
                max_items as int,
                lang@,
                pairs_view(locales@),
                id_names(children@),
                books@.len() as int,
            ),
            if cat_id > 0 {
                books@
            } else {
                Seq::empty()
            },
        ),
{
    let id = {
        let mut v = to_chars("tag:catalogs:");
        push_signed_decimal(&mut v, cat_id);
        extend_str(&mut v, ":");
        push_signed_decimal(&mut v, page as i64);
        proof {
            assert(v@ =~= "tag:catalogs:"@ + signed_decimal(cat_id as int) + ":"@ + signed_decimal(page as int));
        }
        from_chars(v.as_slice())
    };
    let self_href = if cat_id == 0 {
        add_lang_query("/opds/catalogs/", lang)
    } else {
        let mut v = to_chars("/opds/catalogs/");
        push_signed_decimal(&mut v, cat_id);
        extend_str(&mut v, "/");
        push_signed_decimal(&mut v, page as i64);
        extend_str(&mut v, "/");
        let h = from_chars(v.as_slice());
        proof {
            assert(h@ =~= "/opds/catalogs/"@ + signed_decimal(cat_id as int) + "/"@ + signed_decimal(page as int) + "/"@);
        }
        add_lang_query(h.as_str(), lang)
    };
    let start = add_lang_query("/opds/", lang);
    let mut parts: Vec<FeedPart> = Vec::new();
    push_part(&mut parts, lang_search(lang));
    push_facets(&mut parts, locales, lang, "/opds/catalogs/");
    let ghost before_children = parts_view(parts@);
    if page == 1 {
        let ghost navs = child_catalog_navs(id_names(children@), lang@);
        let mut i: usize = 0;
        proof {
            assert(parts_view(parts@) =~= before_children + navs.take(0));
        }
        while i < children.len()
            invariant
                i <= children.len(),
                navs == child_catalog_navs(id_names(children@), lang@),
                navs.len() == children.len(),
                parts_view(parts@) == before_children + navs.take(i as int),
            decreases children.len() - i,
        {
            let cid = children[i].0;
            let href = with_number("/opds/catalogs/", cid, "/");
            let nav = FeedPart::Nav {
                id: with_number("c:", cid, ""),
                title: children[i].1.clone(),
                href: add_lang_query(href.as_str(), lang),
                content: String::new(),
            };
            proof {
                reveal_strlit("");
                assert(""@ =~= Seq::<char>::empty());
                assert(id_names(children@)[i as int] == (children@[i as int].0, children@[i as int].1@));
                assert(("c:"@ + signed_decimal(cid as int) + ""@) =~= "c:"@ + signed_decimal(cid as int));
                assert(nav@ == navs[i as int]);
            }
            push_part(&mut parts, nav);
            proof {
                assert(navs.take(i + 1) =~= navs.take(i as int).push(navs[i as int]));
            }
            i += 1;
        }
        proof {
            assert(navs.take(children.len() as int) =~= navs);
        }
    } else {
        proof {
            assert(parts_view(parts@) =~= before_children + Seq::<FeedPartView>::empty());
        }
    }
    let ghost before_paging = parts_view(parts@);
    let no_books: Vec<BookEntryData> = Vec::new();
    let shown = if cat_id > 0 {
        let base = with_number("/opds/catalogs/", cat_id, "/");
        push_part(&mut parts, paging(base.as_str(), page, is_full(books.len(), max_items), Some(lang)));
        books
    } else {
        proof {
            assert(parts_view(parts@) =~= before_paging + Seq::<FeedPartView>::empty());
        }
        &no_books
    };
    proof {
        assert(parts_view(parts@) =~= catalogs_parts(
            cat_id,
            page as int,
            max_items as int,
            lang@,
            pairs_view(locales@),
            id_names(children@),
            books@.len() as int,
        ));
    }
    feed_document(id.as_str(), "Catalogs", self_href.as_str(), start.as_str(), &parts, shown)
}

// ---------------------------------------------------------------------------
// Authors, series and titles by prefix
// ---------------------------------------------------------------------------

/// What a feed of name prefixes lists.
#[derive(Debug, Clone, Copy, PartialEq, Eq, Structural)]
pub enum PrefixKind {
    Authors,
    Series,
    Books,
}

pub open spec fn kind_path(k: PrefixKind) -> Seq<char> {
    match k {
        PrefixKind::Authors => "authors"@,
        PrefixKind::Series => "series"@,
        PrefixKind::Books => "books"@,
    }
}

pub open spec fn kind_title(k: PrefixKind) -> Seq<char> {
    match k {
        PrefixKind::Authors => "Authors"@,
        PrefixKind::Series => "Series"@,
        PrefixKind::Books => "Books"@,
    }
}

pub open spec fn kind_id(k: PrefixKind) -> Seq<char> {
    match k {
        PrefixKind::Authors => "ap:"@,
        PrefixKind::Series => "sp:"@,
        PrefixKind::Books => "bp:"@,
    }
}

/// `/opds/{kind}/{lang_code}/`
pub open spec fn kind_base(k: PrefixKind, lang_code: i32) -> Seq<char> {
    "/opds/"@ + kind_path(k) + "/"@ + signed_decimal(lang_code as int) + "/"@
}

/// A prefix with at least `split_items` names opens the next level of
/// prefixes; a smaller one lists its names (for titles: searches them).
pub open spec fn prefix_nav(k: PrefixKind, lang_code: i32, g: (Seq<char>, i64), split_items: i64) -> FeedPartView {
    FeedPartView::Nav {
        id: kind_id(k) + g.0,
        title: g.0,
        href: if g.1 >= split_items {
            kind_base(k, lang_code) + enc(g.0) + "/"@
        } else if k == PrefixKind::Books {
            "/opds/search/books/b/"@ + enc(g.0) + "/"@
        } else {
            kind_base(k, lang_code) + enc(g.0) + "/list/"@
        },
        content: signed_decimal(g.1 as int),
    }
}

pub open spec fn prefix_self(k: PrefixKind, lang_code: i32, prefix: Seq<char>) -> Seq<char> {
    if prefix.len() == 0 {
        kind_base(k, lang_code)
    } else {
        kind_base(k, lang_code) + enc(prefix) + "/"@
    }
}

pub open spec fn prefix_parts(
    k: PrefixKind,
    lang_code: i32,
    groups: Seq<(Seq<char>, i64)>,
    split_items: i64,
) -> Seq<FeedPartView> {
    seq![plain_search_spec()] + groups.map_values(
        |g: (Seq<char>, i64)| prefix_nav(k, lang_code, g, split_items),
    )
}

pub open spec fn name_counts(v: Seq<(String, i64)>) -> Seq<(Seq<char>, i64)> {
    v.map_values(|p: (String, i64)| (p.0@, p.1))
}

fn kind_strs(k: PrefixKind) -> (r: (&'static str, &'static str, &'static str))
    ensures
        r.0@ == kind_path(k),
        r.1@ == kind_title(k),
        r.2@ == kind_id(k),
{
    match k {
        PrefixKind::Authors => ("authors", "Authors", "ap:"),
        PrefixKind::Series => ("series", "Series", "sp:"),
        PrefixKind::Books => ("books", "Books", "bp:"),
    }
}

fn kind_base_exec(k: PrefixKind, lang_code: i32) -> (r: String)
    ensures
        r@ == kind_base(k, lang_code),
{
    let (path, _, _) = kind_strs(k);
    let mut v = to_chars("/opds/");
    extend_str(&mut v, path);
    extend_str(&mut v, "/");
    push_signed_decimal(&mut v, lang_code as i64);
    extend_str(&mut v, "/");
    proof {
        assert(v@ =~= kind_base(k, lang_code));
    }
    from_chars(v.as_slice())
}

/// The feed of the name prefixes (with their counts) of authors, series or
/// titles in a language group, below `prefix`.
pub fn prefix_groups_document(
    k: PrefixKind,
    lang_code: i32,
    prefix: &str,
    split_items: i64,
    groups: &Vec<(String, i64)>,
) -> (r: Result<Vec<u8>, XmlError>)
    ensures
        r matches Ok(bytes) && bytes@ == feed_doc(
            "tag:"@ + kind_path(k) + ":"@ + signed_decimal(lang_code as int) + ":"@ + prefix@,
            kind_title(k),
            prefix_self(k, lang_code, prefix@),
            "/opds/"@,
            prefix_parts(k, lang_code, name_counts(groups@), split_items),
            Seq::empty(),
        ),
{
    let (path, title, idp) = kind_strs(k);
    let base = kind_base_exec(k, lang_code);
    let id = {
        let mut v = to_chars("tag:");
        extend_str(&mut v, path);
        extend_str(&mut v, ":");
        push_signed_decimal(&mut v, lang_code as i64);
        extend_str(&mut v, ":");
        extend_str(&mut v, prefix);
        proof {
            assert(v@ =~= "tag:"@ + kind_path(k) + ":"@ + signed_decimal(lang_code as int) + ":"@ + prefix@);
        }
        from_chars(v.as_slice())
    };
    let self_href = if prefix.is_empty() {
        base.clone()
    } else {
        let e = url_encode(prefix);
        cat3(base.as_str(), e.as_str(), "/")
    };
    let mut parts: Vec<FeedPart> = Vec::new();
    push_part(&mut parts, plain_search());
    let ghost head = parts_view(parts@);
    let ghost gv = name_counts(groups@);
    let ghost navs = gv.map_values(|g: (Seq<char>, i64)| prefix_nav(k, lang_code, g, split_items));
    let mut i: usize = 0;
    proof {
        assert(parts_view(parts@) =~= head + navs.take(0));
    }
    while i < groups.len()
        invariant
            i <= groups.len(),
            gv == name_counts(groups@),
            navs == gv.map_values(|g: (Seq<char>, i64)| prefix_nav(k, lang_code, g, split_items)),
            base@ == kind_base(k, lang_code),
            idp@ == kind_id(k),
            parts_view(parts@) == head + navs.take(i as int),
        decreases groups.len() - i,
    {
        let name = &groups[i].0;
        let count = groups[i].1;
        let e = url_encode(name.as_str());
        let href = if count >= split_items {
            cat3(base.as_str(), e.as_str(), "/")
        } else if k == PrefixKind::Books {
            cat3("/opds/search/books/b/", e.as_str(), "/")
        } else {
            cat3(base.as_str(), e.as_str(), "/list/")
        };
        let content = with_number("", count, "");
        let nav = FeedPart::Nav {
            id: cat(idp, name.as_str()),
            title: name.clone(),
            href,
            content,
        };
        proof {
            reveal_strlit("");
            assert(""@ =~= Seq::<char>::empty());
            assert(gv[i as int] == (name@, count));
            assert(""@ + signed_decimal(count as int) + ""@ =~= signed_decimal(count as int));
            assert(nav@ == navs[i as int]);
        }
        push_part(&mut parts, nav);
        proof {
            assert(navs.take(i + 1) =~= navs.take(i as int).push(navs[i as int]));
        }
        i += 1;
    }
    proof {
        assert(navs.take(groups.len() as int) =~= navs);
        assert(parts_view(parts@) =~= prefix_parts(k, lang_code, gv, split_items));
    }
    let no_books: Vec<BookEntryData> = Vec::new();
    proof {
        assert(no_books@ =~= Seq::<BookEntryData>::empty());
    }
    feed_document(id.as_str(), title, self_href.as_str(), "/opds/", &parts, &no_books)
}

// ---------------------------------------------------------------------------
// Pages of authors or series
// ---------------------------------------------------------------------------

/// A navigation entry per author or series (id and name), to its books;
/// `letter` is `a` for authors and `s` for series.
pub open spec fn name_navs(letter: Seq<char>, items: Seq<(i64, Seq<char>)>) -> Seq<FeedPartView> {
    items.map_values(
        |it: (i64, Seq<char>)|
            FeedPartView::Nav {
                id: letter + ":"@ + signed_decimal(it.0 as int),
                title: it.1,
                href: "/opds/search/books/"@ + letter + "/"@ + signed_decimal(it.0 as int) + "/"@,
                content: Seq::empty(),
            },
    )
}

pub open spec fn name_list_parts(
    base: Seq<char>,
    page: int,
    max_items: int,
    letter: Seq<char>,
    items: Seq<(i64, Seq<char>)>,
) -> Seq<FeedPartView> {
    seq![plain_search_spec(), paging_spec(base, page, items.len() >= max_items, None)] + name_navs(
        letter,
        items,
    )
}

/// A page of authors or series: search links, page links under `base`, and
/// an entry per item; the page's own link is `base` followed by the page.
fn name_list_document(
    id: &str,
    title: &str,
    base: &str,
    page: i32,
    max_items: i32,
    letter: &str,
    items: &Vec<(i64, String)>,
) -> (r: Result<Vec<u8>, XmlError>)
    ensures
        r matches Ok(bytes) && bytes@ == feed_doc(
            id@,
            title@,
            paged_href(base@, page as int, None),
            "/opds/"@,
            name_list_parts(base@, page as int, max_items as int, letter@, id_names(items@)),
            Seq::empty(),
        ),
{
    let self_href = paged_href_exec(base, page as i64, None);
    let mut parts: Vec<FeedPart> = Vec::new();
    push_part(&mut parts, plain_search());
    push_part(&mut parts, paging(base, page, is_full(items.len(), max_items), None));
    let ghost head = parts_view(parts@);
    let ghost iv = id_names(items@);
    let ghost navs = name_navs(letter@, iv);
    let mut i: usize = 0;
    proof {
        assert(parts_view(parts@) =~= head + navs.take(0));
    }
    while i < items.len()
        invariant
            i <= items.len(),
            iv == id_names(items@),
            navs == name_navs(letter@, iv),
            parts_view(parts@) == head + navs.take(i as int),
        decreases items.len() - i,
    {
        let item_id = items[i].0;
        let mut hid = to_chars(letter);
        extend_str(&mut hid, ":");
        push_signed_decimal(&mut hid, item_id);
        let mut h = to_chars("/opds/search/books/");
        extend_str(&mut h, letter);
        extend_str(&mut h, "/");
        push_signed_decimal(&mut h, item_id);
        extend_str(&mut h, "/");
        let nav = FeedPart::Nav {
            id: from_chars(hid.as_slice()),
            title: items[i].1.clone(),
            href: from_chars(h.as_slice()),
            content: String::new(),
        };
        proof {
            assert(iv[i as int] == (item_id, items@[i as int].1@));
            assert(hid@ =~= letter@ + ":"@ + signed_decimal(item_id as int));
            assert(h@ =~= "/opds/search/books/"@ + letter@ + "/"@ + signed_decimal(item_id as int) + "/"@);
            assert(nav@ == navs[i as int]);
        }
        push_part(&mut parts, nav);
        proof {
            assert(navs.take(i + 1) =~= navs.take(i as int).push(navs[i as int]));
        }
        i += 1;
    }
    proof {
        assert(navs.take(items.len() as int) =~= navs);
        assert(parts_view(parts@) =~= name_list_parts(base@, page as int, max_items as int, letter@, iv));
    }
    let no_books: Vec<BookEntryData> = Vec::new();
    proof {
        assert(no_books@ =~= Seq::<BookEntryData>::empty());
    }
    feed_document(id, title, self_href.as_str(), "/opds/", &parts, &no_books)
}

/// `/opds/{kind}/{lang_code}/{prefix}/list/`
pub open spec fn list_base(k: PrefixKind, lang_code: i32, prefix: Seq<char>) -> Seq<char> {
    kind_base(k, lang_code) + enc(prefix) + "/list/"@
}

/// A page of the authors (`PrefixKind::Authors`) or series (otherwise) of a
/// language group whose names start with `prefix`.
pub fn prefix_list_document(
    k: PrefixKind,
    lang_code: i32,
    prefix: &str,
    page: i32,
    max_items: i32,
    items: &Vec<(i64, String)>,
) -> (r: Result<Vec<u8>, XmlError>)
    requires
        k != PrefixKind::Books,
    ensures
        r matches Ok(bytes) && bytes@ == feed_doc(
            "tag:"@ + kind_path(k) + ":"@ + signed_decimal(lang_code as int) + ":"@ + prefix@ + ":list:"@
                + signed_decimal(page as int),
            kind_title(k) + ": "@ + prefix@,
            paged_href(list_base(k, lang_code, prefix@), page as int, None),
            "/opds/"@,
            name_list_parts(
                list_base(k, lang_code, prefix@),
                page as int,
                max_items as int,
                if k == PrefixKind::Authors {
                    "a"@
                } else {
                    "s"@
                },
                id_names(items@),
            ),
            Seq::empty(),
        ),
{
    let (path, title, _) = kind_strs(k);
    let kb = kind_base_exec(k, lang_code);
    let e = url_encode(prefix);
    let base = cat3(kb.as_str(), e.as_str(), "/list/");
    let id = {
        let mut v = to_chars("tag:");
        extend_str(&mut v, path);
        extend_str(&mut v, ":");
        push_signed_decimal(&mut v, lang_code as i64);
        extend_str(&mut v, ":");
        extend_str(&mut v, prefix);
        extend_str(&mut v, ":list:");
        push_signed_decimal(&mut v, page as i64);
        proof {
            assert(v@ =~= "tag:"@ + kind_path(k) + ":"@ + signed_decimal(lang_code as int) + ":"@ + prefix@
                + ":list:"@ + signed_decimal(page as int));
        }
        from_chars(v.as_slice())
    };
    let full_title = cat3(title, ": ", prefix);
    let letter = if k == PrefixKind::Authors {
        "a"
    } else {
        "s"
    };
    name_list_document(id.as_str(), full_title.as_str(), base.as_str(), page, max_items, letter, items)
}

/// `/opds/search/{kind}/m/{terms}/`
pub open spec fn search_base(k: PrefixKind, terms: Seq<char>) -> Seq<char> {
    "/opds/search/"@ + kind_path(k) + "/m/"@ + enc(terms) + "/"@
}

/// A page of the authors (`PrefixKind::Authors`) or series (otherwise) found
/// for the search terms.
pub fn search_names_document(
    k: PrefixKind,
    terms: &str,
    page: i32,
    max_items: i32,
    items: &Vec<(i64, String)>,
) -> (r: Result<Vec<u8>, XmlError>)
    requires
        k != PrefixKind::Books,
    ensures
        r matches Ok(bytes) && bytes@ == feed_doc(
            "tag:search:"@ + kind_path(k) + ":"@ + terms@ + ":"@ + signed_decimal(page as int),
            kind_title(k) + ": "@ + terms@,
            paged_href(search_base(k, terms@), page as int, None),
            "/opds/"@,
            name_list_parts(
                search_base(k, terms@),
                page as int,
                max_items as int,
                if k == PrefixKind::Authors {
                    "a"@
                } else {
                    "s"@
                },
                id_names(items@),
            ),
            Seq::empty(),
        ),
{
    let (path, title, _) = kind_strs(k);
    let e = url_encode(terms);
    let mut b = to_chars("/opds/search/");
    extend_str(&mut b, path);
    extend_str(&mut b, "/m/");
    extend_str(&mut b, e.as_str());
    extend_str(&mut b, "/");
    proof {
        assert(b@ =~= search_base(k, terms@));
    }
    let base = from_chars(b.as_slice());
    let id = {
        let mut v = to_chars("tag:search:");
        extend_str(&mut v, path);
        extend_str(&mut v, ":");
        extend_str(&mut v, terms);
        extend_str(&mut v, ":");
        push_signed_decimal(&mut v, page as i64);
        proof {
            assert(v@ =~= "tag:search:"@ + kind_path(k) + ":"@ + terms@ + ":"@ + signed_decimal(page as int));
        }
        from_chars(v.as_slice())
    };
    let full_title = cat3(title, ": ", terms);
    let letter = if k == PrefixKind::Authors {
        "a"
    } else {
        "s"
    };
    name_list_document(id.as_str(), full_title.as_str(), base.as_str(), page, max_items, letter, items)
}

// ---------------------------------------------------------------------------
// Genres
// ---------------------------------------------------------------------------

/// A navigation entry per genre section (code and name), numbered in order.
pub open spec fn section_navs(sections: Seq<(Seq<char>, Seq<char>)>, lang: Seq<char>) -> Seq<FeedPartView> {
    Seq::new(
        sections.len(),
        |i: int|
            FeedPartView::Nav {
                id: "gs:"@ + signed_decimal(i),
                title: sections[i].1,
                href: add_lang_query_spec("/opds/genres/"@ + enc(sections[i].0) + "/"@, lang),
                content: Seq::empty(),
            },
    )
}

pub open spec fn genres_root_parts(
    lang: Seq<char>,
    locales: Seq<(Seq<char>, Seq<char>)>,
    sections: Seq<(Seq<char>, Seq<char>)>,
) -> Seq<FeedPartView> {
    seq![lang_search_spec(lang)] + facet_parts(locales, lang, "/opds/genres/"@) + section_navs(
        sections,
        lang,
    )
}

/// The genre sections (code and name in the feed's language).
pub fn genres_root_document(
    lang: &str,
    locales: &Vec<(String, String)>,
    sections: &Vec<(String, String)>,
) -> (r: Result<Vec<u8>, XmlError>)
    ensures
        r matches Ok(bytes) && bytes@ == feed_doc(
            "tag:genres"@,
            "Genres"@,
            add_lang_query_spec("/opds/genres/"@, lang@),
            add_lang_query_spec("/opds/"@, lang@),
            genres_root_parts(lang@, pairs_view(locales@), pairs_view(sections@)),
            Seq::empty(),
        ),
{
    let self_href = add_lang_query("/opds/genres/", lang);
    let start = add_lang_query("/opds/", lang);
    let mut parts: Vec<FeedPart> = Vec::new();
    push_part(&mut parts, lang_search(lang));
    push_facets(&mut parts, locales, lang, "/opds/genres/");
    let ghost head = parts_view(parts@);
    let ghost sv = pairs_view(sections@);
    let ghost navs = section_navs(sv, lang@);
    let mut i: usize = 0;
    proof {
        assert(parts_view(parts@) =~= head + navs.take(0));
    }
    while i < sections.len()
        invariant
            i <= sections.len(),
            sv == pairs_view(sections@),
            navs == section_navs(sv, lang@),
            parts_view(parts@) == head + navs.take(i as int),
        decreases sections.len() - i,
    {
        let e = url_encode(sections[i].0.as_str());
        let h = cat3("/opds/genres/", e.as_str(), "/");
        let mut gid = to_chars("gs:");
        crate::decimal::push_decimal(&mut gid, i as u64);
        let nav = FeedPart::Nav {
            id: from_chars(gid.as_slice()),
            title: sections[i].1.clone(),
            href: add_lang_query(h.as_str(), lang),
            content: String::new(),
        };
        proof {
            reveal_strlit("");
            assert(""@ =~= Seq::<char>::empty());
            assert(sv[i as int] == (sections@[i as int].0@, sections@[i as int].1@));
            assert(gid@ =~= "gs:"@ + signed_decimal(i as int));
            assert(nav@ == navs[i as int]);
        }
        push_part(&mut parts, nav);
        proof {
            assert(navs.take(i + 1) =~= navs.take(i as int).push(navs[i as int]));
        }
        i += 1;
    }
    proof {
        assert(navs.take(sections.len() as int) =~= navs);
        assert(parts_view(parts@) =~= genres_root_parts(lang@, pairs_view(locales@), sv));
    }
    let no_books: Vec<BookEntryData> = Vec::new();
    proof {
        assert(no_books@ =~= Seq::<BookEntryData>::empty());
    }
    feed_document("tag:genres", "Genres", self_href.as_str(), start.as_str(), &parts, &no_books)
}

/// A navigation entry per genre of a section, to its books.
pub open spec fn genre_navs(genres: Seq<Genre>, lang: Seq<char>) -> Seq<FeedPartView> {
    genres.map_values(
        |g: Genre|
            FeedPartView::Nav {
                id: "g:"@ + signed_decimal(g.id as int),
                title: g.subsection@,
                href: add_lang_query_spec("/opds/search/books/g/"@ + signed_decimal(g.id as int) + "/"@, lang),
                content: g.code@,
            },
    )
}

/// The title of a section's feed: the section name of its first genre, or
/// the section code when it has none.
pub open spec fn section_title(section_code: Seq<char>, genres: Seq<Genre>) -> Seq<char> {
    if genres.len() > 0 {
        genres[0].section@
    } else {
        section_code
    }
}

pub open spec fn genres_section_parts(
    section_code: Seq<char>,
    lang: Seq<char>,
    locales: Seq<(Seq<char>, Seq<char>)>,
    genres: Seq<Genre>,
) -> Seq<FeedPartView> {
    seq![lang_search_spec(lang)] + facet_parts(locales, lang, "/opds/genres/"@ + enc(section_code) + "/"@)
        + genre_navs(genres, lang)
}

/// The genres of a section.
pub fn genres_section_document(
    section_code: &str,
    lang: &str,
    locales: &Vec<(String, String)>,
    genres: &Vec<Genre>,
) -> (r: Result<Vec<u8>, XmlError>)
    ensures
        r matches Ok(bytes) && bytes@ == feed_doc(
            "tag:genres:"@ + section_code@,
            section_title(section_code@, genres@),
            add_lang_query_spec("/opds/genres/"@ + enc(section_code@) + "/"@, lang@),
            add_lang_query_spec("/opds/"@, lang@),
            genres_section_parts(section_code@, lang@, pairs_view(locales@), genres@),
            Seq::empty(),
        ),
{
    let e = url_encode(section_code);
    let target = cat3("/opds/genres/", e.as_str(), "/");
    let self_href = add_lang_query(target.as_str(), lang);
    let start = add_lang_query("/opds/", lang);
    let title = if genres.len() > 0 {
        genres[0].section.clone()
    } else {
        section_code.to_owned()
    };
    let id = cat("tag:genres:", section_code);
    let mut parts: Vec<FeedPart> = Vec::new();
    push_part(&mut parts, lang_search(lang));
    push_facets(&mut parts, locales, lang, target.as_str());
    let ghost head = parts_view(parts@);
    let ghost navs = genre_navs(genres@, lang@);
    let mut i: usize = 0;
    proof {
        assert(parts_view(parts@) =~= head + navs.take(0));
    }
    while i < genres.len()
        invariant
            i <= genres.len(),
            navs == genre_navs(genres@, lang@),
            parts_view(parts@) == head + navs.take(i as int),
        decreases genres.len() - i,
    {
        let g = &genres[i];
        let h = with_number("/opds/search/books/g/", g.id, "/");
        let nav = FeedPart::Nav {
            id: with_number("g:", g.id, ""),
            title: g.subsection.clone(),
            href: add_lang_query(h.as_str(), lang),
            content: g.code.clone(),
        };
        proof {
            reveal_strlit("");
            assert(""@ =~= Seq::<char>::empty());
            assert("g:"@ + signed_decimal(g.id as int) + ""@ =~= "g:"@ + signed_decimal(g.id as int));
            assert(nav@ == navs[i as int]);
        }
        push_part(&mut parts, nav);
        proof {
            assert(navs.take(i + 1) =~= navs.take(i as int).push(navs[i as int]));
        }
        i += 1;
    }
    proof {
        assert(navs.take(genres.len() as int) =~= navs);
        assert(parts_view(parts@) =~= genres_section_parts(section_code@, lang@, pairs_view(locales@), genres@));
    }
    let no_books: Vec<BookEntryData> = Vec::new();
    proof {
        assert(no_books@ =~= Seq::<BookEntryData>::empty());
    }
    feed_document(id.as_str(), title.as_str(), self_href.as_str(), start.as_str(), &parts, &no_books)
}

// ---------------------------------------------------------------------------
// Languages of the catalogue
// ---------------------------------------------------------------------------

/// `/opds/lang/{code}/`
pub open spec fn lang_root(code: Seq<char>) -> Seq<char> {
    "/opds/lang/"@ + enc(code) + "/"@
}

/// The feed of the catalogue's languages: a facet and an entry per locale
/// (code and label) leading to the root feed in that locale, the entry
/// reading `{browse_prefix} {label}`.
pub open spec fn language_facets_parts(
    lang: Seq<char>,
    locales: Seq<(Seq<char>, Seq<char>)>,
    browse_prefix: Seq<char>,
) -> Seq<FeedPartView> {
    seq![lang_search_spec(lang)] + locales.map_values(
        |l: (Seq<char>, Seq<char>)|
            FeedPartView::Facet { href: lang_root(l.0), title: l.1, active: l.0 == lang },
    ) + locales.map_values(
        |l: (Seq<char>, Seq<char>)|
            FeedPartView::Nav {
                id: "lf:"@ + l.0,
                title: l.1,
                href: lang_root(l.0),
                content: browse_prefix + " "@ + l.1,
            },
    )
}

pub fn language_facets_document(
    lang: &str,
    title: &str,
    browse_prefix: &str,
    locales: &Vec<(String, String)>,
) -> (r: Result<Vec<u8>, XmlError>)
    ensures
        r matches Ok(bytes) && bytes@ == feed_doc(
            "tag:facets:languages"@,
            title@,
            add_lang_query_spec("/opds/facets/languages/"@, lang@),
            add_lang_query_spec("/opds/"@, lang@),
            language_facets_parts(lang@, pairs_view(locales@), browse_prefix@),
            Seq::empty(),
        ),
{
    let self_href = add_lang_query("/opds/facets/languages/", lang);
    let start = add_lang_query("/opds/", lang);
    let ghost lv = pairs_view(locales@);
    let ghost facets = lv.map_values(
        |l: (Seq<char>, Seq<char>)| FeedPartView::Facet { href: lang_root(l.0), title: l.1, active: l.0 == lang@ },
    );
    let ghost navs = lv.map_values(
        |l: (Seq<char>, Seq<char>)|
            FeedPartView::Nav {
                id: "lf:"@ + l.0,
                title: l.1,
                href: lang_root(l.0),
                content: browse_prefix@ + " "@ + l.1,
            },
    );
    let mut parts: Vec<FeedPart> = Vec::new();
    push_part(&mut parts, lang_search(lang));
    let ghost head = parts_view(parts@);
    let mut i: usize = 0;
    proof {
        assert(parts_view(parts@) =~= head + facets.take(0));
    }
    while i < locales.len()
        invariant
            i <= locales.len(),
            lv == pairs_view(locales@),
            facets == lv.map_values(
                |l: (Seq<char>, Seq<char>)| FeedPartView::Facet { href: lang_root(l.0), title: l.1, active: l.0 == lang@ },
            ),
            parts_view(parts@) == head + facets.take(i as int),
        decreases locales.len() - i,
    {
        let code = &locales[i].0;
        let e = url_encode(code.as_str());
        let p = FeedPart::Facet {
            href: cat3("/opds/lang/", e.as_str(), "/"),
            title: locales[i].1.clone(),
            active: crate::text::str_eq(code.as_str(), lang),
        };
        proof {
            assert(lv[i as int] == (code@, locales@[i as int].1@));
            assert(p@ == facets[i as int]);
        }
        push_part(&mut parts, p);
        proof {
            assert(facets.take(i + 1) =~= facets.take(i as int).push(facets[i as int]));
        }
        i += 1;
    }
    let ghost mid = parts_view(parts@);
    let mut j: usize = 0;
    proof {
        assert(facets.take(locales.len() as int) =~= facets);
        assert(parts_view(parts@) =~= mid + navs.take(0));
    }
    while j < locales.len()
        invariant
            j <= locales.len(),
            lv == pairs_view(locales@),
            navs == lv.map_values(
                |l: (Seq<char>, Seq<char>)|
                    FeedPartView::Nav {
                        id: "lf:"@ + l.0,
                        title: l.1,
                        href: lang_root(l.0),
                        content: browse_prefix@ + " "@ + l.1,
                    },
            ),
            parts_view(parts@) == mid + navs.take(j as int),
        decreases locales.len() - j,
    {
        let code = &locales[j].0;
        let label = &locales[j].1;
        let e = url_encode(code.as_str());
        let nav = FeedPart::Nav {
            id: cat("lf:", code.as_str()),
            title: label.clone(),
            href: cat3("/opds/lang/", e.as_str(), "/"),
            content: cat3(browse_prefix, " ", label.as_str()),
        };
        proof {
            assert(lv[j as int] == (code@, label@));
            assert(nav@ == navs[j as int]);
        }
        push_part(&mut parts, nav);
        proof {
            assert(navs.take(j + 1) =~= navs.take(j as int).push(navs[j as int]));
        }
        j += 1;
    }
    proof {
        assert(navs.take(locales.len() as int) =~= navs);
        assert(parts_view(parts@) =~= language_facets_parts(lang@, lv, browse_prefix@));
    }
    let no_books: Vec<BookEntryData> = Vec::new();
    proof {
        assert(no_books@ =~= Seq::<BookEntryData>::empty());
    }
    feed_document("tag:facets:languages", title, self_href.as_str(), start.as_str(), &parts, &no_books)
}

// ---------------------------------------------------------------------------
// Pages of books: recently added, the reader's shelf
// ---------------------------------------------------------------------------

pub open spec fn paged_books_parts(
    base: Seq<char>,
    page: int,
    max_items: int,
    lang: Seq<char>,
    locales: Seq<(Seq<char>, Seq<char>)>,
    book_count: int,
) -> Seq<FeedPartView> {
    seq![lang_search_spec(lang)] + facet_parts(locales, lang, base) + seq![
        paging_spec(base, page, book_count >= max_items, Some(lang)),
    ]
}

/// A page of books under `base` (`/opds/recent/` or `/opds/bookshelf/`):
/// search links, language facets, page links and an entry per book; the
/// feed's id is `tag:{tag}:{page}`.
pub fn paged_books_document(
    tag: &str,
    title: &str,
    base: &str,
    page: i32,
    max_items: i32,
    lang: &str,
    locales: &Vec<(String, String)>,
    books: &Vec<BookEntryData>,
) -> (r: Result<Vec<u8>, XmlError>)
    ensures
        r matches Ok(bytes) && bytes@ == feed_doc(
            "tag:"@ + tag@ + ":"@ + signed_decimal(page as int),
            title@,
            paged_href(base@, page as int, Some(lang@)),
            add_lang_query_spec("/opds/"@, lang@),
            paged_books_parts(base@, page as int, max_items as int, lang@, pairs_view(locales@), books@.len() as int),
            books@,
        ),
{
    let id = {
        let mut v = to_chars("tag:");
        extend_str(&mut v, tag);
        extend_str(&mut v, ":");
        push_signed_decimal(&mut v, page as i64);
        proof {
            assert(v@ =~= "tag:"@ + tag@ + ":"@ + signed_decimal(page as int));
        }
        from_chars(v.as_slice())
    };
    let self_href = paged_href_exec(base, page as i64, Some(lang));
    let start = add_lang_query("/opds/", lang);
    let mut parts: Vec<FeedPart> = Vec::new();
    push_part(&mut parts, lang_search(lang));
    push_facets(&mut parts, locales, lang, base);
    push_part(&mut parts, paging(base, page, is_full(books.len(), max_items), Some(lang)));
    proof {
        assert(parts_view(parts@) =~= paged_books_parts(
            base@,
            page as int,
            max_items as int,
            lang@,
            pairs_view(locales@),
            books@.len() as int,
        ));
    }
    feed_document(id.as_str(), title, self_href.as_str(), start.as_str(), &parts, books)
}

// ---------------------------------------------------------------------------
// Search
// ---------------------------------------------------------------------------

/// Searching the terms by title, author or series.
pub open spec fn search_types_parts(terms: Seq<char>) -> Seq<FeedPartView> {
    seq![
        FeedPartView::Nav {
            id: "st:1"@,
            title: "Search by title"@,
            href: "/opds/search/books/m/"@ + enc(terms) + "/"@,
            content: Seq::empty(),
        },
        FeedPartView::Nav {
            id: "st:2"@,
            title: "Search by author"@,
            href: "/opds/search/authors/m/"@ + enc(terms) + "/"@,
            content: Seq::empty(),
        },
        FeedPartView::Nav {
            id: "st:3"@,
            title: "Search by series"@,
            href: "/opds/search/series/m/"@ + enc(terms) + "/"@,
            content: Seq::empty(),
        },
    ]
}

/// The choice of what to search the terms in.
pub fn search_types_document(terms: &str) -> (r: Result<Vec<u8>, XmlError>)
    ensures
        r matches Ok(bytes) && bytes@ == feed_doc(
            "tag:search:"@ + terms@,
            "Search: "@ + terms@,
            "/opds/search/"@ + enc(terms@) + "/"@,
            "/opds/"@,
            search_types_parts(terms@),
            Seq::empty(),
        ),
{
    let e = url_encode(terms);
    let mut parts: Vec<FeedPart> = Vec::new();
    proof {
        reveal_strlit("");
        assert(""@ =~= Seq::<char>::empty());
    }
    push_part(
        &mut parts,
        FeedPart::Nav {
            id: "st:1".to_owned(),
            title: "Search by title".to_owned(),
            href: cat3("/opds/search/books/m/", e.as_str(), "/"),
            content: String::new(),
        },
    );
    push_part(
        &mut parts,
        FeedPart::Nav {
            id: "st:2".to_owned(),
            title: "Search by author".to_owned(),
            href: cat3("/opds/search/authors/m/", e.as_str(), "/"),
            content: String::new(),
        },
    );
    push_part(
        &mut parts,
        FeedPart::Nav {
            id: "st:3".to_owned(),
            title: "Search by series".to_owned(),
            href: cat3("/opds/search/series/m/", e.as_str(), "/"),
            content: String::new(),
        },
    );
    proof {
        assert(parts_view(parts@) =~= search_types_parts(terms@));
    }
    let id = cat("tag:search:", terms);
    let title = cat("Search: ", terms);
    let self_href = cat3("/opds/search/", e.as_str(), "/");
    let no_books: Vec<BookEntryData> = Vec::new();
    proof {
        assert(no_books@ =~= Seq::<BookEntryData>::empty());
    }
    feed_document(id.as_str(), title.as_str(), self_href.as_str(), "/opds/", &parts, &no_books)
}

/// The OpenSearch description of the catalogue's search.
pub const OPENSEARCH_DESCRIPTION: &'static str = "<?xml version=\"1.0\" encoding=\"utf-8\"?>
<OpenSearchDescription xmlns=\"http://a9.com/-/spec/opensearch/1.1/\">
    <ShortName>ropds</ShortName>
    <LongName>Rust OPDS Server</LongName>
    <Description>Search the OPDS catalog</Description>
    <Url type=\"application/atom+xml\" template=\"/opds/search/{searchTerms}/\" />
    <SyndicationRight>open</SyndicationRight>
    <AdultContent>false</AdultContent>
    <Language>*</Language>
    <OutputEncoding>UTF-8</OutputEncoding>
    <InputEncoding>UTF-8</InputEncoding>
</OpenSearchDescription>";

// ---------------------------------------------------------------------------
// Choosing a script
// ---------------------------------------------------------------------------

/// The labels of the script groups, in the feed's language.
pub struct ScriptLabels {
    pub all: String,
    pub cyrillic: String,
    pub latin: String,
    pub digits: String,
    pub other: String,
}

pub open spec fn script_nav(id: Seq<char>, label: Seq<char>, base: Seq<char>, code: Seq<char>, lang: Seq<char>) -> FeedPartView {
    FeedPartView::Nav {
        id,
        title: label,
        href: add_lang_query_spec(base + code + "/"@, lang),
        content: Seq::empty(),
    }
}

/// An entry per script group under `base`: all (0), Cyrillic (1), Latin (2),
/// digits (3) and other (9).
pub open spec fn lang_selection_parts(
    base: Seq<char>,
    lang: Seq<char>,
    locales: Seq<(Seq<char>, Seq<char>)>,
    labels: ScriptLabels,
) -> Seq<FeedPartView> {
    seq![lang_search_spec(lang)] + facet_parts(locales, lang, base) + seq![
        script_nav("l:0"@, labels.all@, base, "0"@, lang),
        script_nav("l:1"@, labels.cyrillic@, base, "1"@, lang),
        script_nav("l:2"@, labels.latin@, base, "2"@, lang),
        script_nav("l:3"@, labels.digits@, base, "3"@, lang),
        script_nav("l:9"@, labels.other@, base, "9"@, lang),
    ]
}

fn script_nav_exec(id: &str, label: &String, base: &str, code: &str, lang: &str) -> (p: FeedPart)
    ensures
        p@ == script_nav(id@, label@, base@, code@, lang@),
{
    let h = cat3(base, code, "/");
    proof {
        reveal_strlit("");
        assert(""@ =~= Seq::<char>::empty());
    }
    FeedPart::Nav {
        id: id.to_owned(),
        title: label.clone(),
        href: add_lang_query(h.as_str(), lang),
        content: String::new(),
    }
}

/// The choice of a script group for browsing authors, series or titles
/// under `base`, titled `title`.
pub fn lang_selection_document(
    title: &str,
    base: &str,
    lang: &str,
    locales: &Vec<(String, String)>,
    labels: &ScriptLabels,
) -> (r: Result<Vec<u8>, XmlError>)
    ensures
        r matches Ok(bytes) && bytes@ == feed_doc(
            "tag:lang:"@ + title@,
            title@,
            add_lang_query_spec(base@, lang@),
            add_lang_query_spec("/opds/"@, lang@),
            lang_selection_parts(base@, lang@, pairs_view(locales@), *labels),
            Seq::empty(),
        ),
{
    let id = cat("tag:lang:", title);
    let self_href = add_lang_query(base, lang);
    let start = add_lang_query("/opds/", lang);
    let mut parts: Vec<FeedPart> = Vec::new();
    push_part(&mut parts, lang_search(lang));
    push_facets(&mut parts, locales, lang, base);
    push_part(&mut parts, script_nav_exec("l:0", &labels.all, base, "0", lang));
    push_part(&mut parts, script_nav_exec("l:1", &labels.cyrillic, base, "1", lang));
    push_part(&mut parts, script_nav_exec("l:2", &labels.latin, base, "2", lang));
    push_part(&mut parts, script_nav_exec("l:3", &labels.digits, base, "3", lang));
    push_part(&mut parts, script_nav_exec("l:9", &labels.other, base, "9", lang));
    proof {
        assert(parts_view(parts@) =~= lang_selection_parts(base@, lang@, pairs_view(locales@), *labels));
    }
    let no_books: Vec<BookEntryData> = Vec::new();
    proof {
        assert(no_books@ =~= Seq::<BookEntryData>::empty());
    }
    feed_document(id.as_str(), title, self_href.as_str(), start.as_str(), &parts, &no_books)
}

} // verus!
