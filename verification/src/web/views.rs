//! Request-parameter helpers of the browsing pages.
use vstd::prelude::*;
use crate::text::{
    extend_str, from_chars, str_eq, to_chars, to_uppercase, trim, trim_str, unicode_uppercase,
};
use crate::decimal::{parse_i64, parse_i64_spec};
use crate::opds::feeds::{percent_encode, url_encode};
use vstd::utf8::encode_utf8;

verus! {

/// Default value of the browse mode parameter: "m".
pub fn default_m() -> (r: String)
    ensures
        r@ == seq!['m'],
{
    let v: Vec<char> = vec!['m'];
    proof {
        assert(v@ =~= seq!['m']);
    }
    from_chars(v.as_slice())
}

/// Column a bookshelf listing is ordered by.
#[derive(Debug, Clone, Copy, PartialEq, Eq, Structural)]
pub enum SortColumn {
    Date,
    Title,
    Author,
}

/// "title" and "author" select those columns, anything else the date added;
/// the order is ascending exactly when `dir` is "asc".
pub open spec fn bookshelf_sort_spec(sort: Seq<char>, dir: Seq<char>) -> (SortColumn, bool) {
    let col = if sort == "title"@ {
        SortColumn::Title
    } else if sort == "author"@ {
        SortColumn::Author
    } else {
        SortColumn::Date
    };
    (col, dir == "asc"@)
}

pub fn parse_bookshelf_sort(sort: &str, dir: &str) -> (r: (SortColumn, bool))
    ensures
        r == bookshelf_sort_spec(sort@, dir@),
{
    let col = if str_eq(sort, "title") {
        SortColumn::Title
    } else if str_eq(sort, "author") {
        SortColumn::Author
    } else {
        SortColumn::Date
    };
    (col, str_eq(dir, "asc"))
}

// ---------------------------------------------------------------------------
// Book search of the web pages
// ---------------------------------------------------------------------------

/// What the book search looks up.
#[derive(Debug)]
pub enum WebSearchQuery {
    /// The books of an author, series or genre, or one book, by id.
    Author { id: i64 },
    Series { id: i64 },
    Genre { id: i64 },
    Book { id: i64 },
    /// Books whose title starts with the upper-cased term.
    TitlePrefix { term: String },
    /// Books whose title holds the upper-cased term.
    Title { term: String },
}

pub enum WebSearchQueryView {
    Author { id: i64 },
    Series { id: i64 },
    Genre { id: i64 },
    Book { id: i64 },
    TitlePrefix { term: Seq<char> },
    Title { term: Seq<char> },
}

/// The decisions of a book search page: what is looked up, from which row,
/// what labels and links the page shows, and the query string of its pages.
#[derive(Debug)]
pub struct WebSearchPlan {
    /// `author`, `series` or `title`.
    pub target: String,
    pub query: WebSearchQuery,
    /// The first row of the page.
    pub offset: i64,
    /// Whether the page is labelled with the query text itself.
    pub label_is_query: bool,
    /// The key in the `nav` section of the translations, and its fallback,
    /// for the back link's label.
    pub back_label: Option<(String, String)>,
    pub back_url: Option<String>,
    /// The text put back into the search box.
    pub display_query: String,
    /// The query string of the page links, ending with `&`.
    pub pagination_qs: String,
    /// The address of this page.
    pub current_url: String,
}

pub struct WebSearchPlanView {
    pub target: Seq<char>,
    pub query: WebSearchQueryView,
    pub offset: int,
    pub label_is_query: bool,
    pub back_label: Option<(Seq<char>, Seq<char>)>,
    pub back_url: Option<Seq<char>>,
    pub display_query: Seq<char>,
    pub pagination_qs: Seq<char>,
    pub current_url: Seq<char>,
}

impl View for WebSearchPlan {
    type V = WebSearchPlanView;

    open spec fn view(&self) -> WebSearchPlanView {
        WebSearchPlanView {
            target: self.target@,
            query: match self.query {
                WebSearchQuery::Author { id } => WebSearchQueryView::Author { id },
                WebSearchQuery::Series { id } => WebSearchQueryView::Series { id },
                WebSearchQuery::Genre { id } => WebSearchQueryView::Genre { id },
                WebSearchQuery::Book { id } => WebSearchQueryView::Book { id },
                WebSearchQuery::TitlePrefix { term } => WebSearchQueryView::TitlePrefix { term: term@ },
                WebSearchQuery::Title { term } => WebSearchQueryView::Title { term: term@ },
            },
            offset: self.offset as int,
            label_is_query: self.label_is_query,
            back_label: match self.back_label {
                Some((k, f)) => Some((k@, f@)),
                None => None,
            },
            back_url: match self.back_url {
                Some(u) => Some(u@),
                None => None,
            },
            display_query: self.display_query@,
            pagination_qs: self.pagination_qs@,
            current_url: self.current_url@,
        }
    }
}

/// The id in a query: the number it reads as, else 0.
pub open spec fn query_id(q: Seq<char>) -> i64 {
    match parse_i64_spec(q) {
        Some(v) => v,
        None => 0,
    }
}

/// A source query that is not blank.
pub open spec fn nonblank(o: Option<Seq<char>>) -> Option<Seq<char>> {
    match o {
        Some(s) => if trim(s).len() > 0 {
            Some(s)
        } else {
            None
        },
        None => None,
    }
}

pub open spec fn enc(s: Seq<char>) -> Seq<char> {
    percent_encode(encode_utf8(s))
}

/// The book search of the web pages for search type `t` (`a` author, `s`
/// series, `g` genre, `b` title prefix, `i` one book, anything else a title
/// search), query `q` and the query `src_q` an author or series was found
/// by: ids read from the query (0 when it is no number), terms upper-cased;
/// back links to the author or series search the reader came from, else to
/// the listing; the search box refilled with the typed query (empty for id
/// lookups of genres and books); and the page links carrying type, query
/// and source query.
pub open spec fn web_search_plan_spec(
    t: Seq<char>,
    q: Seq<char>,
    src_q: Option<Seq<char>>,
    page: i32,
    max_items: i32,
) -> WebSearchPlanView {
    let src = nonblank(src_q);
    let qs = "type="@ + t + "&q="@ + enc(q) + "&"@ + match src {
        Some(sq) => "src_q="@ + enc(sq) + "&"@,
        None => Seq::empty(),
    };
    WebSearchPlanView {
        target: if t == "a"@ {
            "author"@
        } else if t == "s"@ {
            "series"@
        } else {
            "title"@
        },
        query: if t == "a"@ {
            WebSearchQueryView::Author { id: query_id(q) }
        } else if t == "s"@ {
            WebSearchQueryView::Series { id: query_id(q) }
        } else if t == "g"@ {
            WebSearchQueryView::Genre { id: query_id(q) }
        } else if t == "b"@ {
            WebSearchQueryView::TitlePrefix { term: unicode_uppercase(q) }
        } else if t == "i"@ {
            WebSearchQueryView::Book { id: query_id(q) }
        } else {
            WebSearchQueryView::Title { term: unicode_uppercase(q) }
        },
        offset: page * max_items,
        label_is_query: !(t == "a"@ || t == "s"@ || t == "g"@ || t == "i"@),
        back_label: if t == "a"@ {
            Some(("authors"@, "Authors"@))
        } else if t == "s"@ {
            Some(("series"@, "Series"@))
        } else if t == "b"@ {
            Some(("books"@, "Books"@))
        } else {
            None
        },
        back_url: if t == "a"@ {
            Some(
                match src {
                    Some(sq) => "/web/search/authors?type=b&q="@ + enc(sq),
                    None => "/web/authors"@,
                },
            )
        } else if t == "s"@ {
            Some(
                match src {
                    Some(sq) => "/web/search/series?type=b&q="@ + enc(sq),
                    None => "/web/series"@,
                },
            )
        } else if t == "b"@ {
            Some("/web/books"@)
        } else {
            None
        },
        display_query: if t == "a"@ || t == "s"@ {
            match src {
                Some(sq) => sq,
                None => q,
            }
        } else if t == "g"@ || t == "i"@ {
            Seq::empty()
        } else {
            q
        },
        pagination_qs: qs,
        current_url: "/web/search/books?"@ + qs,
    }
}

fn string_from(parts: &str) -> (r: String)
    ensures
        r@ == parts@,
{
    from_chars(to_chars(parts).as_slice())
}

fn concat(a: &str, b: &str) -> (r: String)
    ensures
        r@ == a@ + b@,
{
    let mut v = to_chars(a);
    extend_str(&mut v, b);
    from_chars(v.as_slice())
}

/// The decisions of the web book search (see [`web_search_plan_spec`]).
pub fn web_search_plan(search_type: &str, q: &str, src_q: Option<&str>, page: i32, max_items: i32) -> (r:
    WebSearchPlan)
    ensures
        r@ == web_search_plan_spec(
            search_type@,
            q@,
            match src_q {
                Some(s) => Some(s@),
                None => None,
            },
            page,
            max_items,
        ),
{
    let ghost src_view = match src_q {
        Some(s) => Some(s@),
        None => None,
    };
    let src: Option<&str> = match src_q {
        Some(s) => if trim_str(s).len() > 0 {
            Some(s)
        } else {
            None
        },
        None => None,
    };
    proof {
        assert(match src {
            Some(s) => Some(s@),
            None => None,
        } == nonblank(src_view));
    }
    let is_a = str_eq(search_type, "a");
    let is_s = str_eq(search_type, "s");
    let is_g = str_eq(search_type, "g");
    let is_b = str_eq(search_type, "b");
    let is_i = str_eq(search_type, "i");
    let qc = to_chars(q);
    let id: i64 = match parse_i64(qc.as_slice()) {
        Some(v) => v,
        None => 0,
    };
    let mut qs = to_chars("type=");
    extend_str(&mut qs, search_type);
    extend_str(&mut qs, "&q=");
    extend_str(&mut qs, url_encode(q).as_str());
    extend_str(&mut qs, "&");
    let ghost head = qs@;
    match src {
        Some(sq) => {
            extend_str(&mut qs, "src_q=");
            extend_str(&mut qs, url_encode(sq).as_str());
            extend_str(&mut qs, "&");
            proof {
                assert(qs@ =~= head + ("src_q="@ + enc(sq@) + "&"@));
            }
        },
        None => {
            proof {
                assert(qs@ =~= head + Seq::<char>::empty());
            }
        },
    }
    proof {
        assert(head =~= "type="@ + search_type@ + "&q="@ + enc(q@) + "&"@);
    }
    let pagination_qs = from_chars(qs.as_slice());
    let current_url = concat("/web/search/books?", pagination_qs.as_str());
    let target = if is_a {
        string_from("author")
    } else if is_s {
        string_from("series")
    } else {
        string_from("title")
    };
    let query = if is_a {
        WebSearchQuery::Author { id }
    } else if is_s {
        WebSearchQuery::Series { id }
    } else if is_g {
        WebSearchQuery::Genre { id }
    } else if is_b {
        WebSearchQuery::TitlePrefix { term: to_uppercase(q) }
    } else if is_i {
        WebSearchQuery::Book { id }
    } else {
        WebSearchQuery::Title { term: to_uppercase(q) }
    };
    let back_label = if is_a {
        Some((string_from("authors"), string_from("Authors")))
    } else if is_s {
        Some((string_from("series"), string_from("Series")))
    } else if is_b {
        Some((string_from("books"), string_from("Books")))
    } else {
        None
    };
    let back_url = if is_a {
        match src {
            Some(sq) => Some(concat("/web/search/authors?type=b&q=", url_encode(sq).as_str())),
            None => Some(string_from("/web/authors")),
        }
    } else if is_s {
        match src {
            Some(sq) => Some(concat("/web/search/series?type=b&q=", url_encode(sq).as_str())),
            None => Some(string_from("/web/series")),
        }
    } else if is_b {
        Some(string_from("/web/books"))
    } else {
        None
    };
    let display_query = if is_a || is_s {
        match src {
            Some(sq) => string_from(sq),
            None => string_from(q),
        }
    } else if is_g || is_i {
        String::new()
    } else {
        string_from(q)
    };
    proof {
        let a = page as int;
        let b = max_items as int;
        assert(-0x4000_0000_0000_0000 <= a * b <= 0x4000_0000_0000_0000) by (nonlinear_arith)
            requires
                -0x8000_0000 <= a <= 0x7fff_ffff,
                -0x8000_0000 <= b <= 0x7fff_ffff,
        ;
    }
    let offset: i64 = (page as i64) * (max_items as i64);
    WebSearchPlan {
        target,
        query,
        offset,
        label_is_query: !(is_a || is_s || is_g || is_i),
        back_label,
        back_url,
        display_query,
        pagination_qs,
        current_url,
    }
}


/// The `b` search lists books by title prefix, of the upper-cased query; a
/// title search by substring comes only from a type other than `a`, `s`,
/// `g`, `b` and `i`.
pub proof fn lemma_prefix_search_for_b(
    t: Seq<char>,
    q: Seq<char>,
    src_q: Option<Seq<char>>,
    page: i32,
    max_items: i32,
)
    ensures
        t == "b"@ ==> web_search_plan_spec(t, q, src_q, page, max_items).query == (
        WebSearchQueryView::TitlePrefix { term: unicode_uppercase(q) }),
        (web_search_plan_spec(t, q, src_q, page, max_items).query is Title) ==> (t != "a"@ && t != "s"@
            && t != "g"@ && t != "b"@ && t != "i"@),
{
    reveal_strlit("a");
    reveal_strlit("s");
    reveal_strlit("g");
    reveal_strlit("b");
    reveal_strlit("i");
    assert("b"@ != "a"@) by {
        assert("b"@[0] != "a"@[0]);
    }
    assert("b"@ != "s"@) by {
        assert("b"@[0] != "s"@[0]);
    }
    assert("b"@ != "g"@) by {
        assert("b"@[0] != "g"@[0]);
    }
}

} // verus!
