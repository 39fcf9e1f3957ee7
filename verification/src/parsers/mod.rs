//! Book metadata and the normalisation rules shared by all format parsers.
use vstd::prelude::*;
use crate::text::{
    CharClass, char_is_ascii_alpha, char_is_ascii_digit, from_chars, has_char, contains_char,
    in_class, is_ascii_alpha, is_ascii_digit, slice_chars, squash_spaces, squash_spaces_chars,
    to_chars, trim_chars, trim_class, words, words_chars, views_of, extend_chars,
};



pub mod mobi;
pub mod inpx;
pub mod epub;

verus! {

/// Metadata extracted from a single book file.
#[derive(Debug, Clone)]
pub struct BookMeta {
    pub title: String,
    pub authors: Vec<String>,
    pub genres: Vec<String>,
    pub annotation: String,
    pub lang: String,
    pub series_title: Option<String>,
    pub series_index: i32,
    pub docdate: String,
    /// Raw cover image bytes (JPEG/PNG), if found.
    pub cover_data: Option<Vec<u8>>,
    /// MIME type of the cover image (e.g. "image/jpeg").
    pub cover_type: String,
}

impl BookMeta {
    /// All text fields empty, no authors, genres, series or cover.
    pub open spec fn is_empty_meta(&self) -> bool {
        &&& self.title@.len() == 0
        &&& self.authors@.len() == 0
        &&& self.genres@.len() == 0
        &&& self.annotation@.len() == 0
        &&& self.lang@.len() == 0
        &&& self.series_title is None
        &&& self.series_index == 0
        &&& self.docdate@.len() == 0
        &&& self.cover_data is None
        &&& self.cover_type@.len() == 0
    }

    pub fn empty() -> (m: BookMeta)
        ensures
            m.is_empty_meta(),
    {
        BookMeta {
            title: String::new(),
            authors: Vec::new(),
            genres: Vec::new(),
            annotation: String::new(),
            lang: String::new(),
            series_title: None,
            series_index: 0,
            docdate: String::new(),
            cover_data: None,
            cover_type: String::new(),
        }
    }
}

impl Default for BookMeta {
    fn default() -> (m: BookMeta)
        ensures
            m.is_empty_meta(),
    {
        BookMeta::empty()
    }
}

/// The views of a list of strings.
pub open spec fn string_views(v: Seq<String>) -> Seq<Seq<char>> {
    v.map_values(|x: String| x@)
}

/// Converts character vectors to strings.
pub fn strings_from_pieces(pieces: &Vec<Vec<char>>) -> (r: Vec<String>)
    ensures
        string_views(r@) == views_of(pieces@),
{
    let mut r: Vec<String> = Vec::new();
    let mut i: usize = 0;
    while i < pieces.len()
        invariant
            i <= pieces.len(),
            string_views(r@) == views_of(pieces@).take(i as int),
        decreases pieces.len() - i,
    {
        let s = from_chars(pieces[i].as_slice());
        let ghost before = r@;
        r.push(s);
        proof {
            assert(string_views(r@) =~= string_views(before).push(s@));
            assert(views_of(pieces@).take(i + 1) =~= views_of(pieces@).take(i as int).push(
                pieces@[i as int]@,
            ));
        }
        i += 1;
    }
    proof {
        assert(views_of(pieces@).take(pieces.len() as int) =~= views_of(pieces@));
    }
    r
}

/// Removes an enclosing `open ... close` pair when both are present and the
/// text has at least two characters.
pub open spec fn strip_pair(s: Seq<char>, open: char, close: char) -> Seq<char> {
    if s.len() >= 2 && s[0] == open && s.last() == close {
        s.subrange(1, s.len() - 1)
    } else {
        s
    }
}

/// Metadata cleanup: trim white space and `` & ` - . ; # \ `` from both ends,
/// then drop one enclosing pair each of `'…'`, `"…"`, `«…»` (in that order).
pub open spec fn strip_meta_spec(s: Seq<char>) -> Seq<char> {
    let t = trim_class(s, CharClass::MetaPunct);
    strip_pair(strip_pair(strip_pair(t, '\'', '\''), '"', '"'), '\u{00AB}', '\u{00BB}')
}

/// Strip a matching open/close pair if they enclose the entire text.
pub fn strip_matching_pair(s: &[char], open: char, close: char) -> (r: Vec<char>)
    ensures
        r@ == strip_pair(s@, open, close),
{
    if s.len() >= 2 && s[0] == open && s[s.len() - 1] == close {
        slice_chars(s, 1, s.len() - 1)
    } else {
        slice_chars(s, 0, s.len())
    }
}

pub fn strip_meta_chars(s: &[char]) -> (r: Vec<char>)
    ensures
        r@ == strip_meta_spec(s@),
{
    let t = trim_chars(s, CharClass::MetaPunct);
    let t = strip_matching_pair(t.as_slice(), '\'', '\'');
    let t = strip_matching_pair(t.as_slice(), '"', '"');
    strip_matching_pair(t.as_slice(), '\u{00AB}', '\u{00BB}')
}

/// Strip leading/trailing whitespace and common punctuation from metadata strings.
/// Always strips: & ` - . ; # \ and whitespace.
/// Strips enclosing quote pairs: '' "" «» (only when they wrap the entire string).
pub fn strip_meta(s: &str) -> (r: String)
    ensures
        r@ == strip_meta_spec(s@),
{
    let v = to_chars(s);
    let r = strip_meta_chars(v.as_slice());
    from_chars(r.as_slice())
}

pub open spec fn is_cyrillic_spec(c: char) -> bool {
    0x0400 <= (c as u32) && (c as u32) <= 0x052F
}

/// Cyrillic and Cyrillic Supplement blocks.
pub fn is_cyrillic(c: char) -> (b: bool)
    ensures
        b == is_cyrillic_spec(c),
{
    let v = c as u32;
    0x0400 <= v && v <= 0x052F
}

/// 1 = Cyrillic, 2 = Latin, 3 = Digit, 9 = Other (by the first character).
pub open spec fn lang_code_spec(s: Seq<char>) -> i32 {
    if s.len() == 0 {
        9
    } else if is_ascii_alpha(s[0]) {
        2
    } else if is_ascii_digit(s[0]) {
        3
    } else if is_cyrillic_spec(s[0]) {
        1
    } else {
        9
    }
}

pub fn lang_code_chars(s: &[char]) -> (r: i32)
    ensures
        r == lang_code_spec(s@),
{
    if s.len() == 0 {
        9
    } else if char_is_ascii_alpha(s[0]) {
        2
    } else if char_is_ascii_digit(s[0]) {
        3
    } else if is_cyrillic(s[0]) {
        1
    } else {
        9
    }
}

/// Determine the `lang_code` for a string by inspecting its first character.
///   1 = Cyrillic, 2 = Latin, 3 = Digit, 9 = Other
pub fn detect_lang_code(s: &str) -> (r: i32)
    ensures
        r == lang_code_spec(s@),
{
    let v = to_chars(s);
    lang_code_chars(v.as_slice())
}

/// Replaces every comma by a space.
pub open spec fn commas_to_spaces(s: Seq<char>) -> Seq<char> {
    s.map_values(|c: char|
        if c == ',' {
            ' '
        } else {
            c
        })
}

/// Author name normalisation: collapse white space, strip metadata punctuation;
/// "Last, First" becomes "Last First"; a two-word "First Last" becomes "Last First";
/// everything else is kept as cleaned.
pub open spec fn normalise_author_spec(name: Seq<char>) -> Seq<char> {
    let n = strip_meta_spec(squash_spaces(name));
    if n.len() == 0 {
        Seq::empty()
    } else if contains_char(n, ',') {
        let normalized = squash_spaces(commas_to_spaces(n));
        if words(normalized).len() == 2 {
            normalized
        } else {
            n
        }
    } else {
        let parts = words(n);
        if parts.len() != 2 {
            n
        } else {
            parts[1] + seq![' '] + parts[0]
        }
    }
}

pub fn commas_to_spaces_chars(s: &[char]) -> (r: Vec<char>)
    ensures
        r@ == commas_to_spaces(s@),
{
    let mut r: Vec<char> = Vec::new();
    let mut i: usize = 0;
    while i < s.len()
        invariant
            i <= s.len(),
            r@ == commas_to_spaces(s@.take(i as int)),
        decreases s.len() - i,
    {
        let c = s[i];
        r.push(
            if c == ',' {
                ' '
            } else {
                c
            },
        );
        proof {
            assert(commas_to_spaces(s@.take(i + 1)) =~= commas_to_spaces(s@.take(i as int)).push(
                if c == ',' {
                    ' '
                } else {
                    c
                },
            ));
        }
        i += 1;
    }
    proof {
        assert(s@.take(s.len() as int) =~= s@);
    }
    r
}

pub fn normalise_author_chars(name: &[char]) -> (r: Vec<char>)
    ensures
        r@ == normalise_author_spec(name@),
{
    let squashed = squash_spaces_chars(name);
    let n = strip_meta_chars(squashed.as_slice());
    if n.len() == 0 {
        return Vec::new();
    }
    if has_char(n.as_slice(), ',') {
        let replaced = commas_to_spaces_chars(n.as_slice());
        let normalized = squash_spaces_chars(replaced.as_slice());
        let ws = words_chars(normalized.as_slice(), CharClass::Space);
        if ws.len() == 2 {
            return normalized;
        } else {
            return n;
        }
    }
    let parts = words_chars(n.as_slice(), CharClass::Space);
    if parts.len() != 2 {
        return n;
    }
    let mut r: Vec<char> = Vec::new();
    extend_chars(&mut r, parts[1].as_slice());
    r.push(' ');
    extend_chars(&mut r, parts[0].as_slice());
    proof {
        assert(views_of(parts@)[1] == parts@[1]@);
        assert(views_of(parts@)[0] == parts@[0]@);
        assert(r@ =~= parts@[1]@ + seq![' '] + parts@[0]@);
    }
    r
}

/// Reorder only two-part names: "First Last" → "Last First".
/// Keep all other forms as-is (besides whitespace and outer punctuation cleanup).
/// For comma-separated two-part names like "Asimov, Isaac", normalize to "Asimov Isaac".
pub fn normalise_author_name(name: &str) -> (r: String)
    ensures
        r@ == normalise_author_spec(name@),
{
    let v = to_chars(name);
    let r = normalise_author_chars(v.as_slice());
    from_chars(r.as_slice())
}

/// The parser a book file goes to, by its (lower-case) extension.
#[derive(Debug, Clone, Copy, PartialEq, Eq, Structural)]
pub enum BookFormat {
    Fb2,
    Epub,
    Mobi,
    Pdf,
    Djvu,
    /// Any other format: recorded under the name of its file.
    Other,
}

pub open spec fn book_format_spec(ext: Seq<char>) -> BookFormat {
    if ext == "fb2"@ {
        BookFormat::Fb2
    } else if ext == "epub"@ {
        BookFormat::Epub
    } else if ext == "mobi"@ {
        BookFormat::Mobi
    } else if ext == "pdf"@ {
        BookFormat::Pdf
    } else if ext == "djvu"@ {
        BookFormat::Djvu
    } else {
        BookFormat::Other
    }
}

/// The parser for a book with this extension.
pub fn book_format(ext: &str) -> (r: BookFormat)
    ensures
        r == book_format_spec(ext@),
{
    if crate::text::str_eq(ext, "fb2") {
        BookFormat::Fb2
    } else if crate::text::str_eq(ext, "epub") {
        BookFormat::Epub
    } else if crate::text::str_eq(ext, "mobi") {
        BookFormat::Mobi
    } else if crate::text::str_eq(ext, "pdf") {
        BookFormat::Pdf
    } else if crate::text::str_eq(ext, "djvu") {
        BookFormat::Djvu
    } else {
        BookFormat::Other
    }
}

} // verus!
