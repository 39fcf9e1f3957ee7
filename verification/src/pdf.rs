//! Reading `pdfinfo` output.
use vstd::prelude::*;
use crate::text::{
    CharClass, ascii_lower, ascii_lower_seq, char_ascii_lower, chars_eq_str, from_chars,
    lines_chars, lines_spec, split_once_chars, split_once_spec, to_chars, trim, trim_chars,
    views_of,
};

verus! {

/// Title and author reported by `pdfinfo`.
#[derive(Debug, Clone)]
pub struct PdfMetadata {
    pub title: Option<String>,
    pub author: Option<String>,
}

pub open spec fn opt_str_view(o: Option<String>) -> Option<Seq<char>> {
    match o {
        Some(s) => Some(s@),
        None => None,
    }
}

/// A value trimmed; empty values and `(null)` in any ASCII case mean "absent".
pub open spec fn pdfinfo_value_spec(value: Seq<char>) -> Option<Seq<char>> {
    let v = trim(value);
    if v.len() == 0 || ascii_lower_seq(v) == "(null)"@ {
        None
    } else {
        Some(v)
    }
}

/// Title and author after reading the lines in order; for each key the last
/// `Key: value` line (key trimmed, ASCII case ignored) wins.
pub open spec fn pdfinfo_fields(lines: Seq<Seq<char>>) -> (Option<Seq<char>>, Option<Seq<char>>)
    decreases lines.len(),
{
    if lines.len() == 0 {
        (None, None)
    } else {
        let (title, author) = pdfinfo_fields(lines.drop_last());
        match split_once_spec(lines.last(), ':') {
            Some((key, value)) => {
                let k = ascii_lower_seq(trim(key));
                if k == "title"@ {
                    (pdfinfo_value_spec(value), author)
                } else if k == "author"@ {
                    (title, pdfinfo_value_spec(value))
                } else {
                    (title, author)
                }
            },
            None => (title, author),
        }
    }
}

fn ascii_lower_chars(s: &[char]) -> (r: Vec<char>)
    ensures
        r@ == ascii_lower_seq(s@),
{
    let mut r: Vec<char> = Vec::new();
    let mut i: usize = 0;
    while i < s.len()
        invariant
            i <= s.len(),
            r@ == ascii_lower_seq(s@.take(i as int)),
        decreases s.len() - i,
    {
        let c = char_ascii_lower(s[i]);
        r.push(c);
        proof {
            assert(ascii_lower_seq(s@.take(i + 1)) =~= ascii_lower_seq(s@.take(i as int)).push(c));
        }
        i += 1;
    }
    proof {
        assert(s@.take(s.len() as int) =~= s@);
    }
    r
}

fn normalize_value_chars(value: &[char]) -> (r: Option<String>)
    ensures
        opt_str_view(r) == pdfinfo_value_spec(value@),
{
    let v = trim_chars(value, CharClass::Space);
    let lower = ascii_lower_chars(v.as_slice());
    if v.len() == 0 || chars_eq_str(lower.as_slice(), "(null)") {
        None
    } else {
        Some(from_chars(v.as_slice()))
    }
}

/// A `pdfinfo` value, or `None` when it is empty or `(null)`.
pub fn normalize_pdfinfo_value(value: &str) -> (r: Option<String>)
    ensures
        opt_str_view(r) == pdfinfo_value_spec(value@),
{
    let v = to_chars(value);
    normalize_value_chars(v.as_slice())
}

/// Title and author from the standard output of `pdfinfo`.
pub fn parse_pdfinfo_stdout(stdout: &str) -> (meta: PdfMetadata)
    ensures
        (opt_str_view(meta.title), opt_str_view(meta.author)) == pdfinfo_fields(
            lines_spec(stdout@),
        ),
{
    let v = to_chars(stdout);
    let lines = lines_chars(v.as_slice());
    let mut meta = PdfMetadata { title: None, author: None };
    let mut i: usize = 0;
    while i < lines.len()
        invariant
            i <= lines.len(),
            (opt_str_view(meta.title), opt_str_view(meta.author)) == pdfinfo_fields(
                views_of(lines@).take(i as int),
            ),
        decreases lines.len() - i,
    {
        proof {
            let ls = views_of(lines@);
            assert(ls.take(i + 1).drop_last() =~= ls.take(i as int));
            assert(ls.take(i + 1).last() == lines@[i as int]@);
        }
        match split_once_chars(lines[i].as_slice(), ':') {
            Some((key, value)) => {
                let k0 = trim_chars(key.as_slice(), CharClass::Space);
                let k = ascii_lower_chars(k0.as_slice());
                if chars_eq_str(k.as_slice(), "title") {
                    meta.title = normalize_value_chars(value.as_slice());
                } else if chars_eq_str(k.as_slice(), "author") {
                    meta.author = normalize_value_chars(value.as_slice());
                }
            },
            None => {},
        }
        i += 1;
    }
    proof {
        assert(views_of(lines@).take(lines.len() as int) =~= views_of(lines@));
    }
    meta
}

} // verus!
