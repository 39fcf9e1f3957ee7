//! INPX collection indexes: each `.inp` line describes one book of a ZIP archive.
use vstd::prelude::*;
use vstd::utf8::{decode_utf8, valid_utf8};
use crate::decimal::{parse_i32, parse_i32_spec, parse_i64, parse_i64_spec};
use crate::ziparchive::{
    MemZip, ZipReadError, zip_entry_data, zip_entry_found, zip_len, zip_listing, zip_name_at,
    zip_open, zip_opens, zip_read, zip_source,
};
use zip::result::ZipError;
use crate::parsers::{BookMeta, commas_to_spaces, string_views, strip_meta_chars, strip_meta_spec};
use crate::paths::{file_name, file_name_spec, name_stem, stem_of_name};
use crate::text::{
    CharClass, extend_chars, extend_str, from_chars, lowercase_chars, nonempty_pred,
    split_chars, split_class, squash_spaces, squash_spaces_chars, to_chars, trim, trim_chars,
    unicode_lowercase, views_of,
};

verus! {

/// The field separator of `.inp` lines.
pub const INPX_SEPARATOR: char = '\u{4}';

/// A single book record parsed from an INPX line.
#[derive(Debug, Clone)]
pub struct InpxRecord {
    pub filename: String,
    pub folder: String,
    pub format: String,
    pub size: i64,
    pub meta: BookMeta,
}

// ---------------------------------------------------------------------------
// Folders
// ---------------------------------------------------------------------------

/// The archive an `.inp` entry describes: its stem (the whole name when it
/// has no file name) with `.zip` appended.
pub open spec fn default_folder_spec(inp_name: Seq<char>) -> Seq<char> {
    (match file_name_spec(inp_name) {
        Some(n) => stem_of_name(n),
        None => inp_name,
    }) + ".zip"@
}

/// Default folder for an .inp entry: strip the .inp extension, append .zip.
pub fn default_folder(inp_name: &str) -> (r: String)
    ensures
        r@ == default_folder_spec(inp_name@),
{
    let chars = to_chars(inp_name);
    let mut out = match file_name(chars.as_slice()) {
        Some(n) => name_stem(n.as_slice()),
        None => chars,
    };
    extend_str(&mut out, ".zip");
    from_chars(out.as_slice())
}

// ---------------------------------------------------------------------------
// Lines
// ---------------------------------------------------------------------------

/// The fields of a trimmed line.
pub open spec fn inp_fields(line: Seq<char>) -> Seq<Seq<char>> {
    split_class(trim(line), CharClass::Exact(INPX_SEPARATOR))
}

/// A line describes a book when it is not blank, has at least twelve fields
/// and its deletion mark is empty or `0`.
pub open spec fn line_accepted(line: Seq<char>) -> bool {
    let fields = inp_fields(line);
    &&& trim(line).len() > 0
    &&& fields.len() >= 12
    &&& (trim(fields[8]).len() == 0 || trim(fields[8]) == seq!['0'])
}

/// Authors: colon-separated, commas replaced with spaces, white space collapsed.
pub open spec fn inp_authors(field: Seq<char>) -> Seq<Seq<char>> {
    split_class(field, CharClass::Exact(':')).map_values(
        |a: Seq<char>| squash_spaces(commas_to_spaces(a)),
    ).filter(nonempty_pred())
}

/// Genres: colon-separated, stripped and lower-cased.
pub open spec fn inp_genres(field: Seq<char>) -> Seq<Seq<char>> {
    split_class(field, CharClass::Exact(':')).map_values(
        |g: Seq<char>| unicode_lowercase(strip_meta_spec(g)),
    ).filter(nonempty_pred())
}

/// Series: the first colon-separated item, when not empty after stripping.
pub open spec fn inp_series(field: Seq<char>) -> Option<Seq<char>> {
    let s = strip_meta_spec(split_class(field, CharClass::Exact(':'))[0]);
    if s.len() > 0 {
        Some(s)
    } else {
        None
    }
}

pub open spec fn opt_string_view(o: Option<String>) -> Option<Seq<char>> {
    match o {
        Some(s) => Some(s@),
        None => None,
    }
}

/// The record read from an accepted line.
pub open spec fn record_of(rec: InpxRecord, line: Seq<char>, folder: Seq<char>) -> bool {
    let f = inp_fields(line);
    &&& rec.filename@ == trim(f[5]) + seq!['.'] + trim(f[9])
    &&& rec.folder@ == folder
    &&& rec.format@ == unicode_lowercase(trim(f[9]))
    &&& rec.size == (match parse_i64_spec(trim(f[6])) {
        Some(v) => v,
        None => 0,
    })
    &&& rec.meta.title@ == strip_meta_spec(f[2])
    &&& string_views(rec.meta.authors@) == inp_authors(f[0])
    &&& string_views(rec.meta.genres@) == inp_genres(f[1])
    &&& opt_string_view(rec.meta.series_title) == inp_series(f[3])
    &&& rec.meta.series_index == (match parse_i32_spec(trim(f[4])) {
        Some(v) => v,
        None => 0,
    })
    &&& rec.meta.docdate@ == strip_meta_spec(f[10])
    &&& rec.meta.lang@ == strip_meta_spec(f[11])
    &&& rec.meta.annotation@.len() == 0
    &&& rec.meta.cover_data is None
    &&& rec.meta.cover_type@.len() == 0
}

fn inp_authors_exec(field: &[char]) -> (r: Vec<String>)
    ensures
        string_views(r@) == inp_authors(field@),
{
    let pieces = split_chars(field, CharClass::Exact(':'));
    let ghost mapped = views_of(pieces@).map_values(
        |a: Seq<char>| squash_spaces(commas_to_spaces(a)),
    );
    let mut r: Vec<String> = Vec::new();
    let mut i: usize = 0;
    proof {
        reveal(Seq::filter);
        assert(mapped.take(0).filter(nonempty_pred()) =~= Seq::<Seq<char>>::empty());
        assert(string_views(r@) =~= Seq::<Seq<char>>::empty());
    }
    while i < pieces.len()
        invariant
            i <= pieces.len(),
            views_of(pieces@) == split_class(field@, CharClass::Exact(':')),
            mapped == views_of(pieces@).map_values(
                |a: Seq<char>| squash_spaces(commas_to_spaces(a)),
            ),
            string_views(r@) == mapped.take(i as int).filter(nonempty_pred()),
        decreases pieces.len() - i,
    {
        let replaced = crate::parsers::commas_to_spaces_chars(pieces[i].as_slice());
        let a = squash_spaces_chars(replaced.as_slice());
        proof {
            assert(mapped[i as int] == a@);
            assert(mapped.take(i + 1) =~= mapped.take(i as int).push(a@));
            mapped.take(i as int).lemma_filter_push(a@, nonempty_pred());
        }
        if a.len() > 0 {
            let s = from_chars(a.as_slice());
            let ghost before = r@;
            r.push(s);
            proof {
                assert(string_views(r@) =~= string_views(before).push(a@));
            }
        }
        i += 1;
    }
    proof {
        assert(mapped.take(pieces.len() as int) =~= mapped);
    }
    r
}

fn inp_genres_exec(field: &[char]) -> (r: Vec<String>)
    ensures
        string_views(r@) == inp_genres(field@),
{
    let pieces = split_chars(field, CharClass::Exact(':'));
    let ghost mapped = views_of(pieces@).map_values(
        |g: Seq<char>| unicode_lowercase(strip_meta_spec(g)),
    );
    let mut r: Vec<String> = Vec::new();
    let mut i: usize = 0;
    proof {
        reveal(Seq::filter);
        assert(mapped.take(0).filter(nonempty_pred()) =~= Seq::<Seq<char>>::empty());
        assert(string_views(r@) =~= Seq::<Seq<char>>::empty());
    }
    while i < pieces.len()
        invariant
            i <= pieces.len(),
            views_of(pieces@) == split_class(field@, CharClass::Exact(':')),
            mapped == views_of(pieces@).map_values(
                |g: Seq<char>| unicode_lowercase(strip_meta_spec(g)),
            ),
            string_views(r@) == mapped.take(i as int).filter(nonempty_pred()),
        decreases pieces.len() - i,
    {
        let stripped = strip_meta_chars(pieces[i].as_slice());
        let g = lowercase_chars(stripped.as_slice());
        proof {
            assert(mapped[i as int] == g@);
            assert(mapped.take(i + 1) =~= mapped.take(i as int).push(g@));
            mapped.take(i as int).lemma_filter_push(g@, nonempty_pred());
        }
        if g.len() > 0 {
            let s = from_chars(g.as_slice());
            let ghost before = r@;
            r.push(s);
            proof {
                assert(string_views(r@) =~= string_views(before).push(g@));
            }
        }
        i += 1;
    }
    proof {
        assert(mapped.take(pieces.len() as int) =~= mapped);
    }
    r
}

fn inp_series_exec(field: &[char]) -> (r: Option<String>)
    ensures
        opt_string_view(r) == inp_series(field@),
{
    let pieces = split_chars(field, CharClass::Exact(':'));
    proof {
        crate::text::lemma_split_nonempty(field@, CharClass::Exact(':'));
        assert(views_of(pieces@)[0] == pieces@[0]@);
    }
    let s = strip_meta_chars(pieces[0].as_slice());
    if s.len() > 0 {
        Some(from_chars(s.as_slice()))
    } else {
        None
    }
}

/// Parse one `.inp` line into a record of the given archive, if it describes a book.
pub fn parse_inp_line(line: &str, folder: &str) -> (r: Option<InpxRecord>)
    ensures
        r is Some <==> line_accepted(line@),
        r matches Some(rec) ==> record_of(rec, line@, folder@),
{
    let chars = to_chars(line);
    let l = trim_chars(chars.as_slice(), CharClass::Space);
    if l.len() == 0 {
        return None;
    }
    let fields = split_chars(l.as_slice(), CharClass::Exact(INPX_SEPARATOR));
    let ghost f = views_of(fields@);
    proof {
        assert(f == inp_fields(line@));
    }
    if fields.len() < 12 {
        return None;
    }
    proof {
        assert forall|k: int| 0 <= k < 12 implies f[k] == (#[trigger] fields@[k])@ by {}
    }
    let del = trim_chars(fields[8].as_slice(), CharClass::Space);
    let zero = del.len() == 1 && del[0] == '0';
    proof {
        if del@ == seq!['0'] {
            assert(del@[0] == '0');
        }
        if zero {
            assert(del@ =~= seq!['0']);
        }
    }
    if del.len() > 0 && !zero {
        return None;
    }
    let stem = trim_chars(fields[5].as_slice(), CharClass::Space);
    let ext = trim_chars(fields[9].as_slice(), CharClass::Space);
    let mut filename = stem;
    filename.push('.');
    extend_chars(&mut filename, ext.as_slice());
    let format = lowercase_chars(ext.as_slice());
    let title = strip_meta_chars(fields[2].as_slice());
    let lang = strip_meta_chars(fields[11].as_slice());
    let docdate = strip_meta_chars(fields[10].as_slice());
    let authors = inp_authors_exec(fields[0].as_slice());
    let genres = inp_genres_exec(fields[1].as_slice());
    let series_title = inp_series_exec(fields[3].as_slice());
    let serno = trim_chars(fields[4].as_slice(), CharClass::Space);
    let series_index = match parse_i32(serno.as_slice()) {
        Some(v) => v,
        None => 0,
    };
    let size_chars = trim_chars(fields[6].as_slice(), CharClass::Space);
    let size = match parse_i64(size_chars.as_slice()) {
        Some(v) => v,
        None => 0,
    };
    let mut meta = BookMeta::empty();
    meta.title = from_chars(title.as_slice());
    meta.authors = authors;
    meta.genres = genres;
    meta.lang = from_chars(lang.as_slice());
    meta.docdate = from_chars(docdate.as_slice());
    meta.series_title = series_title;
    meta.series_index = series_index;
    let rec = InpxRecord {
        filename: from_chars(filename.as_slice()),
        folder: folder.to_owned(),
        format: from_chars(format.as_slice()),
        size,
        meta,
    };
    proof {
        assert(rec.filename@ =~= trim(f[5]) + seq!['.'] + trim(f[9]));
    }
    Some(rec)
}

/// The lines that describe books.
pub open spec fn accepted_lines(lines: Seq<Seq<char>>) -> Seq<Seq<char>> {
    lines.filter(|l: Seq<char>| line_accepted(l))
}

/// Parse the lines of one `.inp` file, appending a record for every line that
/// describes a book, in order.
pub fn parse_inp(lines: &Vec<String>, folder: &str, out: &mut Vec<InpxRecord>)
    ensures
        final(out)@.len() == old(out)@.len() + accepted_lines(string_views(lines@)).len(),
        final(out)@.take(old(out)@.len() as int) == old(out)@,
        forall|k: int|
            0 <= k < accepted_lines(string_views(lines@)).len() ==> record_of(
                #[trigger] final(out)@[old(out)@.len() + k],
                accepted_lines(string_views(lines@))[k],
                folder@,
            ),
{
    let ghost ls = string_views(lines@);
    let ghost start = out@.len();
    let mut i: usize = 0;
    proof {
        reveal(Seq::filter);
        assert(ls.take(0).filter(|l: Seq<char>| line_accepted(l)) =~= Seq::<Seq<char>>::empty());
        assert(out@.take(start as int) =~= old(out)@);
    }
    while i < lines.len()
        invariant
            i <= lines.len(),
            ls == string_views(lines@),
            start == old(out)@.len(),
            out@.take(start as int) == old(out)@,
            out@.len() == start + accepted_lines(ls.take(i as int)).len(),
            forall|k: int|
                0 <= k < accepted_lines(ls.take(i as int)).len() ==> record_of(
                    #[trigger] out@[start + k],
                    accepted_lines(ls.take(i as int))[k],
                    folder@,
                ),
        decreases lines.len() - i,
    {
        let ghost prev = accepted_lines(ls.take(i as int));
        proof {
            assert(ls.take(i + 1) =~= ls.take(i as int).push(ls[i as int]));
            ls.take(i as int).lemma_filter_push(ls[i as int], |l: Seq<char>| line_accepted(l));
            assert(ls[i as int] == lines@[i as int]@);
        }
        match parse_inp_line(lines[i].as_str(), folder) {
            Some(rec) => {
                let ghost before = out@;
                out.push(rec);
                proof {
                    assert(out@.take(start as int) =~= before.take(start as int));
                    let now = accepted_lines(ls.take(i + 1));
                    assert(now == prev.push(ls[i as int]));
                    assert forall|k: int| 0 <= k < now.len() implies record_of(
                        #[trigger] out@[start + k],
                        now[k],
                        folder@,
                    ) by {
                        if k < prev.len() {
                            assert(out@[start + k] == before[start + k]);
                        }
                    }
                }
            },
            None => {},
        }
        i += 1;
    }
    proof {
        assert(ls.take(lines.len() as int) =~= ls);
    }
}


// ---------------------------------------------------------------------------
// Lines of an index entry
// ---------------------------------------------------------------------------

/// `std::str::from_utf8`: the text whose UTF-8 encoding the bytes are, if any.
#[verifier::external_body]
fn utf8_text(bytes: &[u8]) -> (r: Option<String>)
    ensures
        r is Some <==> valid_utf8(bytes@),
        r matches Some(s) ==> s@ == decode_utf8(bytes@),
{
    std::str::from_utf8(bytes).ok().map(|s| s.to_string())
}

/// The index of the first `\n`, or -1.
pub open spec fn first_newline(s: Seq<u8>) -> int
    decreases s.len(),
{
    if s.len() == 0 {
        -1
    } else if s[0] == 10u8 {
        0
    } else if first_newline(s.drop_first()) < 0 {
        -1
    } else {
        first_newline(s.drop_first()) + 1
    }
}

pub open spec fn strip_cr_byte(line: Seq<u8>) -> Seq<u8> {
    if line.len() > 0 && line.last() == 13u8 {
        line.drop_last()
    } else {
        line
    }
}

/// The byte lines of a text as `BufRead::lines` reads them: each line up to
/// a `\n` (or the end), without the `\n` and without a `\r` before it.
pub open spec fn byte_lines(data: Seq<u8>) -> Seq<Seq<u8>>
    decreases data.len(),
{
    if data.len() == 0 {
        Seq::empty()
    } else {
        let k = first_newline(data);
        if k < 0 {
            seq![strip_cr_byte(data)]
        } else {
            proof {
                lemma_first_newline_bound(data);
            }
            seq![strip_cr_byte(data.take(k))] + byte_lines(data.skip(k + 1))
        }
    }
}

pub proof fn lemma_first_newline_bound(s: Seq<u8>)
    ensures
        -1 <= first_newline(s) < s.len(),
    decreases s.len(),
{
    if s.len() > 0 && s[0] != 10u8 {
        lemma_first_newline_bound(s.drop_first());
    }
}

proof fn lemma_first_newline(s: Seq<u8>, j: int)
    requires
        0 <= j <= s.len(),
        forall|q: int| 0 <= q < j ==> s[q] != 10u8,
    ensures
        j < s.len() && s[j] == 10u8 ==> first_newline(s) == j,
        j == s.len() ==> first_newline(s) == -1,
    decreases j,
{
    if j > 0 {
        let t = s.drop_first();
        assert forall|q: int| 0 <= q < j - 1 implies t[q] != 10u8 by {
            assert(t[q] == s[q + 1]);
        }
        lemma_first_newline(t, j - 1);
    } else if s.len() > 0 && s[0] != 10u8 {
    }
}

/// The text of each line that is UTF-8; other lines are skipped.
pub open spec fn text_lines(lines: Seq<Seq<u8>>) -> Seq<Seq<char>>
    decreases lines.len(),
{
    if lines.len() == 0 {
        Seq::empty()
    } else if valid_utf8(lines.last()) {
        text_lines(lines.drop_last()).push(decode_utf8(lines.last()))
    } else {
        text_lines(lines.drop_last())
    }
}

fn strip_cr_vec(line: Vec<u8>) -> (r: Vec<u8>)
    ensures
        r@ == strip_cr_byte(line@),
{
    let mut line = line;
    if line.len() > 0 && line[line.len() - 1] == 13u8 {
        line.pop();
    }
    line
}

/// The lines of a text, by bytes.
pub fn split_byte_lines(data: &[u8]) -> (r: Vec<Vec<u8>>)
    ensures
        r@.map_values(|l: Vec<u8>| l@) == byte_lines(data@),
{
    let mut out: Vec<Vec<u8>> = Vec::new();
    let mut cur: Vec<u8> = Vec::new();
    let mut start: usize = 0;
    let mut i: usize = 0;
    proof {
        assert(data@.skip(0) =~= data@);
        assert(out@.map_values(|l: Vec<u8>| l@) =~= Seq::<Seq<u8>>::empty());
    }
    while i < data.len()
        invariant
            start <= i <= data.len(),
            cur@ == data@.subrange(start as int, i as int),
            forall|q: int| start <= q < i ==> data@[q] != 10u8,
            out@.map_values(|l: Vec<u8>| l@) + byte_lines(data@.skip(start as int)) == byte_lines(
                data@,
            ),
        decreases data.len() - i,
    {
        let b = data[i];
        if b == 10u8 {
            let ghost rest = data@.skip(start as int);
            proof {
                assert forall|q: int| 0 <= q < i - start implies rest[q] != 10u8 by {
                    assert(rest[q] == data@[start + q]);
                }
                lemma_first_newline(rest, i - start);
                assert(rest.take(i - start) =~= cur@);
                assert(rest.skip(i - start + 1) =~= data@.skip(i + 1));
            }
            let line = strip_cr_vec(cur);
            let ghost before = out@;
            out.push(line);
            proof {
                assert(out@.map_values(|l: Vec<u8>| l@) =~= before.map_values(|l: Vec<u8>| l@).push(
                    strip_cr_byte(rest.take(i - start)),
                ));
            }
            cur = Vec::new();
            start = i + 1;
            proof {
                assert(cur@ =~= data@.subrange(start as int, start as int));
            }
        } else {
            cur.push(b);
            proof {
                assert(cur@ =~= data@.subrange(start as int, i + 1));
            }
        }
        i += 1;
    }
    let ghost rest = data@.skip(start as int);
    if cur.len() > 0 {
        proof {
            assert forall|q: int| 0 <= q < rest.len() implies rest[q] != 10u8 by {
                assert(rest[q] == data@[start + q]);
            }
            lemma_first_newline(rest, rest.len() as int);
            assert(rest =~= cur@);
        }
        let line = strip_cr_vec(cur);
        let ghost before = out@;
        out.push(line);
        proof {
            assert(out@.map_values(|l: Vec<u8>| l@) =~= before.map_values(|l: Vec<u8>| l@).push(
                strip_cr_byte(rest),
            ));
        }
    } else {
        proof {
            assert(rest.len() == 0);
        }
    }
    proof {
        assert(out@.map_values(|l: Vec<u8>| l@) =~= out@.map_values(|l: Vec<u8>| l@) + Seq::<Seq<u8>>::empty());
    }
    out
}


/// The text lines of an index entry; lines that are not UTF-8 are skipped.
pub fn read_text_lines(data: &[u8]) -> (r: Vec<String>)
    ensures
        string_views(r@) == text_lines(byte_lines(data@)),
{
    let lines = split_byte_lines(data);
    let ghost lv = lines@.map_values(|l: Vec<u8>| l@);
    let mut out: Vec<String> = Vec::new();
    let mut i: usize = 0;
    proof {
        assert(lv.take(0) =~= Seq::<Seq<u8>>::empty());
        assert(string_views(out@) =~= Seq::<Seq<char>>::empty());
    }
    while i < lines.len()
        invariant
            i <= lines.len(),
            lv == lines@.map_values(|l: Vec<u8>| l@),
            lv == byte_lines(data@),
            string_views(out@) == text_lines(lv.take(i as int)),
        decreases lines.len() - i,
    {
        proof {
            assert(lv.take(i + 1).drop_last() =~= lv.take(i as int));
            assert(lv.take(i + 1).last() == lines@[i as int]@);
        }
        match utf8_text(lines[i].as_slice()) {
            Some(t) => {
                let ghost before = out@;
                out.push(t);
                proof {
                    assert(string_views(out@) =~= string_views(before).push(out@.last()@));
                }
            },
            None => {},
        }
        i += 1;
    }
    proof {
        assert(lv.take(lines.len() as int) =~= lv);
    }
    out
}

/// Why an index could not be read.
pub enum InpxError {
    Zip(ZipError),
}

pub open spec fn is_inp_name(o: Option<Seq<char>>) -> bool {
    o matches Some(n) && crate::parsers::epub::ends_with_seq(n, ".inp"@)
}

/// The names of the `.inp` entries, in order.
pub open spec fn inp_names(listing: Seq<Option<Seq<char>>>) -> Seq<Seq<char>>
    decreases listing.len(),
{
    if listing.len() == 0 {
        Seq::empty()
    } else if is_inp_name(listing.last()) {
        inp_names(listing.drop_last()).push(listing.last()->0)
    } else {
        inp_names(listing.drop_last())
    }
}

fn scan_inp_names(a: &mut MemZip) -> (r: Vec<String>)
    ensures
        zip_source(*final(a)) == zip_source(*old(a)),
        string_views(r@) == inp_names(zip_listing(zip_source(*old(a)))),
{
    let ghost listing = zip_listing(zip_source(*a));
    let n = zip_len(a);
    let mut out: Vec<String> = Vec::new();
    let mut i: usize = 0;
    proof {
        assert(listing.take(0) =~= Seq::<Option<Seq<char>>>::empty());
        assert(string_views(out@) =~= Seq::<Seq<char>>::empty());
    }
    while i < n
        invariant
            i <= n,
            n == listing.len(),
            zip_source(*a) == zip_source(*old(a)),
            listing == zip_listing(zip_source(*old(a))),
            string_views(out@) == inp_names(listing.take(i as int)),
        decreases n - i,
    {
        let name = zip_name_at(a, i);
        proof {
            assert(listing.take(i + 1).drop_last() =~= listing.take(i as int));
            assert(listing.take(i + 1).last() == listing[i as int]);
        }
        match name {
            Some(nm) => {
                let ends = {
                    let c = to_chars(nm.as_str());
                    let suffix = to_chars(".inp");
                    proof {
                        reveal_strlit(".inp");
                    }
                    if c.len() >= 4 {
                        let tail = crate::text::slice_chars(c.as_slice(), c.len() - 4, c.len());
                        crate::text::chars_eq(tail.as_slice(), suffix.as_slice())
                    } else {
                        false
                    }
                };
                if ends {
                    let ghost before = out@;
                    out.push(nm);
                    proof {
                        assert(string_views(out@) =~= string_views(before).push(out@.last()@));
                    }
                }
            },
            None => {},
        }
        i += 1;
    }
    proof {
        assert(listing.take(n as int) =~= listing);
    }
    out
}

/// The accepted lines of an index entry, each with the archive it describes;
/// an entry whose bytes cannot be read has none.
pub open spec fn entry_pairs(src: Seq<u8>, name: Seq<char>) -> Seq<(Seq<char>, Seq<char>)> {
    let lines = match zip_entry_data(src, name) {
        Some(d) => text_lines(byte_lines(d)),
        None => Seq::empty(),
    };
    accepted_lines(lines).map_values(|l: Seq<char>| (l, default_folder_spec(name)))
}

pub open spec fn all_pairs(src: Seq<u8>, names: Seq<Seq<char>>) -> Seq<(Seq<char>, Seq<char>)>
    decreases names.len(),
{
    if names.len() == 0 {
        Seq::empty()
    } else {
        all_pairs(src, names.drop_last()) + entry_pairs(src, names.last())
    }
}

/// Every index entry of the archive in these bytes opens by its name.
pub open spec fn inp_entries_open(src: Seq<u8>) -> bool {
    forall|k: int|
        0 <= k < inp_names(zip_listing(src)).len() ==> zip_entry_found(
            src,
            #[trigger] inp_names(zip_listing(src))[k],
        )
}

/// Parse all book records of an INPX archive held in memory: every `.inp`
/// entry, in archive order, its lines in order, each record of the archive
/// named after the entry (`default_folder`). An entry whose bytes cannot be
/// read gives no records.
pub fn parse(data: Vec<u8>) -> (r: Result<Vec<InpxRecord>, InpxError>)
    ensures
        r matches Ok(recs) ==> ({
            let pairs = all_pairs(data@, inp_names(zip_listing(data@)));
            &&& recs@.len() == pairs.len()
            &&& forall|k: int| 0 <= k < pairs.len() ==> record_of(#[trigger] recs@[k], pairs[k].0, pairs[k].1)
        }),
        r is Ok <==> zip_opens(data@) && inp_entries_open(data@),
{
    let ghost src = data@;
    let mut a = match zip_open(data) {
        Ok(a) => a,
        Err(e) => {
            return Err(InpxError::Zip(e));
        },
    };
    let names = scan_inp_names(&mut a);
    let ghost nv = string_views(names@);
    let mut records: Vec<InpxRecord> = Vec::new();
    let mut i: usize = 0;
    proof {
        assert(nv.take(0) =~= Seq::<Seq<char>>::empty());
    }
    while i < names.len()
        invariant
            i <= names.len(),
            zip_source(a) == src,
            nv == string_views(names@),
            nv == inp_names(zip_listing(src)),
            src == data@,
            forall|k: int| 0 <= k < i ==> zip_entry_found(src, #[trigger] nv[k]),
            records@.len() == all_pairs(src, nv.take(i as int)).len(),
            forall|k: int|
                0 <= k < records@.len() ==> record_of(
                    #[trigger] records@[k],
                    all_pairs(src, nv.take(i as int))[k].0,
                    all_pairs(src, nv.take(i as int))[k].1,
                ),
        decreases names.len() - i,
    {
        let folder = default_folder(names[i].as_str());
        let ghost prev = all_pairs(src, nv.take(i as int));
        let ghost name = nv[i as int];
        proof {
            assert(nv.take(i + 1).drop_last() =~= nv.take(i as int));
            assert(nv.take(i + 1).last() == name);
            assert(name == names@[i as int]@);
        }
        match zip_read(&mut a, names[i].as_str()) {
            Ok(bytes) => {
                let lines = read_text_lines(bytes.as_slice());
                let ghost before = records@;
                parse_inp(&lines, folder.as_str(), &mut records);
                proof {
                    let acc = accepted_lines(string_views(lines@));
                    let ep = entry_pairs(src, name);
                    assert(ep =~= acc.map_values(|l: Seq<char>| (l, default_folder_spec(name))));
                    let now = all_pairs(src, nv.take(i + 1));
                    assert(now =~= prev + ep);
                    assert forall|k: int| 0 <= k < records@.len() implies record_of(
                        #[trigger] records@[k],
                        now[k].0,
                        now[k].1,
                    ) by {
                        if k < before.len() {
                            assert(records@.take(before.len() as int)[k] == before[k]);
                        } else {
                            let j = k - before.len();
                            assert(records@[before.len() + j] == records@[k]);
                        }
                    }
                }
            },
            Err(ZipReadError::Zip(e)) => {
                proof {
                    assert(!zip_entry_found(src, inp_names(zip_listing(src))[i as int]));
                    assert(!inp_entries_open(src));
                }
                return Err(InpxError::Zip(e));
            },
            Err(ZipReadError::Io(_)) => {
                proof {
                    let now = all_pairs(src, nv.take(i + 1));
                    assert(entry_pairs(src, name) =~= Seq::<(Seq<char>, Seq<char>)>::empty());
                    assert(now =~= prev);
                }
            },
        }
        i += 1;
    }
    proof {
        assert(nv.take(names.len() as int) =~= nv);
        assert(inp_entries_open(src));
    }
    Ok(records)
}


/// A live index line is imported: a line that is not blank, has at least
/// twelve fields and whose deletion mark (the ninth field) is empty after
/// trimming is accepted, so `parse_inp_line` gives a record for it.
pub proof fn lemma_unmarked_line_accepted(line: Seq<char>)
    requires
        trim(line).len() > 0,
        split_class(trim(line), CharClass::Exact(INPX_SEPARATOR)).len() >= 12,
        trim(split_class(trim(line), CharClass::Exact(INPX_SEPARATOR))[8]).len() == 0,
    ensures
        line_accepted(line),
{
}

/// A line whose deletion mark is anything but empty or `0` is a deleted
/// book, and is not imported.
pub proof fn lemma_marked_line_rejected(line: Seq<char>)
    requires
        split_class(trim(line), CharClass::Exact(INPX_SEPARATOR)).len() >= 12,
        trim(split_class(trim(line), CharClass::Exact(INPX_SEPARATOR))[8]).len() > 0,
        trim(split_class(trim(line), CharClass::Exact(INPX_SEPARATOR))[8]) != seq!['0'],
    ensures
        !line_accepted(line),
{
}

} // verus!
