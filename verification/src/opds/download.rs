//! Names of downloaded book files.
use vstd::prelude::*;
use crate::text::{
    CharClass, lemma_split_nonempty, lemma_split_pieces_clean, nonempty_pred, split_class, char_is_alphanumeric, extend_chars, extend_str, from_chars, join, join_chars,
    to_chars, unicode_alphanumeric, in_class, views_of, words_class, words_chars,
};

verus! {

/// Characters kept in a download name (letters and digits); every other
/// character becomes `_`.
pub open spec fn is_name_char(c: char) -> bool {
    unicode_alphanumeric(c)
}

pub open spec fn name_char(c: char) -> char {
    if is_name_char(c) {
        c
    } else {
        '_'
    }
}

/// The title with each character that is not kept replaced by `_`.
pub open spec fn safe_title(title: Seq<char>) -> Seq<char> {
    title.map_values(|c: char| name_char(c))
}

/// The runs of kept characters of the title, joined by single `_`.
pub open spec fn filename_stem(title: Seq<char>) -> Seq<char> {
    join(words_class(safe_title(title), CharClass::Exact('_')), seq!['_'])
}

/// `stem.format`, or the original file name when the title keeps no character.
pub open spec fn title_to_filename_spec(
    title: Seq<char>,
    format: Seq<char>,
    original_filename: Seq<char>,
) -> Seq<char> {
    let stem = filename_stem(title);
    if stem.len() == 0 {
        original_filename
    } else {
        stem + seq!['.'] + format
    }
}

/// Build a safe download filename from the book title and format extension:
/// characters other than letters and digits become `_`, runs of
/// `_` collapse into one and leading and trailing `_` are dropped; when nothing
/// is left, the original file name is used.
pub fn title_to_filename(title: &str, format: &str, original_filename: &str) -> (r: String)
    ensures
        r@ == title_to_filename_spec(title@, format@, original_filename@),
{
    let chars = to_chars(title);
    let mut safe: Vec<char> = Vec::new();
    let mut i: usize = 0;
    while i < chars.len()
        invariant
            i <= chars.len(),
            chars@ == title@,
            safe@ == safe_title(title@.take(i as int)),
        decreases chars.len() - i,
    {
        let c = chars[i];
        let keep = char_is_alphanumeric(c);
        if keep {
            safe.push(c);
        } else {
            safe.push('_');
        }
        proof {
            assert(title@.take(i + 1) =~= title@.take(i as int).push(c));
            assert(safe_title(title@.take(i + 1)) =~= safe_title(title@.take(i as int)).push(
                name_char(c),
            ));
        }
        i += 1;
    }
    proof {
        assert(title@.take(chars.len() as int) =~= title@);
    }
    let words = words_chars(safe.as_slice(), CharClass::Exact('_'));
    let sep: Vec<char> = vec!['_'];
    proof {
        assert(sep@ =~= seq!['_']);
    }
    let stem = join_chars(&words, sep.as_slice());
    if stem.len() == 0 {
        original_filename.to_owned()
    } else {
        let mut out = stem;
        out.push('.');
        extend_str(&mut out, format);
        proof {
            assert(out@ =~= filename_stem(title@) + seq!['.'] + format@);
        }
        from_chars(out.as_slice())
    }
}


/// The pieces of a split hold only characters of the split text.
proof fn lemma_split_pieces_keep(s: Seq<char>, cls: CharClass, p: spec_fn(char) -> bool)
    requires
        forall|i: int| 0 <= i < s.len() ==> p(#[trigger] s[i]),
    ensures
        forall|k: int, j: int|
            0 <= k < split_class(s, cls).len() && 0 <= j < split_class(s, cls)[k].len() ==> p(
                #[trigger] split_class(s, cls)[k][j],
            ),
    decreases s.len(),
{
    if s.len() > 0 {
        let t = s.drop_last();
        assert forall|i: int| 0 <= i < t.len() implies p(#[trigger] t[i]) by {
            assert(t[i] == s[i]);
        }
        lemma_split_pieces_keep(t, cls, p);
        lemma_split_nonempty(t, cls);
        assert(p(s[s.len() - 1]));
    }
}

/// Every character is `c` or satisfies `p`; the text neither starts nor ends
/// with `c` and never holds `c` twice in a row.
pub open spec fn clean_text(r: Seq<char>, c: char, p: spec_fn(char) -> bool) -> bool {
    &&& forall|i: int| 0 <= i < r.len() ==> #[trigger] r[i] == c || p(r[i])
    &&& r.len() > 0 ==> r[0] != c && r.last() != c
    &&& forall|i: int| 0 <= i < r.len() - 1 ==> !(#[trigger] r[i] == c && r[i + 1] == c)
}

pub open spec fn clean_piece(w: Seq<char>, c: char, p: spec_fn(char) -> bool) -> bool {
    &&& w.len() > 0
    &&& forall|j: int| 0 <= j < w.len() ==> #[trigger] w[j] != c && p(w[j])
}

proof fn lemma_clean_concat(a: Seq<char>, c: char, w: Seq<char>, p: spec_fn(char) -> bool)
    requires
        a.len() > 0,
        clean_text(a, c, p),
        clean_piece(w, c, p),
    ensures
        clean_text(a + seq![c] + w, c, p),
{
    let r = a + seq![c] + w;
    assert forall|i: int| 0 <= i < r.len() implies #[trigger] r[i] == c || p(r[i]) by {
        if i < a.len() {
            assert(r[i] == a[i]);
        } else if i > a.len() {
            assert(r[i] == w[i - a.len() - 1]);
        }
    }
    assert(r[0] == a[0]);
    assert(r.last() == w[w.len() - 1]);
    assert forall|i: int| 0 <= i < r.len() - 1 implies !(#[trigger] r[i] == c && r[i + 1] == c) by {
        if i + 1 < a.len() {
            assert(r[i] == a[i] && r[i + 1] == a[i + 1]);
        } else if i + 1 == a.len() {
            assert(r[i] == a[a.len() - 1]);
        } else if i == a.len() {
            assert(r[i + 1] == w[0]);
        } else {
            assert(r[i] == w[i - a.len() - 1]);
        }
    }
}

/// Joining clean pieces by `c` gives a clean text.
proof fn lemma_join_clean(pieces: Seq<Seq<char>>, c: char, p: spec_fn(char) -> bool)
    requires
        forall|k: int| 0 <= k < pieces.len() ==> clean_piece(#[trigger] pieces[k], c, p),
    ensures
        clean_text(join(pieces, seq![c]), c, p),
        pieces.len() > 0 ==> join(pieces, seq![c]).len() > 0,
    decreases pieces.len(),
{
    if pieces.len() == 1 {
        let w = pieces[0];
        assert(clean_piece(w, c, p));
        assert(join(pieces, seq![c]) == w);
        assert(w.last() == w[w.len() - 1]);
    } else if pieces.len() > 1 {
        let front = pieces.drop_last();
        assert forall|k: int| 0 <= k < front.len() implies clean_piece(#[trigger] front[k], c, p) by {
            assert(front[k] == pieces[k]);
        }
        lemma_join_clean(front, c, p);
        assert(clean_piece(pieces[pieces.len() - 1], c, p));
        lemma_clean_concat(join(front, seq![c]), c, pieces.last(), p);
    }
}

/// A download name made from a title holds only kept characters and `_`,
/// neither starts nor ends with `_`, and never holds `_` twice in a row.
pub proof fn lemma_filename_stem_clean(title: Seq<char>)
    ensures
        forall|i: int|
            0 <= i < filename_stem(title).len() ==> is_name_char(#[trigger] filename_stem(title)[i])
                || filename_stem(title)[i] == '_',
        filename_stem(title).len() > 0 ==> filename_stem(title)[0] != '_' && filename_stem(
            title,
        ).last() != '_',
        forall|i: int|
            0 <= i < filename_stem(title).len() - 1 ==> !(#[trigger] filename_stem(title)[i] == '_'
                && filename_stem(title)[i + 1] == '_'),
{
    let safe = safe_title(title);
    let cls = CharClass::Exact('_');
    let keep = |x: char| is_name_char(x) || x == '_';
    assert forall|i: int| 0 <= i < safe.len() implies #[trigger] keep(safe[i]) by {
        assert(safe[i] == name_char(title[i]));
    }
    lemma_split_pieces_keep(safe, cls, keep);
    lemma_split_pieces_clean(safe, cls);
    let pieces = split_class(safe, cls);
    let ws = pieces.filter(nonempty_pred());
    let name = |x: char| is_name_char(x);
    assert forall|k: int| 0 <= k < ws.len() implies clean_piece(#[trigger] ws[k], '_', name) by {
        pieces.lemma_filter_pred(nonempty_pred(), k);
        assert(ws.contains(ws[k]));
        pieces.lemma_filter_contains_rev(nonempty_pred(), ws[k]);
        let m = choose|m: int| 0 <= m < pieces.len() && pieces[m] == ws[k];
        assert forall|j: int| 0 <= j < ws[k].len() implies #[trigger] ws[k][j] != '_' && name(ws[k][j]) by {
            assert(pieces[m][j] == ws[k][j]);
            assert(!in_class(cls, pieces[m][j]));
            assert(keep(pieces[m][j]));
        }
    }
    lemma_join_clean(ws, '_', name);
    assert(clean_text(filename_stem(title), '_', name));
}

} // verus!
