//! Character classes and string operations used throughout the library.
//!
//! Text is modelled as `Seq<char>` (the view of `&str` and `String`);
//! executable helpers work on `Vec<char>` and convert at the edges.
use vstd::prelude::*;

verus! {

// ---------------------------------------------------------------------------
// Character classes
// ---------------------------------------------------------------------------

/// Unicode `White_Space` (the set used by `char::is_whitespace` and `str::trim`).
pub open spec fn is_space(c: char) -> bool {
    let v = c as u32;
    ||| (0x09 <= v && v <= 0x0d)
    ||| v == 0x20
    ||| v == 0x85
    ||| v == 0xa0
    ||| v == 0x1680
    ||| (0x2000 <= v && v <= 0x200a)
    ||| v == 0x2028
    ||| v == 0x2029
    ||| v == 0x202f
    ||| v == 0x205f
    ||| v == 0x3000
}

pub fn char_is_space(c: char) -> (b: bool)
    ensures
        b == is_space(c),
{
    let v = c as u32;
    (0x09 <= v && v <= 0x0d) || v == 0x20 || v == 0x85 || v == 0xa0 || v == 0x1680 || (0x2000
        <= v && v <= 0x200a) || v == 0x2028 || v == 0x2029 || v == 0x202f || v == 0x205f || v
        == 0x3000
}

/// Unicode general category `Cc` (the set used by `char::is_control`).
pub open spec fn is_control(c: char) -> bool {
    let v = c as u32;
    v <= 0x1f || (0x7f <= v && v <= 0x9f)
}

pub fn char_is_control(c: char) -> (b: bool)
    ensures
        b == is_control(c),
{
    let v = c as u32;
    v <= 0x1f || (0x7f <= v && v <= 0x9f)
}

pub open spec fn is_ascii_digit(c: char) -> bool {
    '0' <= c && c <= '9'
}

pub open spec fn is_ascii_upper(c: char) -> bool {
    'A' <= c && c <= 'Z'
}

pub open spec fn is_ascii_lower(c: char) -> bool {
    'a' <= c && c <= 'z'
}

pub open spec fn is_ascii_alpha(c: char) -> bool {
    is_ascii_upper(c) || is_ascii_lower(c)
}

pub open spec fn is_ascii_alnum(c: char) -> bool {
    is_ascii_alpha(c) || is_ascii_digit(c)
}

pub fn char_is_ascii_digit(c: char) -> (b: bool)
    ensures
        b == is_ascii_digit(c),
{
    '0' <= c && c <= '9'
}

pub fn char_is_ascii_alpha(c: char) -> (b: bool)
    ensures
        b == is_ascii_alpha(c),
{
    ('A' <= c && c <= 'Z') || ('a' <= c && c <= 'z')
}

pub fn char_is_ascii_alnum(c: char) -> (b: bool)
    ensures
        b == is_ascii_alnum(c),
{
    ('A' <= c && c <= 'Z') || ('a' <= c && c <= 'z') || ('0' <= c && c <= '9')
}

/// The ASCII-lowercase of a character (other characters are unchanged).
pub open spec fn ascii_lower(c: char) -> char {
    if is_ascii_upper(c) {
        ((c as u32) + 32) as char
    } else {
        c
    }
}

pub fn char_ascii_lower(c: char) -> (r: char)
    ensures
        r == ascii_lower(c),
{
    if 'A' <= c && c <= 'Z' {
        let v = (c as u32) + 32;
        assert(0x61 <= v <= 0x7a);
        v as u8 as char
    } else {
        c
    }
}

pub open spec fn ascii_lower_seq(s: Seq<char>) -> Seq<char> {
    s.map_values(|c: char| ascii_lower(c))
}

/// A class of characters used for trimming and splitting.
#[derive(Clone, Copy, PartialEq, Eq)]
pub enum CharClass {
    /// Unicode white space.
    Space,
    /// Exactly one character.
    Exact(char),
    /// Either of two characters.
    Either(char, char),
    /// White space or one of `` & ` - . ; # \ ``: the characters trimmed from metadata.
    MetaPunct,
}

pub open spec fn in_class(cls: CharClass, c: char) -> bool {
    match cls {
        CharClass::Space => is_space(c),
        CharClass::Exact(d) => c == d,
        CharClass::Either(a, b) => c == a || c == b,
        CharClass::MetaPunct => is_space(c) || c == '&' || c == '`' || c == '-' || c == '.'
            || c == ';' || c == '#' || c == '\\',
    }
}

pub fn class_contains(cls: CharClass, c: char) -> (b: bool)
    ensures
        b == in_class(cls, c),
{
    match cls {
        CharClass::Space => char_is_space(c),
        CharClass::Exact(d) => c == d,
        CharClass::Either(a, b) => c == a || c == b,
        CharClass::MetaPunct => char_is_space(c) || c == '&' || c == '`' || c == '-' || c == '.'
            || c == ';' || c == '#' || c == '\\',
    }
}

// ---------------------------------------------------------------------------
// Conversions between `&str`/`String` and `Vec<char>`
// ---------------------------------------------------------------------------

/// Appends one character to a `String` (`String::push`).
#[verifier::external_body]
pub(crate) fn push_char(s: &mut String, c: char)
    ensures
        final(s)@ == old(s)@.push(c),
{
    s.push(c);
}

pub fn to_chars(s: &str) -> (v: Vec<char>)
    ensures
        v@ == s@,
{
    let mut v: Vec<char> = Vec::new();
    for c in it: s.chars()
        invariant
            v@ == it.seq().take(it.index() as int),
    {
        v.push(c);
    }
    v
}

pub fn from_chars(v: &[char]) -> (s: String)
    ensures
        s@ == v@,
{
    let mut s = String::new();
    let mut i: usize = 0;
    while i < v.len()
        invariant
            i <= v.len(),
            s@ == v@.take(i as int),
        decreases v.len() - i,
    {
        push_char(&mut s, v[i]);
        proof {
            assert(v@.take(i as int).push(v@[i as int]) =~= v@.take(i + 1));
        }
        i += 1;
    }
    proof {
        assert(v@.take(v.len() as int) =~= v@);
    }
    s
}

/// Appends all characters of `src` to `dst`.
pub fn extend_chars(dst: &mut Vec<char>, src: &[char])
    ensures
        final(dst)@ == old(dst)@ + src@,
{
    let mut i: usize = 0;
    while i < src.len()
        invariant
            i <= src.len(),
            dst@ == old(dst)@ + src@.take(i as int),
        decreases src.len() - i,
    {
        dst.push(src[i]);
        proof {
            assert(src@.take(i as int).push(src@[i as int]) =~= src@.take(i + 1));
        }
        i += 1;
    }
    proof {
        assert(src@.take(src.len() as int) =~= src@);
    }
}

/// Appends all characters of a string slice to `dst`.
pub fn extend_str(dst: &mut Vec<char>, src: &str)
    ensures
        final(dst)@ == old(dst)@ + src@,
{
    let v = to_chars(src);
    extend_chars(dst, v.as_slice());
}

pub fn copy_chars(src: &[char]) -> (v: Vec<char>)
    ensures
        v@ == src@,
{
    let mut v: Vec<char> = Vec::new();
    extend_chars(&mut v, src);
    proof {
        assert(Seq::<char>::empty() + src@ =~= src@);
    }
    v
}

pub fn slice_chars(src: &[char], start: usize, end: usize) -> (v: Vec<char>)
    requires
        start <= end <= src.len(),
    ensures
        v@ == src@.subrange(start as int, end as int),
{
    let mut v: Vec<char> = Vec::new();
    let mut i: usize = start;
    while i < end
        invariant
            start <= i <= end <= src.len(),
            v@ == src@.subrange(start as int, i as int),
        decreases end - i,
    {
        v.push(src[i]);
        proof {
            assert(src@.subrange(start as int, i as int).push(src@[i as int]) =~= src@.subrange(
                start as int,
                i + 1,
            ));
        }
        i += 1;
    }
    v
}

pub fn chars_eq(a: &[char], b: &[char]) -> (r: bool)
    ensures
        r == (a@ == b@),
{
    if a.len() != b.len() {
        return false;
    }
    let mut i: usize = 0;
    while i < a.len()
        invariant
            a.len() == b.len(),
            i <= a.len(),
            forall|j: int| 0 <= j < i ==> a@[j] == b@[j],
        decreases a.len() - i,
    {
        if a[i] != b[i] {
            return false;
        }
        i += 1;
    }
    proof {
        assert(a@ =~= b@);
    }
    true
}

/// Equality of a character sequence and a string slice.
pub fn chars_eq_str(a: &[char], b: &str) -> (r: bool)
    ensures
        r == (a@ == b@),
{
    let bv = to_chars(b);
    chars_eq(a, bv.as_slice())
}

pub fn str_eq(a: &str, b: &str) -> (r: bool)
    ensures
        r == (a@ == b@),
{
    let av = to_chars(a);
    let bv = to_chars(b);
    chars_eq(av.as_slice(), bv.as_slice())
}

pub fn starts_with_chars(s: &[char], prefix: &[char]) -> (r: bool)
    ensures
        r == (prefix@.len() <= s@.len() && s@.take(prefix@.len() as int) == prefix@),
{
    if prefix.len() > s.len() {
        return false;
    }
    let mut i: usize = 0;
    while i < prefix.len()
        invariant
            prefix.len() <= s.len(),
            i <= prefix.len(),
            forall|j: int| 0 <= j < i ==> s@[j] == prefix@[j],
        decreases prefix.len() - i,
    {
        if s[i] != prefix[i] {
            proof {
                assert(s@.take(prefix@.len() as int)[i as int] != prefix@[i as int]);
            }
            return false;
        }
        i += 1;
    }
    proof {
        assert(s@.take(prefix@.len() as int) =~= prefix@);
    }
    true
}

pub fn starts_with_str(s: &str, prefix: &str) -> (r: bool)
    ensures
        r == (prefix@.len() <= s@.len() && s@.take(prefix@.len() as int) == prefix@),
{
    let sv = to_chars(s);
    let pv = to_chars(prefix);
    starts_with_chars(sv.as_slice(), pv.as_slice())
}

pub open spec fn contains_char(s: Seq<char>, c: char) -> bool {
    exists|i: int| 0 <= i < s.len() && s[i] == c
}

pub fn has_char(s: &[char], c: char) -> (r: bool)
    ensures
        r == contains_char(s@, c),
{
    let mut i: usize = 0;
    while i < s.len()
        invariant
            i <= s.len(),
            forall|j: int| 0 <= j < i ==> s@[j] != c,
        decreases s.len() - i,
    {
        if s[i] == c {
            return true;
        }
        i += 1;
    }
    false
}

// ---------------------------------------------------------------------------
// Trimming
// ---------------------------------------------------------------------------

/// Removes leading characters of the class.
pub open spec fn trim_start_class(s: Seq<char>, cls: CharClass) -> Seq<char>
    decreases s.len(),
{
    if s.len() > 0 && in_class(cls, s[0]) {
        trim_start_class(s.drop_first(), cls)
    } else {
        s
    }
}

/// Removes trailing characters of the class.
pub open spec fn trim_end_class(s: Seq<char>, cls: CharClass) -> Seq<char>
    decreases s.len(),
{
    if s.len() > 0 && in_class(cls, s.last()) {
        trim_end_class(s.drop_last(), cls)
    } else {
        s
    }
}

/// Removes leading and trailing characters of the class (`str::trim_matches`).
pub open spec fn trim_class(s: Seq<char>, cls: CharClass) -> Seq<char> {
    trim_end_class(trim_start_class(s, cls), cls)
}

/// `str::trim`.
pub open spec fn trim(s: Seq<char>) -> Seq<char> {
    trim_class(s, CharClass::Space)
}

proof fn lemma_trim_start_skip(s: Seq<char>, cls: CharClass, i: int)
    requires
        0 <= i <= s.len(),
        forall|j: int| 0 <= j < i ==> in_class(cls, #[trigger] s[j]),
    ensures
        trim_start_class(s, cls) == trim_start_class(s.skip(i), cls),
    decreases i,
{
    if i > 0 {
        assert(s.drop_first().skip(i - 1) =~= s.skip(i));
        lemma_trim_start_skip(s.drop_first(), cls, i - 1);
    } else {
        assert(s.skip(0) =~= s);
    }
}

proof fn lemma_trim_end_take(s: Seq<char>, cls: CharClass, i: int)
    requires
        0 <= i <= s.len(),
        forall|j: int| i <= j < s.len() ==> in_class(cls, #[trigger] s[j]),
    ensures
        trim_end_class(s, cls) == trim_end_class(s.take(i), cls),
    decreases s.len() - i,
{
    if i < s.len() {
        assert(s.drop_last().take(i) =~= s.take(i));
        lemma_trim_end_take(s.drop_last(), cls, i);
    } else {
        assert(s.take(i) =~= s);
    }
}

/// Index of the first character not in the class.
pub fn leading_in_class(s: &[char], cls: CharClass) -> (i: usize)
    ensures
        i <= s.len(),
        trim_start_class(s@, cls) == s@.skip(i as int),
        forall|j: int| 0 <= j < i ==> in_class(cls, #[trigger] s@[j]),
        i < s.len() ==> !in_class(cls, s@[i as int]),
{
    let mut i: usize = 0;
    while i < s.len() && class_contains(cls, s[i])
        invariant
            i <= s.len(),
            forall|j: int| 0 <= j < i ==> in_class(cls, #[trigger] s@[j]),
        decreases s.len() - i,
    {
        i += 1;
    }
    proof {
        lemma_trim_start_skip(s@, cls, i as int);
        let r = s@.skip(i as int);
        if r.len() > 0 {
            assert(r[0] == s@[i as int]);
        }
    }
    i
}

/// One past the index of the last character not in the class.
pub fn trailing_in_class(s: &[char], cls: CharClass) -> (i: usize)
    ensures
        i <= s.len(),
        trim_end_class(s@, cls) == s@.take(i as int),
        forall|j: int| i <= j < s.len() ==> in_class(cls, #[trigger] s@[j]),
        i > 0 ==> !in_class(cls, s@[i - 1]),
{
    let mut i: usize = s.len();
    while i > 0 && class_contains(cls, s[i - 1])
        invariant
            i <= s.len(),
            forall|j: int| i <= j < s.len() ==> in_class(cls, #[trigger] s@[j]),
        decreases i,
    {
        i -= 1;
    }
    proof {
        lemma_trim_end_take(s@, cls, i as int);
        let r = s@.take(i as int);
        if r.len() > 0 {
            assert(r.last() == s@[i - 1]);
        }
    }
    i
}

pub fn trim_start_chars(s: &[char], cls: CharClass) -> (r: Vec<char>)
    ensures
        r@ == trim_start_class(s@, cls),
{
    let i = leading_in_class(s, cls);
    let r = slice_chars(s, i, s.len());
    proof {
        assert(s@.subrange(i as int, s@.len() as int) =~= s@.skip(i as int));
    }
    r
}

pub fn trim_end_chars(s: &[char], cls: CharClass) -> (r: Vec<char>)
    ensures
        r@ == trim_end_class(s@, cls),
{
    let i = trailing_in_class(s, cls);
    let r = slice_chars(s, 0, i);
    proof {
        assert(s@.subrange(0, i as int) =~= s@.take(i as int));
    }
    r
}

pub fn trim_chars(s: &[char], cls: CharClass) -> (r: Vec<char>)
    ensures
        r@ == trim_class(s@, cls),
{
    let a = trim_start_chars(s, cls);
    trim_end_chars(a.as_slice(), cls)
}

/// `str::trim` on a string slice.
pub fn trim_str(s: &str) -> (r: Vec<char>)
    ensures
        r@ == trim(s@),
{
    let v = to_chars(s);
    trim_chars(v.as_slice(), CharClass::Space)
}

// ---------------------------------------------------------------------------
// Splitting and joining
// ---------------------------------------------------------------------------

/// `str::split` with a character-class separator: the pieces between separators,
/// including empty pieces (there is always at least one piece).
pub open spec fn split_class(s: Seq<char>, cls: CharClass) -> Seq<Seq<char>>
    decreases s.len(),
{
    if s.len() == 0 {
        seq![Seq::<char>::empty()]
    } else {
        let p = split_class(s.drop_last(), cls);
        if in_class(cls, s.last()) {
            p.push(Seq::<char>::empty())
        } else {
            p.update(p.len() - 1, p.last().push(s.last()))
        }
    }
}

pub proof fn lemma_split_nonempty(s: Seq<char>, cls: CharClass)
    ensures
        split_class(s, cls).len() >= 1,
    decreases s.len(),
{
    if s.len() > 0 {
        lemma_split_nonempty(s.drop_last(), cls);
    }
}

/// Pieces without separator characters.
pub proof fn lemma_split_pieces_clean(s: Seq<char>, cls: CharClass)
    ensures
        forall|k: int, j: int|
            0 <= k < split_class(s, cls).len() && 0 <= j < split_class(s, cls)[k].len()
                ==> !in_class(cls, #[trigger] split_class(s, cls)[k][j]),
    decreases s.len(),
{
    if s.len() > 0 {
        lemma_split_pieces_clean(s.drop_last(), cls);
        lemma_split_nonempty(s.drop_last(), cls);
    }
}

pub open spec fn views_of(v: Seq<Vec<char>>) -> Seq<Seq<char>> {
    v.map_values(|x: Vec<char>| x@)
}

/// Splits a character sequence at every character of the class.
pub fn split_chars(s: &[char], cls: CharClass) -> (pieces: Vec<Vec<char>>)
    ensures
        views_of(pieces@) == split_class(s@, cls),
{
    let mut pieces: Vec<Vec<char>> = Vec::new();
    let mut cur: Vec<char> = Vec::new();
    let mut i: usize = 0;
    proof {
        assert(s@.take(0) =~= Seq::<char>::empty());
        assert(views_of(pieces@).push(cur@) =~= seq![Seq::<char>::empty()]);
    }
    while i < s.len()
        invariant
            i <= s.len(),
            views_of(pieces@).push(cur@) == split_class(s@.take(i as int), cls),
        decreases s.len() - i,
    {
        let c = s[i];
        proof {
            let t = s@.take(i + 1);
            assert(t.drop_last() =~= s@.take(i as int));
            assert(t.last() == c);
            lemma_split_nonempty(s@.take(i as int), cls);
        }
        if class_contains(cls, c) {
            let done = cur;
            let ghost before = pieces@;
            pieces.push(done);
            cur = Vec::new();
            proof {
                assert(views_of(pieces@) =~= views_of(before).push(done@)) by {
                    assert(pieces@ =~= before.push(done));
                };
            }
        } else {
            let ghost before = cur@;
            cur.push(c);
            proof {
                let p = split_class(s@.take(i as int), cls);
                assert(views_of(pieces@).push(cur@) =~= p.update(p.len() - 1, p.last().push(c)));
            }
        }
        i += 1;
    }
    let last = cur;
    let ghost before = pieces@;
    pieces.push(last);
    proof {
        assert(s@.take(s.len() as int) =~= s@);
        assert(views_of(pieces@) =~= views_of(before).push(last@)) by {
            assert(pieces@ =~= before.push(last));
        };
    }
    pieces
}

/// The predicate "is non-empty" on character sequences.
pub open spec fn nonempty_pred() -> spec_fn(Seq<char>) -> bool {
    |x: Seq<char>| x.len() > 0
}

/// Non-empty pieces of a split (`str::split_whitespace` for the space class).
pub open spec fn words_class(s: Seq<char>, cls: CharClass) -> Seq<Seq<char>> {
    split_class(s, cls).filter(nonempty_pred())
}

/// `str::split_whitespace`.
pub open spec fn words(s: Seq<char>) -> Seq<Seq<char>> {
    words_class(s, CharClass::Space)
}

/// Keeps the non-empty pieces.
pub fn non_empty_pieces(pieces: &Vec<Vec<char>>) -> (r: Vec<Vec<char>>)
    ensures
        views_of(r@) == views_of(pieces@).filter(nonempty_pred()),
{
    let mut r: Vec<Vec<char>> = Vec::new();
    let mut i: usize = 0;
    proof {
        reveal(Seq::filter);
        assert(views_of(pieces@).take(0) =~= Seq::<Seq<char>>::empty());
        assert(views_of(r@) =~= Seq::<Seq<char>>::empty());
    }
    while i < pieces.len()
        invariant
            i <= pieces.len(),
            views_of(r@) == views_of(pieces@).take(i as int).filter(nonempty_pred()),
        decreases pieces.len() - i,
    {
        let w = copy_chars(pieces[i].as_slice());
        proof {
            let vs = views_of(pieces@);
            assert(vs.take(i + 1) =~= vs.take(i as int).push(vs[i as int]));
            vs.take(i as int).lemma_filter_push(vs[i as int], nonempty_pred());
            assert(vs[i as int] == w@);
            assert(nonempty_pred()(vs[i as int]) == (vs[i as int].len() > 0));
            assert(w@.len() == w.len());
        }
        if w.len() > 0 {
            let ghost before = r@;
            r.push(w);
            proof {
                assert(views_of(r@) =~= views_of(before).push(w@));
            }
        }
        i += 1;
    }
    proof {
        assert(views_of(pieces@).take(pieces.len() as int) =~= views_of(pieces@));
    }
    r
}

/// Splits and keeps the non-empty pieces.
pub fn words_chars(s: &[char], cls: CharClass) -> (r: Vec<Vec<char>>)
    ensures
        views_of(r@) == words_class(s@, cls),
{
    let pieces = split_chars(s, cls);
    non_empty_pieces(&pieces)
}

/// Joins pieces with a separator (`[T]::join`).
pub open spec fn join(pieces: Seq<Seq<char>>, sep: Seq<char>) -> Seq<char>
    decreases pieces.len(),
{
    if pieces.len() == 0 {
        Seq::empty()
    } else if pieces.len() == 1 {
        pieces[0]
    } else {
        join(pieces.drop_last(), sep) + sep + pieces.last()
    }
}

pub fn join_chars(pieces: &Vec<Vec<char>>, sep: &[char]) -> (r: Vec<char>)
    ensures
        r@ == join(views_of(pieces@), sep@),
{
    let mut r: Vec<char> = Vec::new();
    let mut i: usize = 0;
    proof {
        assert(views_of(pieces@).take(0) =~= Seq::<Seq<char>>::empty());
    }
    while i < pieces.len()
        invariant
            i <= pieces.len(),
            r@ == join(views_of(pieces@).take(i as int), sep@),
        decreases pieces.len() - i,
    {
        let ghost vs = views_of(pieces@);
        proof {
            assert(vs.take(i + 1).drop_last() =~= vs.take(i as int));
            assert(vs.take(i + 1).last() == pieces@[i as int]@);
        }
        if i > 0 {
            extend_chars(&mut r, sep);
        }
        extend_chars(&mut r, pieces[i].as_slice());
        proof {
            if i == 0 {
                assert(vs.take(1) =~= seq![vs[0]]);
                assert(r@ =~= vs[0]);
            }
        }
        i += 1;
    }
    proof {
        assert(views_of(pieces@).take(pieces.len() as int) =~= views_of(pieces@));
    }
    r
}

/// Collapses runs of white space to single spaces and trims
/// (`s.split_whitespace().collect::<Vec<_>>().join(" ")`).
pub open spec fn squash_spaces(s: Seq<char>) -> Seq<char> {
    join(words(s), seq![' '])
}

pub fn squash_spaces_chars(s: &[char]) -> (r: Vec<char>)
    ensures
        r@ == squash_spaces(s@),
{
    let ws = words_chars(s, CharClass::Space);
    let sep: Vec<char> = vec![' '];
    proof {
        assert(sep@ =~= seq![' ']);
    }
    join_chars(&ws, sep.as_slice())
}

// ---------------------------------------------------------------------------
// Unicode case mapping (std)
// ---------------------------------------------------------------------------

/// The result of `str::to_lowercase` (Unicode `Lowercase` mapping).
pub uninterp spec fn unicode_lowercase(s: Seq<char>) -> Seq<char>;

/// The result of `str::to_uppercase` (Unicode `Uppercase` mapping).
pub uninterp spec fn unicode_uppercase(s: Seq<char>) -> Seq<char>;

/// The result of `char::is_alphanumeric` (Unicode `Alphabetic` or `Numeric`).
pub uninterp spec fn unicode_alphanumeric(c: char) -> bool;

/// Every character is ASCII.
pub open spec fn is_ascii_text(s: Seq<char>) -> bool {
    forall|i: int| 0 <= i < s.len() ==> (#[trigger] s[i] as u32) < 0x80
}

pub open spec fn ascii_upper(c: char) -> char {
    if is_ascii_lower(c) {
        ((c as u32) - 32) as char
    } else {
        c
    }
}

pub open spec fn ascii_upper_seq(s: Seq<char>) -> Seq<char> {
    s.map_values(|c: char| ascii_upper(c))
}

/// Calls `str::to_lowercase`; its result is named, not restated. On ASCII
/// text the Unicode mapping is the ASCII one: `A`–`Z` become `a`–`z`, and
/// every other character stays.
#[verifier::external_body]
pub(crate) fn to_lowercase(s: &str) -> (r: String)
    ensures
        r@ == unicode_lowercase(s@),
        is_ascii_text(s@) ==> r@ == ascii_lower_seq(s@),
{
    s.to_lowercase()
}

/// Calls `str::to_uppercase`; its result is named, not restated. On ASCII
/// text the Unicode mapping is the ASCII one: `a`–`z` become `A`–`Z`, and
/// every other character stays.
#[verifier::external_body]
pub(crate) fn to_uppercase(s: &str) -> (r: String)
    ensures
        r@ == unicode_uppercase(s@),
        is_ascii_text(s@) ==> r@ == ascii_upper_seq(s@),
{
    s.to_uppercase()
}

/// Calls `char::is_alphanumeric`; its result is named, not restated. Among
/// ASCII characters exactly the letters and digits are alphanumeric.
#[verifier::external_body]
pub(crate) fn char_is_alphanumeric(c: char) -> (r: bool)
    ensures
        r == unicode_alphanumeric(c),
        (c as u32) < 0x80 ==> (r <==> is_ascii_alnum(c)),
{
    c.is_alphanumeric()
}

pub fn lowercase_chars(s: &[char]) -> (r: Vec<char>)
    ensures
        r@ == unicode_lowercase(s@),
{
    let st = from_chars(s);
    let lo = to_lowercase(st.as_str());
    to_chars(lo.as_str())
}

pub fn uppercase_chars(s: &[char]) -> (r: Vec<char>)
    ensures
        r@ == unicode_uppercase(s@),
{
    let st = from_chars(s);
    let up = to_uppercase(st.as_str());
    to_chars(up.as_str())
}


// ---------------------------------------------------------------------------
// Searching
// ---------------------------------------------------------------------------

/// `i` is the index of the first occurrence of `c` in `s`.
pub open spec fn is_first_index(s: Seq<char>, c: char, i: int) -> bool {
    &&& 0 <= i < s.len()
    &&& s[i] == c
    &&& forall|j: int| 0 <= j < i ==> s[j] != c
}

pub open spec fn first_index(s: Seq<char>, c: char) -> int {
    choose|i: int| is_first_index(s, c, i)
}

pub proof fn lemma_first_index_unique(s: Seq<char>, c: char, i: int)
    requires
        is_first_index(s, c, i),
    ensures
        first_index(s, c) == i,
{
    let k = first_index(s, c);
    assert(is_first_index(s, c, k));
    if k < i {
        assert(s[k] != c);
    } else if i < k {
        assert(s[i] != c);
    }
}

/// `str::split_once` at the first occurrence of a character.
pub open spec fn split_once_spec(s: Seq<char>, c: char) -> Option<(Seq<char>, Seq<char>)> {
    if contains_char(s, c) {
        let i = first_index(s, c);
        Some((s.take(i), s.skip(i + 1)))
    } else {
        None
    }
}

/// The first three pieces of `str::splitn(3, c)` when there are three.
pub open spec fn split3_spec(s: Seq<char>, c: char) -> Option<(Seq<char>, Seq<char>, Seq<char>)> {
    match split_once_spec(s, c) {
        Some((a, r)) => match split_once_spec(r, c) {
            Some((b, rest)) => Some((a, b, rest)),
            None => None,
        },
        None => None,
    }
}

pub fn find_char(s: &[char], c: char) -> (r: Option<usize>)
    ensures
        match r {
            Some(i) => is_first_index(s@, c, i as int) && first_index(s@, c) == i,
            None => !contains_char(s@, c),
        },
{
    let mut i: usize = 0;
    while i < s.len()
        invariant
            i <= s.len(),
            forall|j: int| 0 <= j < i ==> s@[j] != c,
        decreases s.len() - i,
    {
        if s[i] == c {
            proof {
                lemma_first_index_unique(s@, c, i as int);
            }
            return Some(i);
        }
        i += 1;
    }
    None
}

pub fn split_once_chars(s: &[char], c: char) -> (r: Option<(Vec<char>, Vec<char>)>)
    ensures
        match r {
            Some((a, b)) => split_once_spec(s@, c) == Some((a@, b@)),
            None => split_once_spec(s@, c) is None,
        },
{
    match find_char(s, c) {
        Some(i) => {
            assert(i < s@.len());
            assert(i < s.len());
            let a = slice_chars(s, 0, i);
            let b = slice_chars(s, i + 1, s.len());
            proof {
                assert(a@ =~= s@.take(i as int));
                assert(b@ =~= s@.skip(i + 1));
            }
            Some((a, b))
        },
        None => None,
    }
}

pub fn split3_chars(s: &[char], c: char) -> (r: Option<(Vec<char>, Vec<char>, Vec<char>)>)
    ensures
        match r {
            Some((a, b, rest)) => split3_spec(s@, c) == Some((a@, b@, rest@)),
            None => split3_spec(s@, c) is None,
        },
{
    match split_once_chars(s, c) {
        Some((a, r1)) => match split_once_chars(r1.as_slice(), c) {
            Some((b, rest)) => Some((a, b, rest)),
            None => None,
        },
        None => None,
    }
}

/// Splitting `a ++ [c] ++ b` at the first `c` recovers `a` and `b` when `a` has no `c`.
pub proof fn lemma_split_once_concat(a: Seq<char>, c: char, b: Seq<char>)
    requires
        forall|i: int| 0 <= i < a.len() ==> #[trigger] a[i] != c,
    ensures
        split_once_spec(a + seq![c] + b, c) == Some((a, b)),
{
    let s = a + seq![c] + b;
    assert(s[a.len() as int] == c);
    assert forall|j: int| 0 <= j < a.len() implies s[j] != c by {
        assert(s[j] == a[j]);
    }
    assert(is_first_index(s, c, a.len() as int));
    lemma_first_index_unique(s, c, a.len() as int);
    assert(s.take(a.len() as int) =~= a);
    assert(s.skip(a.len() as int + 1) =~= b);
}


// ---------------------------------------------------------------------------
// Lines
// ---------------------------------------------------------------------------

/// One trailing carriage return removed.
pub open spec fn strip_cr(s: Seq<char>) -> Seq<char> {
    if s.len() > 0 && s.last() == '\r' {
        s.drop_last()
    } else {
        s
    }
}

/// `str::lines`: pieces between line feeds, a `\r` before each line feed
/// removed, and no final empty piece.
pub open spec fn lines_spec(s: Seq<char>) -> Seq<Seq<char>> {
    let p = split_class(s, CharClass::Exact('\n'));
    let body = p.drop_last().map_values(|x: Seq<char>| strip_cr(x));
    if p.last().len() == 0 {
        body
    } else {
        body.push(p.last())
    }
}

pub fn lines_chars(s: &[char]) -> (r: Vec<Vec<char>>)
    ensures
        views_of(r@) == lines_spec(s@),
{
    let pieces = split_chars(s, CharClass::Exact('\n'));
    proof {
        lemma_split_nonempty(s@, CharClass::Exact('\n'));
    }
    let n = pieces.len();
    let mut r: Vec<Vec<char>> = Vec::new();
    let mut i: usize = 0;
    while i + 1 < n
        invariant
            n == pieces.len(),
            n >= 1,
            i + 1 <= n,
            views_of(pieces@) == split_class(s@, CharClass::Exact('\n')),
            views_of(r@) == views_of(pieces@).drop_last().take(i as int).map_values(
                |x: Seq<char>| strip_cr(x),
            ),
        decreases n - i,
    {
        let p = &pieces[i];
        let line = if p.len() > 0 && p[p.len() - 1] == '\r' {
            slice_chars(p.as_slice(), 0, p.len() - 1)
        } else {
            copy_chars(p.as_slice())
        };
        proof {
            let ps = views_of(pieces@);
            assert(ps[i as int] == p@);
            if p@.len() > 0 && p@.last() == '\r' {
                assert(line@ =~= p@.drop_last());
            }
            assert(line@ == strip_cr(ps[i as int]));
        }
        let ghost before = r@;
        r.push(line);
        proof {
            let ps = views_of(pieces@);
            assert(views_of(r@) =~= views_of(before).push(line@));
            assert(ps.drop_last().take(i + 1) =~= ps.drop_last().take(i as int).push(ps[i as int]));
            assert(ps.drop_last().take(i + 1).map_values(|x: Seq<char>| strip_cr(x))
                =~= ps.drop_last().take(i as int).map_values(|x: Seq<char>| strip_cr(x)).push(
                strip_cr(ps[i as int]),
            ));
        }
        i += 1;
    }
    proof {
        let ps = views_of(pieces@);
        assert(ps.drop_last().take(i as int) =~= ps.drop_last());
    }
    let last = &pieces[n - 1];
    if last.len() > 0 {
        let l = copy_chars(last.as_slice());
        let ghost before = r@;
        r.push(l);
        proof {
            assert(views_of(r@) =~= views_of(before).push(l@));
        }
    }
    r
}

} // verus!
