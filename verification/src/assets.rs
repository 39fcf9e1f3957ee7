//! Static asset paths and HTTP entity tags.
use vstd::prelude::*;
use crate::crypto::{hex_encode, hex_lower, sha256_digest, sha256_spec};
use crate::text::{
    CharClass, chars_eq, contains_char, extend_chars, extend_str, from_chars, has_char, join,
    join_chars, split_chars, split_class, starts_with_chars, to_chars, trim, trim_chars,
    trim_class, views_of, trim_start_class, trim_start_chars,
};

verus! {

pub open spec fn is_bad_segment(seg: Seq<char>) -> bool {
    seg.len() == 0 || seg == seq!['.'] || seg == seq!['.', '.']
}

/// A request path for a static file, without surrounding `/`: refused when
/// empty, when it holds `\`, or when a segment is empty, `.` or `..`;
/// otherwise the segments joined by `/`.
pub open spec fn normalize_static_path_spec(path: Seq<char>) -> Option<Seq<char>> {
    let trimmed = trim_class(path, CharClass::Exact('/'));
    if trimmed.len() == 0 || contains_char(trimmed, '\\') {
        None
    } else if exists|i: int|
        0 <= i < split_class(trimmed, CharClass::Exact('/')).len() && is_bad_segment(
            #[trigger] split_class(trimmed, CharClass::Exact('/'))[i],
        ) {
        None
    } else {
        Some(join(split_class(trimmed, CharClass::Exact('/')), seq!['/']))
    }
}

fn is_bad_segment_exec(seg: &[char]) -> (b: bool)
    ensures
        b == is_bad_segment(seg@),
{
    if seg.len() == 0 {
        return true;
    }
    if seg.len() == 1 && seg[0] == '.' {
        proof {
            assert(seg@ =~= seq!['.']);
        }
        return true;
    }
    if seg.len() == 2 && seg[0] == '.' && seg[1] == '.' {
        proof {
            assert(seg@ =~= seq!['.', '.']);
        }
        return true;
    }
    proof {
        if seg@ == seq!['.'] {
            assert(seg@[0] == '.');
        }
        if seg@ == seq!['.', '.'] {
            assert(seg@[0] == '.' && seg@[1] == '.');
        }
    }
    false
}

pub fn normalize_static_path(path: &str) -> (r: Option<String>)
    ensures
        match r {
            Some(s) => normalize_static_path_spec(path@) == Some(s@),
            None => normalize_static_path_spec(path@) is None,
        },
{
    let v = to_chars(path);
    let trimmed = trim_chars(v.as_slice(), CharClass::Exact('/'));
    if trimmed.len() == 0 || has_char(trimmed.as_slice(), '\\') {
        return None;
    }
    let segments = split_chars(trimmed.as_slice(), CharClass::Exact('/'));
    let mut i: usize = 0;
    while i < segments.len()
        invariant
            i <= segments.len(),
            views_of(segments@) == split_class(trimmed@, CharClass::Exact('/')),
            trimmed@ == trim_class(path@, CharClass::Exact('/')),
            forall|j: int| 0 <= j < i ==> !is_bad_segment(#[trigger] views_of(segments@)[j]),
        decreases segments.len() - i,
    {
        if is_bad_segment_exec(segments[i].as_slice()) {
            proof {
                assert(is_bad_segment(views_of(segments@)[i as int]));
                assert(is_bad_segment(split_class(trimmed@, CharClass::Exact('/'))[i as int]));
            }
            return None;
        }
        i += 1;
    }
    let sep: Vec<char> = vec!['/'];
    proof {
        assert(sep@ =~= seq!['/']);
    }
    let joined = join_chars(&segments, sep.as_slice());
    Some(from_chars(joined.as_slice()))
}

/// `"{hex SHA-256}"`: a strong entity tag for the bytes.
pub open spec fn etag_spec(bytes: Seq<u8>) -> Seq<char> {
    seq!['"'] + hex_lower(sha256_spec(bytes)) + seq!['"']
}

/// The entity tag of an asset: its SHA-256 in lower-case hex, in double quotes.
pub fn build_etag(bytes: &[u8]) -> (r: String)
    ensures
        r@ == etag_spec(bytes@),
{
    let digest = sha256_digest(bytes);
    let hex = hex_encode(digest.as_slice());
    let mut out: Vec<char> = vec!['"'];
    let ghost first = out@;
    extend_str(&mut out, hex.as_str());
    out.push('"');
    proof {
        assert(first =~= seq!['"']);
        assert(out@ =~= etag_spec(bytes@));
    }
    from_chars(out.as_slice())
}

/// An entity tag without a leading `W/`, trimmed.
pub open spec fn strip_weak_spec(v: Seq<char>) -> Seq<char> {
    if v.len() >= 2 && v[0] == 'W' && v[1] == '/' {
        trim(v.skip(2))
    } else {
        trim(v)
    }
}

pub fn strip_weak_etag(value: &[char]) -> (r: Vec<char>)
    ensures
        r@ == strip_weak_spec(value@),
{
    if value.len() >= 2 && value[0] == 'W' && value[1] == '/' {
        let rest = crate::text::slice_chars(value, 2, value.len());
        proof {
            assert(rest@ =~= value@.skip(2));
        }
        trim_chars(rest.as_slice(), CharClass::Space)
    } else {
        trim_chars(value, CharClass::Space)
    }
}

/// A candidate of an `If-None-Match` list matches when it is `*` or names the
/// same entity tag, weak or strong.
pub open spec fn candidate_matches(candidate: Seq<char>, etag: Seq<char>) -> bool {
    let c = trim(candidate);
    c == seq!['*'] || strip_weak_spec(c) == strip_weak_spec(etag)
}

/// Whether an `If-None-Match` header value (if present) matches the entity tag.
pub open spec fn matches_if_none_match_spec(header: Option<Seq<char>>, etag: Seq<char>) -> bool {
    match header {
        Some(h) => exists|i: int|
            0 <= i < split_class(h, CharClass::Exact(',')).len() && candidate_matches(
                #[trigger] split_class(h, CharClass::Exact(','))[i],
                etag,
            ),
        None => false,
    }
}

#[verifier::loop_isolation(false)]
pub fn matches_if_none_match(if_none_match: Option<&str>, etag: &str) -> (r: bool)
    ensures
        r == matches_if_none_match_spec(
            match if_none_match {
                Some(h) => Some(h@),
                None => None,
            },
            etag@,
        ),
{
    let header = match if_none_match {
        Some(h) => h,
        None => return false,
    };
    let etag_chars = to_chars(etag);
    let expected = strip_weak_etag(etag_chars.as_slice());
    let hv = to_chars(header);
    let candidates = split_chars(hv.as_slice(), CharClass::Exact(','));
    let mut i: usize = 0;
    while i < candidates.len()
        invariant
            i <= candidates.len(),
            views_of(candidates@) == split_class(hv@, CharClass::Exact(',')),
            hv@ == header@,
            expected@ == strip_weak_spec(etag@),
            forall|j: int| 0 <= j < i ==> !candidate_matches(#[trigger] views_of(candidates@)[j], etag@),
        decreases candidates.len() - i,
    {
        let c = trim_chars(candidates[i].as_slice(), CharClass::Space);
        let star = c.len() == 1 && c[0] == '*';
        proof {
            if c@ == seq!['*'] {
                assert(c@[0] == '*');
            }
            if star {
                assert(c@ =~= seq!['*']);
            }
        }
        let stripped = strip_weak_etag(c.as_slice());
        if star || chars_eq(stripped.as_slice(), expected.as_slice()) {
            proof {
                assert(candidate_matches(views_of(candidates@)[i as int], etag@));
                assert(candidate_matches(split_class(header@, CharClass::Exact(','))[i as int], etag@));
            }
            return true;
        }
        i += 1;
    }
    false
}

} // verus!
