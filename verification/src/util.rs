//! Username helpers.
use vstd::prelude::*;
use crate::text::{
    CharClass, char_is_ascii_alnum, from_chars, is_ascii_alnum, join, join_chars, lowercase_chars,
    to_chars, unicode_lowercase, words_chars, words_class,
};

verus! {

/// Every character that is not an ASCII letter or digit becomes `_`.
pub open spec fn underscore_non_alnum(s: Seq<char>) -> Seq<char> {
    s.map_values(|c: char|
        if is_ascii_alnum(c) {
            c
        } else {
            '_'
        })
}

/// Lower-case the name, replace non-alphanumerics by `_`, collapse runs of `_`
/// and trim them; an empty result becomes "user".
pub open spec fn slugify_spec(name: Seq<char>) -> Seq<char> {
    let slug = join(
        words_class(underscore_non_alnum(unicode_lowercase(name)), CharClass::Exact('_')),
        seq!['_'],
    );
    if slug.len() == 0 {
        seq!['u', 's', 'e', 'r']
    } else {
        slug
    }
}

fn underscore_non_alnum_chars(s: &[char]) -> (r: Vec<char>)
    ensures
        r@ == underscore_non_alnum(s@),
{
    let mut r: Vec<char> = Vec::new();
    let mut i: usize = 0;
    while i < s.len()
        invariant
            i <= s.len(),
            r@ == underscore_non_alnum(s@.take(i as int)),
        decreases s.len() - i,
    {
        let c = s[i];
        let d = if char_is_ascii_alnum(c) {
            c
        } else {
            '_'
        };
        r.push(d);
        proof {
            assert(underscore_non_alnum(s@.take(i + 1)) =~= underscore_non_alnum(
                s@.take(i as int),
            ).push(d));
        }
        i += 1;
    }
    proof {
        assert(s@.take(s.len() as int) =~= s@);
    }
    r
}

/// Slugify a display name to a valid username.
/// "John Smith" -> "john_smith"; an empty slug becomes "user".
pub fn slugify_username(name: &str) -> (r: String)
    ensures
        r@ == slugify_spec(name@),
{
    let v = to_chars(name);
    let lower = lowercase_chars(v.as_slice());
    let mapped = underscore_non_alnum_chars(lower.as_slice());
    let pieces = words_chars(mapped.as_slice(), CharClass::Exact('_'));
    let sep: Vec<char> = vec!['_'];
    proof {
        assert(sep@ =~= seq!['_']);
    }
    let slug = join_chars(&pieces, sep.as_slice());
    if slug.len() == 0 {
        let user: Vec<char> = vec!['u', 's', 'e', 'r'];
        proof {
            assert(user@ =~= seq!['u', 's', 'e', 'r']);
        }
        from_chars(user.as_slice())
    } else {
        from_chars(slug.as_slice())
    }
}

} // verus!
