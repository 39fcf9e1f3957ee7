//! Slash-separated relative paths: file names and stems, as `std::path::Path`
//! reads them.
use vstd::prelude::*;
use crate::text::{CharClass, copy_chars, join, slice_chars, split_chars, split_class, to_chars, views_of};

verus! {

/// A component that names something: not empty and not `.`.
pub open spec fn is_named_component(c: Seq<char>) -> bool {
    c.len() > 0 && c != seq!['.']
}

/// The last named component among `pieces`.
pub open spec fn last_component(pieces: Seq<Seq<char>>) -> Option<Seq<char>>
    decreases pieces.len(),
{
    if pieces.len() == 0 {
        None
    } else if is_named_component(pieces.last()) {
        Some(pieces.last())
    } else {
        last_component(pieces.drop_last())
    }
}

/// `Path::file_name`: the last component, unless it is `..` or there is none.
pub open spec fn file_name_spec(path: Seq<char>) -> Option<Seq<char>> {
    match last_component(split_class(path, CharClass::Exact('/'))) {
        Some(c) => if c == seq!['.', '.'] {
            None
        } else {
            Some(c)
        },
        None => None,
    }
}

/// The index of the last `.` of `name`, or -1.
pub open spec fn last_dot(name: Seq<char>) -> int
    decreases name.len(),
{
    if name.len() == 0 {
        -1
    } else if name.last() == '.' {
        name.len() - 1
    } else {
        last_dot(name.drop_last())
    }
}

/// `OsStr` stem of a file name: the part before the last `.`, or the whole
/// name when it has no `.` or only a leading one.
pub open spec fn stem_of_name(name: Seq<char>) -> Seq<char> {
    if last_dot(name) <= 0 {
        name
    } else {
        name.take(last_dot(name))
    }
}

/// `Path::file_stem(..).unwrap_or_default()`.
pub open spec fn file_stem_spec(path: Seq<char>) -> Seq<char> {
    match file_name_spec(path) {
        Some(n) => stem_of_name(n),
        None => Seq::empty(),
    }
}

proof fn lemma_last_dot_bounds(name: Seq<char>)
    ensures
        -1 <= last_dot(name) < name.len(),
        last_dot(name) >= 0 ==> name[last_dot(name)] == '.',
    decreases name.len(),
{
    if name.len() > 0 && name.last() != '.' {
        lemma_last_dot_bounds(name.drop_last());
    }
}

pub(crate) fn is_named_component_exec(c: &Vec<char>) -> (b: bool)
    ensures
        b == is_named_component(c@),
{
    if c.len() == 0 {
        return false;
    }
    if c.len() == 1 && c[0] == '.' {
        proof {
            assert(c@ =~= seq!['.']);
        }
        return false;
    }
    proof {
        if c@ == seq!['.'] {
            assert(c@[0] == '.');
        }
    }
    true
}

/// `Path::file_name` of a slash-separated path.
pub fn file_name(path: &[char]) -> (r: Option<Vec<char>>)
    ensures
        match r {
            Some(v) => file_name_spec(path@) == Some(v@),
            None => file_name_spec(path@) is None,
        },
{
    let pieces = split_chars(path, CharClass::Exact('/'));
    let ghost all = views_of(pieces@);
    let mut n: usize = pieces.len();
    proof {
        assert(all.take(n as int) =~= all);
    }
    while n > 0
        invariant
            n <= pieces.len(),
            all == views_of(pieces@),
            all == split_class(path@, CharClass::Exact('/')),
            last_component(all) == last_component(all.take(n as int)),
        decreases n,
    {
        proof {
            assert(all.take(n as int).drop_last() =~= all.take(n - 1));
            assert(all.take(n as int).last() == pieces@[n - 1]@);
        }
        if is_named_component_exec(&pieces[n - 1]) {
            let c = copy_chars(pieces[n - 1].as_slice());
            proof {
                assert(last_component(all.take(n as int)) == Some(c@));
            }
            if c.len() == 2 && c[0] == '.' && c[1] == '.' {
                proof {
                    assert(c@ =~= seq!['.', '.']);
                }
                return None;
            }
            proof {
                if c@ == seq!['.', '.'] {
                    assert(c@[0] == '.' && c@[1] == '.');
                }
            }
            return Some(c);
        }
        n -= 1;
    }
    proof {
        assert(all.take(0) =~= Seq::<Seq<char>>::empty());
    }
    None
}

/// The index of the last `.` of `name`, if any.
fn find_last_dot(name: &[char]) -> (r: Option<usize>)
    ensures
        match r {
            Some(i) => last_dot(name@) == i as int,
            None => last_dot(name@) == -1,
        },
{
    let mut n: usize = name.len();
    proof {
        assert(name@.take(n as int) =~= name@);
    }
    while n > 0
        invariant
            n <= name.len(),
            last_dot(name@) == last_dot(name@.take(n as int)),
        decreases n,
    {
        proof {
            assert(name@.take(n as int).drop_last() =~= name@.take(n - 1));
        }
        if name[n - 1] == '.' {
            proof {
                assert(name@.take(n as int).last() == '.');
            }
            return Some(n - 1);
        }
        n -= 1;
    }
    proof {
        assert(name@.take(0) =~= Seq::<char>::empty());
    }
    None
}

/// The stem of a file name.
pub fn name_stem(name: &[char]) -> (r: Vec<char>)
    ensures
        r@ == stem_of_name(name@),
{
    proof {
        lemma_last_dot_bounds(name@);
    }
    match find_last_dot(name) {
        Some(i) => {
            if i == 0 {
                copy_chars(name)
            } else {
                let r = slice_chars(name, 0, i);
                proof {
                    assert(r@ =~= name@.take(i as int));
                }
                r
            }
        },
        None => copy_chars(name),
    }
}

/// `Path::file_stem(..).unwrap_or_default()` of a slash-separated path.
pub fn file_stem(path: &[char]) -> (r: Vec<char>)
    ensures
        r@ == file_stem_spec(path@),
{
    match file_name(path) {
        Some(n) => name_stem(n.as_slice()),
        None => Vec::new(),
    }
}

// ---------------------------------------------------------------------------
// Paths as a walk of the library gives them: names joined by single `/`
// ---------------------------------------------------------------------------

/// The index of the last `/` of `p`, or -1.
pub open spec fn last_slash(p: Seq<char>) -> int
    decreases p.len(),
{
    if p.len() == 0 {
        -1
    } else if p.last() == '/' {
        p.len() - 1
    } else {
        last_slash(p.drop_last())
    }
}

/// The directory part: everything before the last `/`, or nothing.
pub open spec fn parent_of(p: Seq<char>) -> Seq<char> {
    if last_slash(p) < 0 {
        Seq::empty()
    } else {
        p.take(last_slash(p))
    }
}

/// The name part: everything after the last `/`.
pub open spec fn name_of(p: Seq<char>) -> Seq<char> {
    p.skip(last_slash(p) + 1)
}

/// `Path::extension` of a file name: the part after the last `.`, unless the
/// name has no `.` or only a leading one.
pub open spec fn extension_of_name(name: Seq<char>) -> Option<Seq<char>> {
    if last_dot(name) <= 0 {
        None
    } else {
        Some(name.skip(last_dot(name) + 1))
    }
}

proof fn lemma_last_slash_bounds(p: Seq<char>)
    ensures
        -1 <= last_slash(p) < p.len(),
    decreases p.len(),
{
    if p.len() > 0 && p.last() != '/' {
        lemma_last_slash_bounds(p.drop_last());
    }
}

fn find_last_slash(p: &[char]) -> (r: Option<usize>)
    ensures
        match r {
            Some(i) => last_slash(p@) == i as int,
            None => last_slash(p@) == -1,
        },
{
    let mut n: usize = p.len();
    proof {
        assert(p@.take(n as int) =~= p@);
    }
    while n > 0
        invariant
            n <= p.len(),
            last_slash(p@) == last_slash(p@.take(n as int)),
        decreases n,
    {
        proof {
            assert(p@.take(n as int).drop_last() =~= p@.take(n - 1));
        }
        if p[n - 1] == '/' {
            proof {
                assert(p@.take(n as int).last() == '/');
            }
            return Some(n - 1);
        }
        n -= 1;
    }
    proof {
        assert(p@.take(0) =~= Seq::<char>::empty());
    }
    None
}

/// The directory part and the name part of a path.
pub fn split_parent(p: &[char]) -> (r: (Vec<char>, Vec<char>))
    ensures
        r.0@ == parent_of(p@),
        r.1@ == name_of(p@),
{
    proof {
        lemma_last_slash_bounds(p@);
    }
    match find_last_slash(p) {
        Some(i) => {
            assert(i < p.len());
            let dir = slice_chars(p, 0, i);
            let name = slice_chars(p, i + 1, p.len());
            proof {
                assert(dir@ =~= p@.take(i as int));
                assert(name@ =~= p@.skip(i + 1));
            }
            (dir, name)
        },
        None => {
            let name = copy_chars(p);
            proof {
                assert(name@ =~= p@.skip(0));
            }
            (Vec::new(), name)
        },
    }
}

/// `Path::extension` of a file name.
pub fn name_extension(name: &[char]) -> (r: Option<Vec<char>>)
    ensures
        match r {
            Some(e) => extension_of_name(name@) == Some(e@),
            None => extension_of_name(name@) is None,
        },
{
    proof {
        lemma_last_dot_bounds(name@);
    }
    match find_last_dot(name) {
        Some(i) => if i == 0 {
            None
        } else {
            assert(i < name.len());
            let e = slice_chars(name, i + 1, name.len());
            proof {
                assert(e@ =~= name@.skip(i + 1));
            }
            Some(e)
        },
        None => None,
    }
}

/// Whether a relative path names the same path as `name`, as `Path`
/// comparison sees it: its first component is `name` (so there is no root and
/// no leading `.`), and every later component is empty or `.`; so `covers`,
/// `covers/` and `covers/.` all name `covers`.
pub open spec fn same_path_as_name(p: Seq<char>, name: Seq<char>) -> bool {
    let pieces = split_class(p, CharClass::Exact('/'));
    &&& pieces[0] == name
    &&& forall|k: int| 1 <= k < pieces.len() ==> !is_named_component(#[trigger] pieces[k])
}

/// Whether the path names the single component `name`.
pub fn path_is_name(p: &str, name: &str) -> (r: bool)
    ensures
        r == same_path_as_name(p@, name@),
{
    let chars = to_chars(p);
    let pieces = split_chars(chars.as_slice(), CharClass::Exact('/'));
    let ghost pv = views_of(pieces@);
    proof {
        crate::text::lemma_split_nonempty(p@, CharClass::Exact('/'));
    }
    if !crate::text::chars_eq_str(pieces[0].as_slice(), name) {
        return false;
    }
    let mut k: usize = 1;
    while k < pieces.len()
        invariant
            1 <= k <= pieces.len(),
            pv == views_of(pieces@),
            pv == split_class(p@, CharClass::Exact('/')),
            forall|j: int| 1 <= j < k ==> !is_named_component(#[trigger] pv[j]),
        decreases pieces.len() - k,
    {
        if is_named_component_exec(&pieces[k]) {
            proof {
                assert(is_named_component(pv[k as int]));
            }
            return false;
        }
        k += 1;
    }
    true
}

/// The pieces of a path that name something, in order.
pub open spec fn named_only(pieces: Seq<Seq<char>>) -> Seq<Seq<char>>
    decreases pieces.len(),
{
    if pieces.len() == 0 {
        Seq::empty()
    } else if is_named_component(pieces.last()) {
        named_only(pieces.drop_last()).push(pieces.last())
    } else {
        named_only(pieces.drop_last())
    }
}

/// The components of a slash-separated path as `Path::components` gives
/// them: a root `/` or a leading `.` first, then the pieces that name
/// something (empty pieces and inner `.` dropped).
pub open spec fn path_components(p: Seq<char>) -> Seq<Seq<char>> {
    let pieces = split_class(p, CharClass::Exact('/'));
    let lead = if p.len() > 0 && p[0] == '/' {
        seq![seq!['/']]
    } else if pieces[0] == seq!['.'] {
        seq![seq!['.']]
    } else {
        Seq::empty()
    };
    lead + named_only(pieces)
}

/// The path relative to `root` (`Path::strip_prefix` compares components):
/// the components after those of `root`, joined by `/`; the path itself
/// when it does not lie under `root`.
pub open spec fn rel_path_spec(root: Seq<char>, path: Seq<char>) -> Seq<char> {
    let rc = path_components(root);
    let pc = path_components(path);
    if rc.len() <= pc.len() && pc.take(rc.len() as int) == rc {
        join(pc.skip(rc.len() as int), seq!['/'])
    } else {
        path
    }
}

fn components(p: &str) -> (r: Vec<Vec<char>>)
    ensures
        views_of(r@) == path_components(p@),
{
    let chars = to_chars(p);
    let pieces = split_chars(chars.as_slice(), CharClass::Exact('/'));
    let ghost pv = views_of(pieces@);
    proof {
        crate::text::lemma_split_nonempty(p@, CharClass::Exact('/'));
    }
    let mut r: Vec<Vec<char>> = Vec::new();
    if chars.len() > 0 && chars[0] == '/' {
        let slash: Vec<char> = vec!['/'];
        r.push(slash);
        proof {
            assert(slash@ =~= seq!['/']);
            assert(views_of(r@) =~= seq![seq!['/']]);
        }
    } else if pieces[0].len() == 1 && pieces[0][0] == '.' {
        let dot: Vec<char> = vec!['.'];
        r.push(dot);
        proof {
            assert(pieces[0]@ =~= seq!['.']);
            assert(dot@ =~= seq!['.']);
            assert(views_of(r@) =~= seq![seq!['.']]);
        }
    } else {
        proof {
            if pv[0] == seq!['.'] {
                assert(pieces[0]@[0] == '.');
            }
            assert(views_of(r@) =~= Seq::<Seq<char>>::empty());
        }
    }
    let ghost lead = views_of(r@);
    proof {
        assert(lead == (if p@.len() > 0 && p@[0] == '/' {
            seq![seq!['/']]
        } else if pv[0] == seq!['.'] {
            seq![seq!['.']]
        } else {
            Seq::<Seq<char>>::empty()
        }));
        assert(pv.take(0) =~= Seq::<Seq<char>>::empty());
    }
    let mut i: usize = 0;
    while i < pieces.len()
        invariant
            i <= pieces.len(),
            pv == views_of(pieces@),
            views_of(r@) == lead + named_only(pv.take(i as int)),
        decreases pieces.len() - i,
    {
        let ghost before = views_of(r@);
        proof {
            assert(pv.take(i + 1).drop_last() =~= pv.take(i as int));
            assert(pv.take(i + 1).last() == pv[i as int]);
        }
        if is_named_component_exec(&pieces[i]) {
            r.push(copy_chars(pieces[i].as_slice()));
            proof {
                assert(views_of(r@) =~= before.push(pv[i as int]));
            }
        }
        i += 1;
    }
    proof {
        assert(pv.take(pieces.len() as int) =~= pv);
    }
    r
}

/// The path relative to `root`, as `Path::strip_prefix` gives it (see
/// `rel_path_spec`), or the path itself when it is not under `root`.
pub fn rel_path(root: &str, path: &str) -> (r: String)
    ensures
        r@ == rel_path_spec(root@, path@),
{
    let rc = components(root);
    let pc = components(path);
    let ghost rv = views_of(rc@);
    let ghost pv = views_of(pc@);
    if rc.len() > pc.len() {
        return path.to_owned();
    }
    let mut i: usize = 0;
    while i < rc.len()
        invariant
            i <= rc.len() <= pc.len(),
            rv == views_of(rc@),
            pv == views_of(pc@),
            rv == path_components(root@),
            pv == path_components(path@),
            forall|j: int| 0 <= j < i ==> pv[j] == rv[j],
        decreases rc.len() - i,
    {
        if !crate::text::chars_eq(rc[i].as_slice(), pc[i].as_slice()) {
            proof {
                assert(pv[i as int] == pc@[i as int]@);
                assert(rv[i as int] == rc@[i as int]@);
                assert(pv.take(rv.len() as int)[i as int] != rv[i as int]);
                assert(pv.take(rv.len() as int) != rv);
            }
            return path.to_owned();
        }
        i += 1;
    }
    proof {
        assert(pv.take(rv.len() as int) =~= rv);
    }
    let mut rest: Vec<Vec<char>> = Vec::new();
    let mut k: usize = rc.len();
    while k < pc.len()
        invariant
            rc.len() <= k <= pc.len(),
            pv == views_of(pc@),
            views_of(rest@) == pv.subrange(rc.len() as int, k as int),
        decreases pc.len() - k,
    {
        let ghost before = views_of(rest@);
        let c = copy_chars(pc[k].as_slice());
        rest.push(c);
        proof {
            assert(pv[k as int] == pc@[k as int]@);
            assert(views_of(rest@) =~= before.push(pv[k as int]));
            assert(views_of(rest@) =~= pv.subrange(rc.len() as int, k + 1));
        }
        k += 1;
    }
    proof {
        assert(pv.subrange(rc.len() as int, pc.len() as int) =~= pv.skip(rv.len() as int));
    }
    let sep: Vec<char> = vec!['/'];
    proof {
        assert(sep@ =~= seq!['/']);
    }
    let j = crate::text::join_chars(&rest, sep.as_slice());
    crate::text::from_chars(j.as_slice())
}

} // verus!
