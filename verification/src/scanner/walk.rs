//! Which of the files found in the library are scanned, and as what: INPX
//! indexes first, then ZIP archives and book files, leaving out the files of
//! directories that hold an index.
use vstd::prelude::*;
use crate::parsers::string_views;
use crate::paths::{extension_of_name, name_extension, name_of, parent_of, split_parent};
use crate::text::{
    ascii_lower_seq, char_ascii_lower, chars_eq, chars_eq_str, from_chars, lowercase_chars,
    to_chars, unicode_lowercase, views_of,
};

verus! {

/// A file to scan; `file` is its position among the files found.
pub enum ScanEntry {
    /// A book file, in directory `rel_path`.
    File { file: usize, rel_path: String, filename: String, extension: String },
    /// A ZIP archive, in directory `rel_path`.
    Zip { file: usize, rel_path: String },
    /// An INPX index at `rel_path`.
    Inpx { file: usize, rel_path: String },
}

pub enum ScanEntryView {
    File { file: usize, rel_path: Seq<char>, filename: Seq<char>, extension: Seq<char> },
    Zip { file: usize, rel_path: Seq<char> },
    Inpx { file: usize, rel_path: Seq<char> },
}

impl View for ScanEntry {
    type V = ScanEntryView;

    open spec fn view(&self) -> ScanEntryView {
        match *self {
            ScanEntry::File { file, rel_path, filename, extension } => ScanEntryView::File {
                file,
                rel_path: rel_path@,
                filename: filename@,
                extension: extension@,
            },
            ScanEntry::Zip { file, rel_path } => ScanEntryView::Zip { file, rel_path: rel_path@ },
            ScanEntry::Inpx { file, rel_path } => ScanEntryView::Inpx { file, rel_path: rel_path@ },
        }
    }
}

pub open spec fn entries_view(v: Seq<ScanEntry>) -> Seq<ScanEntryView> {
    v.map_values(|e: ScanEntry| e@)
}

/// An INPX index: its extension is `inpx` in any ASCII case.
pub open spec fn is_index(p: Seq<char>) -> bool {
    extension_of_name(name_of(p)) matches Some(e) && ascii_lower_seq(e) == "inpx"@
}

/// The indexes among the first `n` files, in order.
pub open spec fn index_entries(all: Seq<Seq<char>>, n: int) -> Seq<ScanEntryView>
    decreases n,
{
    if n <= 0 {
        Seq::empty()
    } else if is_index(all[n - 1]) {
        index_entries(all, n - 1).push(ScanEntryView::Inpx { file: (n - 1) as usize, rel_path: all[n - 1] })
    } else {
        index_entries(all, n - 1)
    }
}

/// The directories of the indexes among the first `n` files.
pub open spec fn index_dirs(all: Seq<Seq<char>>, n: int) -> Seq<Seq<char>>
    decreases n,
{
    if n <= 0 {
        Seq::empty()
    } else if is_index(all[n - 1]) {
        index_dirs(all, n - 1).push(parent_of(all[n - 1]))
    } else {
        index_dirs(all, n - 1)
    }
}

/// What file `i` is scanned as, apart from indexes: nothing when indexes are
/// read and its directory holds one, or when it has no extension; a ZIP
/// archive for a `zip` extension (in any case) when archives are scanned;
/// a book file when its lower-cased extension is one of the lower-cased book
/// extensions.
pub open spec fn other_entry(
    all: Seq<Seq<char>>,
    i: int,
    exts: Seq<Seq<char>>,
    scan_zip: bool,
    inpx_enable: bool,
) -> Option<ScanEntryView> {
    let p = all[i];
    if inpx_enable && index_dirs(all, all.len() as int).contains(parent_of(p)) {
        None
    } else {
        match extension_of_name(name_of(p)) {
            None => None,
            Some(e) => {
                let ext = unicode_lowercase(e);
                if ext == "zip"@ && scan_zip {
                    Some(ScanEntryView::Zip { file: i as usize, rel_path: parent_of(p) })
                } else if exts.map_values(|x: Seq<char>| unicode_lowercase(x)).contains(ext) {
                    Some(
                        ScanEntryView::File {
                            file: i as usize,
                            rel_path: parent_of(p),
                            filename: name_of(p),
                            extension: ext,
                        },
                    )
                } else {
                    None
                }
            },
        }
    }
}

/// The archives and book files among the first `n` files, in order.
pub open spec fn other_entries(
    all: Seq<Seq<char>>,
    n: int,
    exts: Seq<Seq<char>>,
    scan_zip: bool,
    inpx_enable: bool,
) -> Seq<ScanEntryView>
    decreases n,
{
    if n <= 0 {
        Seq::empty()
    } else {
        let rest = other_entries(all, n - 1, exts, scan_zip, inpx_enable);
        match other_entry(all, n - 1, exts, scan_zip, inpx_enable) {
            Some(e) => rest.push(e),
            None => rest,
        }
    }
}

/// The entries of a scan: the indexes (when they are read), then the
/// archives and book files.
pub open spec fn scan_entries_spec(
    all: Seq<Seq<char>>,
    exts: Seq<Seq<char>>,
    scan_zip: bool,
    inpx_enable: bool,
) -> Seq<ScanEntryView> {
    (if inpx_enable {
        index_entries(all, all.len() as int)
    } else {
        Seq::empty()
    }) + other_entries(all, all.len() as int, exts, scan_zip, inpx_enable)
}

fn is_index_ext(e: &[char]) -> (r: bool)
    ensures
        r == (ascii_lower_seq(e@) == "inpx"@),
{
    proof {
        reveal_strlit("inpx");
    }
    if e.len() != 4 {
        proof {
            if ascii_lower_seq(e@) == "inpx"@ {
                assert(ascii_lower_seq(e@).len() == 4);
            }
        }
        return false;
    }
    let mut lower: Vec<char> = Vec::new();
    let mut i: usize = 0;
    while i < e.len()
        invariant
            i <= e.len(),
            lower@ == ascii_lower_seq(e@.take(i as int)),
        decreases e.len() - i,
    {
        lower.push(char_ascii_lower(e[i]));
        proof {
            assert(ascii_lower_seq(e@.take(i + 1)) =~= ascii_lower_seq(e@.take(i as int)).push(
                crate::text::ascii_lower(e@[i as int]),
            ));
        }
        i += 1;
    }
    proof {
        assert(e@.take(e.len() as int) =~= e@);
    }
    chars_eq_str(lower.as_slice(), "inpx")
}

fn path_is_index(p: &[char]) -> (r: bool)
    ensures
        r == is_index(p@),
{
    let (_, name) = split_parent(p);
    match name_extension(name.as_slice()) {
        Some(e) => is_index_ext(e.as_slice()),
        None => false,
    }
}

fn contains_chars(v: &Vec<Vec<char>>, x: &[char]) -> (r: bool)
    ensures
        r == views_of(v@).contains(x@),
{
    let mut i: usize = 0;
    while i < v.len()
        invariant
            i <= v.len(),
            forall|j: int| 0 <= j < i ==> views_of(v@)[j] != x@,
        decreases v.len() - i,
    {
        if chars_eq(v[i].as_slice(), x) {
            proof {
                assert(views_of(v@)[i as int] == x@);
            }
            return true;
        }
        i += 1;
    }
    false
}

/// The entries to scan among the files found, given by their paths relative
/// to the library root.
pub fn scan_entries(paths: &Vec<String>, extensions: &Vec<String>, scan_zip: bool, inpx_enable: bool) -> (r:
    Vec<ScanEntry>)
    ensures
        entries_view(r@) == scan_entries_spec(
            string_views(paths@),
            string_views(extensions@),
            scan_zip,
            inpx_enable,
        ),
{
    let ghost all = string_views(paths@);
    let ghost exts = string_views(extensions@);
    let ghost lowered = exts.map_values(|x: Seq<char>| unicode_lowercase(x));

    // The book extensions, lower-cased.
    let mut lower_exts: Vec<Vec<char>> = Vec::new();
    let mut k: usize = 0;
    while k < extensions.len()
        invariant
            k <= extensions.len(),
            exts == string_views(extensions@),
            lowered == exts.map_values(|x: Seq<char>| unicode_lowercase(x)),
            views_of(lower_exts@) == lowered.take(k as int),
        decreases extensions.len() - k,
    {
        let ch = to_chars(extensions[k].as_str());
        let lo = lowercase_chars(ch.as_slice());
        let ghost before = lower_exts@;
        lower_exts.push(lo);
        proof {
            assert(views_of(lower_exts@) =~= views_of(before).push(lo@));
            assert(lowered.take(k + 1) =~= lowered.take(k as int).push(lowered[k as int]));
            assert(exts[k as int] == extensions@[k as int]@);
            assert(ch@ == exts[k as int]);
            assert(lowered[k as int] == lo@);
            assert(views_of(lower_exts@) =~= lowered.take(k + 1));
        }
        k += 1;
    }
    proof {
        assert(lowered.take(extensions.len() as int) =~= lowered);
    }

    // First pass: the indexes and their directories.
    let mut entries: Vec<ScanEntry> = Vec::new();
    let mut dirs: Vec<Vec<char>> = Vec::new();
    let mut i: usize = 0;
    while i < paths.len()
        invariant
            i <= paths.len(),
            all == string_views(paths@),
            views_of(dirs@) == index_dirs(all, i as int),
            inpx_enable ==> entries_view(entries@) == index_entries(all, i as int),
            !inpx_enable ==> entries@.len() == 0,
        decreases paths.len() - i,
    {
        if inpx_enable {
            let p = to_chars(paths[i].as_str());
            proof {
                assert(all[i as int] == p@);
            }
            if path_is_index(p.as_slice()) {
                let (dir, _) = split_parent(p.as_slice());
                dirs.push(dir);
                entries.push(ScanEntry::Inpx { file: i, rel_path: from_chars(p.as_slice()) });
                proof {
                    assert(views_of(dirs@) =~= index_dirs(all, i + 1));
                    assert(entries_view(entries@) =~= index_entries(all, i + 1));
                }
            } else {
                proof {
                    assert(views_of(dirs@) =~= index_dirs(all, i + 1));
                }
            }
        } else {
            let p = to_chars(paths[i].as_str());
            proof {
                assert(all[i as int] == p@);
            }
            if path_is_index(p.as_slice()) {
                let (dir, _) = split_parent(p.as_slice());
                dirs.push(dir);
                proof {
                    assert(views_of(dirs@) =~= index_dirs(all, i + 1));
                }
            } else {
                proof {
                    assert(views_of(dirs@) =~= index_dirs(all, i + 1));
                }
            }
        }
        i += 1;
    }
    let ghost first = entries_view(entries@);
    proof {
        assert(first == (if inpx_enable {
            index_entries(all, all.len() as int)
        } else {
            Seq::<ScanEntryView>::empty()
        }));
        assert(first + other_entries(all, 0, exts, scan_zip, inpx_enable) =~= first);
    }

    // Second pass: archives and book files.
    let mut j: usize = 0;
    while j < paths.len()
        invariant
            j <= paths.len(),
            all == string_views(paths@),
            exts == string_views(extensions@),
            lowered == exts.map_values(|x: Seq<char>| unicode_lowercase(x)),
            views_of(lower_exts@) == lowered,
            views_of(dirs@) == index_dirs(all, all.len() as int),
            entries_view(entries@) == first + other_entries(all, j as int, exts, scan_zip, inpx_enable),
        decreases paths.len() - j,
    {
        let p = to_chars(paths[j].as_str());
        proof {
            assert(all[j as int] == p@);
        }
        let (dir, name) = split_parent(p.as_slice());
        let ghost oe = other_entry(all, j as int, exts, scan_zip, inpx_enable);
        let ghost rest = other_entries(all, j as int, exts, scan_zip, inpx_enable);
        proof {
            assert(other_entries(all, j + 1, exts, scan_zip, inpx_enable) == match oe {
                Some(e) => rest.push(e),
                None => rest,
            });
        }
        let skip = inpx_enable && contains_chars(&dirs, dir.as_slice());
        if skip {
            assert(oe is None);
        } else {
            match name_extension(name.as_slice()) {
                None => {
                    assert(oe is None);
                },
                Some(e) => {
                    let ext = lowercase_chars(e.as_slice());
                    if chars_eq_str(ext.as_slice(), "zip") && scan_zip {
                        let entry = ScanEntry::Zip { file: j, rel_path: from_chars(dir.as_slice()) };
                        assert(oe == Some(entry@));
                        let ghost before = entries@;
                        entries.push(entry);
                        assert(entries_view(entries@) =~= entries_view(before).push(entry@));
                    } else if contains_chars(&lower_exts, ext.as_slice()) {
                        let entry = ScanEntry::File {
                            file: j,
                            rel_path: from_chars(dir.as_slice()),
                            filename: from_chars(name.as_slice()),
                            extension: from_chars(ext.as_slice()),
                        };
                        assert(oe == Some(entry@));
                        let ghost before = entries@;
                        entries.push(entry);
                        assert(entries_view(entries@) =~= entries_view(before).push(entry@));
                    } else {
                        assert(oe is None);
                    }
                },
            }
        }
        proof {
            if let Some(x) = oe {
                assert(first + rest.push(x) =~= (first + rest).push(x));
            }
            assert(entries_view(entries@) =~= first + other_entries(all, j + 1, exts, scan_zip, inpx_enable));
        }
        j += 1;
    }
    entries
}

} // verus!
