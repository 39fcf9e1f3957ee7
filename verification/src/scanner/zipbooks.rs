//! The book files of a ZIP archive: which entries are read, and whether an
//! archive reads through.
use vstd::prelude::*;
use zip::result::ZipError;
use crate::parsers::string_views;
use crate::paths::{extension_of_name, file_name, file_name_spec, name_extension};
use crate::text::{chars_eq, from_chars, lowercase_chars, to_chars, unicode_lowercase, views_of};
use crate::ziparchive::{
    MemZip, zip_entry_bytes, zip_entry_info, zip_entry_infos, zip_entry_read, zip_len, zip_open,
    zip_opens, zip_source,
};

verus! {

/// A book file read from an archive.
pub struct ZipBookEntry {
    /// The entry's file name, without its directories.
    pub filename: String,
    /// Its extension, lower-cased.
    pub extension: String,
    /// The size the archive declares for it.
    pub declared_size: u64,
    pub data: Vec<u8>,
}

pub struct ZipBookEntryView {
    pub filename: Seq<char>,
    pub extension: Seq<char>,
    pub declared_size: u64,
    pub data: Seq<u8>,
}

impl View for ZipBookEntry {
    type V = ZipBookEntryView;

    open spec fn view(&self) -> ZipBookEntryView {
        ZipBookEntryView {
            filename: self.filename@,
            extension: self.extension@,
            declared_size: self.declared_size,
            data: self.data@,
        }
    }
}

pub open spec fn book_entries_view(v: Seq<ZipBookEntry>) -> Seq<ZipBookEntryView> {
    v.map_values(|e: ZipBookEntry| e@)
}

/// `Path::file_name` of an entry name, or nothing.
pub open spec fn entry_filename(name: Seq<char>) -> Seq<char> {
    match file_name_spec(name) {
        Some(n) => n,
        None => Seq::empty(),
    }
}

/// `Path::extension` of an entry name (or nothing), lower-cased.
pub open spec fn entry_extension(name: Seq<char>) -> Seq<char> {
    unicode_lowercase(
        match file_name_spec(name) {
            Some(n) => match extension_of_name(n) {
                Some(e) => e,
                None => Seq::empty(),
            },
            None => Seq::empty(),
        },
    )
}

/// The book file entry `i` gives: none for an entry that cannot be opened,
/// a directory, an unreadable name, an extension not among `extensions`, a
/// file name not `wanted`, bytes that cannot be read, or (with `test_files`)
/// bytes whose number differs from the declared size.
pub open spec fn zip_book_entry(
    data: Seq<u8>,
    i: int,
    extensions: Seq<Seq<char>>,
    test_files: bool,
    wanted: Option<Seq<Seq<char>>>,
) -> Option<ZipBookEntryView> {
    match zip_entry_infos(data)[i] {
        None => None,
        Some((is_dir, name, size)) => if is_dir {
            None
        } else {
            match name {
                None => None,
                Some(n) => {
                    let ext = entry_extension(n);
                    let fname = entry_filename(n);
                    if !extensions.contains(ext) {
                        None
                    } else if wanted matches Some(w) && !w.contains(fname) {
                        None
                    } else {
                        match zip_entry_bytes(data, i) {
                            None => None,
                            Some(b) => if test_files && b.len() != size {
                                None
                            } else {
                                Some(
                                    ZipBookEntryView {
                                        filename: fname,
                                        extension: ext,
                                        declared_size: size,
                                        data: b,
                                    },
                                )
                            },
                        }
                    }
                },
            }
        },
    }
}

/// The book files among the first `n` entries, in order.
pub open spec fn zip_book_entries(
    data: Seq<u8>,
    n: int,
    extensions: Seq<Seq<char>>,
    test_files: bool,
    wanted: Option<Seq<Seq<char>>>,
) -> Seq<ZipBookEntryView>
    decreases n,
{
    if n <= 0 {
        Seq::empty()
    } else {
        let rest = zip_book_entries(data, n - 1, extensions, test_files, wanted);
        match zip_book_entry(data, n - 1, extensions, test_files, wanted) {
            Some(e) => rest.push(e),
            None => rest,
        }
    }
}

fn contains_string(v: &Vec<String>, x: &[char]) -> (r: bool)
    ensures
        r == string_views(v@).contains(x@),
{
    let mut i: usize = 0;
    while i < v.len()
        invariant
            i <= v.len(),
            forall|j: int| 0 <= j < i ==> string_views(v@)[j] != x@,
        decreases v.len() - i,
    {
        let c = to_chars(v[i].as_str());
        if chars_eq(c.as_slice(), x) {
            proof {
                assert(string_views(v@)[i as int] == x@);
            }
            return true;
        }
        i += 1;
    }
    false
}

fn entry_name_parts(name: &str) -> (r: (Vec<char>, Vec<char>))
    ensures
        r.0@ == entry_filename(name@),
        r.1@ == entry_extension(name@),
{
    let chars = to_chars(name);
    match file_name(chars.as_slice()) {
        Some(n) => {
            let ext = match name_extension(n.as_slice()) {
                Some(e) => e,
                None => Vec::new(),
            };
            let lower = lowercase_chars(ext.as_slice());
            proof {
                if extension_of_name(n@) is None {
                    assert(ext@ =~= Seq::<char>::empty());
                }
            }
            (n, lower)
        },
        None => {
            let empty: Vec<char> = Vec::new();
            let lower = lowercase_chars(empty.as_slice());
            proof {
                assert(empty@ =~= Seq::<char>::empty());
            }
            (Vec::new(), lower)
        },
    }
}

/// The book files of an archive in memory, in order; `wanted`, when given,
/// restricts them to these file names.
fn read_book_entries(
    a: &mut MemZip,
    extensions: &Vec<String>,
    test_files: bool,
    wanted: Option<&Vec<String>>,
) -> (r: Vec<ZipBookEntry>)
    ensures
        zip_source(*final(a)) == zip_source(*old(a)),
        book_entries_view(r@) == zip_book_entries(
            zip_source(*old(a)),
            zip_entry_infos(zip_source(*old(a))).len() as int,
            string_views(extensions@),
            test_files,
            match wanted {
                Some(w) => Some(string_views(w@)),
                None => None,
            },
        ),
{
    let ghost src = zip_source(*a);
    let ghost exts = string_views(extensions@);
    let ghost w = match wanted {
        Some(w) => Some(string_views(w@)),
        None => None,
    };
    let n = zip_len(a);
    let mut out: Vec<ZipBookEntry> = Vec::new();
    let mut i: usize = 0;
    while i < n
        invariant
            i <= n,
            n == zip_entry_infos(src).len(),
            zip_source(*a) == src,
            exts == string_views(extensions@),
            w == (match wanted {
                Some(w) => Some(string_views(w@)),
                None => None,
            }),
            book_entries_view(out@) == zip_book_entries(src, i as int, exts, test_files, w),
        decreases n - i,
    {
        let ghost e = zip_book_entry(src, i as int, exts, test_files, w);
        let ghost before = out@;
        proof {
            assert(zip_book_entries(src, i + 1, exts, test_files, w) == match e {
                Some(x) => zip_book_entries(src, i as int, exts, test_files, w).push(x),
                None => zip_book_entries(src, i as int, exts, test_files, w),
            });
        }
        match zip_entry_info(a, i) {
            None => {
                assert(e is None);
            },
            Some((is_dir, name, size)) => {
                if is_dir {
                    assert(e is None);
                } else {
                    match name {
                        None => {
                            assert(e is None);
                        },
                        Some(nm) => {
                            let (fname, ext) = entry_name_parts(nm.as_str());
                            let known = contains_string(extensions, ext.as_slice());
                            let selected = match wanted {
                                Some(wv) => contains_string(wv, fname.as_slice()),
                                None => true,
                            };
                            if !known || !selected {
                                assert(e is None);
                            } else {
                                match zip_entry_read(a, i) {
                                    None => {
                                        assert(e is None);
                                    },
                                    Some(bytes) => {
                                        let size_ok = !test_files || bytes.len() as u64 == size;
                                        if !size_ok {
                                            assert(e is None);
                                        } else {
                                            let entry = ZipBookEntry {
                                                filename: from_chars(fname.as_slice()),
                                                extension: from_chars(ext.as_slice()),
                                                declared_size: size,
                                                data: bytes,
                                            };
                                            assert(e == Some(entry@));
                                            out.push(entry);
                                            assert(book_entries_view(out@) =~= book_entries_view(
                                                before,
                                            ).push(entry@));
                                        }
                                    },
                                }
                            }
                        },
                    }
                }
            },
        }
        i += 1;
    }
    out
}

/// All book files of the archive in these bytes (entries with one of the
/// extensions), in order; `Err` when the bytes are not an archive.
pub fn read_zip_entries(data: Vec<u8>, extensions: &Vec<String>, test_files: bool) -> (r: Result<
    Vec<ZipBookEntry>,
    ZipError,
>)
    ensures
        r matches Ok(v) ==> book_entries_view(v@) == zip_book_entries(
            data@,
            zip_entry_infos(data@).len() as int,
            string_views(extensions@),
            test_files,
            None,
        ),
        r is Ok <==> zip_opens(data@),
{
    let mut a = zip_open(data)?;
    Ok(read_book_entries(&mut a, extensions, test_files, None))
}

/// The book files of the archive in these bytes whose file names are among
/// `needed`, every one of them in archive order (a name may repeat: which of
/// them is used is decided once they are parsed, see `first_parsed`); `Err`
/// when the bytes are not an archive.
pub fn read_selected_zip_entries(
    data: Vec<u8>,
    extensions: &Vec<String>,
    needed: &Vec<String>,
    test_files: bool,
) -> (r: Result<Vec<ZipBookEntry>, ZipError>)
    ensures
        r matches Ok(v) ==> book_entries_view(v@) == zip_book_entries(
            data@,
            zip_entry_infos(data@).len() as int,
            string_views(extensions@),
            test_files,
            Some(string_views(needed@)),
        ),
        r is Ok <==> zip_opens(data@),
{
    let mut a = zip_open(data)?;
    Ok(read_book_entries(&mut a, extensions, test_files, Some(needed)))
}

/// The names of the entries among the first `n` that parsed, in order.
pub open spec fn parsed_names(names: Seq<Seq<char>>, ok: Seq<bool>, n: int) -> Seq<Seq<char>>
    decreases n,
{
    if n <= 0 {
        Seq::empty()
    } else if ok[n - 1] {
        parsed_names(names, ok, n - 1).push(names[n - 1])
    } else {
        parsed_names(names, ok, n - 1)
    }
}

/// Entry `i` parsed, and no earlier entry of the same name did.
pub open spec fn first_parsed_at(names: Seq<Seq<char>>, ok: Seq<bool>, i: int) -> bool {
    ok[i] && !parsed_names(names, ok, i).contains(names[i])
}

/// The indices, among the first `n`, of the entries used: for each name, the
/// first entry of that name that parsed.
pub open spec fn first_parsed_indices(names: Seq<Seq<char>>, ok: Seq<bool>, n: int) -> Seq<int>
    decreases n,
{
    if n <= 0 {
        Seq::empty()
    } else if first_parsed_at(names, ok, n - 1) {
        first_parsed_indices(names, ok, n - 1).push(n - 1)
    } else {
        first_parsed_indices(names, ok, n - 1)
    }
}

/// Which entries to use, given each entry's file name and whether its
/// metadata parsed: for each name, the first entry of that name that parsed,
/// in archive order.
pub fn first_parsed(names: &Vec<String>, parsed: &Vec<bool>) -> (r: Vec<usize>)
    requires
        names.len() == parsed.len(),
    ensures
        r@.map_values(|i: usize| i as int) == first_parsed_indices(
            string_views(names@),
            parsed@,
            names.len() as int,
        ),
{
    let ghost nv = string_views(names@);
    let mut done: Vec<String> = Vec::new();
    let mut out: Vec<usize> = Vec::new();
    let mut i: usize = 0;
    while i < names.len()
        invariant
            i <= names.len(),
            names.len() == parsed.len(),
            nv == string_views(names@),
            string_views(done@) == parsed_names(nv, parsed@, i as int),
            out@.map_values(|k: usize| k as int) == first_parsed_indices(nv, parsed@, i as int),
        decreases names.len() - i,
    {
        let name = to_chars(names[i].as_str());
        let ghost ob = out@;
        let ghost db = done@;
        if parsed[i] {
            let seen = contains_string(&done, name.as_slice());
            if !seen {
                out.push(i);
                proof {
                    assert(out@.map_values(|k: usize| k as int) =~= ob.map_values(|k: usize| k as int).push(
                        i as int,
                    ));
                }
            }
            done.push(names[i].clone());
            proof {
                assert(string_views(done@) =~= string_views(db).push(nv[i as int]));
            }
        }
        i += 1;
    }
    out
}

/// The first index whose name is `filename`, if any.
pub fn enriched_index(names: &Vec<String>, filename: &str) -> (r: Option<usize>)
    ensures
        match r {
            Some(i) => i < names.len() && names@[i as int]@ == filename@ && forall|j: int|
                0 <= j < i ==> (#[trigger] names@[j])@ != filename@,
            None => forall|j: int| 0 <= j < names.len() ==> (#[trigger] names@[j])@ != filename@,
        },
{
    let mut i: usize = 0;
    while i < names.len()
        invariant
            i <= names.len(),
            forall|j: int| 0 <= j < i ==> (#[trigger] names@[j])@ != filename@,
        decreases names.len() - i,
    {
        if crate::text::str_eq(names[i].as_str(), filename) {
            return Some(i);
        }
        i += 1;
    }
    None
}

/// Whether every entry of the archive in these bytes opens and reads through
/// (reading checks each entry's CRC).
pub open spec fn archive_reads_through(data: Seq<u8>) -> bool {
    forall|i: int|
        0 <= i < zip_entry_infos(data).len() ==> (#[trigger] zip_entry_infos(data)[i]) is Some
            && zip_entry_bytes(data, i) is Some
}

/// Validate an archive's integrity by reading every entry; `Err` when the
/// bytes are not an archive.
pub fn validate_zip_integrity(data: Vec<u8>) -> (r: Result<bool, ZipError>)
    ensures
        r is Ok <==> zip_opens(data@),
        r matches Ok(b) ==> b == archive_reads_through(data@),
{
    let ghost src = data@;
    let mut a = zip_open(data)?;
    let n = zip_len(&a);
    let mut i: usize = 0;
    while i < n
        invariant
            i <= n,
            zip_source(a) == src,
            src == data@,
            zip_opens(src),
            n == zip_entry_infos(src).len(),
            forall|k: int|
                0 <= k < i ==> (#[trigger] zip_entry_infos(src)[k]) is Some && zip_entry_bytes(src, k) is Some,
        decreases n - i,
    {
        if zip_entry_info(&mut a, i).is_none() {
            proof {
                assert(zip_entry_infos(src)[i as int] is None);
                assert(!archive_reads_through(src));
            }
            return Ok(false);
        }
        if zip_entry_read(&mut a, i).is_none() {
            proof {
                assert(zip_entry_bytes(src, i as int) is None);
                assert(!((zip_entry_infos(src)[i as int]) is Some && zip_entry_bytes(src, i as int) is Some));
                assert(!archive_reads_through(src));
            }
            return Ok(false);
        }
        i += 1;
    }
    Ok(true)
}

} // verus!
