//! ZIP archives held in memory, read with the `zip` crate.
use vstd::prelude::*;
use std::io::{Cursor, Read};
use zip::ZipArchive;
use zip::result::ZipError;

verus! {

#[verifier::external_type_specification]
#[verifier::external_body]
#[verifier::reject_recursive_types(R)]
pub struct ExZipArchive<R>(zip::ZipArchive<R>);

#[verifier::external_type_specification]
#[verifier::external_body]
pub struct ExZipError(zip::result::ZipError);

#[verifier::external_type_specification]
#[verifier::external_body]
#[verifier::reject_recursive_types(T)]
pub struct ExCursor<T>(std::io::Cursor<T>);

/// An archive over bytes held in memory.
pub type MemZip = ZipArchive<Cursor<Vec<u8>>>;

/// Why an entry could not be read.
pub enum ZipReadError {
    Zip(ZipError),
    Io(std::io::Error),
}

/// For each entry of the archive in these bytes, in order, the name that
/// `ZipArchive::by_index` opens it under, or `None` where opening the entry or
/// reading its name fails.
pub uninterp spec fn zip_listing(data: Seq<u8>) -> Seq<Option<Seq<char>>>;

/// The bytes that `ZipArchive::by_name` and `Read::read_to_end` give for the
/// entry with this name in the archive in these bytes, or `None` where either
/// fails.
pub uninterp spec fn zip_entry_data(data: Seq<u8>, name: Seq<char>) -> Option<Seq<u8>>;

/// For each entry of the archive in these bytes, in order: `None` where
/// `ZipArchive::by_index` fails, else whether `ZipFile::is_dir` calls it a
/// directory, its name (`None` where `ZipFile::name` fails) and its declared
/// uncompressed size (`ZipFile::size`).
pub uninterp spec fn zip_entry_infos(data: Seq<u8>) -> Seq<Option<(bool, Option<Seq<char>>, u64)>>;

/// The bytes that `Read::read_to_end` gives for entry `i`, opened with
/// `ZipArchive::by_index`, of the archive in these bytes, or `None` where
/// either fails.
pub uninterp spec fn zip_entry_bytes(data: Seq<u8>, i: int) -> Option<Seq<u8>>;

/// Whether `ZipArchive::new` opens an archive over these bytes.
pub uninterp spec fn zip_opens(data: Seq<u8>) -> bool;

/// Whether `ZipArchive::by_name` opens an entry with this name in the archive
/// in these bytes.
pub uninterp spec fn zip_entry_found(data: Seq<u8>, name: Seq<char>) -> bool;

/// The bytes an archive was opened on.
pub uninterp spec fn zip_source(a: ZipArchive<Cursor<Vec<u8>>>) -> Seq<u8>;

pub open spec fn zip_names(a: ZipArchive<Cursor<Vec<u8>>>) -> Seq<Option<Seq<char>>> {
    zip_listing(zip_source(a))
}

pub open spec fn opt_string_view(o: Option<String>) -> Option<Seq<char>> {
    match o {
        Some(s) => Some(s@),
        None => None,
    }
}

/// `ZipArchive::new` over the bytes.
#[verifier::external_body]
pub(crate) fn zip_open(data: Vec<u8>) -> (r: Result<MemZip, ZipError>)
    ensures
        r is Ok <==> zip_opens(data@),
        r matches Ok(a) ==> zip_source(a) == data@,
{
    ZipArchive::new(Cursor::new(data))
}

/// `ZipArchive::len`: the number of entries.
#[verifier::external_body]
pub(crate) fn zip_len(a: &MemZip) -> (r: usize)
    ensures
        r == zip_listing(zip_source(*a)).len(),
        r == zip_entry_infos(zip_source(*a)).len(),
{
    a.len()
}

/// `ZipArchive::by_index` and `ZipFile::name`: the name of entry `i`, or `None`
/// where the entry cannot be opened or its name not read.
#[verifier::external_body]
pub(crate) fn zip_name_at(a: &mut MemZip, i: usize) -> (r: Option<String>)
    requires
        i < zip_names(*old(a)).len(),
    ensures
        zip_source(*final(a)) == zip_source(*old(a)),
        opt_string_view(r) == zip_listing(zip_source(*old(a)))[i as int],
{
    a.by_index(i).ok().and_then(|e| e.name().ok().map(|n| n.to_string()))
}

/// `ZipArchive::by_name` and `Read::read_to_end` on the entry: the bytes of
/// the entry with that name; a `Zip` error exactly when `by_name` fails.
#[verifier::external_body]
pub(crate) fn zip_read(a: &mut MemZip, name: &str) -> (r: Result<Vec<u8>, ZipReadError>)
    ensures
        zip_source(*final(a)) == zip_source(*old(a)),
        match zip_entry_data(zip_source(*old(a)), name@) {
            Some(d) => r matches Ok(v) && v@ == d,
            None => r is Err,
        },
        r matches Err(ZipReadError::Zip(_)) <==> !zip_entry_found(zip_source(*old(a)), name@),
{
    match a.by_name(name) {
        Ok(mut entry) => {
            let mut data = Vec::new();
            match entry.read_to_end(&mut data) {
                Ok(_) => Ok(data),
                Err(e) => Err(ZipReadError::Io(e)),
            }
        },
        Err(e) => Err(ZipReadError::Zip(e)),
    }
}


pub open spec fn info_view(o: Option<(bool, Option<String>, u64)>) -> Option<(bool, Option<Seq<char>>, u64)> {
    match o {
        Some((d, n, z)) => Some((d, opt_string_view(n), z)),
        None => None,
    }
}

/// `ZipArchive::by_index`, then `ZipFile::is_dir`, `ZipFile::name` and
/// `ZipFile::size` of the entry opened.
#[verifier::external_body]
pub(crate) fn zip_entry_info(a: &mut MemZip, i: usize) -> (r: Option<(bool, Option<String>, u64)>)
    requires
        i < zip_entry_infos(zip_source(*old(a))).len(),
    ensures
        zip_source(*final(a)) == zip_source(*old(a)),
        info_view(r) == zip_entry_infos(zip_source(*old(a)))[i as int],
{
    match a.by_index(i) {
        Ok(e) => Some((e.is_dir(), e.name().ok().map(|n| n.to_string()), e.size())),
        Err(_) => None,
    }
}

/// `ZipArchive::by_index` and `Read::read_to_end` on the entry opened.
#[verifier::external_body]
pub(crate) fn zip_entry_read(a: &mut MemZip, i: usize) -> (r: Option<Vec<u8>>)
    requires
        i < zip_entry_infos(zip_source(*old(a))).len(),
    ensures
        zip_source(*final(a)) == zip_source(*old(a)),
        match zip_entry_bytes(zip_source(*old(a)), i as int) {
            Some(d) => r matches Some(v) && v@ == d,
            None => r is None,
        },
{
    let mut entry = a.by_index(i).ok()?;
    let mut data = Vec::new();
    entry.read_to_end(&mut data).ok()?;
    Some(data)
}

} // verus!
