//! Rows of the catalogue database.
use vstd::prelude::*;

verus! {

pub struct Catalog {
    pub id: i64,
    pub parent_id: Option<i64>,
    pub path: String,
    pub cat_name: String,
    pub cat_type: i32,
    pub cat_size: i64,
    pub cat_mtime: String,
}

pub struct Book {
    pub id: i64,
    pub catalog_id: i64,
    pub filename: String,
    pub path: String,
    pub format: String,
    pub title: String,
    pub search_title: String,
    pub annotation: String,
    pub docdate: String,
    pub lang: String,
    pub lang_code: i32,
    pub size: i64,
    pub avail: i32,
    pub cat_type: i32,
    pub cover: i32,
    pub cover_type: String,
    pub reg_date: String,
}

pub struct Author {
    pub id: i64,
    pub full_name: String,
    pub search_full_name: String,
    pub lang_code: i32,
}

pub struct Genre {
    pub id: i64,
    pub code: String,
    pub section: String,
    pub subsection: String,
}

pub struct Series {
    pub id: i64,
    pub ser_name: String,
    pub search_ser: String,
    pub lang_code: i32,
}

pub struct User {
    pub id: i64,
    pub username: String,
    pub password_hash: String,
    pub is_superuser: i32,
    pub created_at: String,
    pub last_login: String,
    pub password_change_required: i32,
    pub display_name: String,
    pub allow_upload: i32,
}

pub struct Counter {
    pub name: String,
    pub value: i64,
    pub updated_at: String,
}

/// Catalog type stored in `catalogs.cat_type` and `books.cat_type`.
#[derive(Debug, Clone, Copy, PartialEq, Eq, Structural)]
pub enum CatType {
    Normal,
    Zip,
    Inpx,
    Inp,
}

pub open spec fn cat_type_code(t: CatType) -> i32 {
    match t {
        CatType::Normal => 0,
        CatType::Zip => 1,
        CatType::Inpx => 2,
        CatType::Inp => 3,
    }
}

impl CatType {
    /// The number stored in the database.
    pub fn code(self) -> (r: i32)
        ensures
            r == cat_type_code(self),
    {
        match self {
            CatType::Normal => 0,
            CatType::Zip => 1,
            CatType::Inpx => 2,
            CatType::Inp => 3,
        }
    }

    /// The catalog type stored as `value`, if any.
    pub fn from_code(value: i32) -> (r: Option<CatType>)
        ensures
            r matches Some(t) ==> cat_type_code(t) == value,
            r is None <==> !(0 <= value <= 3),
    {
        match value {
            0 => Some(CatType::Normal),
            1 => Some(CatType::Zip),
            2 => Some(CatType::Inpx),
            3 => Some(CatType::Inp),
            _ => None,
        }
    }
}

/// Availability status stored in `books.avail`.
#[derive(Debug, Clone, Copy, PartialEq, Eq, Structural)]
pub enum AvailStatus {
    Deleted,
    Unverified,
    Confirmed,
}

pub open spec fn avail_code(t: AvailStatus) -> i32 {
    match t {
        AvailStatus::Deleted => 0,
        AvailStatus::Unverified => 1,
        AvailStatus::Confirmed => 2,
    }
}

impl AvailStatus {
    /// The number stored in the database.
    pub fn code(self) -> (r: i32)
        ensures
            r == avail_code(self),
    {
        match self {
            AvailStatus::Deleted => 0,
            AvailStatus::Unverified => 1,
            AvailStatus::Confirmed => 2,
        }
    }

    /// The status stored as `value`, if any.
    pub fn from_code(value: i32) -> (r: Option<AvailStatus>)
        ensures
            r matches Some(t) ==> avail_code(t) == value,
            r is None <==> !(0 <= value <= 2),
    {
        match value {
            0 => Some(AvailStatus::Deleted),
            1 => Some(AvailStatus::Unverified),
            2 => Some(AvailStatus::Confirmed),
            _ => None,
        }
    }
}

/// Decoding a stored code gives back the catalog type.
pub proof fn lemma_cat_type_code_roundtrip(t: CatType)
    ensures
        0 <= cat_type_code(t) <= 3,
{
}

} // verus!
