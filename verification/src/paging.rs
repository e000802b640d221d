//! Limits and offsets of the lists that are read page by page.

use vstd::prelude::*;

verus! {

/// The number of rows of a page: fifty where none is asked for, and never
/// fewer than one nor more than five hundred.
pub open spec fn limit_of(limit: Option<i64>) -> i64 {
    match limit {
        None => 50,
        Some(n) => if n < 1 {
            1
        } else if n > 500 {
            500
        } else {
            n
        },
    }
}

/// The number of rows before a page: none where none is asked for, and
/// never fewer than none.
pub open spec fn offset_of(offset: Option<i64>) -> i64 {
    match offset {
        None => 0,
        Some(n) => if n < 0 {
            0
        } else {
            n
        },
    }
}

/// The number of rows of a page.
pub fn page_limit(limit: Option<i64>) -> (n: i64)
    ensures
        n == limit_of(limit),
        1 <= n <= 500,
{
    match limit {
        None => 50,
        Some(n) => if n < 1 {
            1
        } else if n > 500 {
            500
        } else {
            n
        },
    }
}

/// The number of rows before a page.
pub fn page_offset(offset: Option<i64>) -> (n: i64)
    ensures
        n == offset_of(offset),
        n >= 0,
{
    match offset {
        None => 0,
        Some(n) => if n < 0 {
            0
        } else {
            n
        },
    }
}

/// Whether a delete found something to delete.
#[derive(Clone, Copy, Debug, PartialEq, Eq, Structural)]
pub struct Deleted {
    pub deleted: bool,
}

impl Deleted {
    /// The answer to a delete that removed `rows` rows.
    pub fn from_rows(rows: u64) -> (r: Deleted)
        ensures
            r.deleted == (rows > 0),
    {
        Deleted { deleted: rows > 0 }
    }
}

} // verus!
