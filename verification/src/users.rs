//! Requests on users.

use crate::paging::{limit_of, offset_of, page_limit, page_offset};
use vstd::prelude::*;

verus! {

/// The filter and the page of the list of users.
#[derive(Clone, Copy, Debug, PartialEq, Eq, Structural)]
pub struct ListUsersQ {
    pub organization_id: Option<i64>,
    pub limit: Option<i64>,
    pub offset: Option<i64>,
}

impl ListUsersQ {
    /// The number of rows of the page.
    pub fn limit(&self) -> (n: i64)
        ensures
            n == limit_of(self.limit),
    {
        page_limit(self.limit)
    }

    /// The number of rows before the page.
    pub fn offset(&self) -> (n: i64)
        ensures
            n == offset_of(self.offset),
    {
        page_offset(self.offset)
    }
}

} // verus!
