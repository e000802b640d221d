//! Requests on organizations.

use crate::paging::{limit_of, offset_of, page_limit, page_offset};
use vstd::prelude::*;
use vstd::string::StringExecFns;

verus! {

/// The filter and the page of the list of organizations.
#[derive(Clone, Debug, PartialEq, Eq)]
pub struct ListQ {
    pub status: Option<String>,
    pub limit: Option<i64>,
    pub offset: Option<i64>,
}

impl ListQ {
    /// The number of rows of the page.
    pub fn limit(&self) -> (n: i64)
        ensures
            n == limit_of(self.limit),
    {
        page_limit(self.limit)
    }

    /// The number of rows before the page.
    pub fn offset(&self) -> (n: i64)
        ensures
            n == offset_of(self.offset),
    {
        page_offset(self.offset)
    }
}

/// A new organization.
#[derive(Clone, Debug, PartialEq, Eq)]
pub struct CreateOrgBody {
    pub name: String,
    pub plan: String,
    pub status: String,
}

/// The plan of an organization that names none.
pub fn default_plan() -> (plan: String)
    ensures
        plan@ == "standard"@,
{
    String::from_str("standard")
}

/// The status of an organization that names none.
pub fn default_status() -> (status: String)
    ensures
        status@ == "active"@,
{
    String::from_str("active")
}

impl CreateOrgBody {
    /// A new organization with the defaults for what the request leaves
    /// out.
    pub fn new(name: String, plan: Option<String>, status: Option<String>) -> (body: CreateOrgBody)
        ensures
            body.name == name,
            body.plan@ == match plan {
                Some(p) => p@,
                None => "standard"@,
            },
            body.status@ == match status {
                Some(s) => s@,
                None => "active"@,
            },
    {
        CreateOrgBody {
            name,
            plan: match plan {
                Some(p) => p,
                None => default_plan(),
            },
            status: match status {
                Some(s) => s,
                None => default_status(),
            },
        }
    }
}

} // verus!
