//! Requests on units.

use crate::paging::{limit_of, offset_of, page_limit, page_offset};
use vstd::prelude::*;
use vstd::string::StringExecFns;

verus! {

/// Which units a list shows.
#[derive(Clone, Debug, PartialEq, Eq)]
pub enum UnitFilter {
    /// The units of an organization with a code.
    ByOrganizationAndCode { organization_id: i64, code: String },
    /// The units of an organization.
    ByOrganization { organization_id: i64 },
    /// All units.
    All,
}

/// The filter and the page of the list of units.
#[derive(Clone, Debug, PartialEq, Eq)]
pub struct ListUnitsQ {
    pub organization_id: Option<i64>,
    pub code: Option<String>,
    pub limit: Option<i64>,
    pub offset: Option<i64>,
}

impl ListUnitsQ {
    /// The number of rows of the page.
    pub fn limit(&self) -> (n: i64)
        ensures
            n == limit_of(self.limit),
    {
        page_limit(self.limit)
    }

    /// The number of rows before the page.
    pub fn offset(&self) -> (n: i64)
        ensures
            n == offset_of(self.offset),
    {
        page_offset(self.offset)
    }

    /// Which units the list shows. A code counts only together with an
    /// organization.
    pub fn filter(&self) -> (f: UnitFilter)
        ensures
            match (self.organization_id, self.code) {
                (Some(org), Some(code)) => f == (UnitFilter::ByOrganizationAndCode {
                    organization_id: org,
                    code,
                }),
                (Some(org), None) => f == (UnitFilter::ByOrganization { organization_id: org }),
                _ => f == UnitFilter::All,
            },
    {
        match self.organization_id {
            Some(org) => match &self.code {
                Some(code) => UnitFilter::ByOrganizationAndCode {
                    organization_id: org,
                    code: code.clone(),
                },
                None => UnitFilter::ByOrganization { organization_id: org },
            },
            None => UnitFilter::All,
        }
    }
}

/// A new unit.
#[derive(Clone, Debug, PartialEq, Eq)]
pub struct CreateUnitBody {
    pub organization_id: i64,
    pub site_id: Option<i64>,
    pub name: String,
    pub code: String,
    pub time_zone: String,
}

/// The time zone of a unit that names none.
pub fn default_tz() -> (zone: String)
    ensures
        zone@ == "Asia/Bangkok"@,
{
    String::from_str("Asia/Bangkok")
}

impl CreateUnitBody {
    /// A new unit with the default for the time zone that the request
    /// leaves out.
    pub fn new(
        organization_id: i64,
        site_id: Option<i64>,
        name: String,
        code: String,
        time_zone: Option<String>,
    ) -> (body: CreateUnitBody)
        ensures
            body.organization_id == organization_id,
            body.site_id == site_id,
            body.name == name,
            body.code == code,
            body.time_zone@ == match time_zone {
                Some(z) => z@,
                None => "Asia/Bangkok"@,
            },
    {
        CreateUnitBody {
            organization_id,
            site_id,
            name,
            code,
            time_zone: match time_zone {
                Some(z) => z,
                None => default_tz(),
            },
        }
    }
}

} // verus!
