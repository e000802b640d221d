//! The answer to a health probe.

use vstd::prelude::*;

verus! {

/// The state of the service and the version of its interface.
#[derive(Clone, Copy, Debug, PartialEq, Eq)]
pub struct HealthResp {
    pub status: &'static str,
    pub version: &'static str,
}

/// The answer of a service that is up.
pub fn health() -> (r: HealthResp)
    ensures
        r.status@ == "ok"@,
        r.version@ == "v1"@,
{
    HealthResp { status: "ok", version: "v1" }
}

} // verus!
