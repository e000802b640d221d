//! Where the solver and the service itself are reached.

use crate::text::{decimal, decimal_text};
use vstd::prelude::*;
use vstd::string::StringExecFns;

verus! {

/// The seconds after which a call to the solver is given up.
pub const SOLVER_TIMEOUT_SECS: u64 = 120;

/// The base addresses of the solver and of the service itself.
#[derive(Clone, Debug, PartialEq, Eq)]
pub struct ServiceConfig {
    pub solver_base: String,
    pub api_base: String,
}

impl ServiceConfig {
    /// The address at which the solver takes a problem.
    pub open spec fn solve_address(&self) -> Seq<char> {
        self.solver_base@ + "/solve"@
    }

    /// The address at which the service takes the results of a run.
    pub open spec fn ingest_address(&self, run_id: i64) -> Seq<char> {
        self.api_base@ + "/api/v1/solver-runs/"@ + decimal(run_id as int) + "/ingest-result"@
    }

    /// A configuration from what the environment names; what it leaves out
    /// is on this machine, the solver on port 8000 and the service on 8080.
    pub fn new(solver_base: Option<String>, api_base: Option<String>) -> (config: ServiceConfig)
        ensures
            config.solver_base@ == match solver_base {
                Some(base) => base@,
                None => "http://127.0.0.1:8000"@,
            },
            config.api_base@ == match api_base {
                Some(base) => base@,
                None => "http://127.0.0.1:8080"@,
            },
    {
        ServiceConfig {
            solver_base: match solver_base {
                Some(base) => base,
                None => String::from_str("http://127.0.0.1:8000"),
            },
            api_base: match api_base {
                Some(base) => base,
                None => String::from_str("http://127.0.0.1:8080"),
            },
        }
    }

    /// The address at which the solver takes a problem.
    pub fn solve_url(&self) -> (url: String)
        ensures
            url@ == self.solve_address(),
    {
        let mut url = self.solver_base.clone();
        url.append("/solve");
        url
    }

    /// The address at which the service takes the results of a run.
    pub fn ingest_url(&self, run_id: i64) -> (url: String)
        ensures
            url@ == self.ingest_address(run_id),
    {
        let mut url = self.api_base.clone();
        url.append("/api/v1/solver-runs/");
        let id = decimal_text(run_id);
        url.append(id.as_str());
        url.append("/ingest-result");
        url
    }
}

} // verus!
