//! The life of a run: it is recorded as queued before the solver is called,
//! and it ends as succeeded or failed when the solver's answer has been
//! ingested. What happens between the two steps, the call itself, is the
//! caller's part.

use crate::errors::{ApiError, ApiErrorView};
use crate::models::{copy_bytes, SolverRun};
use crate::resolver::{Directory, Resolver};
use crate::run_store::{lemma_ingest_keeps_wf, queued_status, run_ids_exhausted, RunStore};
use crate::scenarios::ScenarioStore;
use crate::solver_runs::{
    ingest_plan, prepare_ingest, resolve_all, resolve_one, lemma_resolve_all_is_fail_fast,
    text_view, CreateRunBody, IngestBodyView, SolveResponse,
};
use vstd::prelude::*;
use vstd::string::StringExecFns;

verus! {

/// The words of the failure when a run is asked for a scenario that the
/// store does not have.
pub open spec fn scenario_missing() -> Seq<char> {
    "scenario not found"@
}

/// What the caller needs to call the solver for a run that was recorded:
/// the run, the unit of its scenario, and the payload to send as it is.
#[derive(Clone, Debug, PartialEq, Eq)]
pub struct RunTicket {
    pub run: SolverRun,
    pub unit_id: i64,
    pub payload: Vec<u8>,
}

/// Records a run of a scenario before the solver is called.
///
/// The scenario is marked queued and a run is added, queued and started at
/// `now`. The run stays in the store whatever becomes of the call to the
/// solver. Without the scenario no run is added; without an id for the run
/// the scenario is marked queued all the same.
pub fn begin_run(
    scenarios: &mut ScenarioStore,
    runs: &mut RunStore,
    body: &CreateRunBody,
    now: i64,
) -> (r: Result<RunTicket, ApiError>)
    requires
        old(scenarios)@.wf(),
        old(runs)@.wf(),
    ensures
        final(scenarios)@.wf(),
        final(runs)@.wf(),
        final(scenarios)@ == old(scenarios)@.set_status(body.scenario_id, queued_status()),
        !old(scenarios)@.has_id(body.scenario_id) ==> r is Err && r->Err_0@ == (
        ApiErrorView::StoreFailed { cause: scenario_missing() }) && final(runs)@ == old(runs)@,
        old(scenarios)@.has_id(body.scenario_id) && old(runs)@.next_run_id == i64::MAX ==> r is Err
            && r->Err_0@ == (ApiErrorView::StoreFailed { cause: run_ids_exhausted() }) && final(runs)@ == old(runs)@,
        old(scenarios)@.has_id(body.scenario_id) && old(runs)@.next_run_id < i64::MAX ==> r is Ok
            && final(runs)@ == old(runs)@.create(
            body.scenario_id,
            body.policy_set_id,
            body.seed,
            body.workers,
            text_view(body.code_version),
            now,
        ) && r->Ok_0.run@ == final(runs)@.runs.last() && exists|i: int|
            0 <= i < final(scenarios)@.rows.len() && (#[trigger] final(scenarios)@.rows[i]).scenario_id == body.scenario_id && r->Ok_0.unit_id == final(scenarios)@.rows[i].unit_id && r->Ok_0.payload@ == final(scenarios)@.rows[i].payload,
{
    let found = scenarios.set_status(body.scenario_id, "queued");
    if !found {
        return Err(ApiError::StoreFailed { cause: String::from_str("scenario not found") });
    }
    let run = runs.create(body, now)?;
    proof {
        let before = old(scenarios)@;
        let i = choose|i: int|
            0 <= i < before.rows.len() && (#[trigger] before.rows[i]).scenario_id
                == body.scenario_id;
        assert(scenarios@.rows[i].scenario_id == body.scenario_id);
    }
    match scenarios.get(body.scenario_id) {
        Some(scenario) => {
            proof {
                let i = choose|i: int|
                    0 <= i < scenarios@.rows.len() && scenarios@.rows[i] == scenario@;
                assert(scenarios@.rows[i].scenario_id == body.scenario_id);
            }
            Ok(RunTicket { run, unit_id: scenario.unit_id, payload: copy_bytes(&scenario.payload) })
        },
        None => {
            proof {
                assert(false);
            }
            Err(ApiError::StoreFailed { cause: String::from_str("scenario not found") })
        },
    }
}

/// What a run reports, given how the call to the solver ended: the words
/// of a failed call become the failure of the run; an answer becomes the
/// report, or the failure to resolve it.
pub open spec fn completion_plan(
    run_id: i64,
    shifts: Map<Seq<char>, i64>,
    staff: Map<Seq<char>, i64>,
    outcome: Result<SolveResponse, String>,
    wall_time_ms: u64,
) -> Result<IngestBodyView, ApiErrorView> {
    match outcome {
        Err(words) => Err(ApiErrorView::SolverFailed { cause: words@ }),
        Ok(response) => ingest_plan(run_id, response, shifts, staff, wall_time_ms),
    }
}

/// Ends a run with the outcome of the call to the solver.
///
/// A failed call, an assignment that does not resolve in the unit, a total
/// out of range or a refusal of the store all leave the store as it was:
/// the run stays queued and nothing of the answer is written. Otherwise the
/// whole answer is ingested at `now`, and the run is returned as it then
/// stands: succeeded or failed, as the solver's status says, and finished.
pub fn complete_run(
    runs: &mut RunStore,
    directory: &Directory,
    run_id: i64,
    unit_id: i64,
    outcome: &Result<SolveResponse, String>,
    wall_time_ms: u64,
    now: i64,
) -> (r: Result<SolverRun, ApiError>)
    requires
        old(runs)@.wf(),
    ensures
        final(runs)@.wf(),
        match completion_plan(
            run_id,
            directory.shifts_of(unit_id),
            directory.staff_of(unit_id),
            *outcome,
            wall_time_ms,
        ) {
            Err(e) => r is Err && r->Err_0@ == e && final(runs)@ == old(runs)@,
            Ok(body) => match old(runs)@.ingest_outcome(run_id, body, now) {
                Err(e) => r is Err && r->Err_0@ == e && final(runs)@ == old(runs)@,
                Ok((tables, _)) => r is Ok && final(runs)@ == tables && final(runs)@.runs.contains(
                    r->Ok_0@,
                ) && r->Ok_0@.solver_run_id == run_id && r->Ok_0@.status == body.status
                    && r->Ok_0@.finished_at == Some(now),
            },
        },
{
    let response = match outcome {
        Ok(response) => response,
        Err(words) => {
            return Err(ApiError::SolverFailed { cause: words.clone() });
        },
    };
    let resolver = Resolver::for_unit(directory, unit_id);
    let body = prepare_ingest(run_id, response, &resolver, wall_time_ms)?;
    runs.ingest(run_id, &body, now)?;
    proof {
        lemma_ingest_keeps_wf(old(runs)@, run_id, body@, now);
    }
    match runs.get_run(run_id) {
        Some(run) => {
            proof {
                let tables = runs@;
                let i = choose|i: int| 0 <= i < tables.runs.len() && tables.runs[i] == run@;
                assert(old(runs)@.runs[i].solver_run_id == run_id);
            }
            Ok(run)
        },
        None => {
            proof {
                assert(false);
            }
            Err(ApiError::StoreFailed { cause: String::from_str("solver run not found") })
        },
    }
}

/// A run that ends through `complete_run` ends as succeeded or as failed.
pub proof fn lemma_completed_run_is_terminal(
    run_id: i64,
    shifts: Map<Seq<char>, i64>,
    staff: Map<Seq<char>, i64>,
    outcome: Result<SolveResponse, String>,
    wall_time_ms: u64,
)
    ensures
        completion_plan(run_id, shifts, staff, outcome, wall_time_ms) matches Ok(body) ==> (
        body.status == "succeeded"@ || body.status == "failed"@) && body.kpi is Some,
{
}

/// An answer with an assignment whose shift name or nurse identifier is
/// unknown to the unit, or whose day is no date, gives no report at all:
/// the plan fails with a failure that is the client's.
pub proof fn lemma_unresolved_assignment_fails_plan(
    run_id: i64,
    response: SolveResponse,
    shifts: Map<Seq<char>, i64>,
    staff: Map<Seq<char>, i64>,
    wall_time_ms: u64,
    k: int,
)
    requires
        0 <= k < response.assignments@.len(),
        resolve_one(response.assignments@[k], shifts, staff) is Err,
    ensures
        ingest_plan(run_id, response, shifts, staff, wall_time_ms) is Err,
        ingest_plan(run_id, response, shifts, staff, wall_time_ms)->Err_0
            == resolve_all(response.assignments@, shifts, staff)->Err_0,
        (ingest_plan(run_id, response, shifts, staff, wall_time_ms)->Err_0).class()
            == crate::errors::ErrorClass::Client,
{
    lemma_resolve_all_is_fail_fast(response.assignments@, shifts, staff);
    let e = resolve_all(response.assignments@, shifts, staff)->Err_0;
    let j = choose|j: int|
        0 <= j < response.assignments@.len() && #[trigger] resolve_one(
            response.assignments@[j],
            shifts,
            staff,
        ) == Err::<crate::solver_runs::AssignmentRowView, ApiErrorView>(e) && forall|i: int|
            0 <= i < j ==> (#[trigger] resolve_one(response.assignments@[i], shifts, staff)) is Ok;
}

} // verus!
