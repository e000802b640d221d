//! The rows of the store.

use crate::dates::Day;
use crate::solver_runs::text_view;
use vstd::prelude::*;

verus! {

/// A copy of an optional text.
pub fn copy_text(text: &Option<String>) -> (r: Option<String>)
    ensures
        r == *text,
{
    match text {
        Some(t) => Some(t.clone()),
        None => None,
    }
}

/// A copy of a list of bytes.
pub fn copy_bytes(bytes: &Vec<u8>) -> (r: Vec<u8>)
    ensures
        r@ == bytes@,
{
    let mut r: Vec<u8> = Vec::with_capacity(bytes.len());
    let mut i: usize = 0;
    while i < bytes.len()
        invariant
            i <= bytes.len(),
            r@ == bytes@.take(i as int),
        decreases bytes.len() - i,
    {
        r.push(bytes[i]);
        proof {
            assert(bytes@.take(i as int).push(bytes[i as int]) =~= bytes@.take(i + 1));
        }
        i += 1;
    }
    proof {
        assert(bytes@.take(bytes.len() as int) =~= bytes@);
    }
    r
}

/// A shift of a unit. The times are seconds after midnight; the required
/// skills are a JSON text.
#[derive(Clone, Debug, PartialEq, Eq)]
pub struct ShiftPattern {
    pub shift_pattern_id: i64,
    pub unit_id: i64,
    pub name: String,
    pub start_time: u32,
    pub end_time: u32,
    pub is_night: bool,
    pub required_skills: String,
}

/// A nurse of a unit.
#[derive(Clone, Debug, PartialEq, Eq)]
pub struct Staff {
    pub staff_id: i64,
    pub unit_id: i64,
    pub code: String,
    pub full_name: String,
    pub nickname: Option<String>,
    pub role: Option<String>,
    pub skills: Vec<String>,
    pub contract_type: Option<String>,
    pub max_weekly_hours: Option<i32>,
    pub enabled: bool,
}

/// One scheduling problem of a unit, found again by the digest of its
/// payload. The payload is held in its canonical bytes.
#[derive(Clone, Debug, PartialEq, Eq)]
pub struct Scenario {
    pub scenario_id: i64,
    pub unit_id: i64,
    pub source: String,
    pub input_hash: String,
    pub payload: Vec<u8>,
    pub status: String,
    pub created_by: Option<i64>,
    pub created_at: i64,
}

/// A `Scenario` with its texts as sequences.
pub struct ScenarioView {
    pub scenario_id: i64,
    pub unit_id: i64,
    pub source: Seq<char>,
    pub input_hash: Seq<char>,
    pub payload: Seq<u8>,
    pub status: Seq<char>,
    pub created_by: Option<i64>,
    pub created_at: i64,
}

impl View for Scenario {
    type V = ScenarioView;

    open spec fn view(&self) -> ScenarioView {
        ScenarioView {
            scenario_id: self.scenario_id,
            unit_id: self.unit_id,
            source: self.source@,
            input_hash: self.input_hash@,
            payload: self.payload@,
            status: self.status@,
            created_by: self.created_by,
            created_at: self.created_at,
        }
    }
}

impl Scenario {
    /// A copy of the row.
    pub fn duplicate(&self) -> (r: Scenario)
        ensures
            r@ == self@,
    {
        Scenario {
            scenario_id: self.scenario_id,
            unit_id: self.unit_id,
            source: self.source.clone(),
            input_hash: self.input_hash.clone(),
            payload: copy_bytes(&self.payload),
            status: self.status.clone(),
            created_by: self.created_by,
            created_at: self.created_at,
        }
    }
}

/// One attempt to solve a scenario under a policy set. The time that the
/// solver took is held in whole milliseconds.
#[derive(Clone, Debug, PartialEq, Eq)]
pub struct SolverRun {
    pub solver_run_id: i64,
    pub scenario_id: i64,
    pub policy_set_id: i64,
    pub status: String,
    pub seed: Option<i32>,
    pub workers: Option<i32>,
    pub wall_time_ms: Option<u64>,
    pub code_version: Option<String>,
    pub logs_url: Option<String>,
    pub started_at: Option<i64>,
    pub finished_at: Option<i64>,
}

/// A `SolverRun` with its texts as sequences.
pub struct SolverRunView {
    pub solver_run_id: i64,
    pub scenario_id: i64,
    pub policy_set_id: i64,
    pub status: Seq<char>,
    pub seed: Option<i32>,
    pub workers: Option<i32>,
    pub wall_time_ms: Option<u64>,
    pub code_version: Option<Seq<char>>,
    pub logs_url: Option<Seq<char>>,
    pub started_at: Option<i64>,
    pub finished_at: Option<i64>,
}

impl View for SolverRun {
    type V = SolverRunView;

    open spec fn view(&self) -> SolverRunView {
        SolverRunView {
            solver_run_id: self.solver_run_id,
            scenario_id: self.scenario_id,
            policy_set_id: self.policy_set_id,
            status: self.status@,
            seed: self.seed,
            workers: self.workers,
            wall_time_ms: self.wall_time_ms,
            code_version: text_view(self.code_version),
            logs_url: text_view(self.logs_url),
            started_at: self.started_at,
            finished_at: self.finished_at,
        }
    }
}

impl SolverRun {
    /// A copy of the row.
    pub fn duplicate(&self) -> (r: SolverRun)
        ensures
            r@ == self@,
    {
        SolverRun {
            solver_run_id: self.solver_run_id,
            scenario_id: self.scenario_id,
            policy_set_id: self.policy_set_id,
            status: self.status.clone(),
            seed: self.seed,
            workers: self.workers,
            wall_time_ms: self.wall_time_ms,
            code_version: copy_text(&self.code_version),
            logs_url: copy_text(&self.logs_url),
            started_at: self.started_at,
            finished_at: self.finished_at,
        }
    }
}

/// One nurse on one shift of one day, as a run produced it.
#[derive(Clone, Debug, PartialEq, Eq)]
pub struct Assignment {
    pub assignment_id: i64,
    pub solver_run_id: i64,
    pub day: Day,
    pub shift_id: i64,
    pub staff_id: i64,
    pub is_overtime: bool,
    pub source: String,
}

/// An `Assignment` with its provenance tag as a sequence.
pub struct AssignmentView {
    pub assignment_id: i64,
    pub solver_run_id: i64,
    pub day: Day,
    pub shift_id: i64,
    pub staff_id: i64,
    pub is_overtime: bool,
    pub source: Seq<char>,
}

impl View for Assignment {
    type V = AssignmentView;

    open spec fn view(&self) -> AssignmentView {
        AssignmentView {
            assignment_id: self.assignment_id,
            solver_run_id: self.solver_run_id,
            day: self.day,
            shift_id: self.shift_id,
            staff_id: self.staff_id,
            is_overtime: self.is_overtime,
            source: self.source@,
        }
    }
}

impl Assignment {
    /// A copy of the row.
    pub fn duplicate(&self) -> (r: Assignment)
        ensures
            r@ == self@,
    {
        Assignment {
            assignment_id: self.assignment_id,
            solver_run_id: self.solver_run_id,
            day: self.day,
            shift_id: self.shift_id,
            staff_id: self.staff_id,
            is_overtime: self.is_overtime,
            source: self.source.clone(),
        }
    }
}

/// The summary of one run. There is at most one for each run.
#[derive(Clone, Copy, Debug, PartialEq, Eq, Structural)]
pub struct Kpi {
    pub solver_run_id: i64,
    pub avg_satisfaction: i32,
    pub understaff_total: i32,
    pub overtime_total: i32,
    pub night_violations: i32,
    pub senior_coverage_ok: bool,
}

/// How many items a bulk operation wrote.
#[derive(Clone, Copy, Debug, PartialEq, Eq, Structural)]
pub struct UpsertCount {
    pub upserted: usize,
}

/// What an ingestion did: whether it found the run, how many assignments it
/// added, and whether it wrote a summary.
#[derive(Clone, Copy, Debug, PartialEq, Eq, Structural)]
pub struct IngestRunResult {
    pub updated: bool,
    pub assignments_inserted: usize,
    pub kpi_upserted: bool,
}

} // verus!
