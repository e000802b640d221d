//! What the solver answers, and what a run hands to the ingestion step.

use crate::dates::{day_of_text, parse_day, Day};
use crate::errors::{ApiError, ApiErrorView};
use crate::kpi::{aggregate, kpi_of};
use crate::resolver::{resolved, Resolver};
use crate::text::{classify_status, run_status_for};
use vstd::prelude::*;
use vstd::string::StringExecFns;

verus! {

/// The request for a run of a scenario under a policy set.
#[derive(Clone, Debug, PartialEq, Eq)]
pub struct CreateRunBody {
    pub scenario_id: i64,
    pub policy_set_id: i64,
    pub seed: Option<i32>,
    pub workers: Option<i32>,
    pub code_version: Option<String>,
}

/// The filter of the list of runs.
#[derive(Clone, Copy, Debug, PartialEq, Eq, Structural)]
pub struct ListQ {
    pub scenario_id: Option<i64>,
}

/// One assignment as the solver writes it: a day, a shift name and a nurse
/// identifier, all as text.
#[derive(Clone, Debug, PartialEq, Eq)]
pub struct SolveAssignment {
    pub day: String,
    pub shift: String,
    pub nurse: String,
}

/// A shift of a day that the solver left short of `missing` nurses.
#[derive(Clone, Debug, PartialEq, Eq)]
pub struct SolveUnder {
    pub day: String,
    pub shift: String,
    pub missing: i32,
}

/// The solver's figures for one nurse.
#[derive(Clone, Debug, PartialEq, Eq)]
pub struct SolveNurseStats {
    pub nurse: String,
    pub assigned_shifts: i32,
    pub overtime: i32,
    pub nights: i32,
    pub satisfaction: i32,
}

/// The whole answer of the solver.
#[derive(Clone, Debug, PartialEq, Eq)]
pub struct SolveResponse {
    pub status: String,
    pub objective_value: Option<i64>,
    pub assignments: Vec<SolveAssignment>,
    pub understaffed: Vec<SolveUnder>,
    pub nurse_stats: Vec<SolveNurseStats>,
}

/// The summary figures of one run, as they are handed to ingestion.
#[derive(Clone, Copy, Debug, PartialEq, Eq, Structural)]
pub struct IngestKpiRow {
    pub solver_run_id: i64,
    pub avg_satisfaction: i32,
    pub understaff_total: i32,
    pub overtime_total: i32,
    pub night_violations: i32,
    pub senior_coverage_ok: bool,
}

/// One assignment with its names resolved, as it is handed to ingestion.
#[derive(Clone, Debug, PartialEq, Eq)]
pub struct IngestAssignmentRow {
    pub day: Day,
    pub shift_id: i64,
    pub staff_id: i64,
    pub is_overtime: bool,
    pub source: String,
}

/// An `IngestAssignmentRow` with its provenance tag as a sequence of
/// characters.
pub struct AssignmentRowView {
    pub day: Day,
    pub shift_id: i64,
    pub staff_id: i64,
    pub is_overtime: bool,
    pub source: Seq<char>,
}

impl View for IngestAssignmentRow {
    type V = AssignmentRowView;

    open spec fn view(&self) -> AssignmentRowView {
        AssignmentRowView {
            day: self.day,
            shift_id: self.shift_id,
            staff_id: self.staff_id,
            is_overtime: self.is_overtime,
            source: self.source@,
        }
    }
}

/// The views of a list of rows.
pub open spec fn rows_view(rows: Seq<IngestAssignmentRow>) -> Seq<AssignmentRowView> {
    rows.map_values(|row: IngestAssignmentRow| row@)
}

/// The view of an optional text.
pub open spec fn text_view(text: Option<String>) -> Option<Seq<char>> {
    match text {
        Some(t) => Some(t@),
        None => None,
    }
}

/// What a run reports when it ends: its status, how long the solver took in
/// milliseconds, where its logs are, its assignments and its summary.
#[derive(Clone, Debug, PartialEq, Eq)]
pub struct IngestBody {
    pub status: String,
    pub wall_time_ms: Option<u64>,
    pub logs_url: Option<String>,
    pub assignments: Vec<IngestAssignmentRow>,
    pub kpi: Option<IngestKpiRow>,
}

/// An `IngestBody` with its texts as sequences of characters.
pub struct IngestBodyView {
    pub status: Seq<char>,
    pub wall_time_ms: Option<u64>,
    pub logs_url: Option<Seq<char>>,
    pub assignments: Seq<AssignmentRowView>,
    pub kpi: Option<IngestKpiRow>,
}

impl View for IngestBody {
    type V = IngestBodyView;

    open spec fn view(&self) -> IngestBodyView {
        IngestBodyView {
            status: self.status@,
            wall_time_ms: self.wall_time_ms,
            logs_url: text_view(self.logs_url),
            assignments: rows_view(self.assignments@),
            kpi: self.kpi,
        }
    }
}

/// The provenance tag of an assignment that the solver produced.
pub open spec fn model_source() -> Seq<char> {
    "MODEL"@
}

/// One assignment of the solver with its names resolved: the day is read
/// first, then the shift is looked up, then the nurse; the first of the
/// three that fails gives the error, which names the text as it was written.
pub open spec fn resolve_one(
    a: SolveAssignment,
    shifts: Map<Seq<char>, i64>,
    staff: Map<Seq<char>, i64>,
) -> Result<AssignmentRowView, ApiErrorView> {
    match day_of_text(a.day@) {
        Err(cause) => Err(ApiErrorView::InvalidDate { token: a.day@, cause }),
        Ok(day) => match resolved(shifts, a.shift@) {
            None => Err(ApiErrorView::UnknownShift { token: a.shift@ }),
            Some(shift_id) => match resolved(staff, a.nurse@) {
                None => Err(ApiErrorView::UnknownStaff { token: a.nurse@ }),
                Some(staff_id) => Ok(
                    AssignmentRowView {
                        day,
                        shift_id,
                        staff_id,
                        is_overtime: false,
                        source: model_source(),
                    },
                ),
            },
        },
    }
}

/// All assignments of the solver with their names resolved, in their order;
/// or the error of the first one that does not resolve.
pub open spec fn resolve_all(
    list: Seq<SolveAssignment>,
    shifts: Map<Seq<char>, i64>,
    staff: Map<Seq<char>, i64>,
) -> Result<Seq<AssignmentRowView>, ApiErrorView>
    decreases list.len(),
{
    if list.len() == 0 {
        Ok(Seq::empty())
    } else {
        match resolve_all(list.drop_last(), shifts, staff) {
            Err(e) => Err(e),
            Ok(rows) => match resolve_one(list.last(), shifts, staff) {
                Err(e) => Err(e),
                Ok(row) => Ok(rows.push(row)),
            },
        }
    }
}

/// Resolution succeeds exactly when every assignment resolves, and then
/// gives one row for each, in order. When it fails, the error is that of
/// the first assignment that does not resolve.
pub proof fn lemma_resolve_all_is_fail_fast(
    list: Seq<SolveAssignment>,
    shifts: Map<Seq<char>, i64>,
    staff: Map<Seq<char>, i64>,
)
    ensures
        resolve_all(list, shifts, staff) is Ok <==> forall|i: int|
            0 <= i < list.len() ==> (#[trigger] resolve_one(list[i], shifts, staff)) is Ok,
        resolve_all(list, shifts, staff) matches Ok(rows) ==> rows.len() == list.len() && forall|
            i: int,
        |
            0 <= i < list.len() ==> Ok::<AssignmentRowView, ApiErrorView>(#[trigger] rows[i])
                == resolve_one(list[i], shifts, staff),
        resolve_all(list, shifts, staff) matches Err(e) ==> exists|k: int|
            0 <= k < list.len() && #[trigger] resolve_one(list[k], shifts, staff) == Err::<
                AssignmentRowView,
                ApiErrorView,
            >(e) && forall|i: int|
                0 <= i < k ==> (#[trigger] resolve_one(list[i], shifts, staff)) is Ok,
    decreases list.len(),
{
    if list.len() > 0 {
        let rest = list.drop_last();
        lemma_resolve_all_is_fail_fast(rest, shifts, staff);
        assert forall|i: int| 0 <= i < rest.len() implies rest[i] == list[i] by {}
        match resolve_all(rest, shifts, staff) {
            Err(e) => {
                let k = choose|k: int|
                    0 <= k < rest.len() && #[trigger] resolve_one(rest[k], shifts, staff) == Err::<
                        AssignmentRowView,
                        ApiErrorView,
                    >(e) && forall|i: int|
                        0 <= i < k ==> (#[trigger] resolve_one(rest[i], shifts, staff)) is Ok;
                assert(rest[k] == list[k]);
                assert(resolve_one(list[k], shifts, staff) is Err);
                assert forall|i: int| 0 <= i < k implies (#[trigger] resolve_one(
                    list[i],
                    shifts,
                    staff,
                )) is Ok by {
                    assert(rest[i] == list[i]);
                }
            },
            Ok(rows) => {
                assert forall|i: int| 0 <= i < rest.len() implies (#[trigger] resolve_one(
                    list[i],
                    shifts,
                    staff,
                )) is Ok by {
                    assert(rest[i] == list[i]);
                    assert(resolve_one(rest[i], shifts, staff) is Ok);
                }
                match resolve_one(list.last(), shifts, staff) {
                    Err(e) => {
                        let k = list.len() - 1;
                        assert(resolve_one(list[k], shifts, staff) == Err::<
                            AssignmentRowView,
                            ApiErrorView,
                        >(e));
                    },
                    Ok(row) => {
                        let all = rows.push(row);
                        assert forall|i: int| 0 <= i < list.len() implies Ok::<
                            AssignmentRowView,
                            ApiErrorView,
                        >(#[trigger] all[i]) == resolve_one(list[i], shifts, staff) by {
                            if i < rest.len() {
                                assert(rest[i] == list[i]);
                                assert(all[i] == rows[i]);
                            }
                        }
                    },
                }
            },
        }
    }
}

/// Once a prefix of the list fails to resolve, the whole list fails with
/// the same error.
proof fn lemma_prefix_error_stays(
    list: Seq<SolveAssignment>,
    k: int,
    shifts: Map<Seq<char>, i64>,
    staff: Map<Seq<char>, i64>,
)
    requires
        0 <= k <= list.len(),
        resolve_all(list.take(k), shifts, staff) is Err,
    ensures
        resolve_all(list, shifts, staff) == resolve_all(list.take(k), shifts, staff),
    decreases list.len() - k,
{
    if k < list.len() {
        assert(list.take(k + 1).drop_last() =~= list.take(k));
        lemma_prefix_error_stays(list, k + 1, shifts, staff);
    } else {
        assert(list.take(k) =~= list);
    }
}

/// Resolves one assignment of the solver.
pub fn resolve_assignment(a: &SolveAssignment, resolver: &Resolver) -> (r: Result<
    IngestAssignmentRow,
    ApiError,
>)
    ensures
        match resolve_one(*a, resolver.shifts(), resolver.staff()) {
            Ok(row) => r is Ok && r->Ok_0@ == row,
            Err(e) => r is Err && r->Err_0@ == e,
        },
{
    let day = match parse_day(a.day.as_str()) {
        Ok(day) => day,
        Err(cause) => {
            return Err(ApiError::InvalidDate { token: a.day.clone(), cause });
        },
    };
    let shift_id = resolver.resolve_shift(a.shift.as_str())?;
    let staff_id = resolver.resolve_staff(a.nurse.as_str())?;
    Ok(
        IngestAssignmentRow {
            day,
            shift_id,
            staff_id,
            is_overtime: false,
            source: String::from_str("MODEL"),
        },
    )
}

/// Resolves the assignments of the solver into rows for ingestion. Nothing
/// is returned for a list of which one entry does not resolve: the first
/// such entry gives the error.
pub fn resolve_assignments(assignments: &Vec<SolveAssignment>, resolver: &Resolver) -> (r: Result<
    Vec<IngestAssignmentRow>,
    ApiError,
>)
    ensures
        match resolve_all(assignments@, resolver.shifts(), resolver.staff()) {
            Ok(rows) => r is Ok && rows_view(r->Ok_0@) == rows,
            Err(e) => r is Err && r->Err_0@ == e,
        },
{
    let mut rows: Vec<IngestAssignmentRow> = Vec::with_capacity(assignments.len());
    let mut i: usize = 0;
    proof {
        assert(rows_view(rows@) =~= Seq::<AssignmentRowView>::empty());
    }
    while i < assignments.len()
        invariant
            i <= assignments.len(),
            resolve_all(assignments@.take(i as int), resolver.shifts(), resolver.staff()) == Ok::<
                Seq<AssignmentRowView>,
                ApiErrorView,
            >(rows_view(rows@)),
        decreases assignments.len() - i,
    {
        proof {
            assert(assignments@.take(i + 1).drop_last() =~= assignments@.take(i as int));
        }
        match resolve_assignment(&assignments[i], resolver) {
            Ok(row) => {
                proof {
                    assert(rows_view(rows@.push(row)) =~= rows_view(rows@).push(row@));
                }
                rows.push(row);
            },
            Err(e) => {
                proof {
                    lemma_prefix_error_stays(
                        assignments@,
                        i + 1,
                        resolver.shifts(),
                        resolver.staff(),
                    );
                }
                return Err(e);
            },
        }
        i += 1;
    }
    proof {
        assert(assignments@.take(assignments.len() as int) =~= assignments@);
    }
    Ok(rows)
}

/// What a run reports after the solver has answered: the error of
/// resolution where a name or a day does not resolve; else the error of the
/// summary where a total is out of range; else the status that the
/// solver's report stands for, the time the call took, no pointer to logs,
/// the resolved assignments and the summary.
pub open spec fn ingest_plan(
    run_id: i64,
    response: SolveResponse,
    shifts: Map<Seq<char>, i64>,
    staff: Map<Seq<char>, i64>,
    wall_time_ms: u64,
) -> Result<IngestBodyView, ApiErrorView> {
    match resolve_all(response.assignments@, shifts, staff) {
        Err(e) => Err(e),
        Ok(rows) => match kpi_of(run_id, response.nurse_stats@, response.understaffed@) {
            None => Err(ApiErrorView::TotalOutOfRange),
            Some(kpi) => Ok(
                IngestBodyView {
                    status: run_status_for(response.status@),
                    wall_time_ms: Some(wall_time_ms),
                    logs_url: None,
                    assignments: rows,
                    kpi: Some(kpi),
                },
            ),
        },
    }
}

/// Turns the solver's answer into the report of run `run_id`.
pub fn prepare_ingest(
    run_id: i64,
    response: &SolveResponse,
    resolver: &Resolver,
    wall_time_ms: u64,
) -> (r: Result<IngestBody, ApiError>)
    ensures
        match ingest_plan(run_id, *response, resolver.shifts(), resolver.staff(), wall_time_ms) {
            Ok(body) => r is Ok && r->Ok_0@ == body,
            Err(e) => r is Err && r->Err_0@ == e,
        },
{
    let assignments = resolve_assignments(&response.assignments, resolver)?;
    let kpi = match aggregate(run_id, &response.nurse_stats, &response.understaffed) {
        Some(kpi) => kpi,
        None => {
            return Err(ApiError::TotalOutOfRange);
        },
    };
    Ok(
        IngestBody {
            status: classify_status(response.status.as_str()),
            wall_time_ms: Some(wall_time_ms),
            logs_url: None,
            assignments,
            kpi: Some(kpi),
        },
    )
}

} // verus!
