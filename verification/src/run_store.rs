//! The store of solver runs with what they produced: assignments and
//! summaries. A run's results are ingested in one step, which either takes
//! place as a whole or leaves the store as it was.

use crate::assignments::{by_day_and_shift, listed_rows, run_rows, ListQ};
use crate::dates::Day;
use crate::ordering::lemma_place_of;
use crate::errors::{ApiError, ApiErrorView};
use crate::models::{
    copy_text, Assignment, AssignmentView, IngestRunResult, Kpi, SolverRun, SolverRunView,
};
use crate::solver_runs::{
    rows_view, text_view, AssignmentRowView, CreateRunBody, IngestAssignmentRow, IngestBody,
    IngestBodyView, IngestKpiRow,
};
use vstd::prelude::*;
use vstd::string::StringExecFns;

verus! {

/// The status of a run that was recorded and has not reported yet.
pub open spec fn queued_status() -> Seq<char> {
    "queued"@
}

/// A run after it has reported: its status is the reported one, its time
/// and its pointer to logs are replaced where the report gives them and
/// kept where it does not, and it has finished at `now`.
pub open spec fn finished(run: SolverRunView, body: IngestBodyView, now: i64) -> SolverRunView {
    SolverRunView {
        status: body.status,
        wall_time_ms: match body.wall_time_ms {
            Some(t) => Some(t),
            None => run.wall_time_ms,
        },
        logs_url: match body.logs_url {
            Some(url) => Some(url),
            None => run.logs_url,
        },
        finished_at: Some(now),
        ..run
    }
}

/// The slot of a stored assignment: its run, day, shift and nurse.
pub open spec fn slot_of(a: AssignmentView) -> (i64, Day, i64, i64) {
    (a.solver_run_id, a.day, a.shift_id, a.staff_id)
}

/// The slot that a reported row takes in a run.
pub open spec fn row_slot(run_id: i64, row: AssignmentRowView) -> (i64, Day, i64, i64) {
    (run_id, row.day, row.shift_id, row.staff_id)
}

/// Whether a stored assignment stands for the same run, day, shift and
/// nurse as a reported row.
pub open spec fn same_slot(a: AssignmentView, run_id: i64, row: AssignmentRowView) -> bool {
    slot_of(a) == row_slot(run_id, row)
}

/// Whether the stored assignments hold the slot of a reported row.
pub open spec fn has_slot(
    assignments: Seq<AssignmentView>,
    run_id: i64,
    row: AssignmentRowView,
) -> bool {
    exists|i: int| 0 <= i < assignments.len() && same_slot(#[trigger] assignments[i], run_id, row)
}

/// A reported row as it is stored under an id.
pub open spec fn stored_row(id: int, run_id: i64, row: AssignmentRowView) -> AssignmentView {
    AssignmentView {
        assignment_id: id as i64,
        solver_run_id: run_id,
        day: row.day,
        shift_id: row.shift_id,
        staff_id: row.staff_id,
        is_overtime: row.is_overtime,
        source: row.source,
    }
}

/// The stored assignments after the rows of a report were added in their
/// order. A row whose slot is taken is skipped. The rows that are added get
/// the ids from `first_id` on.
pub open spec fn with_rows(
    existing: Seq<AssignmentView>,
    first_id: int,
    run_id: i64,
    rows: Seq<AssignmentRowView>,
) -> Seq<AssignmentView>
    decreases rows.len(),
{
    if rows.len() == 0 {
        existing
    } else {
        let so_far = with_rows(existing, first_id, run_id, rows.drop_last());
        if has_slot(so_far, run_id, rows.last()) {
            so_far
        } else {
            so_far.push(stored_row(first_id + so_far.len() - existing.len(), run_id, rows.last()))
        }
    }
}

/// A reported summary as it is stored for a run: under the id of that run,
/// whatever id the report itself names.
pub open spec fn stored_kpi(run_id: i64, kpi: IngestKpiRow) -> Kpi {
    Kpi {
        solver_run_id: run_id,
        avg_satisfaction: kpi.avg_satisfaction,
        understaff_total: kpi.understaff_total,
        overtime_total: kpi.overtime_total,
        night_violations: kpi.night_violations,
        senior_coverage_ok: kpi.senior_coverage_ok,
    }
}

/// Whether a summary is stored for a run.
pub open spec fn has_kpi(kpis: Seq<Kpi>, run_id: i64) -> bool {
    exists|i: int| 0 <= i < kpis.len() && (#[trigger] kpis[i]).solver_run_id == run_id
}

/// The stored summaries after one was reported for a run: it replaces the
/// summary of that run where there is one, else it is added.
pub open spec fn with_kpi(kpis: Seq<Kpi>, run_id: i64, kpi: IngestKpiRow) -> Seq<Kpi> {
    if has_kpi(kpis, run_id) {
        kpis.map_values(
            |k: Kpi|
                if k.solver_run_id == run_id {
                    stored_kpi(run_id, kpi)
                } else {
                    k
                },
        )
    } else {
        kpis.push(stored_kpi(run_id, kpi))
    }
}

/// The tables of the store: runs in the order of their ids, assignments and
/// summaries in the order in which they were first written, and the ids
/// that the next run and the next assignment get.
pub struct RunTables {
    pub runs: Seq<SolverRunView>,
    pub assignments: Seq<AssignmentView>,
    pub kpis: Seq<Kpi>,
    pub next_run_id: int,
    pub next_assignment_id: int,
}

impl RunTables {
    /// Whether there is a run with an id.
    pub open spec fn has_run(self, run_id: i64) -> bool {
        exists|i: int| 0 <= i < self.runs.len() && (#[trigger] self.runs[i]).solver_run_id == run_id
    }

    /// What holds of every store: run ids grow along the table and lie
    /// below the next one; assignment ids do too; no two assignments share
    /// run, day, shift and nurse; no two summaries share a run; assignments
    /// and summaries belong to runs of the store.
    pub open spec fn wf(self) -> bool {
        &&& 1 <= self.next_run_id <= i64::MAX
        &&& 1 <= self.next_assignment_id <= i64::MAX
        &&& forall|i: int|
            0 <= i < self.runs.len() ==> (#[trigger] self.runs[i]).solver_run_id
                < self.next_run_id
        &&& forall|i: int, j: int|
            0 <= i < j < self.runs.len() ==> (#[trigger] self.runs[i]).solver_run_id < (
            #[trigger] self.runs[j]).solver_run_id
        &&& forall|i: int|
            0 <= i < self.assignments.len() ==> (#[trigger] self.assignments[i]).assignment_id
                < self.next_assignment_id
        &&& forall|i: int, j: int|
            0 <= i < j < self.assignments.len() ==> (#[trigger] self.assignments[i]).assignment_id
                < (#[trigger] self.assignments[j]).assignment_id
        &&& slots_differ(self.assignments)
        &&& forall|i: int, j: int|
            0 <= i < self.kpis.len() && 0 <= j < self.kpis.len() && i != j ==> (
            #[trigger] self.kpis[i]).solver_run_id != (#[trigger] self.kpis[j]).solver_run_id
        &&& forall|i: int|
            0 <= i < self.assignments.len() ==> self.has_run(
                (#[trigger] self.assignments[i]).solver_run_id,
            )
        &&& forall|i: int|
            0 <= i < self.kpis.len() ==> self.has_run((#[trigger] self.kpis[i]).solver_run_id)
    }

    /// The store after a run for a scenario under a policy set was
    /// recorded: a new run, queued, started at `now`.
    pub open spec fn create(
        self,
        scenario_id: i64,
        policy_set_id: i64,
        seed: Option<i32>,
        workers: Option<i32>,
        code_version: Option<Seq<char>>,
        now: i64,
    ) -> RunTables {
        RunTables {
            runs: self.runs.push(
                SolverRunView {
                    solver_run_id: self.next_run_id as i64,
                    scenario_id,
                    policy_set_id,
                    status: queued_status(),
                    seed,
                    workers,
                    wall_time_ms: None,
                    code_version,
                    logs_url: None,
                    started_at: Some(now),
                    finished_at: None,
                },
            ),
            next_run_id: self.next_run_id + 1,
            ..self
        }
    }

    /// The store after the report of a run was ingested at `now`.
    pub open spec fn ingest(self, run_id: i64, body: IngestBodyView, now: i64) -> RunTables {
        let assignments = with_rows(
            self.assignments,
            self.next_assignment_id,
            run_id,
            body.assignments,
        );
        RunTables {
            runs: self.runs.map_values(
                |run: SolverRunView|
                    if run.solver_run_id == run_id {
                        finished(run, body, now)
                    } else {
                        run
                    },
            ),
            assignments,
            kpis: match body.kpi {
                Some(kpi) => with_kpi(self.kpis, run_id, kpi),
                None => self.kpis,
            },
            next_run_id: self.next_run_id,
            next_assignment_id: self.next_assignment_id + assignments.len()
                - self.assignments.len(),
        }
    }
}

/// The words of the failure when a report with results names no run of the
/// store.
pub open spec fn run_missing() -> Seq<char> {
    "solver run not found"@
}

/// The words of the failure when no id is left for a new run.
pub open spec fn run_ids_exhausted() -> Seq<char> {
    "solver run ids exhausted"@
}

/// The words of the failure when the ids that are left do not suffice for
/// the assignments of a report.
pub open spec fn assignment_ids_exhausted() -> Seq<char> {
    "assignment ids exhausted"@
}

impl RunTables {
    /// What ingesting a report does, and what it answers.
    ///
    /// A report for a run that the store does not have changes nothing; it
    /// is refused if it brings assignments or a summary, which cannot exist
    /// without their run. A report is also refused, and changes nothing,
    /// when the ids that are left do not suffice for its assignments.
    /// Otherwise the report is ingested as a whole.
    pub open spec fn ingest_outcome(self, run_id: i64, body: IngestBodyView, now: i64) -> Result<
        (RunTables, IngestRunResult),
        ApiErrorView,
    > {
        if !self.has_run(run_id) {
            if body.assignments.len() == 0 && body.kpi is None {
                Ok(
                    (
                        self,
                        IngestRunResult {
                            updated: false,
                            assignments_inserted: 0,
                            kpi_upserted: false,
                        },
                    ),
                )
            } else {
                Err(ApiErrorView::StoreFailed { cause: run_missing() })
            }
        } else if self.next_assignment_id + body.assignments.len() > i64::MAX {
            Err(ApiErrorView::StoreFailed { cause: assignment_ids_exhausted() })
        } else {
            let after = self.ingest(run_id, body, now);
            Ok(
                (
                    after,
                    IngestRunResult {
                        updated: true,
                        assignments_inserted: (after.assignments.len()
                            - self.assignments.len()) as usize,
                        kpi_upserted: body.kpi is Some,
                    },
                ),
            )
        }
    }
}

/// No two assignments share run, day, shift and nurse.
pub open spec fn slots_differ(assignments: Seq<AssignmentView>) -> bool {
    forall|i: int, j: int|
        0 <= i < assignments.len() && 0 <= j < assignments.len() && i != j ==> slot_of(
            #[trigger] assignments[i],
        ) != slot_of(#[trigger] assignments[j])
}

/// What adding the rows of a report does to the stored assignments: what
/// was stored stays in place; what is added belongs to the run and, as long
/// as ids are left, gets the next ids in order; no slot is taken twice; and
/// every reported row then has its slot in the store.
pub proof fn lemma_with_rows(
    existing: Seq<AssignmentView>,
    first_id: int,
    run_id: i64,
    rows: Seq<AssignmentRowView>,
)
    ensures
        ({
            let all = with_rows(existing, first_id, run_id, rows);
            &&& existing.len() <= all.len() <= existing.len() + rows.len()
            &&& forall|k: int| 0 <= k < existing.len() ==> #[trigger] all[k] == existing[k]
            &&& forall|k: int|
                existing.len() <= k < all.len() ==> (#[trigger] all[k]).solver_run_id == run_id
            &&& first_id >= 1 && first_id + rows.len() <= i64::MAX ==> forall|k: int|
                existing.len() <= k < all.len() ==> (#[trigger] all[k]).assignment_id == first_id
                    + k - existing.len()
            &&& slots_differ(existing) ==> slots_differ(all)
            &&& forall|k: int| 0 <= k < rows.len() ==> has_slot(all, run_id, #[trigger] rows[k])
        }),
    decreases rows.len(),
{
    if rows.len() > 0 {
        let rest = rows.drop_last();
        let so_far = with_rows(existing, first_id, run_id, rest);
        let all = with_rows(existing, first_id, run_id, rows);
        lemma_with_rows(existing, first_id, run_id, rest);
        if has_slot(so_far, run_id, rows.last()) {
            assert forall|k: int| 0 <= k < rows.len() implies has_slot(
                all,
                run_id,
                #[trigger] rows[k],
            ) by {
                if k < rest.len() {
                    assert(rest[k] == rows[k]);
                }
            }
        } else {
            let added = stored_row(first_id + so_far.len() - existing.len(), run_id, rows.last());
            assert(all == so_far.push(added));
            assert(same_slot(all[so_far.len() as int], run_id, rows.last()));
            assert forall|k: int| 0 <= k < rows.len() implies has_slot(
                all,
                run_id,
                #[trigger] rows[k],
            ) by {
                if k < rest.len() {
                    assert(rest[k] == rows[k]);
                    let i = choose|i: int|
                        0 <= i < so_far.len() && same_slot(#[trigger] so_far[i], run_id, rest[k]);
                    assert(same_slot(all[i], run_id, rows[k]));
                }
            }
            if slots_differ(existing) {
                assert forall|i: int, j: int|
                    0 <= i < all.len() && 0 <= j < all.len() && i != j implies slot_of(
                    #[trigger] all[i],
                ) != slot_of(#[trigger] all[j]) by {
                    if i < so_far.len() && j < so_far.len() {
                        assert(all[i] == so_far[i] && all[j] == so_far[j]);
                    } else if i < so_far.len() {
                        assert(all[i] == so_far[i]);
                        assert(!same_slot(so_far[i], run_id, rows.last()));
                    } else {
                        assert(all[j] == so_far[j]);
                        assert(!same_slot(so_far[j], run_id, rows.last()));
                    }
                }
            }
        }
    }
}

/// Rows whose slots are all taken add nothing.
pub proof fn lemma_taken_rows_add_nothing(
    existing: Seq<AssignmentView>,
    first_id: int,
    run_id: i64,
    rows: Seq<AssignmentRowView>,
)
    requires
        forall|k: int| 0 <= k < rows.len() ==> has_slot(existing, run_id, #[trigger] rows[k]),
    ensures
        with_rows(existing, first_id, run_id, rows) == existing,
    decreases rows.len(),
{
    if rows.len() > 0 {
        let rest = rows.drop_last();
        assert forall|k: int| 0 <= k < rest.len() implies has_slot(
            existing,
            run_id,
            #[trigger] rest[k],
        ) by {
            assert(rest[k] == rows[k]);
        }
        lemma_taken_rows_add_nothing(existing, first_id, run_id, rest);
        assert(has_slot(existing, run_id, rows[rows.len() - 1]));
    }
}

/// Ingesting keeps a store well formed.
pub proof fn lemma_ingest_keeps_wf(tables: RunTables, run_id: i64, body: IngestBodyView, now: i64)
    requires
        tables.wf(),
        tables.has_run(run_id),
        tables.next_assignment_id + body.assignments.len() <= i64::MAX,
    ensures
        tables.ingest(run_id, body, now).wf(),
        tables.ingest(run_id, body, now).has_run(run_id),
        tables.ingest(run_id, body, now).runs.len() == tables.runs.len(),
{
    let after = tables.ingest(run_id, body, now);
    lemma_with_rows(tables.assignments, tables.next_assignment_id, run_id, body.assignments);
    assert forall|id: i64| tables.has_run(id) implies after.has_run(id) by {
        let i = choose|i: int|
            0 <= i < tables.runs.len() && (#[trigger] tables.runs[i]).solver_run_id == id;
        assert(after.runs[i].solver_run_id == id);
    }
    assert forall|i: int| 0 <= i < after.assignments.len() implies after.has_run(
        (#[trigger] after.assignments[i]).solver_run_id,
    ) by {
        if i < tables.assignments.len() {
            assert(after.assignments[i] == tables.assignments[i]);
            assert(tables.has_run(tables.assignments[i].solver_run_id));
        }
    }
    assert forall|i: int| 0 <= i < after.kpis.len() implies after.has_run(
        (#[trigger] after.kpis[i]).solver_run_id,
    ) by {
        if i < tables.kpis.len() {
            assert(tables.has_run(tables.kpis[i].solver_run_id));
        }
    }
    assert forall|i: int, j: int|
        0 <= i < j < after.assignments.len() implies (#[trigger] after.assignments[i]).assignment_id
        < (#[trigger] after.assignments[j]).assignment_id by {
        if j < tables.assignments.len() {
            assert(after.assignments[i] == tables.assignments[i]);
            assert(after.assignments[j] == tables.assignments[j]);
        } else if i < tables.assignments.len() {
            assert(after.assignments[i] == tables.assignments[i]);
        }
    }
    assert forall|i: int| 0 <= i < after.assignments.len() implies (
    #[trigger] after.assignments[i]).assignment_id < after.next_assignment_id by {
        if i < tables.assignments.len() {
            assert(after.assignments[i] == tables.assignments[i]);
        }
    }
}

/// Ingesting one report twice for one run leaves the assignments as they
/// were after the first time: no row is added twice.
pub proof fn lemma_ingest_twice_adds_nothing(
    tables: RunTables,
    run_id: i64,
    body: IngestBodyView,
    first_now: i64,
    second_now: i64,
)
    ensures
        ({
            let once = tables.ingest(run_id, body, first_now);
            let twice = once.ingest(run_id, body, second_now);
            &&& twice.assignments == once.assignments
            &&& twice.assignments.len() == once.assignments.len()
            &&& twice.next_assignment_id == once.next_assignment_id
            &&& twice.kpis == once.kpis
        }),
{
    let once = tables.ingest(run_id, body, first_now);
    let twice = once.ingest(run_id, body, second_now);
    lemma_with_rows(tables.assignments, tables.next_assignment_id, run_id, body.assignments);
    lemma_taken_rows_add_nothing(
        once.assignments,
        once.next_assignment_id,
        run_id,
        body.assignments,
    );
    match body.kpi {
        Some(kpi) => {
            lemma_with_kpi(tables.kpis, run_id, kpi);
            assert(with_kpi(once.kpis, run_id, kpi) =~= once.kpis);
        },
        None => {},
    }
}

/// After a summary was written for a run, the run has exactly one summary,
/// and it is the one that was written. The other runs keep theirs.
pub proof fn lemma_with_kpi(kpis: Seq<Kpi>, run_id: i64, kpi: IngestKpiRow)
    ensures
        ({
            let after = with_kpi(kpis, run_id, kpi);
            &&& has_kpi(after, run_id)
            &&& forall|i: int|
                0 <= i < after.len() && (#[trigger] after[i]).solver_run_id == run_id ==> after[i]
                    == stored_kpi(run_id, kpi)
            &&& has_kpi(kpis, run_id) ==> after.len() == kpis.len()
            &&& !has_kpi(kpis, run_id) ==> after.len() == kpis.len() + 1
            &&& forall|i: int|
                0 <= i < kpis.len() ==> (#[trigger] after[i]).solver_run_id
                    == kpis[i].solver_run_id
            &&& forall|i: int|
                0 <= i < kpis.len() && kpis[i].solver_run_id != run_id ==> #[trigger] after[i]
                    == kpis[i]
        }),
{
    let after = with_kpi(kpis, run_id, kpi);
    if has_kpi(kpis, run_id) {
        let i = choose|i: int| 0 <= i < kpis.len() && (#[trigger] kpis[i]).solver_run_id == run_id;
        assert(after[i].solver_run_id == run_id);
    } else {
        assert(after[kpis.len() as int].solver_run_id == run_id);
    }
}

/// A later summary for a run overwrites the earlier one: after two reports
/// with summaries, the run has the second summary and no other, and no
/// summary was added by the second report.
pub proof fn lemma_later_kpi_overwrites(
    tables: RunTables,
    run_id: i64,
    first: IngestBodyView,
    first_now: i64,
    second: IngestBodyView,
    second_now: i64,
)
    requires
        tables.wf(),
        first.kpi is Some,
        second.kpi is Some,
    ensures
        ({
            let once = tables.ingest(run_id, first, first_now);
            let twice = once.ingest(run_id, second, second_now);
            &&& twice.kpis.len() == once.kpis.len()
            &&& has_kpi(twice.kpis, run_id)
            &&& forall|i: int|
                0 <= i < twice.kpis.len() && (#[trigger] twice.kpis[i]).solver_run_id == run_id
                    ==> twice.kpis[i] == stored_kpi(run_id, second.kpi->Some_0)
            &&& forall|i: int, j: int|
                0 <= i < twice.kpis.len() && 0 <= j < twice.kpis.len() && i != j ==> (
                #[trigger] twice.kpis[i]).solver_run_id != (#[trigger] twice.kpis[j]).solver_run_id
        }),
{
    let once = tables.ingest(run_id, first, first_now);
    let twice = once.ingest(run_id, second, second_now);
    lemma_with_kpi(tables.kpis, run_id, first.kpi->Some_0);
    lemma_with_kpi(once.kpis, run_id, second.kpi->Some_0);
    assert forall|i: int, j: int|
        0 <= i < once.kpis.len() && 0 <= j < once.kpis.len() && i != j implies (
    #[trigger] once.kpis[i]).solver_run_id != (#[trigger] once.kpis[j]).solver_run_id by {
        if i < tables.kpis.len() && j < tables.kpis.len() {
            assert(tables.kpis[i].solver_run_id != tables.kpis[j].solver_run_id);
        } else if i < tables.kpis.len() {
            assert(once.kpis[i].solver_run_id == tables.kpis[i].solver_run_id);
        } else if j < tables.kpis.len() {
            assert(once.kpis[j].solver_run_id == tables.kpis[j].solver_run_id);
        }
    }
    assert forall|i: int, j: int|
        0 <= i < twice.kpis.len() && 0 <= j < twice.kpis.len() && i != j implies (
    #[trigger] twice.kpis[i]).solver_run_id != (#[trigger] twice.kpis[j]).solver_run_id by {
        assert(twice.kpis[i].solver_run_id == once.kpis[i].solver_run_id);
        assert(twice.kpis[j].solver_run_id == once.kpis[j].solver_run_id);
    }
}

/// In a well-formed store the runs stand by growing id, so the list of
/// runs, which shows them from the last to the first, shows the highest id
/// first.
pub proof fn lemma_listed_runs_descend(tables: RunTables)
    requires
        tables.wf(),
    ensures
        forall|i: int, j: int|
            0 <= i < j < tables.runs.len() ==> (#[trigger] tables.runs.reverse()[i]).solver_run_id
                > (#[trigger] tables.runs.reverse()[j]).solver_run_id,
{
    let listed = tables.runs.reverse();
    assert forall|i: int, j: int| 0 <= i < j < tables.runs.len() implies (
    #[trigger] listed[i]).solver_run_id > (#[trigger] listed[j]).solver_run_id by {
        let n = tables.runs.len();
        assert(listed[i] == tables.runs[n - 1 - i]);
        assert(listed[j] == tables.runs[n - 1 - j]);
    }
}

/// The views of stored runs.
pub open spec fn runs_view(rows: Seq<SolverRun>) -> Seq<SolverRunView> {
    rows.map_values(|row: SolverRun| row@)
}

/// The views of stored assignments.
pub open spec fn assignments_view(rows: Seq<Assignment>) -> Seq<AssignmentView> {
    rows.map_values(|row: Assignment| row@)
}

/// Whether the slot of a row is taken.
fn slot_taken(assignments: &Vec<Assignment>, run_id: i64, row: &IngestAssignmentRow) -> (taken:
    bool)
    ensures
        taken == has_slot(assignments_view(assignments@), run_id, row@),
{
    let mut i: usize = 0;
    while i < assignments.len()
        invariant
            i <= assignments.len(),
            forall|k: int|
                0 <= k < i ==> !same_slot(
                    #[trigger] assignments_view(assignments@)[k],
                    run_id,
                    row@,
                ),
        decreases assignments.len() - i,
    {
        let a = &assignments[i];
        if a.solver_run_id == run_id && a.day == row.day && a.shift_id == row.shift_id
            && a.staff_id == row.staff_id {
            assert(same_slot(assignments_view(assignments@)[i as int], run_id, row@));
            return true;
        }
        i += 1;
    }
    false
}

/// Adds the rows of a report to the stored assignments.
fn add_rows(
    assignments: &mut Vec<Assignment>,
    first_id: i64,
    run_id: i64,
    rows: &Vec<IngestAssignmentRow>,
)
    requires
        first_id >= 1,
        first_id + rows.len() <= i64::MAX,
    ensures
        assignments_view(final(assignments)@) == with_rows(
            assignments_view(old(assignments)@),
            first_id as int,
            run_id,
            rows_view(rows@),
        ),
{
    let ghost before = assignments_view(assignments@);
    let ghost reported = rows_view(rows@);
    let start: usize = assignments.len();
    let mut added: u64 = 0;
    let mut i: usize = 0;
    while i < rows.len()
        invariant
            i <= rows.len(),
            first_id >= 1,
            first_id + rows.len() <= i64::MAX,
            reported == rows_view(rows@),
            before.len() == start,
            assignments.len() == start + added,
            added <= i,
            assignments_view(assignments@) == with_rows(
                before,
                first_id as int,
                run_id,
                reported.take(i as int),
            ),
        decreases rows.len() - i,
    {
        proof {
            assert(reported.take(i + 1).drop_last() =~= reported.take(i as int));
            assert(reported.take(i + 1).last() == rows[i as int]@);
        }
        if !slot_taken(assignments, run_id, &rows[i]) {
            let row = Assignment {
                assignment_id: first_id + added as i64,
                solver_run_id: run_id,
                day: rows[i].day,
                shift_id: rows[i].shift_id,
                staff_id: rows[i].staff_id,
                is_overtime: rows[i].is_overtime,
                source: rows[i].source.clone(),
            };
            proof {
                assert(assignments_view(assignments@.push(row)) =~= assignments_view(
                    assignments@,
                ).push(row@));
            }
            assignments.push(row);
            added = added + 1;
        }
        i += 1;
    }
    proof {
        assert(reported.take(rows.len() as int) =~= reported);
    }
}

/// Writes the summary of a run into the stored summaries.
fn put_kpi(kpis: &mut Vec<Kpi>, run_id: i64, kpi: &IngestKpiRow)
    requires
        forall|i: int, j: int|
            0 <= i < old(kpis).len() && 0 <= j < old(kpis).len() && i != j ==> (
            #[trigger] old(kpis)@[i]).solver_run_id != (#[trigger] old(kpis)@[j]).solver_run_id,
    ensures
        final(kpis)@ == with_kpi(old(kpis)@, run_id, *kpi),
{
    let row = Kpi {
        solver_run_id: run_id,
        avg_satisfaction: kpi.avg_satisfaction,
        understaff_total: kpi.understaff_total,
        overtime_total: kpi.overtime_total,
        night_violations: kpi.night_violations,
        senior_coverage_ok: kpi.senior_coverage_ok,
    };
    let mut i: usize = 0;
    while i < kpis.len()
        invariant
            i <= kpis.len(),
            kpis@ == old(kpis)@,
            row == stored_kpi(run_id, *kpi),
            forall|a: int, b: int|
                0 <= a < kpis.len() && 0 <= b < kpis.len() && a != b ==> (
                #[trigger] kpis@[a]).solver_run_id != (#[trigger] kpis@[b]).solver_run_id,
            forall|k: int| 0 <= k < i ==> (#[trigger] kpis@[k]).solver_run_id != run_id,
        decreases kpis.len() - i,
    {
        if kpis[i].solver_run_id == run_id {
            kpis.set(i, row);
            proof {
                let after = with_kpi(old(kpis)@, run_id, *kpi);
                assert(has_kpi(old(kpis)@, run_id));
                assert forall|k: int| 0 <= k < after.len() implies kpis@[k] == after[k] by {
                    if k != i {
                        assert(old(kpis)@[k].solver_run_id != old(kpis)@[i as int].solver_run_id);
                    }
                }
                assert(kpis@ =~= after);
            }
            return ;
        }
        i += 1;
    }
    kpis.push(row);
}

/// The store of solver runs, assignments and summaries.
pub struct RunStore {
    runs: Vec<SolverRun>,
    assignments: Vec<Assignment>,
    kpis: Vec<Kpi>,
    next_run_id: i64,
    next_assignment_id: i64,
}

impl View for RunStore {
    type V = RunTables;

    closed spec fn view(&self) -> RunTables {
        RunTables {
            runs: runs_view(self.runs@),
            assignments: assignments_view(self.assignments@),
            kpis: self.kpis@,
            next_run_id: self.next_run_id as int,
            next_assignment_id: self.next_assignment_id as int,
        }
    }
}

impl RunStore {
    /// An empty store, whose first run and first assignment get the id 1.
    pub fn new() -> (store: RunStore)
        ensures
            store@.wf(),
            store@.runs.len() == 0,
            store@.assignments.len() == 0,
            store@.kpis.len() == 0,
            store@.next_run_id == 1,
            store@.next_assignment_id == 1,
    {
        RunStore {
            runs: Vec::new(),
            assignments: Vec::new(),
            kpis: Vec::new(),
            next_run_id: 1,
            next_assignment_id: 1,
        }
    }

    /// The place of the run with an id.
    fn position_of_run(&self, run_id: i64) -> (r: Option<usize>)
        ensures
            match r {
                Some(i) => i < self@.runs.len() && self@.runs[i as int].solver_run_id == run_id,
                None => !self@.has_run(run_id),
            },
    {
        let mut i: usize = 0;
        while i < self.runs.len()
            invariant
                i <= self.runs.len(),
                forall|k: int| 0 <= k < i ==> (#[trigger] self@.runs[k]).solver_run_id != run_id,
            decreases self.runs.len() - i,
        {
            if self.runs[i].solver_run_id == run_id {
                return Some(i);
            }
            i += 1;
        }
        None
    }

    /// Records a run: a new row, queued, started at `now`. It is refused
    /// only when no id is left, and the store is then as it was.
    pub fn create(&mut self, body: &CreateRunBody, now: i64) -> (r: Result<SolverRun, ApiError>)
        requires
            old(self)@.wf(),
        ensures
            final(self)@.wf(),
            old(self)@.next_run_id == i64::MAX ==> r is Err && r->Err_0@ == (
            ApiErrorView::StoreFailed { cause: run_ids_exhausted() }) && final(self)@ == old(self)@,
            old(self)@.next_run_id < i64::MAX ==> r is Ok && final(self)@ == old(self)@.create(
                body.scenario_id,
                body.policy_set_id,
                body.seed,
                body.workers,
                text_view(body.code_version),
                now,
            ) && r->Ok_0@ == final(self)@.runs.last(),
    {
        if self.next_run_id == i64::MAX {
            return Err(
                ApiError::StoreFailed { cause: String::from_str("solver run ids exhausted") },
            );
        }
        let row = SolverRun {
            solver_run_id: self.next_run_id,
            scenario_id: body.scenario_id,
            policy_set_id: body.policy_set_id,
            status: String::from_str("queued"),
            seed: body.seed,
            workers: body.workers,
            wall_time_ms: None,
            code_version: copy_text(&body.code_version),
            logs_url: None,
            started_at: Some(now),
            finished_at: None,
        };
        let stored = row.duplicate();
        proof {
            assert(runs_view(self.runs@.push(row)) =~= runs_view(self.runs@).push(row@));
        }
        self.runs.push(row);
        self.next_run_id = self.next_run_id + 1;
        proof {
            let before = old(self)@;
            let after = self@;
            assert(after.kpis == before.kpis);
            assert(after.assignments == before.assignments);
            assert forall|id: i64| before.has_run(id) implies after.has_run(id) by {
                let i = choose|i: int|
                    0 <= i < before.runs.len() && (#[trigger] before.runs[i]).solver_run_id == id;
                assert(after.runs[i].solver_run_id == id);
            }
            assert forall|i: int| 0 <= i < after.assignments.len() implies after.has_run(
                (#[trigger] after.assignments[i]).solver_run_id,
            ) by {
                assert(before.has_run(before.assignments[i].solver_run_id));
            }
            assert forall|i: int| 0 <= i < after.kpis.len() implies after.has_run(
                (#[trigger] after.kpis[i]).solver_run_id,
            ) by {
                assert(before.has_run(before.kpis[i].solver_run_id));
            }
        }
        Ok(stored)
    }

    /// The run with an id, if there is one.
    pub fn get_run(&self, run_id: i64) -> (r: Option<SolverRun>)
        ensures
            r is Some <==> self@.has_run(run_id),
            r matches Some(row) ==> self@.runs.contains(row@) && row@.solver_run_id == run_id,
    {
        match self.position_of_run(run_id) {
            Some(i) => {
                let row = self.runs[i].duplicate();
                assert(self@.runs[i as int] == row@);
                Some(row)
            },
            None => None,
        }
    }

    /// All runs, the latest first.
    pub fn list_runs(&self) -> (listed: Vec<SolverRun>)
        ensures
            runs_view(listed@) == self@.runs.reverse(),
    {
        let mut listed: Vec<SolverRun> = Vec::with_capacity(self.runs.len());
        let n: usize = self.runs.len();
        let mut i: usize = n;
        while i > 0
            invariant
                i <= n,
                n == self.runs.len(),
                listed.len() == n - i,
                forall|k: int|
                    0 <= k < listed.len() ==> (#[trigger] listed[k])@ == self.runs[n - 1 - k]@,
            decreases i,
        {
            i -= 1;
            listed.push(self.runs[i].duplicate());
        }
        proof {
            assert(runs_view(listed@) =~= self@.runs.reverse());
        }
        listed
    }

    /// The assignments of a run, by day and within a day by shift.
    pub fn list_assignments(&self, q: &ListQ) -> (listed: Vec<Assignment>)
        ensures
            assignments_view(listed@) == listed_rows(self@.assignments, q.solver_run_id),
    {
        let ghost rows = self@.assignments;
        let mut listed: Vec<Assignment> = Vec::new();
        let mut i: usize = 0;
        proof {
            reveal(Seq::filter);
            assert(listed_rows(rows.take(0), q.solver_run_id) =~= assignments_view(listed@));
        }
        while i < self.assignments.len()
            invariant
                i <= self.assignments.len(),
                rows == self@.assignments,
                rows.len() == self.assignments.len(),
                assignments_view(listed@) == listed_rows(rows.take(i as int), q.solver_run_id),
            decreases self.assignments.len() - i,
        {
            let ghost before = run_rows(rows.take(i as int), q.solver_run_id);
            let ghost now = run_rows(rows.take(i + 1), q.solver_run_id);
            proof {
                reveal(Seq::filter);
                assert(rows.take(i + 1).drop_last() =~= rows.take(i as int));
                assert(rows.take(i + 1).last() == self.assignments[i as int]@);
            }
            if self.assignments[i].solver_run_id == q.solver_run_id {
                let day = self.assignments[i].day;
                let shift_id = self.assignments[i].shift_id;
                let ghost shown = assignments_view(listed@);
                let ghost x = self.assignments[i as int]@;
                let mut place: usize = 0;
                while place < listed.len() && (listed[place].day.is_before(&day) || (
                listed[place].day == day && listed[place].shift_id <= shift_id))
                    invariant
                        place <= listed.len(),
                        shown == assignments_view(listed@),
                        x.day == day,
                        x.shift_id == shift_id,
                        forall|k: int|
                            0 <= k < place ==> by_day_and_shift()(#[trigger] shown[k], x),
                    decreases listed.len() - place,
                {
                    place += 1;
                }
                proof {
                    lemma_place_of(shown, x, by_day_and_shift(), place as int);
                    assert(now == before.push(x));
                    assert(now.drop_last() =~= before);
                }
                let row = self.assignments[i].duplicate();
                listed.insert(place, row);
                proof {
                    assert(assignments_view(listed@) =~= shown.insert(place as int, row@));
                }
            }
            i += 1;
        }
        proof {
            assert(rows.take(self.assignments.len() as int) =~= rows);
        }
        listed
    }

    /// The summary of a run, if one was written.
    pub fn get_kpi(&self, run_id: i64) -> (r: Option<Kpi>)
        ensures
            r is Some <==> has_kpi(self@.kpis, run_id),
            r matches Some(kpi) ==> self@.kpis.contains(kpi) && kpi.solver_run_id == run_id,
    {
        let mut i: usize = 0;
        while i < self.kpis.len()
            invariant
                i <= self.kpis.len(),
                forall|k: int| 0 <= k < i ==> (#[trigger] self@.kpis[k]).solver_run_id != run_id,
            decreases self.kpis.len() - i,
        {
            if self.kpis[i].solver_run_id == run_id {
                assert(self@.kpis[i as int] == self.kpis[i as int]);
                return Some(self.kpis[i]);
            }
            i += 1;
        }
        None
    }

    /// Ingests the report of a run at `now`, as a whole or not at all.
    ///
    /// The run takes the reported status and is marked finished; its time
    /// and its pointer to logs change only where the report gives them.
    /// Each reported assignment is added unless the run already has one for
    /// the same day, shift and nurse. A reported summary replaces the
    /// summary of the run, or becomes it.
    pub fn ingest(&mut self, run_id: i64, body: &IngestBody, now: i64) -> (r: Result<
        IngestRunResult,
        ApiError,
    >)
        requires
            old(self)@.wf(),
        ensures
            final(self)@.wf(),
            match old(self)@.ingest_outcome(run_id, body@, now) {
                Ok((tables, result)) => r == Ok::<IngestRunResult, ApiError>(result) && final(self)@ == tables,
                Err(e) => r is Err && r->Err_0@ == e && final(self)@ == old(self)@,
            },
    {
        let i = match self.position_of_run(run_id) {
            Some(i) => i,
            None => {
                if body.assignments.len() == 0 && body.kpi.is_none() {
                    return Ok(
                        IngestRunResult {
                            updated: false,
                            assignments_inserted: 0,
                            kpi_upserted: false,
                        },
                    );
                }
                return Err(
                    ApiError::StoreFailed { cause: String::from_str("solver run not found") },
                );
            },
        };
        if body.assignments.len() as u64 > (i64::MAX - self.next_assignment_id) as u64 {
            return Err(
                ApiError::StoreFailed { cause: String::from_str("assignment ids exhausted") },
            );
        }
        proof {
            lemma_ingest_keeps_wf(old(self)@, run_id, body@, now);
            lemma_with_rows(
                old(self)@.assignments,
                old(self)@.next_assignment_id,
                run_id,
                body@.assignments,
            );
        }
        let row = SolverRun {
            solver_run_id: self.runs[i].solver_run_id,
            scenario_id: self.runs[i].scenario_id,
            policy_set_id: self.runs[i].policy_set_id,
            status: body.status.clone(),
            seed: self.runs[i].seed,
            workers: self.runs[i].workers,
            wall_time_ms: match body.wall_time_ms {
                Some(t) => Some(t),
                None => self.runs[i].wall_time_ms,
            },
            code_version: copy_text(&self.runs[i].code_version),
            logs_url: match &body.logs_url {
                Some(url) => Some(url.clone()),
                None => copy_text(&self.runs[i].logs_url),
            },
            started_at: self.runs[i].started_at,
            finished_at: Some(now),
        };
        self.runs.set(i, row);
        proof {
            let before = old(self)@;
            let after = before.ingest(run_id, body@, now);
            assert forall|k: int| 0 <= k < before.runs.len() implies self@.runs[k]
                == after.runs[k] by {
                if k < i {
                    assert(before.runs[k].solver_run_id < before.runs[i as int].solver_run_id);
                } else if k > i {
                    assert(before.runs[i as int].solver_run_id < before.runs[k].solver_run_id);
                }
            }
            assert(self@.runs =~= after.runs);
        }
        let before_len: usize = self.assignments.len();
        add_rows(&mut self.assignments, self.next_assignment_id, run_id, &body.assignments);
        let inserted: usize = self.assignments.len() - before_len;
        self.next_assignment_id = self.next_assignment_id + inserted as i64;
        match &body.kpi {
            Some(kpi) => {
                put_kpi(&mut self.kpis, run_id, kpi);
            },
            None => {},
        }
        Ok(
            IngestRunResult {
                updated: true,
                assignments_inserted: inserted,
                kpi_upserted: body.kpi.is_some(),
            },
        )
    }
}

} // verus!
