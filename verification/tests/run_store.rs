use roster_backend::assignments::ListQ;
use roster_backend::dates::Day;
use roster_backend::errors::ApiError;
use roster_backend::models::{IngestRunResult, Kpi};
use roster_backend::run_store::RunStore;
use roster_backend::solver_runs::{CreateRunBody, IngestAssignmentRow, IngestBody, IngestKpiRow};

fn request(scenario_id: i64) -> CreateRunBody {
    CreateRunBody {
        scenario_id,
        policy_set_id: 4,
        seed: Some(7),
        workers: None,
        code_version: Some("v9".to_string()),
    }
}

fn day(d: u32) -> Day {
    Day { year: 2024, month: 6, day: d }
}

fn row(d: u32, shift_id: i64, staff_id: i64) -> IngestAssignmentRow {
    IngestAssignmentRow { day: day(d), shift_id, staff_id, is_overtime: false, source: "MODEL".to_string() }
}

fn kpi(avg: i32) -> IngestKpiRow {
    IngestKpiRow {
        solver_run_id: 0,
        avg_satisfaction: avg,
        understaff_total: 1,
        overtime_total: 2,
        night_violations: 0,
        senior_coverage_ok: true,
    }
}

fn body(status: &str, rows: Vec<IngestAssignmentRow>, kpi: Option<IngestKpiRow>) -> IngestBody {
    IngestBody { status: status.to_string(), wall_time_ms: Some(1200), logs_url: None, assignments: rows, kpi }
}

fn all_rows(store: &RunStore, run_id: i64) -> Vec<(u32, i64, i64)> {
    store
        .list_assignments(&ListQ { solver_run_id: run_id })
        .iter()
        .map(|a| (a.day.day, a.shift_id, a.staff_id))
        .collect()
}

#[test]
fn created_run_is_queued() {
    let mut store = RunStore::new();
    let run = store.create(&request(3), 500).unwrap();
    assert_eq!(run.solver_run_id, 1);
    assert_eq!(run.scenario_id, 3);
    assert_eq!(run.policy_set_id, 4);
    assert_eq!(run.status, "queued");
    assert_eq!(run.seed, Some(7));
    assert_eq!(run.workers, None);
    assert_eq!(run.code_version, Some("v9".to_string()));
    assert_eq!(run.wall_time_ms, None);
    assert_eq!(run.logs_url, None);
    assert_eq!(run.started_at, Some(500));
    assert_eq!(run.finished_at, None);
    assert_eq!(store.get_run(1), Some(run));
    assert_eq!(store.get_run(2), None);
}

#[test]
fn runs_are_listed_latest_first() {
    let mut store = RunStore::new();
    assert!(store.list_runs().is_empty());
    store.create(&request(1), 1).unwrap();
    store.create(&request(2), 2).unwrap();
    store.create(&request(1), 3).unwrap();
    let ids: Vec<i64> = store.list_runs().iter().map(|r| r.solver_run_id).collect();
    assert_eq!(ids, vec![3, 2, 1]);
}

#[test]
fn ingest_writes_status_rows_and_kpi() {
    let mut store = RunStore::new();
    store.create(&request(1), 10).unwrap();
    let result = store
        .ingest(1, &body("succeeded", vec![row(2, 10, 100), row(1, 11, 101)], Some(kpi(88))), 99)
        .unwrap();
    assert_eq!(result, IngestRunResult { updated: true, assignments_inserted: 2, kpi_upserted: true });
    let run = store.get_run(1).unwrap();
    assert_eq!(run.status, "succeeded");
    assert_eq!(run.wall_time_ms, Some(1200));
    assert_eq!(run.finished_at, Some(99));
    assert_eq!(run.started_at, Some(10));
    assert_eq!(all_rows(&store, 1), vec![(1, 11, 101), (2, 10, 100)]);
    assert_eq!(
        store.get_kpi(1),
        Some(Kpi {
            solver_run_id: 1,
            avg_satisfaction: 88,
            understaff_total: 1,
            overtime_total: 2,
            night_violations: 0,
            senior_coverage_ok: true,
        })
    );
}

#[test]
fn ingest_twice_adds_no_rows() {
    let mut store = RunStore::new();
    store.create(&request(1), 10).unwrap();
    let report = body("succeeded", vec![row(1, 10, 100), row(1, 10, 101), row(1, 10, 100)], Some(kpi(70)));
    let first = store.ingest(1, &report, 20).unwrap();
    assert_eq!(first.assignments_inserted, 2);
    let once = store.list_assignments(&ListQ { solver_run_id: 1 });
    let second = store.ingest(1, &report, 30).unwrap();
    assert_eq!(second, IngestRunResult { updated: true, assignments_inserted: 0, kpi_upserted: true });
    let twice = store.list_assignments(&ListQ { solver_run_id: 1 });
    assert_eq!(twice.len(), 2);
    assert_eq!(twice, once);
    assert_eq!(store.get_run(1).unwrap().finished_at, Some(30));
}

#[test]
fn later_kpi_overwrites_the_earlier() {
    let mut store = RunStore::new();
    store.create(&request(1), 10).unwrap();
    store.create(&request(1), 11).unwrap();
    store.ingest(1, &body("succeeded", vec![], Some(kpi(70))), 20).unwrap();
    store.ingest(2, &body("succeeded", vec![], Some(kpi(50))), 21).unwrap();
    let mut newer = kpi(95);
    newer.senior_coverage_ok = false;
    newer.night_violations = 3;
    store.ingest(1, &body("succeeded", vec![], Some(newer)), 30).unwrap();
    let stored = store.get_kpi(1).unwrap();
    assert_eq!(stored.solver_run_id, 1);
    assert_eq!(stored.avg_satisfaction, 95);
    assert_eq!(stored.night_violations, 3);
    assert!(!stored.senior_coverage_ok);
    assert_eq!(store.get_kpi(2).unwrap().avg_satisfaction, 50);
    assert_eq!(store.get_kpi(3), None);
}

#[test]
fn report_without_kpi_keeps_the_kpi() {
    let mut store = RunStore::new();
    store.create(&request(1), 10).unwrap();
    store.ingest(1, &body("succeeded", vec![], Some(kpi(70))), 20).unwrap();
    let result = store.ingest(1, &body("failed", vec![], None), 30).unwrap();
    assert_eq!(result, IngestRunResult { updated: true, assignments_inserted: 0, kpi_upserted: false });
    assert_eq!(store.get_kpi(1).unwrap().avg_satisfaction, 70);
    assert_eq!(store.get_run(1).unwrap().status, "failed");
}

#[test]
fn time_and_logs_are_kept_where_not_reported() {
    let mut store = RunStore::new();
    store.create(&request(1), 10).unwrap();
    let mut first = body("running", vec![], None);
    first.logs_url = Some("s3://logs/1".to_string());
    store.ingest(1, &first, 20).unwrap();
    let mut second = body("succeeded", vec![], None);
    second.wall_time_ms = None;
    store.ingest(1, &second, 30).unwrap();
    let run = store.get_run(1).unwrap();
    assert_eq!(run.status, "succeeded");
    assert_eq!(run.wall_time_ms, Some(1200));
    assert_eq!(run.logs_url, Some("s3://logs/1".to_string()));
    let mut third = body("succeeded", vec![], None);
    third.wall_time_ms = Some(5);
    third.logs_url = Some("s3://logs/2".to_string());
    store.ingest(1, &third, 40).unwrap();
    let run = store.get_run(1).unwrap();
    assert_eq!(run.wall_time_ms, Some(5));
    assert_eq!(run.logs_url, Some("s3://logs/2".to_string()));
    assert_eq!(run.code_version, Some("v9".to_string()));
}

#[test]
fn results_for_an_unknown_run_are_refused() {
    let mut store = RunStore::new();
    store.create(&request(1), 10).unwrap();
    let r = store.ingest(5, &body("succeeded", vec![row(1, 1, 1)], None), 20);
    assert_eq!(r, Err(ApiError::StoreFailed { cause: "solver run not found".to_string() }));
    let r = store.ingest(5, &body("succeeded", vec![], Some(kpi(1))), 20);
    assert_eq!(r, Err(ApiError::StoreFailed { cause: "solver run not found".to_string() }));
    assert!(all_rows(&store, 5).is_empty());
    assert_eq!(store.get_kpi(5), None);
    assert_eq!(store.get_run(1).unwrap().status, "queued");
}

#[test]
fn empty_report_for_an_unknown_run_changes_nothing() {
    let mut store = RunStore::new();
    let r = store.ingest(5, &body("succeeded", vec![], None), 20).unwrap();
    assert_eq!(r, IngestRunResult { updated: false, assignments_inserted: 0, kpi_upserted: false });
    assert!(store.list_runs().is_empty());
}

#[test]
fn same_slot_in_other_runs_is_kept_apart() {
    let mut store = RunStore::new();
    store.create(&request(1), 10).unwrap();
    store.create(&request(1), 11).unwrap();
    store.ingest(1, &body("succeeded", vec![row(1, 10, 100)], None), 20).unwrap();
    let r = store.ingest(2, &body("succeeded", vec![row(1, 10, 100), row(1, 10, 102)], None), 21).unwrap();
    assert_eq!(r.assignments_inserted, 2);
    assert_eq!(all_rows(&store, 1), vec![(1, 10, 100)]);
    assert_eq!(all_rows(&store, 2), vec![(1, 10, 100), (1, 10, 102)]);
    let ids: Vec<i64> = store
        .list_assignments(&ListQ { solver_run_id: 2 })
        .iter()
        .map(|a| a.assignment_id)
        .collect();
    assert_eq!(ids, vec![2, 3]);
}

#[test]
fn assignments_are_listed_by_day_then_shift() {
    let mut store = RunStore::new();
    store.create(&request(1), 10).unwrap();
    let rows = vec![row(3, 10, 1), row(1, 12, 2), row(1, 11, 3), row(2, 10, 4), row(1, 11, 5)];
    store.ingest(1, &body("succeeded", rows, None), 20).unwrap();
    assert_eq!(
        all_rows(&store, 1),
        vec![(1, 11, 3), (1, 11, 5), (1, 12, 2), (2, 10, 4), (3, 10, 1)]
    );
    let mut late = row(1, 1, 1);
    late.day = Day { year: 2023, month: 12, day: 31 };
    let mut later = row(1, 1, 1);
    later.day = Day { year: 2024, month: 7, day: 1 };
    store.ingest(1, &body("succeeded", vec![later, late], None), 21).unwrap();
    let listed = store.list_assignments(&ListQ { solver_run_id: 1 });
    assert_eq!(listed.first().unwrap().day, Day { year: 2023, month: 12, day: 31 });
    assert_eq!(listed.last().unwrap().day, Day { year: 2024, month: 7, day: 1 });
    assert_eq!(listed.len(), 7);
}
