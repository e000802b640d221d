use roster_backend::assignments::ListQ;
use roster_backend::dates::Day;
use roster_backend::errors::ApiError;
use roster_backend::lifecycle::{begin_run, complete_run};
use roster_backend::models::{ShiftPattern, Staff};
use roster_backend::resolver::Directory;
use roster_backend::run_store::RunStore;
use roster_backend::scenarios::ScenarioStore;
use roster_backend::solver_runs::{
    CreateRunBody, SolveAssignment, SolveNurseStats, SolveResponse, SolveUnder,
};

fn directory() -> Directory {
    let shift = |id: i64, name: &str, night: bool| ShiftPattern {
        shift_pattern_id: id,
        unit_id: 1,
        name: name.to_string(),
        start_time: 0,
        end_time: 0,
        is_night: night,
        required_skills: "[]".to_string(),
    };
    let nurse = |id: i64, code: &str, name: &str| Staff {
        staff_id: id,
        unit_id: 1,
        code: code.to_string(),
        full_name: name.to_string(),
        nickname: None,
        role: None,
        skills: vec!["RN".to_string()],
        contract_type: None,
        max_weekly_hours: Some(40),
        enabled: true,
    };
    Directory {
        shift_patterns: vec![shift(10, "Day Shift", false), shift(11, "Night Shift", true)],
        staffs: vec![nurse(100, "N-001", "Alice Smith"), nurse(101, "N-002", "Bob Jones")],
    }
}

fn request(scenario_id: i64) -> CreateRunBody {
    CreateRunBody { scenario_id, policy_set_id: 1, seed: None, workers: Some(4), code_version: None }
}

fn assignment(day: &str, shift: &str, nurse: &str) -> SolveAssignment {
    SolveAssignment { day: day.to_string(), shift: shift.to_string(), nurse: nurse.to_string() }
}

fn answer(status: &str, assignments: Vec<SolveAssignment>) -> SolveResponse {
    SolveResponse {
        status: status.to_string(),
        objective_value: None,
        assignments,
        understaffed: vec![SolveUnder { day: "2024-06-01".to_string(), shift: "Night Shift".to_string(), missing: 1 }],
        nurse_stats: vec![
            SolveNurseStats { nurse: "N-001".to_string(), assigned_shifts: 1, overtime: 0, nights: 0, satisfaction: 90 },
            SolveNurseStats { nurse: "N-002".to_string(), assigned_shifts: 1, overtime: 2, nights: 1, satisfaction: 70 },
        ],
    }
}

#[test]
fn optimal_answer_with_mixed_case_names_succeeds() {
    let mut scenarios = ScenarioStore::new();
    let mut runs = RunStore::new();
    let scenario = scenarios
        .submit(1, "web".to_string(), "{\"unit\":\"U1\",\"shifts\":[\"Day Shift\",\"Night Shift\"]}", None, 10)
        .unwrap();
    assert_eq!(scenario.status, "ready");

    let ticket = begin_run(&mut scenarios, &mut runs, &request(scenario.scenario_id), 20).unwrap();
    assert_eq!(ticket.run.status, "queued");
    assert_eq!(ticket.unit_id, 1);
    assert_eq!(ticket.payload, scenario.payload);
    assert_eq!(scenarios.get(scenario.scenario_id).unwrap().status, "queued");

    let outcome = Ok(answer(
        "OPTIMAL",
        vec![
            assignment("2024-06-01", "DAY shift", "alice SMITH"),
            assignment("2024/06/01", " night shift ", "n-002"),
        ],
    ));
    let run = complete_run(&mut runs, &directory(), ticket.run.solver_run_id, ticket.unit_id, &outcome, 350, 30)
        .unwrap();
    assert_eq!(run.status, "succeeded");
    assert_eq!(run.solver_run_id, ticket.run.solver_run_id);
    assert_eq!(run.wall_time_ms, Some(350));
    assert_eq!(run.started_at, Some(20));
    assert_eq!(run.finished_at, Some(30));
    assert_eq!(run.workers, Some(4));

    let rows = runs.list_assignments(&ListQ { solver_run_id: run.solver_run_id });
    assert_eq!(rows.len(), 2);
    assert_eq!((rows[0].shift_id, rows[0].staff_id), (10, 100));
    assert_eq!((rows[1].shift_id, rows[1].staff_id), (11, 101));
    assert_eq!(rows[0].day, Day { year: 2024, month: 6, day: 1 });
    assert_eq!(rows[0].source, "MODEL");
    assert!(!rows[0].is_overtime);
    let kpi = runs.get_kpi(run.solver_run_id).unwrap();
    assert_eq!(kpi.solver_run_id, run.solver_run_id);
    assert_eq!(kpi.avg_satisfaction, 80);
    assert_eq!(kpi.understaff_total, 1);
    assert_eq!(kpi.overtime_total, 2);
    assert_eq!(runs.get_run(run.solver_run_id), Some(run));
}

#[test]
fn unknown_shift_writes_no_assignment() {
    let mut scenarios = ScenarioStore::new();
    let mut runs = RunStore::new();
    let scenario = scenarios.submit(1, "web".to_string(), "{}", None, 10).unwrap();
    let ticket = begin_run(&mut scenarios, &mut runs, &request(scenario.scenario_id), 20).unwrap();
    let outcome = Ok(answer(
        "OPTIMAL",
        vec![
            assignment("2024-06-01", "Day Shift", "N-001"),
            assignment("2024-06-01", "Swing Shift", "N-002"),
        ],
    ));
    let r = complete_run(&mut runs, &directory(), ticket.run.solver_run_id, 1, &outcome, 350, 30);
    assert_eq!(r, Err(ApiError::UnknownShift { token: "Swing Shift".to_string() }));
    assert!(runs.list_assignments(&ListQ { solver_run_id: ticket.run.solver_run_id }).is_empty());
    assert_eq!(runs.get_kpi(ticket.run.solver_run_id), None);
    assert_eq!(runs.get_run(ticket.run.solver_run_id), Some(ticket.run));
}

#[test]
fn unknown_nurse_writes_no_assignment() {
    let mut scenarios = ScenarioStore::new();
    let mut runs = RunStore::new();
    let scenario = scenarios.submit(1, "web".to_string(), "{}", None, 10).unwrap();
    let ticket = begin_run(&mut scenarios, &mut runs, &request(scenario.scenario_id), 20).unwrap();
    let outcome = Ok(answer("OPTIMAL", vec![assignment("2024-06-01", "Day Shift", "Zed")]));
    let r = complete_run(&mut runs, &directory(), 1, 1, &outcome, 350, 30);
    assert_eq!(r, Err(ApiError::UnknownStaff { token: "Zed".to_string() }));
    assert!(runs.list_assignments(&ListQ { solver_run_id: 1 }).is_empty());
    assert_eq!(runs.get_run(1).unwrap().status, "queued");
    assert_eq!(runs.get_run(1).unwrap().finished_at, None);
}

#[test]
fn names_of_another_unit_do_not_resolve() {
    let mut scenarios = ScenarioStore::new();
    let mut runs = RunStore::new();
    let scenario = scenarios.submit(2, "web".to_string(), "{}", None, 10).unwrap();
    let ticket = begin_run(&mut scenarios, &mut runs, &request(scenario.scenario_id), 20).unwrap();
    assert_eq!(ticket.unit_id, 2);
    let outcome = Ok(answer("OPTIMAL", vec![assignment("2024-06-01", "Day Shift", "N-001")]));
    let r = complete_run(&mut runs, &directory(), 1, ticket.unit_id, &outcome, 1, 30);
    assert_eq!(r, Err(ApiError::UnknownShift { token: "Day Shift".to_string() }));
}

#[test]
fn failed_call_leaves_the_run_queued() {
    let mut scenarios = ScenarioStore::new();
    let mut runs = RunStore::new();
    let scenario = scenarios.submit(1, "web".to_string(), "{}", None, 10).unwrap();
    let ticket = begin_run(&mut scenarios, &mut runs, &request(scenario.scenario_id), 20).unwrap();
    let outcome = Err("connection refused".to_string());
    let r = complete_run(&mut runs, &directory(), 1, 1, &outcome, 0, 30);
    assert_eq!(r, Err(ApiError::SolverFailed { cause: "connection refused".to_string() }));
    assert_eq!(r.unwrap_err().class().status_code(), 500);
    assert_eq!(runs.get_run(1), Some(ticket.run));
    assert_eq!(scenarios.get(scenario.scenario_id).unwrap().status, "queued");
}

#[test]
fn solver_failure_status_ends_the_run_failed() {
    let mut scenarios = ScenarioStore::new();
    let mut runs = RunStore::new();
    let scenario = scenarios.submit(1, "web".to_string(), "{}", None, 10).unwrap();
    begin_run(&mut scenarios, &mut runs, &request(scenario.scenario_id), 20).unwrap();
    let outcome = Ok(answer("FAILED", vec![]));
    let run = complete_run(&mut runs, &directory(), 1, 1, &outcome, 5, 30).unwrap();
    assert_eq!(run.status, "failed");
    assert_eq!(run.finished_at, Some(30));
    assert!(runs.get_kpi(1).is_some());
}

#[test]
fn run_of_a_missing_scenario_is_refused() {
    let mut scenarios = ScenarioStore::new();
    let mut runs = RunStore::new();
    let r = begin_run(&mut scenarios, &mut runs, &request(8), 20);
    assert_eq!(r, Err(ApiError::StoreFailed { cause: "scenario not found".to_string() }));
    assert!(runs.list_runs().is_empty());
}

#[test]
fn completion_of_a_missing_run_is_refused() {
    let mut runs = RunStore::new();
    let outcome = Ok(answer("OPTIMAL", vec![]));
    let r = complete_run(&mut runs, &directory(), 3, 1, &outcome, 5, 30);
    assert_eq!(r, Err(ApiError::StoreFailed { cause: "solver run not found".to_string() }));
    assert_eq!(runs.get_kpi(3), None);
}

#[test]
fn two_runs_of_one_scenario_are_two_rows() {
    let mut scenarios = ScenarioStore::new();
    let mut runs = RunStore::new();
    let scenario = scenarios.submit(1, "web".to_string(), "{}", None, 10).unwrap();
    let a = begin_run(&mut scenarios, &mut runs, &request(scenario.scenario_id), 20).unwrap();
    let b = begin_run(&mut scenarios, &mut runs, &request(scenario.scenario_id), 21).unwrap();
    assert_eq!((a.run.solver_run_id, b.run.solver_run_id), (1, 2));
    assert_eq!(runs.list_runs().len(), 2);
}
