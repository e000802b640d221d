use roster_backend::dates::{DateErrorKind, Day};
use roster_backend::errors::ApiError;
use roster_backend::models::{ShiftPattern, Staff};
use roster_backend::resolver::{Directory, Resolver};
use roster_backend::solver_runs::{
    prepare_ingest, resolve_assignment, resolve_assignments, IngestAssignmentRow, SolveAssignment,
    SolveNurseStats, SolveResponse, SolveUnder,
};

fn shifts() -> Vec<(i64, String)> {
    vec![(10, "Day Shift".to_string()), (11, "Night Shift".to_string())]
}

fn staff() -> Vec<(i64, Option<String>, String)> {
    vec![
        (100, Some("N-001".to_string()), "Alice Smith".to_string()),
        (101, None, "Bob Jones".to_string()),
    ]
}

fn assignment(day: &str, shift: &str, nurse: &str) -> SolveAssignment {
    SolveAssignment { day: day.to_string(), shift: shift.to_string(), nurse: nurse.to_string() }
}

fn row(day: Day, shift_id: i64, staff_id: i64) -> IngestAssignmentRow {
    IngestAssignmentRow { day, shift_id, staff_id, is_overtime: false, source: "MODEL".to_string() }
}

#[test]
fn shift_resolution_ignores_case_and_outer_space() {
    let r = Resolver::build(&shifts(), &staff());
    assert_eq!(r.resolve_shift(" Night Shift "), Ok(11));
    assert_eq!(r.resolve_shift("night shift"), Ok(11));
    assert_eq!(r.resolve_shift("NIGHT SHIFT"), Ok(11));
    assert_eq!(r.resolve_shift("day shift\n"), Ok(10));
}

#[test]
fn staff_resolves_by_code_and_by_name() {
    let r = Resolver::build(&shifts(), &staff());
    assert_eq!(r.resolve_staff("n-001"), Ok(100));
    assert_eq!(r.resolve_staff(" ALICE SMITH"), Ok(100));
    assert_eq!(r.resolve_staff("bob jones"), Ok(101));
}

#[test]
fn unknown_names_are_reported_as_written() {
    let r = Resolver::build(&shifts(), &staff());
    assert_eq!(
        r.resolve_shift(" Evening "),
        Err(ApiError::UnknownShift { token: " Evening ".to_string() })
    );
    assert_eq!(
        r.resolve_staff("N-999"),
        Err(ApiError::UnknownStaff { token: "N-999".to_string() })
    );
    assert_eq!(r.resolve_staff("Night Shift"), Err(ApiError::UnknownStaff { token: "Night Shift".to_string() }));
    assert_eq!(r.resolve_shift("nightshift"), Err(ApiError::UnknownShift { token: "nightshift".to_string() }));
}

#[test]
fn empty_tables_resolve_nothing() {
    let r = Resolver::build(&vec![], &vec![]);
    assert!(r.resolve_shift("Day Shift").is_err());
    assert!(r.resolve_staff("Alice Smith").is_err());
}

#[test]
fn later_row_wins_a_shared_name() {
    let rows = vec![(1, "Early".to_string()), (2, " EARLY ".to_string()), (3, "Late".to_string())];
    let r = Resolver::build(&rows, &vec![]);
    assert_eq!(r.resolve_shift("early"), Ok(2));
    let people = vec![
        (7, Some("X1".to_string()), "Kim".to_string()),
        (8, Some("kim".to_string()), "Lee".to_string()),
    ];
    let r = Resolver::build(&vec![], &people);
    assert_eq!(r.resolve_staff("Kim"), Ok(8));
    assert_eq!(r.resolve_staff("x1"), Ok(7));
    assert_eq!(r.resolve_staff("lee"), Ok(8));
}

fn directory() -> Directory {
    let shift = |id: i64, unit: i64, name: &str| ShiftPattern {
        shift_pattern_id: id,
        unit_id: unit,
        name: name.to_string(),
        start_time: 8 * 3600,
        end_time: 16 * 3600,
        is_night: false,
        required_skills: "[]".to_string(),
    };
    let nurse = |id: i64, unit: i64, code: &str, name: &str| Staff {
        staff_id: id,
        unit_id: unit,
        code: code.to_string(),
        full_name: name.to_string(),
        nickname: None,
        role: None,
        skills: vec![],
        contract_type: None,
        max_weekly_hours: None,
        enabled: true,
    };
    Directory {
        shift_patterns: vec![shift(1, 5, "Day"), shift(2, 6, "Day"), shift(3, 5, "Night")],
        staffs: vec![nurse(1, 5, "A", "Ann"), nurse(2, 6, "A", "Amy"), nurse(3, 6, "B", "Bea")],
    }
}

#[test]
fn resolver_of_a_unit_sees_only_that_unit() {
    let d = directory();
    assert_eq!(d.shift_rows(5), vec![(1, "Day".to_string()), (3, "Night".to_string())]);
    assert_eq!(d.shift_rows(6), vec![(2, "Day".to_string())]);
    assert_eq!(d.shift_rows(7), vec![]);
    assert_eq!(
        d.staff_rows(6),
        vec![(2, Some("A".to_string()), "Amy".to_string()), (3, Some("B".to_string()), "Bea".to_string())]
    );
    let five = Resolver::for_unit(&d, 5);
    let six = Resolver::for_unit(&d, 6);
    assert_eq!(five.resolve_shift("day"), Ok(1));
    assert_eq!(six.resolve_shift("day"), Ok(2));
    assert!(six.resolve_shift("night").is_err());
    assert_eq!(five.resolve_staff("a"), Ok(1));
    assert_eq!(six.resolve_staff("a"), Ok(2));
    assert!(five.resolve_staff("bea").is_err());
}

#[test]
fn one_assignment_resolves_to_a_model_row() {
    let r = Resolver::build(&shifts(), &staff());
    assert_eq!(
        resolve_assignment(&assignment("2024/05/01", " DAY shift", "n-001"), &r),
        Ok(row(Day { year: 2024, month: 5, day: 1 }, 10, 100))
    );
}

#[test]
fn checks_of_one_assignment_come_in_order() {
    let r = Resolver::build(&shifts(), &staff());
    assert_eq!(
        resolve_assignment(&assignment("soon", "Evening", "Nobody"), &r),
        Err(ApiError::InvalidDate { token: "soon".to_string(), cause: DateErrorKind::Invalid })
    );
    assert_eq!(
        resolve_assignment(&assignment("2024-05-01", "Evening", "Nobody"), &r),
        Err(ApiError::UnknownShift { token: "Evening".to_string() })
    );
    assert_eq!(
        resolve_assignment(&assignment("2024-05-01", "Day Shift", "Nobody"), &r),
        Err(ApiError::UnknownStaff { token: "Nobody".to_string() })
    );
}

#[test]
fn assignments_resolve_in_order() {
    let r = Resolver::build(&shifts(), &staff());
    let list = vec![
        assignment("2024-05-02", "night shift", "Bob Jones"),
        assignment("2024-05-01", "Day Shift", "N-001"),
        assignment("2024-05-02", "night shift", "Bob Jones"),
    ];
    assert_eq!(
        resolve_assignments(&list, &r),
        Ok(vec![
            row(Day { year: 2024, month: 5, day: 2 }, 11, 101),
            row(Day { year: 2024, month: 5, day: 1 }, 10, 100),
            row(Day { year: 2024, month: 5, day: 2 }, 11, 101),
        ])
    );
    assert_eq!(resolve_assignments(&vec![], &r), Ok(vec![]));
}

#[test]
fn first_unresolved_assignment_gives_the_error() {
    let r = Resolver::build(&shifts(), &staff());
    let list = vec![
        assignment("2024-05-01", "Day Shift", "N-001"),
        assignment("2024-05-01", "Day Shift", "Carol"),
        assignment("2024-05-01", "Evening", "N-001"),
    ];
    assert_eq!(
        resolve_assignments(&list, &r),
        Err(ApiError::UnknownStaff { token: "Carol".to_string() })
    );
}

fn response(status: &str, assignments: Vec<SolveAssignment>) -> SolveResponse {
    SolveResponse {
        status: status.to_string(),
        objective_value: Some(12),
        assignments,
        understaffed: vec![SolveUnder { day: "2024-05-01".to_string(), shift: "Day Shift".to_string(), missing: 2 }],
        nurse_stats: vec![
            SolveNurseStats { nurse: "N-001".to_string(), assigned_shifts: 1, overtime: 3, nights: 0, satisfaction: 80 },
            SolveNurseStats { nurse: "Bob Jones".to_string(), assigned_shifts: 1, overtime: -1, nights: 1, satisfaction: 85 },
        ],
    }
}

#[test]
fn report_of_an_answer() {
    let r = Resolver::build(&shifts(), &staff());
    let body = prepare_ingest(
        42,
        &response("OPTIMAL", vec![assignment("2024-05-01", "day shift", "alice smith")]),
        &r,
        1500,
    )
    .unwrap();
    assert_eq!(body.status, "succeeded");
    assert_eq!(body.wall_time_ms, Some(1500));
    assert_eq!(body.logs_url, None);
    assert_eq!(body.assignments, vec![row(Day { year: 2024, month: 5, day: 1 }, 10, 100)]);
    let kpi = body.kpi.unwrap();
    assert_eq!(kpi.solver_run_id, 42);
    assert_eq!(kpi.avg_satisfaction, 83);
    assert_eq!(kpi.understaff_total, 2);
    assert_eq!(kpi.overtime_total, 3);
}

#[test]
fn report_of_a_failed_solve() {
    let r = Resolver::build(&shifts(), &staff());
    let body = prepare_ingest(1, &response("Failed: no solution", vec![]), &r, 0).unwrap();
    assert_eq!(body.status, "failed");
    assert!(body.assignments.is_empty());
    assert!(body.kpi.is_some());
}

#[test]
fn report_fails_on_unknown_name_before_totals() {
    let r = Resolver::build(&shifts(), &staff());
    let mut answer = response("OPTIMAL", vec![assignment("2024-05-01", "Swing", "N-001")]);
    answer.understaffed = vec![
        SolveUnder { day: "d".to_string(), shift: "s".to_string(), missing: i32::MAX },
        SolveUnder { day: "d".to_string(), shift: "s".to_string(), missing: i32::MAX },
    ];
    assert_eq!(
        prepare_ingest(1, &answer, &r, 0),
        Err(ApiError::UnknownShift { token: "Swing".to_string() })
    );
    answer.assignments = vec![];
    assert_eq!(prepare_ingest(1, &answer, &r, 0), Err(ApiError::TotalOutOfRange));
}
