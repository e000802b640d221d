use roster_backend::config::{ServiceConfig, SOLVER_TIMEOUT_SECS};
use roster_backend::errors::{ApiError, ErrorClass};
use roster_backend::dates::DateErrorKind;
use roster_backend::health::health;
use roster_backend::models::{copy_bytes, copy_text};
use roster_backend::organizations::{default_plan, default_status, CreateOrgBody, ListQ};
use roster_backend::paging::{page_limit, page_offset, Deleted};
use roster_backend::text::{classify_status, contains_text, decimal_text, norm, status_for_report};
use roster_backend::units::{default_tz, CreateUnitBody, ListUnitsQ, UnitFilter};
use roster_backend::users::ListUsersQ;

#[test]
fn norm_trims_and_lowers() {
    assert_eq!(norm(" Night Shift "), "night shift");
    assert_eq!(norm("night shift"), "night shift");
    assert_eq!(norm("\tICU-7\n"), "icu-7");
    assert_eq!(norm(""), "");
    assert_eq!(norm("  "), "");
}

#[test]
fn norm_keeps_inner_white_space() {
    assert_eq!(norm("Night  Shift"), "night  shift");
    assert_ne!(norm("NightShift"), norm("Night Shift"));
}

#[test]
fn norm_lowers_beyond_ascii() {
    assert_eq!(norm(" ÄRZTIN "), "ärztin");
}

#[test]
fn optimal_status_is_succeeded() {
    assert_eq!(classify_status("OPTIMAL"), "succeeded");
    assert_eq!(classify_status("FEASIBLE"), "succeeded");
    assert_eq!(classify_status(""), "succeeded");
}

#[test]
fn status_with_fail_is_failed() {
    assert_eq!(classify_status("FAILED"), "failed");
    assert_eq!(classify_status("fail"), "failed");
    assert_eq!(classify_status("Solver Failure: infeasible"), "failed");
    assert_eq!(classify_status("INFEASIBLE"), "succeeded");
    assert_eq!(classify_status("fai l"), "succeeded");
}

#[test]
fn status_for_report_names_both_ends() {
    assert_eq!(status_for_report(true), "failed");
    assert_eq!(status_for_report(false), "succeeded");
}

#[test]
fn defaults_of_requests() {
    assert_eq!(default_plan(), "standard");
    assert_eq!(default_status(), "active");
    assert_eq!(default_tz(), "Asia/Bangkok");
    let org = CreateOrgBody::new("Clinic".to_string(), None, Some("trial".to_string()));
    assert_eq!(org.name, "Clinic");
    assert_eq!(org.plan, "standard");
    assert_eq!(org.status, "trial");
    let unit = CreateUnitBody::new(3, None, "Ward".to_string(), "W1".to_string(), None);
    assert_eq!(unit.time_zone, "Asia/Bangkok");
    let unit = CreateUnitBody::new(3, Some(2), "Ward".to_string(), "W1".to_string(), Some("UTC".to_string()));
    assert_eq!(unit.time_zone, "UTC");
    assert_eq!(unit.site_id, Some(2));
}

#[test]
fn page_limit_is_clamped() {
    assert_eq!(page_limit(None), 50);
    assert_eq!(page_limit(Some(0)), 1);
    assert_eq!(page_limit(Some(-9)), 1);
    assert_eq!(page_limit(Some(1)), 1);
    assert_eq!(page_limit(Some(500)), 500);
    assert_eq!(page_limit(Some(501)), 500);
    assert_eq!(page_limit(Some(i64::MAX)), 500);
    assert_eq!(page_limit(Some(120)), 120);
}

#[test]
fn page_offset_is_not_negative() {
    assert_eq!(page_offset(None), 0);
    assert_eq!(page_offset(Some(-1)), 0);
    assert_eq!(page_offset(Some(0)), 0);
    assert_eq!(page_offset(Some(77)), 77);
    let q = ListUsersQ { organization_id: Some(1), limit: Some(900), offset: Some(-3) };
    assert_eq!(q.limit(), 500);
    assert_eq!(q.offset(), 0);
}

#[test]
fn unit_filter_needs_organization_for_code() {
    let q = ListUnitsQ { organization_id: Some(4), code: Some("ICU".to_string()), limit: None, offset: None };
    assert_eq!(
        q.filter(),
        UnitFilter::ByOrganizationAndCode { organization_id: 4, code: "ICU".to_string() }
    );
    let q = ListUnitsQ { organization_id: Some(4), code: None, limit: None, offset: None };
    assert_eq!(q.filter(), UnitFilter::ByOrganization { organization_id: 4 });
    let q = ListUnitsQ { organization_id: None, code: Some("ICU".to_string()), limit: None, offset: None };
    assert_eq!(q.filter(), UnitFilter::All);
    assert_eq!(q.limit(), 50);
    assert_eq!(q.offset(), 0);
}

#[test]
fn deleted_tells_whether_rows_went() {
    assert!(!Deleted::from_rows(0).deleted);
    assert!(Deleted::from_rows(1).deleted);
    assert!(Deleted::from_rows(u64::MAX).deleted);
}

#[test]
fn health_is_ok_v1() {
    let h = health();
    assert_eq!(h.status, "ok");
    assert_eq!(h.version, "v1");
}

#[test]
fn error_messages_name_the_token() {
    let e = ApiError::UnknownShift { token: " Nite ".to_string() };
    assert_eq!(e.message(), "Unknown shift name from solver: ' Nite '");
    assert_eq!(e.class(), ErrorClass::Client);
    assert_eq!(e.class().status_code(), 400);
    let e = ApiError::UnknownStaff { token: "N-77".to_string() };
    assert_eq!(e.message(), "Unknown nurse identifier from solver: 'N-77'");
    assert_eq!(e.class().status_code(), 400);
    let e = ApiError::InvalidDate { token: "2024-13-01".to_string(), cause: DateErrorKind::OutOfRange };
    assert_eq!(e.message(), "invalid date '2024-13-01': input is out of range");
    assert_eq!(e.class().status_code(), 400);
    let e = ApiError::MalformedPayload { cause: "EOF".to_string() };
    assert_eq!(e.message(), "malformed payload: EOF");
    assert_eq!(e.class(), ErrorClass::Client);
}

#[test]
fn error_messages_of_the_server_side() {
    let e = ApiError::SolverFailed { cause: "timed out".to_string() };
    assert_eq!(e.message(), "internal error: timed out");
    assert_eq!(e.class(), ErrorClass::Upstream);
    assert_eq!(e.class().status_code(), 500);
    let e = ApiError::StoreFailed { cause: "solver run not found".to_string() };
    assert_eq!(e.message(), "internal error: solver run not found");
    assert_eq!(e.class(), ErrorClass::Store);
    assert_eq!(e.class().status_code(), 500);
    let e = ApiError::TotalOutOfRange;
    assert_eq!(e.message(), "internal error: KPI total out of range");
    assert_eq!(e.class().status_code(), 500);
}

#[test]
fn contains_text_finds_every_place() {
    assert!(contains_text("solver failed", "fail"));
    assert!(contains_text("fail", "fail"));
    assert!(contains_text("xfail", "fail"));
    assert!(contains_text("anything", ""));
    assert!(contains_text("", ""));
    assert!(!contains_text("", "fail"));
    assert!(!contains_text("fai", "fail"));
    assert!(!contains_text("fa il", "fail"));
    assert!(contains_text("ffail", "fail"));
    assert!(contains_text("größe fail", "fail"));
    assert!(contains_text("größe", "öß"));
}

#[test]
fn copies_are_equal() {
    assert_eq!(copy_text(&None), None);
    assert_eq!(copy_text(&Some("a b".to_string())), Some("a b".to_string()));
    assert_eq!(copy_bytes(&vec![]), Vec::<u8>::new());
    assert_eq!(copy_bytes(&vec![1, 2, 255]), vec![1, 2, 255]);
}

#[test]
fn list_of_organizations_uses_the_page() {
    let q = ListQ { status: Some("active".to_string()), limit: None, offset: Some(30) };
    assert_eq!(q.limit(), 50);
    assert_eq!(q.offset(), 30);
}

#[test]
fn decimal_text_of_integers() {
    assert_eq!(decimal_text(0), "0");
    assert_eq!(decimal_text(7), "7");
    assert_eq!(decimal_text(10), "10");
    assert_eq!(decimal_text(1_002_030), "1002030");
    assert_eq!(decimal_text(-1), "-1");
    assert_eq!(decimal_text(-90), "-90");
    assert_eq!(decimal_text(i64::MAX), "9223372036854775807");
    assert_eq!(decimal_text(i64::MIN), "-9223372036854775808");
    for n in [-1234567i64, -10, -9, 9, 99, 100, 4096, 987654321012] {
        assert_eq!(decimal_text(n), n.to_string());
    }
}

#[test]
fn addresses_of_the_services() {
    let config = ServiceConfig::new(None, None);
    assert_eq!(config.solver_base, "http://127.0.0.1:8000");
    assert_eq!(config.api_base, "http://127.0.0.1:8080");
    assert_eq!(config.solve_url(), "http://127.0.0.1:8000/solve");
    assert_eq!(config.ingest_url(42), "http://127.0.0.1:8080/api/v1/solver-runs/42/ingest-result");
    let config = ServiceConfig::new(Some("http://solver:9000".to_string()), Some("http://api".to_string()));
    assert_eq!(config.solve_url(), "http://solver:9000/solve");
    assert_eq!(config.ingest_url(7), "http://api/api/v1/solver-runs/7/ingest-result");
    assert_eq!(SOLVER_TIMEOUT_SECS, 120);
}
