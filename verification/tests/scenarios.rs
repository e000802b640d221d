use roster_backend::errors::ApiError;
use roster_backend::scenarios::{CreateScenarioBody, ListQ, PatchScenarioBody, ScenarioStore};

const PAYLOAD: &str = "{\"unit\":\"U1\",\"shifts\":[\"Day\",\"Night\"]}";

#[test]
fn new_scenario_is_ready() {
    let mut store = ScenarioStore::new();
    let s = store.submit(1, "web".to_string(), PAYLOAD, Some(9), 1000).unwrap();
    assert_eq!(s.scenario_id, 1);
    assert_eq!(s.unit_id, 1);
    assert_eq!(s.source, "web");
    assert_eq!(s.status, "ready");
    assert_eq!(s.created_by, Some(9));
    assert_eq!(s.created_at, 1000);
    assert_eq!(s.payload, b"{\"shifts\":[\"Day\",\"Night\"],\"unit\":\"U1\"}".to_vec());
    assert_eq!(s.input_hash, roster_backend::digest::digest_hex(&s.payload));
    assert_eq!(s.input_hash.len(), 64);
    assert_eq!(store.len(), 1);
}

#[test]
fn same_payload_twice_is_one_scenario() {
    let mut store = ScenarioStore::new();
    let first = store.submit(1, "web".to_string(), PAYLOAD, Some(9), 1000).unwrap();
    let second = store
        .submit(1, "csv".to_string(), "{ \"shifts\": [\"Day\", \"Night\"], \"unit\": \"U1\" }", None, 2000)
        .unwrap();
    assert_eq!(store.len(), 1);
    assert_eq!(second, first);
    assert_eq!(second.input_hash, first.input_hash);
    assert_eq!(second.source, "web");
    assert_eq!(second.created_at, 1000);
}

#[test]
fn other_payload_or_other_unit_is_another_scenario() {
    let mut store = ScenarioStore::new();
    let a = store.submit(1, "web".to_string(), PAYLOAD, None, 1).unwrap();
    let b = store.submit(2, "web".to_string(), PAYLOAD, None, 2).unwrap();
    let c = store.submit(1, "web".to_string(), "{\"unit\":\"U1\",\"shifts\":[]}", None, 3).unwrap();
    assert_eq!(store.len(), 3);
    assert_eq!(a.input_hash, b.input_hash);
    assert_ne!(a.input_hash, c.input_hash);
    assert_eq!((a.scenario_id, b.scenario_id, c.scenario_id), (1, 2, 3));
}

#[test]
fn resubmission_after_failure_resets_status() {
    let mut store = ScenarioStore::new();
    let first = store.submit(1, "web".to_string(), PAYLOAD, None, 1).unwrap();
    assert!(store.set_status(first.scenario_id, "failed"));
    assert_eq!(store.get(first.scenario_id).unwrap().status, "failed");
    let again = store.submit(1, "web".to_string(), PAYLOAD, None, 50).unwrap();
    assert_eq!(again.scenario_id, first.scenario_id);
    assert_eq!(again.status, "ready");
    assert_eq!(store.get(first.scenario_id).unwrap().status, "ready");
    assert_eq!(store.len(), 1);
}

#[test]
fn malformed_payload_is_refused() {
    let mut store = ScenarioStore::new();
    let r = store.submit(1, "web".to_string(), "{\"unit\":", None, 1);
    assert!(matches!(r, Err(ApiError::MalformedPayload { .. })));
    assert_eq!(r.unwrap_err().class().status_code(), 400);
    assert_eq!(store.len(), 0);
}

#[test]
fn get_finds_by_id_only() {
    let mut store = ScenarioStore::new();
    let a = store.submit(1, "web".to_string(), PAYLOAD, None, 1).unwrap();
    assert_eq!(store.get(a.scenario_id), Some(a));
    assert_eq!(store.get(2), None);
    assert_eq!(store.get(0), None);
}

#[test]
fn set_status_touches_one_row() {
    let mut store = ScenarioStore::new();
    let a = store.submit(1, "web".to_string(), "1", None, 1).unwrap();
    let b = store.submit(1, "web".to_string(), "2", None, 2).unwrap();
    assert!(store.set_status(b.scenario_id, "queued"));
    assert!(!store.set_status(99, "queued"));
    assert_eq!(store.get(a.scenario_id).unwrap(), a);
    let changed = store.get(b.scenario_id).unwrap();
    assert_eq!(changed.status, "queued");
    assert_eq!(changed.payload, b.payload);
    assert_eq!(changed.input_hash, b.input_hash);
}

#[test]
fn patch_without_status_changes_nothing() {
    let mut store = ScenarioStore::new();
    let a = store.submit(1, "web".to_string(), "1", None, 1).unwrap();
    assert_eq!(store.patch(a.scenario_id, &PatchScenarioBody { status: None }), Some(a.clone()));
    let patched = store
        .patch(a.scenario_id, &PatchScenarioBody { status: Some("running".to_string()) })
        .unwrap();
    assert_eq!(patched.status, "running");
    assert_eq!(patched.scenario_id, a.scenario_id);
    assert_eq!(store.patch(77, &PatchScenarioBody { status: Some("running".to_string()) }), None);
}

#[test]
fn list_shows_most_recent_first() {
    let mut store = ScenarioStore::new();
    store.submit(1, "web".to_string(), "1", None, 300).unwrap();
    store.submit(2, "web".to_string(), "2", None, 100).unwrap();
    store.submit(1, "web".to_string(), "3", None, 500).unwrap();
    store.submit(1, "web".to_string(), "4", None, 300).unwrap();
    let all: Vec<i64> = store.list(&ListQ { unit_id: None }).iter().map(|s| s.scenario_id).collect();
    assert_eq!(all, vec![3, 1, 4, 2]);
    let one: Vec<i64> = store.list(&ListQ { unit_id: Some(1) }).iter().map(|s| s.scenario_id).collect();
    assert_eq!(one, vec![3, 1, 4]);
    let two: Vec<i64> = store.list(&ListQ { unit_id: Some(2) }).iter().map(|s| s.scenario_id).collect();
    assert_eq!(two, vec![2]);
    assert!(store.list(&ListQ { unit_id: Some(3) }).is_empty());
}

#[test]
fn delete_removes_one_scenario() {
    let mut store = ScenarioStore::new();
    let a = store.submit(1, "web".to_string(), "1", None, 1).unwrap();
    let b = store.submit(1, "web".to_string(), "2", None, 2).unwrap();
    assert!(store.delete(a.scenario_id).deleted);
    assert!(!store.delete(a.scenario_id).deleted);
    assert_eq!(store.len(), 1);
    assert_eq!(store.get(a.scenario_id), None);
    assert_eq!(store.get(b.scenario_id), Some(b));
    let c = store.submit(1, "web".to_string(), "1", None, 3).unwrap();
    assert_eq!(c.scenario_id, 3);
    assert_eq!(c.input_hash, a.input_hash);
}

#[test]
fn create_submits_the_request() {
    let mut store = ScenarioStore::new();
    let body = CreateScenarioBody {
        unit_id: 4,
        source: "chatbot".to_string(),
        payload: "{\"unit\":\"U1\",\"shifts\":[]}".to_string(),
        created_by: Some(2),
    };
    let first = store.create(body.clone(), 10).unwrap();
    assert_eq!(first.unit_id, 4);
    assert_eq!(first.source, "chatbot");
    assert_eq!(first.status, "ready");
    assert_eq!(first.payload, b"{\"shifts\":[],\"unit\":\"U1\"}".to_vec());
    let second = store.create(body, 20).unwrap();
    assert_eq!(second, first);
    assert_eq!(store.len(), 1);
}

#[test]
fn duplicate_of_a_scenario_is_equal() {
    let mut store = ScenarioStore::new();
    let a = store.submit(1, "web".to_string(), "[1,2]", Some(5), 7).unwrap();
    assert_eq!(a.duplicate(), a);
}
