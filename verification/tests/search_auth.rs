use configservice::Config;
use configservice::ConfigStore;
use configservice::ErrorResponse;
use configservice::GateOutcome;
use configservice::gate_api_key;
use configservice::handle_delete;
use configservice::matches_query;

fn cfg(id: i32, desc: &str, key: &str, value: &str) -> Config {
    Config {
        id,
        desc: String::from(desc),
        key: String::from(key),
        value: String::from(value),
    }
}

fn sample_store() -> ConfigStore {
    let mut store = ConfigStore::new();
    store.create(cfg(1, "Chain name", "chain_name", "Top Shelf")).unwrap();
    store.create(cfg(2, "Loyalty desc", "loyalty", "Loyalty Key")).unwrap();
    store.create(cfg(3, "Motto", "motto", "shelf space")).unwrap();
    store
}

#[test]
fn search_is_case_insensitive() {
    let store = sample_store();
    let hits = store.search("TOP");
    assert_eq!(hits.len(), 1);
    assert_eq!(hits[0].value, "Top Shelf");
}

#[test]
fn search_folds_both_sides() {
    let store = sample_store();
    let hits = store.search("Shelf");
    let ids: Vec<i32> = hits.iter().map(|c| c.id).collect();
    assert_eq!(ids, vec![1, 3]);
}

#[test]
fn search_with_empty_query_returns_every_record() {
    let store = sample_store();
    let hits = store.search("");
    assert_eq!(hits.len(), 3);
    let ids: Vec<i32> = hits.iter().map(|c| c.id).collect();
    assert_eq!(ids, vec![1, 2, 3]);
}

#[test]
fn search_without_match_returns_nothing() {
    let store = sample_store();
    assert_eq!(store.search("no such value").len(), 0);
}

#[test]
fn matches_query_folds_case_both_ways() {
    assert!(matches_query("Top Shelf", "top"));
    assert!(matches_query("top shelf", "TOP SHELF"));
    assert!(!matches_query("abc", "xyz"));
}

#[test]
fn gate_rejects_missing_key_when_enforcing() {
    let expected = String::from("rust-rocks");
    match gate_api_key(None, &expected, true) {
        GateOutcome::Reject(ErrorResponse::Unauthorized(reason)) => {
            assert_eq!(reason, "missing api key")
        },
        _ => panic!("expected a rejection"),
    }
}

#[test]
fn gate_rejects_wrong_key_when_enforcing() {
    let expected = String::from("rust-rocks");
    let wrong = String::from("wrong-key");
    match gate_api_key(Some(&wrong), &expected, true) {
        GateOutcome::Reject(ErrorResponse::Unauthorized(reason)) => {
            assert_eq!(reason, "incorrect api key")
        },
        _ => panic!("expected a rejection"),
    }
}

#[test]
fn gate_passes_matching_key_and_log_only_mode() {
    let expected = String::from("rust-rocks");
    let same = String::from("rust-rocks");
    assert!(matches!(gate_api_key(Some(&same), &expected, true), GateOutcome::Proceed));
    assert!(matches!(gate_api_key(None, &expected, false), GateOutcome::Proceed));
    let wrong = String::from("wrong-key");
    assert!(matches!(gate_api_key(Some(&wrong), &expected, false), GateOutcome::Proceed));
}

#[test]
fn gated_delete_requires_the_key_then_removes() {
    let mut store = ConfigStore::new();
    store.create(cfg(1, "Chain name", "chain_name", "Top Shelf")).unwrap();
    let expected = String::from("rust-rocks");

    let denied = handle_delete(&mut store, 1, None, &expected);
    match denied {
        Err(e @ ErrorResponse::Unauthorized(_)) => assert_eq!(e.status_code(), 401),
        _ => panic!("expected unauthorized"),
    }
    assert_eq!(store.list().len(), 1);

    let key = String::from("rust-rocks");
    handle_delete(&mut store, 1, Some(&key), &expected).unwrap();
    match store.get_by_id(1) {
        Err(ErrorResponse::NotFound(detail)) => assert_eq!(detail, "id = 1"),
        _ => panic!("expected not found after delete"),
    }
}

#[test]
fn gated_delete_of_missing_id_with_key_is_not_found() {
    let mut store = ConfigStore::new();
    let expected = String::from("rust-rocks");
    let key = String::from("rust-rocks");
    match handle_delete(&mut store, 4, Some(&key), &expected) {
        Err(ErrorResponse::NotFound(detail)) => assert_eq!(detail, "id = 4"),
        _ => panic!("expected not found"),
    }
}

#[test]
fn error_status_codes() {
    assert_eq!(ErrorResponse::NotFound(String::from("id = 1")).status_code(), 404);
    assert_eq!(ErrorResponse::Conflict(String::from("id = 1")).status_code(), 409);
    assert_eq!(ErrorResponse::Unauthorized(String::from("missing api key")).status_code(), 401);
}
