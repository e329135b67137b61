use contradiction::circuits::{CircuitInputs, Hypotenuse, encode_journal};
use contradiction::config::{Config, LogLevel};
use contradiction::errors::NodeError;
use contradiction::models::{DefaultResponse, ExamplePost};
use contradiction::monitor::{ProbeReport, apply_probe, apply_probe_results};
use contradiction::registry::{PeerRegistry, RegisterOutcome};
use contradiction::routes::{Route, parse_query_params, query_param, route_of, str_eq};
use contradiction::store::{Receipt, ReceiptStore};

fn sample_receipt(journal_value: u32) -> Receipt {
    let inputs = CircuitInputs::Hypotenuse(Hypotenuse { x: 3, y: 4 });
    Receipt {
        proof_bytes: vec![0xAB, 0xCD, 0xEF],
        journal: encode_journal(journal_value),
        circuit: inputs.circuit_id(),
    }
}

#[test]
fn error_status_codes() {
    assert_eq!(NodeError::Validation.status_code(), 400);
    assert_eq!(NodeError::Conflict.status_code(), 409);
    assert_eq!(NodeError::NotFound.status_code(), 404);
    assert_eq!(NodeError::Compute.status_code(), 500);
    assert_eq!(NodeError::Verification.status_code(), 500);
    assert_eq!(NodeError::VerificationFailed.status_code(), 422);
    assert_eq!(NodeError::Transport.status_code(), 502);
    assert_eq!(NodeError::Storage.status_code(), 500);
}

#[test]
fn error_responses_carry_code_and_text() {
    let r = DefaultResponse::of_error(&NodeError::NotFound);
    assert_eq!(r.status_code, 404);
    assert_eq!(r.text, "not found");
    let r = DefaultResponse::of_error(&NodeError::VerificationFailed);
    assert_eq!(r.status_code, 422);
    assert_eq!(r.text, "receipt failed verification");
}

#[test]
fn store_insert_and_fetch_round_trip() {
    let mut store = ReceiptStore::new();
    let receipt = sample_receipt(5);
    let id = store.insert(receipt.duplicate(), Some(String::from("id-1"))).unwrap();
    assert_eq!(id, "id-1");
    let fetched = store.fetch(&id).unwrap();
    assert_eq!(fetched.proof_bytes, receipt.proof_bytes);
    assert_eq!(fetched.journal, receipt.journal);
    assert_eq!(fetched.circuit.words, receipt.circuit.words);
}

#[test]
fn store_duplicate_id_is_conflict_and_content_is_kept() {
    let mut store = ReceiptStore::new();
    let first = sample_receipt(5);
    store.insert(first.duplicate(), Some(String::from("same-id"))).unwrap();
    let second = sample_receipt(99);
    let err = store.insert(second, Some(String::from("same-id"))).unwrap_err();
    assert_eq!(err, NodeError::Conflict);
    // the prior record is untouched
    let kept = store.fetch(&String::from("same-id")).unwrap();
    assert_eq!(kept.journal, first.journal);
}

#[test]
fn store_generated_ids_are_distinct() {
    let mut store = ReceiptStore::new();
    let mut ids = Vec::new();
    for v in 0u32..20 {
        let id = store.insert(sample_receipt(v), None).unwrap();
        assert_eq!(id.len(), 36);
        assert!(!ids.contains(&id));
        ids.push(id);
    }
    for (v, id) in ids.iter().enumerate() {
        let rec = store.fetch(id).unwrap();
        assert_eq!(rec.journal, encode_journal(v as u32));
    }
}

#[test]
fn store_fetch_of_unknown_id_is_not_found() {
    let store = ReceiptStore::new();
    let err = store.fetch(&String::from("missing")).unwrap_err();
    assert_eq!(err, NodeError::NotFound);
}

#[test]
fn registry_registration_is_idempotent() {
    let mut registry = PeerRegistry::new();
    let first = registry.register(String::from("127.0.0.1"), 9000);
    assert_eq!(first, RegisterOutcome::Created);
    let second = registry.register(String::from("127.0.0.1"), 9000);
    assert_eq!(second, RegisterOutcome::Conflict);
    let peers = registry.list();
    assert_eq!(peers.len(), 1);
    assert_eq!(peers[0].address, "127.0.0.1");
    assert_eq!(peers[0].port, 9000);
    assert_eq!(peers[0].last_ping_at, None);
}

#[test]
fn registry_distinguishes_ports_and_addresses() {
    let mut registry = PeerRegistry::new();
    assert_eq!(registry.register(String::from("10.0.0.1"), 80), RegisterOutcome::Created);
    assert_eq!(registry.register(String::from("10.0.0.1"), 81), RegisterOutcome::Created);
    assert_eq!(registry.register(String::from("10.0.0.2"), 80), RegisterOutcome::Created);
    assert_eq!(registry.list().len(), 3);
}

#[test]
fn registry_remove_and_refresh() {
    let mut registry = PeerRegistry::new();
    registry.register(String::from("a"), 1);
    registry.register(String::from("b"), 2);
    assert!(registry.refresh(&String::from("a"), 1, 1000));
    let peers = registry.list();
    assert_eq!(peers[0].last_ping_at, Some(1000));
    assert_eq!(peers[1].last_ping_at, None);
    assert!(registry.remove(&String::from("a"), 1));
    assert!(!registry.remove(&String::from("a"), 1));
    let peers = registry.list();
    assert_eq!(peers.len(), 1);
    assert_eq!(peers[0].address, "b");
}

#[test]
fn failed_probe_evicts_peer() {
    let mut registry = PeerRegistry::new();
    registry.register(String::from("dead"), 7);
    registry.register(String::from("alive"), 8);
    apply_probe(
        &mut registry,
        &ProbeReport { address: String::from("dead"), port: 7, alive: false },
        500,
    );
    apply_probe(
        &mut registry,
        &ProbeReport { address: String::from("alive"), port: 8, alive: true },
        500,
    );
    let peers = registry.list();
    assert_eq!(peers.len(), 1);
    assert_eq!(peers[0].address, "alive");
    assert_eq!(peers[0].last_ping_at, Some(500));
}

#[test]
fn monitor_cycle_applies_every_outcome() {
    let mut registry = PeerRegistry::new();
    registry.register(String::from("a"), 1);
    registry.register(String::from("b"), 2);
    registry.register(String::from("c"), 3);
    let reports = vec![
        ProbeReport { address: String::from("a"), port: 1, alive: true },
        ProbeReport { address: String::from("b"), port: 2, alive: false },
        ProbeReport { address: String::from("c"), port: 3, alive: true },
        ProbeReport { address: String::from("unknown"), port: 9, alive: false },
    ];
    apply_probe_results(&mut registry, &reports, 4242);
    let peers = registry.list();
    assert_eq!(peers.len(), 2);
    assert_eq!(peers[0].address, "a");
    assert_eq!(peers[0].last_ping_at, Some(4242));
    assert_eq!(peers[1].address, "c");
    assert_eq!(peers[1].last_ping_at, Some(4242));
}

#[test]
fn routes_map_method_and_path() {
    assert_eq!(route_of("GET", "/ping"), Route::Ping);
    assert_eq!(route_of("POST", "/register_node"), Route::RegisterNode);
    assert_eq!(route_of("GET", "/registered_nodes"), Route::RegisteredNodes);
    assert_eq!(route_of("POST", "/json_api"), Route::JsonApi);
    assert_eq!(route_of("POST", "/api/do-compute"), Route::DoCompute);
    assert_eq!(route_of("GET", "/api/fetch-compute"), Route::FetchCompute);
    assert_eq!(route_of("POST", "/api/save-compute"), Route::SaveCompute);
    assert_eq!(route_of("POST", "/ping"), Route::Unknown);
    assert_eq!(route_of("GET", "/api/do-compute"), Route::Unknown);
    assert_eq!(route_of("DELETE", "/ping"), Route::Unknown);
    assert_eq!(route_of("GET", "/"), Route::Unknown);
}

#[test]
fn str_eq_compares_characters() {
    assert!(str_eq("abc", "abc"));
    assert!(!str_eq("abc", "abd"));
    assert!(!str_eq("abc", "ab"));
    assert!(str_eq("", ""));
}

#[test]
fn query_lookup_finds_the_first_match() {
    assert_eq!(query_param("uuid=abc", "uuid"), Some(String::from("abc")));
    assert_eq!(query_param("a=1&uuid=xyz&b=2", "uuid"), Some(String::from("xyz")));
    assert_eq!(query_param("uuid=first&uuid=second", "uuid"), Some(String::from("first")));
    assert_eq!(query_param("uuid", "uuid"), Some(String::from("")));
    assert_eq!(query_param("uuid=", "uuid"), Some(String::from("")));
    assert_eq!(query_param("a=1&b=2", "uuid"), None);
    assert_eq!(query_param("", "uuid"), None);
    assert_eq!(query_param("uuidx=1", "uuid"), None);
}

#[test]
fn query_lookup_decodes_form_escapes() {
    assert_eq!(query_param("uuid=a%62c", "uuid"), Some(String::from("abc")));
    assert_eq!(query_param("uuid=a+b", "uuid"), Some(String::from("a b")));
    assert_eq!(query_param("%75uid=x", "uuid"), Some(String::from("x")));
    assert_eq!(query_param("uuid=%41%7A", "uuid"), Some(String::from("Az")));
    // an escape that names no character stands for itself
    assert_eq!(query_param("uuid=a%zzb", "uuid"), Some(String::from("a%zzb")));
    assert_eq!(query_param("uuid=a%8f", "uuid"), Some(String::from("a%8f")));
    assert_eq!(query_param("uuid=a%2", "uuid"), Some(String::from("a%2")));
}

#[test]
fn missing_uuid_parameter_is_a_validation_fault() {
    let params = parse_query_params("uuid=0d9f2a").unwrap();
    assert_eq!(params.uuid, "0d9f2a");
    let err = parse_query_params("other=1").unwrap_err();
    assert_eq!(err, NodeError::Validation);
    assert_eq!(err.status_code(), 400);
}

#[test]
fn default_config_values() {
    let cfg = Config::default_config();
    assert_eq!(cfg.api.address, "0.0.0.0");
    assert_eq!(cfg.api.port, 8080);
    assert_eq!(cfg.db.path, "database.db");
    assert_eq!(cfg.db.pool_min, Some(1));
    assert_eq!(cfg.db.pool_max, Some(10));
    assert_eq!(cfg.db.pragma.as_deref(), Some("journal_mode=WAL"));
    assert_eq!(cfg.db.timeout, Some(30));
    assert_eq!(cfg.log.level, LogLevel::Info);
    assert_eq!(cfg.log.file_output, "contradiction.log");
    assert!(cfg.log.stdout);
    assert!(cfg.nodes.is_none());
}

#[test]
fn log_level_names_round_trip() {
    for level in [
        LogLevel::Off,
        LogLevel::Error,
        LogLevel::Warn,
        LogLevel::Info,
        LogLevel::Debug,
        LogLevel::Trace,
    ] {
        assert_eq!(LogLevel::from_name(&level.name()), level);
    }
}

#[test]
fn log_level_parsing_ignores_case_and_defaults_to_info() {
    assert_eq!(LogLevel::from_name("DEBUG"), LogLevel::Debug);
    assert_eq!(LogLevel::from_name("Warn"), LogLevel::Warn);
    assert_eq!(LogLevel::from_name("oFF"), LogLevel::Off);
    assert_eq!(LogLevel::from_name("verbose"), LogLevel::Info);
    assert_eq!(LogLevel::from_name(""), LogLevel::Info);
}

#[test]
fn example_post_is_rewritten() {
    let mut post = ExamplePost {
        name: String::from("posted-name"),
        age: 33,
        email: String::from("user@example.com"),
    };
    let response = contradiction::models::apply_example_post(&mut post);
    assert_eq!(post.name, "test_value");
    assert_eq!(post.age, 33);
    assert_eq!(post.email, "user@example.com");
    assert_eq!(response.status_code, 200);
    assert_eq!(response.text, "test_value");
}
