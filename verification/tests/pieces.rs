//! The smaller verified pieces: hashing, rendering numbers, labels,
//! paths, log tails, the store, and the end-to-end deployment story.

use sha2::Digest;
use binarydrop::commands::{create, deploy};
use binarydrop::config::{get_app_binary_path, get_app_data_dir, get_app_dir, get_app_log_path,
    get_db_path, set_test_dirs, ClientConfig, Dirs, ServerConfig};
use binarydrop::digest::hash_binary;
use binarydrop::logs::tail_lines;
use binarydrop::models::{App, AppState, ProcessHistory, RestartPolicy};
use binarydrop::numstr::u64_to_string;
use binarydrop::providers::TestProvider;
use binarydrop::store::Store;
use binarydrop::supervisor::Supervisor;

const NOW: u64 = 1_700_000_000;

#[test]
fn sha256_hex_of_known_input() {
    // The well-known digest of the empty input.
    assert_eq!(
        hash_binary(b""),
        "e3b0c44298fc1c149afbf4c8996fb92427ae41e4649b934ca495991b7852b855"
    );
    // Cross-checked against the hashing and encoding crates directly.
    let mut hasher = sha2::Sha256::new();
    hasher.update(b"abc");
    assert_eq!(hash_binary(b"abc"), hex::encode(hasher.finalize()));
}

#[test]
fn decimal_rendering_is_exact() {
    assert_eq!(u64_to_string(0), "0");
    assert_eq!(u64_to_string(7), "7");
    assert_eq!(u64_to_string(12345), "12345");
    assert_eq!(u64_to_string(u64::MAX), "18446744073709551615");
}

#[test]
fn state_and_policy_labels_round_trip() {
    let states = [
        AppState::Created,
        AppState::Deployed,
        AppState::Starting,
        AppState::Running,
        AppState::Stopping,
        AppState::Stopped,
        AppState::Failed,
        AppState::Restarting,
        AppState::Crashed,
    ];
    for s in states {
        assert_eq!(AppState::parse_label(&s.label()), s);
    }
    assert_eq!(AppState::Running.label(), "running");
    assert_eq!(AppState::parse_label("no-such-state"), AppState::Created);
    for p in [RestartPolicy::Always, RestartPolicy::OnFailure, RestartPolicy::Never] {
        assert_eq!(RestartPolicy::parse_label(&p.label()), p);
    }
    assert_eq!(RestartPolicy::OnFailure.label(), "on-failure");
    assert_eq!(RestartPolicy::parse_label("whatever"), RestartPolicy::OnFailure);
}

#[test]
fn derived_paths_are_exact() {
    let mut dirs = Dirs::new("/var/data".to_string(), "/etc/bd".to_string());
    assert_eq!(get_app_dir(&dirs, "svc"), "/var/data/apps/svc");
    assert_eq!(get_app_log_path(&dirs, "svc"), "/var/data/apps/svc/svc.log");
    assert_eq!(get_app_binary_path(&dirs, "svc"), "/var/data/apps/svc/app");
    assert_eq!(get_app_data_dir(&dirs, "svc"), "/var/data/apps/svc/data");
    assert_eq!(get_db_path(&dirs), "/etc/bd/binarydrop.db");
    set_test_dirs(&mut dirs, "/tmp/d".to_string(), "/tmp/c".to_string());
    assert_eq!(get_app_log_path(&dirs, "x"), "/tmp/d/apps/x/x.log");
    assert_eq!(get_db_path(&dirs), "/tmp/c/binarydrop.db");
}

#[test]
fn config_defaults_match_the_documented_ones() {
    let server = ServerConfig::default();
    assert_eq!(server.host, "0.0.0.0");
    assert_eq!(server.proxy_host, "0.0.0.0");
    assert_eq!(server.proxy_port, 80);
    let client = ClientConfig::default();
    assert_eq!(client.base_url, "http://admin-api.localhost");
}

#[test]
fn tail_lines_selects_the_last_lines() {
    let text = b"one\ntwo\nthree\nfour\n";
    assert_eq!(tail_lines(text, 2), b"three\nfour".to_vec());
    assert_eq!(tail_lines(text, 10), b"one\ntwo\nthree\nfour".to_vec());
    assert_eq!(tail_lines(text, 0), b"".to_vec());
    assert_eq!(tail_lines(b"", 5), b"".to_vec());
    assert_eq!(tail_lines(b"no trailing newline", 1), b"no trailing newline".to_vec());
    assert_eq!(tail_lines(b"a\n\nb", 2), b"\nb".to_vec());
}

#[test]
fn store_upserts_by_id_and_cascades_deletes() {
    let mut store = Store::new();
    let mut app = App::new("svc", 8080, NOW).unwrap();
    store.save(&app);
    assert_eq!(store.get_all().len(), 1);

    app.state = AppState::Deployed;
    store.save(&app);
    let loaded = store.get_by_name("svc").unwrap();
    assert_eq!(loaded.state, AppState::Deployed);
    assert_eq!(store.get_all().len(), 1);

    let row = ProcessHistory::new(&app.id, NOW);
    store.save_history(&row);
    assert_eq!(store.get_by_app_id(&app.id).len(), 1);

    store.delete_by_id(&app.id);
    assert!(store.get_by_name("svc").is_none());
    assert_eq!(store.get_by_app_id(&app.id).len(), 0);
}

#[test]
fn store_queries_by_state_and_latest_history() {
    let mut store = Store::new();
    let mut a = App::new("a", 8080, NOW).unwrap();
    a.state = AppState::Running;
    store.save(&a);
    let b = App::new("b", 8081, NOW).unwrap();
    store.save(&b);

    let running = store.get_by_state(AppState::Running);
    assert_eq!(running.len(), 1);
    assert_eq!(running[0].name, "a");

    let older = ProcessHistory::new(&a.id, NOW);
    let newer = ProcessHistory::new(&a.id, NOW + 50);
    store.save_history(&older);
    store.save_history(&newer);
    store.save_history(&ProcessHistory::new(&b.id, NOW + 99));
    let latest = store.latest_history_for(&a.id).unwrap();
    assert_eq!(latest.started_at, NOW + 50);
    assert_eq!(latest.id, newer.id);
    assert!(store.latest_history_for("no-such-id").is_none());
}

#[test]
fn history_queries_come_newest_first() {
    let mut store = Store::new();
    let a = App::new("a", 8080, NOW).unwrap();
    let b = App::new("b", 8081, NOW).unwrap();
    store.save(&a);
    store.save(&b);
    store.save_history(&ProcessHistory::new(&a.id, NOW + 10));
    store.save_history(&ProcessHistory::new(&a.id, NOW + 30));
    store.save_history(&ProcessHistory::new(&a.id, NOW + 20));
    store.save_history(&ProcessHistory::new(&b.id, NOW + 25));

    let rows = store.get_by_app_id(&a.id);
    let starts: Vec<u64> = rows.iter().map(|r| r.started_at).collect();
    assert_eq!(starts, vec![NOW + 30, NOW + 20, NOW + 10]);

    let recent = store.get_recent(2);
    let starts: Vec<u64> = recent.iter().map(|r| r.started_at).collect();
    assert_eq!(starts, vec![NOW + 30, NOW + 25]);
    assert_eq!(store.get_recent(10).len(), 4);
}

#[test]
fn end_to_end_deploy_and_start() {
    let mut store = Store::new();
    let mut sup = Supervisor::new();
    let mut provider = TestProvider { next_pid: 9001 };

    create(&mut store, "svc1", NOW).unwrap();
    assert_eq!(store.get_by_name("svc1").unwrap().state, AppState::Created);

    let bytes = b"the service binary";
    deploy(&mut store, "svc1", bytes, "/data/apps/svc1/app", NOW + 1).unwrap();
    let app = store.get_by_name("svc1").unwrap();
    assert_eq!(app.state, AppState::Deployed);
    assert_eq!(app.binary_hash.as_deref(), Some(hash_binary(bytes).as_str()));

    let pid = sup.handle_start(&mut store, &mut provider, "svc1", NOW + 2).unwrap();
    assert!(pid > 0);
    let app = store.get_by_name("svc1").unwrap();
    assert_eq!(app.state, AppState::Running);
    assert_eq!(app.process_id, Some(pid));
}

#[test]
fn test_binary_deployment() {
    let mut store = Store::new();
    let app_name = "test-app-binary";
    create(&mut store, app_name, NOW).unwrap();

    // A simple binary payload stands in for the uploaded file.
    deploy(&mut store, app_name, b"test binary content", "/data/apps/app", NOW).unwrap();

    let app = store.get_by_name(app_name).unwrap();
    assert_eq!(app.state.label(), "deployed");

    binarydrop::commands::delete(&mut store, app_name).unwrap();
    assert!(store.get_by_name(app_name).is_none());
}

#[test]
fn start_nonexistent_creates_nothing() {
    let mut store = Store::new();
    let mut sup = Supervisor::new();
    let mut provider = TestProvider { next_pid: 1 };
    let got = sup.handle_start(&mut store, &mut provider, "nope", NOW).unwrap_err();
    assert_eq!(got, binarydrop::supervisor::StartError::AppNotFound("nope".to_string()));
    assert_eq!(store.get_all().len(), 0);
    assert_eq!(sup.process_count(), 0);
}

#[test]
fn validate_app_name_reports_invalid() {
    assert!(binarydrop::errors::validate_app_name("good-name_1").is_ok());
    assert!(matches!(
        binarydrop::errors::validate_app_name("Bad Name"),
        Err(binarydrop::errors::BinaryDropError::InvalidAppName(_))
    ));
}

#[test]
fn fresh_ids_are_hyphenated_uuids() {
    let a = App::new("a", 8080, NOW).unwrap();
    let b = App::new("b", 8080, NOW).unwrap();
    assert_eq!(a.id.len(), 36);
    assert_eq!(b.id.len(), 36);
    assert_ne!(a.id, b.id);
    let row = ProcessHistory::new(&a.id, NOW);
    assert_eq!(row.id.len(), 36);
    assert_ne!(row.id, a.id);
}
