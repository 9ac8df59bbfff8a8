//! Lifecycle commands: creation, deployment, deletion, environment.

use sha2::Digest;
use binarydrop::commands::{create, delete, deploy, next_available_port, set_env, AppCreateError,
    DeleteError, DeployError, DeployOutcome};
use binarydrop::errors::BinaryDropError;
use binarydrop::commands::set_health_check;
use binarydrop::models::{App, AppInfo, AppState, HealthCheck, HealthCheckType, RestartPolicy};
use binarydrop::store::Store;

const NOW: u64 = 1_700_000_000;

fn hex_sha256(data: &[u8]) -> String {
    let mut hasher = sha2::Sha256::new();
    hasher.update(data);
    hex::encode(hasher.finalize())
}

#[test]
fn test_create_app_already_exists() {
    let mut store = Store::new();
    let app_name = "test_app";
    let app = App::new(app_name, 8080, NOW).unwrap();
    store.save(&app);

    let got = create(&mut store, app_name, NOW).unwrap_err();
    match got {
        AppCreateError::AppAlreadyExists(ref n) if n == app_name => {}
        _ => panic!("Expected AppAlreadyExists, got: {:?}", got),
    }
}

#[test]
fn test_create_app_happy_path() {
    let mut store = Store::new();
    let app_name = "test_app_happy";
    create(&mut store, app_name, NOW).unwrap();
    let app = store.get_by_name(app_name);
    assert!(app.is_some());
}

#[test]
fn test_create_app_invalid_name() {
    let mut store = Store::new();
    let app_name = "";
    let got = create(&mut store, app_name, NOW).unwrap_err();
    match got {
        AppCreateError::AppError(_) => {}
        _ => panic!("Expected AppError for invalid name, got: {:?}", got),
    }
}

#[test]
fn test_deleting_non_existant_app() {
    let mut store = Store::new();
    let got = delete(&mut store, "non_existant_app").unwrap_err();
    let want = DeleteError::AppNotFound("non_existant_app".to_string());
    assert_eq!(got, want);
}

#[test]
fn test_deleting_running_app() {
    let mut store = Store::new();
    let app_name = "test_app";
    let mut app = App::new(app_name, 8080, NOW).unwrap();
    app.state = AppState::Running;
    app.process_id = Some(1234);
    store.save(&app);

    let got = delete(&mut store, app_name).unwrap_err();
    let want = DeleteError::AppRunning(app_name.to_string());
    assert_eq!(got, want);
    assert!(store.get_by_name(app_name).is_some());
}

#[test]
fn test_delete_happy_path() {
    let mut store = Store::new();
    let app_name = "test_app";
    let app = App::new(app_name, 8080, NOW).unwrap();
    store.save(&app);

    delete(&mut store, app_name).unwrap();
    let app = store.get_by_name(app_name);
    assert!(app.is_none());
}

#[test]
fn create_assigns_first_free_port() {
    let mut store = Store::new();
    assert_eq!(next_available_port(&store), Some(8000));
    create(&mut store, "first", NOW).unwrap();
    assert_eq!(store.get_by_name("first").unwrap().port, 8000);
    assert_eq!(next_available_port(&store), Some(8001));
    create(&mut store, "second", NOW).unwrap();
    assert_eq!(store.get_by_name("second").unwrap().port, 8001);
}

#[test]
fn create_sets_documented_defaults() {
    let mut store = Store::new();
    create(&mut store, "svc", NOW).unwrap();
    let app = store.get_by_name("svc").unwrap();
    assert_eq!(app.state, AppState::Created);
    assert_eq!(app.binary_path, None);
    assert_eq!(app.binary_hash, None);
    assert_eq!(app.process_id, None);
    assert_eq!(app.restart_policy, RestartPolicy::OnFailure);
    assert_eq!(app.max_restarts, Some(5));
    assert_eq!(app.restart_count, 0);
    assert_eq!(app.host, "0.0.0.0");
    assert_eq!(app.created_at, NOW);
    assert_eq!(app.updated_at, NOW);
    assert_eq!(app.startup_timeout, 30);
    assert_eq!(app.shutdown_timeout, 10);
    assert!(app.health_check.is_some());
    assert_eq!(app.id.len(), 36);
}

#[test]
fn create_rejects_invalid_names_without_any_mutation() {
    let mut store = Store::new();
    let too_long = "x".repeat(65);
    for bad in ["", "UPPER", "has space", "dot.ted", too_long.as_str()] {
        let got = create(&mut store, bad, NOW);
        assert!(matches!(got, Err(AppCreateError::AppError(_))), "{:?}", bad);
        assert_eq!(store.get_all().len(), 0);
    }
    assert!(binarydrop::is_valid_app_name("a"));
    assert!(binarydrop::is_valid_app_name("svc-1_b"));
    assert!(binarydrop::is_valid_app_name(&"x".repeat(64)));
    assert!(!binarydrop::is_valid_app_name(&"x".repeat(65)));
    assert!(!binarydrop::is_valid_app_name("Svc"));
    assert!(!binarydrop::is_valid_app_name(""));
}

#[test]
fn deploy_stores_sha256_hex_and_path() {
    let mut store = Store::new();
    create(&mut store, "svc1", NOW).unwrap();
    let bytes = b"test binary content";
    let out = deploy(&mut store, "svc1", bytes, "/data/apps/svc1/app", NOW + 5).unwrap();
    assert_eq!(out, DeployOutcome::Deployed);
    let app = store.get_by_name("svc1").unwrap();
    assert_eq!(app.state, AppState::Deployed);
    assert_eq!(app.binary_path.as_deref(), Some("/data/apps/svc1/app"));
    assert_eq!(app.binary_hash.as_deref(), Some(hex_sha256(bytes).as_str()));
    assert_eq!(app.updated_at, NOW + 5);
}

#[test]
fn deploy_same_binary_is_a_no_op() {
    let mut store = Store::new();
    create(&mut store, "svc1", NOW).unwrap();
    let bytes = b"identical payload";
    deploy(&mut store, "svc1", bytes, "/data/apps/svc1/app", NOW + 1).unwrap();
    let before = store.get_by_name("svc1").unwrap();
    let out = deploy(&mut store, "svc1", bytes, "/data/apps/svc1/app", NOW + 99).unwrap();
    assert_eq!(out, DeployOutcome::Unchanged);
    let after = store.get_by_name("svc1").unwrap();
    assert_eq!(after.state, before.state);
    assert_eq!(after.binary_path, before.binary_path);
    assert_eq!(after.binary_hash, before.binary_hash);
    assert_eq!(after.updated_at, before.updated_at);
}

#[test]
fn deploy_unknown_app_fails() {
    let mut store = Store::new();
    let got = deploy(&mut store, "ghost", b"x", "/tmp/app", NOW).unwrap_err();
    assert_eq!(got, DeployError::AppNotFound("ghost".to_string()));
}

#[test]
fn set_health_check_attaches_and_detaches() {
    let mut store = Store::new();
    create(&mut store, "svc", NOW).unwrap();
    let hc = HealthCheck {
        check_type: HealthCheckType::HttpGet { path: "/healthz".to_string(), expected_status: 204 },
        interval: 5,
        timeout: 2,
        retries: 3,
        start_period: 1,
    };
    set_health_check(&mut store, "svc", Some(hc), NOW + 1).unwrap();
    let app = store.get_by_name("svc").unwrap();
    let stored = app.health_check.unwrap();
    let HealthCheckType::HttpGet { path, expected_status } = stored.check_type;
    assert_eq!(path, "/healthz");
    assert_eq!(expected_status, 204);
    assert_eq!(stored.interval, 5);

    set_health_check(&mut store, "svc", None, NOW + 2).unwrap();
    let app = store.get_by_name("svc").unwrap();
    assert!(app.health_check.is_none());
    assert_eq!(app.updated_at, NOW + 2);

    let got = set_health_check(&mut store, "ghost", None, NOW).unwrap_err();
    assert_eq!(got, BinaryDropError::AppNotFound("ghost".to_string()));
}

#[test]
fn app_info_summarizes_a_record() {
    let mut store = Store::new();
    create(&mut store, "svc", NOW).unwrap();
    let mut app = store.get_by_name("svc").unwrap();
    app.state = AppState::Running;
    app.process_id = Some(321);
    let info = AppInfo::of(&app);
    assert_eq!(info.name, "svc");
    assert_eq!(info.state, "running");
    assert_eq!(info.host, "0.0.0.0");
    assert_eq!(info.port, 8000);
    assert_eq!(info.process_id, Some(321));
    assert_eq!(info.id, app.id);
}

#[test]
fn set_env_inserts_updates_and_removes() {
    let mut store = Store::new();
    create(&mut store, "svc", NOW).unwrap();
    set_env(&mut store, "svc", "KEY", "v1", false, NOW + 1).unwrap();
    let app = store.get_by_name("svc").unwrap();
    assert_eq!(app.environment, vec![("KEY".to_string(), "v1".to_string())]);
    set_env(&mut store, "svc", "KEY", "v2", false, NOW + 2).unwrap();
    let app = store.get_by_name("svc").unwrap();
    assert_eq!(app.environment, vec![("KEY".to_string(), "v2".to_string())]);
    set_env(&mut store, "svc", "OTHER", "x", false, NOW + 3).unwrap();
    set_env(&mut store, "svc", "KEY", "", true, NOW + 4).unwrap();
    let app = store.get_by_name("svc").unwrap();
    assert_eq!(app.environment, vec![("OTHER".to_string(), "x".to_string())]);
    let got = set_env(&mut store, "ghost", "K", "v", false, NOW).unwrap_err();
    assert_eq!(got, BinaryDropError::AppNotFound("ghost".to_string()));
}
