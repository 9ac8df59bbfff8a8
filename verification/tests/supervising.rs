//! The supervisor: start, stop, process exits, restart policy, warm
//! restore, health checks and stats.

use binarydrop::commands::{create, deploy};
use binarydrop::errors::BinaryDropError;
use binarydrop::models::{App, AppState, RestartPolicy};
use binarydrop::providers::TestProvider;
use binarydrop::store::Store;
use binarydrop::supervisor::{apps_to_check, ExitOutcome, HealthPlan, StartError, StopAction,
    Supervisor};

const NOW: u64 = 1_700_000_000;

fn deployed_store(name: &str) -> Store {
    let mut store = Store::new();
    create(&mut store, name, NOW).unwrap();
    deploy(&mut store, name, b"#!binary", "/data/apps/app", NOW).unwrap();
    store
}

#[test]
fn test_starting_non_existant_app() {
    let mut store = Store::new();
    let mut sup = Supervisor::new();
    let mut provider = TestProvider { next_pid: 1 };
    let got = sup.handle_start(&mut store, &mut provider, "non_existant_app", NOW).unwrap_err();
    let want = StartError::AppNotFound("non_existant_app".to_string());
    assert_eq!(got, want);
}

#[test]
fn test_starting_not_deployed_app() {
    let mut store = Store::new();
    let app_name = "app";
    let app = App::new(app_name, 8080, NOW).unwrap();
    store.save(&app);

    let mut sup = Supervisor::new();
    let mut provider = TestProvider { next_pid: 1 };
    let got = sup.handle_start(&mut store, &mut provider, app_name, NOW).unwrap_err();
    let want = StartError::AppNotDeployed(app_name.to_string());
    assert_eq!(got, want);
}

#[test]
fn test_starting_already_running_app() {
    let app_name = "app";
    let mut store = deployed_store(app_name);
    let mut sup = Supervisor::new();
    let mut provider = TestProvider { next_pid: 1 };
    sup.handle_start(&mut store, &mut provider, app_name, NOW).unwrap();

    let before = sup.process_count();
    let got = sup.handle_start(&mut store, &mut provider, app_name, NOW).unwrap_err();
    let want = StartError::AppAlreadyRunning(app_name.to_string());
    assert_eq!(got, want);
    assert_eq!(sup.process_count(), before);
}

#[test]
fn start_not_deployed_fails_regardless_of_state() {
    for state in [
        AppState::Created,
        AppState::Stopped,
        AppState::Failed,
        AppState::Crashed,
        AppState::Running,
    ] {
        let mut store = Store::new();
        let mut app = App::new("svc", 8080, NOW).unwrap();
        app.state = state;
        app.binary_path = None;
        store.save(&app);
        let mut sup = Supervisor::new();
        let mut provider = TestProvider { next_pid: 7 };
        let got = sup.handle_start(&mut store, &mut provider, "svc", NOW).unwrap_err();
        assert_eq!(got, StartError::AppNotDeployed("svc".to_string()));
        assert_eq!(sup.process_count(), 0);
    }
}

#[test]
fn start_records_pid_history_and_running_state() {
    let mut store = deployed_store("svc1");
    let mut sup = Supervisor::new();
    let mut provider = TestProvider { next_pid: 4242 };
    let pid = sup.handle_start(&mut store, &mut provider, "svc1", NOW + 10).unwrap();
    assert_eq!(pid, 4242);
    let app = store.get_by_name("svc1").unwrap();
    assert_eq!(app.state, AppState::Running);
    assert_eq!(app.process_id, Some(4242));
    assert!(sup.is_app_running("svc1"));
    let rows = store.get_by_app_id(&app.id);
    assert_eq!(rows.len(), 1);
    assert_eq!(rows[0].started_at, NOW + 10);
    assert_eq!(rows[0].ended_at, None);
}

#[test]
fn clean_exit_under_on_failure_stops_and_never_restarts() {
    let mut store = deployed_store("svc");
    let mut sup = Supervisor::new();
    let mut provider = TestProvider { next_pid: 9 };
    sup.handle_start(&mut store, &mut provider, "svc", NOW).unwrap();

    let outcome = sup.handle_process_exit(&mut store, "svc", 0, NOW + 60).unwrap();
    assert_eq!(outcome, ExitOutcome::Stopped);
    let app = store.get_by_name("svc").unwrap();
    assert_eq!(app.state, AppState::Stopped);
    assert_eq!(app.restart_count, 0);
    assert_eq!(app.last_exit_code, Some(0));
    assert_eq!(app.last_exit_time, Some(NOW + 60));
    assert_eq!(app.process_id, None);
    assert!(!sup.is_app_running("svc"));
    let rows = store.get_by_app_id(&app.id);
    assert_eq!(rows[0].exit_reason.as_deref(), Some("Clean exit"));
    assert_eq!(rows[0].exit_code, Some(0));
}

#[test]
fn failing_exit_under_on_failure_restarts_with_backoff() {
    let mut store = deployed_store("svc");
    let mut sup = Supervisor::new();
    let mut provider = TestProvider { next_pid: 9 };
    sup.handle_start(&mut store, &mut provider, "svc", NOW).unwrap();

    let outcome = sup.handle_process_exit(&mut store, "svc", 1, NOW + 60).unwrap();
    assert_eq!(outcome, ExitOutcome::RestartAfter(1));
    let app = store.get_by_name("svc").unwrap();
    assert_eq!(app.state, AppState::Restarting);
    assert_eq!(app.restart_count, 1);
    let rows = store.get_by_app_id(&app.id);
    assert_eq!(rows[0].exit_reason.as_deref(), Some("Crashed"));
}

#[test]
fn repeated_failures_reach_the_cap_and_crash() {
    let mut store = deployed_store("svc");
    let mut sup = Supervisor::new();
    let mut provider = TestProvider { next_pid: 100 };
    // max_restarts defaults to 5; each failing exit is followed by the
    // restart the policy asked for.
    for round in 1..=5u32 {
        sup.handle_start(&mut store, &mut provider, "svc", NOW).unwrap();
        let outcome = sup.handle_process_exit(&mut store, "svc", 1, NOW + round as u64).unwrap();
        let expected_backoff = if round < 5 { round } else { 5 };
        assert_eq!(outcome, ExitOutcome::RestartAfter(expected_backoff));
        let app = store.get_by_name("svc").unwrap();
        assert_eq!(app.state, AppState::Restarting);
        assert_eq!(app.restart_count, round);
    }
    sup.handle_start(&mut store, &mut provider, "svc", NOW).unwrap();
    let outcome = sup.handle_process_exit(&mut store, "svc", 1, NOW + 99).unwrap();
    assert_eq!(outcome, ExitOutcome::Crashed);
    let app = store.get_by_name("svc").unwrap();
    assert_eq!(app.state, AppState::Crashed);
    assert_eq!(app.restart_count, 5);
    assert!(!sup.is_app_running("svc"));
}

#[test]
fn exit_137_under_always_restarts_and_start_revives() {
    let mut store = deployed_store("svc");
    {
        let mut app = store.get_by_name("svc").unwrap();
        app.restart_policy = RestartPolicy::Always;
        store.save(&app);
    }
    let mut sup = Supervisor::new();
    let mut provider = TestProvider { next_pid: 500 };
    sup.handle_start(&mut store, &mut provider, "svc", NOW).unwrap();
    let first_pid = store.get_by_name("svc").unwrap().process_id;

    let outcome = sup.handle_process_exit(&mut store, "svc", 137, NOW + 30).unwrap();
    assert_eq!(outcome, ExitOutcome::RestartAfter(1));
    let app = store.get_by_name("svc").unwrap();
    assert_eq!(app.state, AppState::Restarting);
    assert_eq!(app.restart_count, 1);

    // After the one-second backoff the caller starts the app again.
    let new_pid = sup.handle_start(&mut store, &mut provider, "svc", NOW + 31).unwrap();
    let app = store.get_by_name("svc").unwrap();
    assert_eq!(app.state, AppState::Running);
    assert_eq!(app.process_id, Some(new_pid));
    assert_ne!(first_pid, Some(new_pid));
}

#[test]
fn never_policy_failing_exit_goes_failed() {
    let mut store = deployed_store("svc");
    {
        let mut app = store.get_by_name("svc").unwrap();
        app.restart_policy = RestartPolicy::Never;
        store.save(&app);
    }
    let mut sup = Supervisor::new();
    let mut provider = TestProvider { next_pid: 2 };
    sup.handle_start(&mut store, &mut provider, "svc", NOW).unwrap();
    let outcome = sup.handle_process_exit(&mut store, "svc", 3, NOW + 5).unwrap();
    assert_eq!(outcome, ExitOutcome::Failed);
    assert_eq!(store.get_by_name("svc").unwrap().state, AppState::Failed);
}

#[test]
fn stop_closes_history_with_stopped_by_user() {
    let mut store = deployed_store("svc1");
    let mut sup = Supervisor::new();
    let mut provider = TestProvider { next_pid: 77 };
    sup.handle_start(&mut store, &mut provider, "svc1", NOW).unwrap();

    let action = sup.stop_begin(&mut store, "svc1", NOW + 40).unwrap();
    assert_eq!(action, StopAction::Kill(77));
    assert_eq!(store.get_by_name("svc1").unwrap().state, AppState::Stopping);
    assert!(!sup.is_app_running("svc1"));

    sup.stop_finish(&mut store, "svc1", Some(0), NOW + 41).unwrap();
    let app = store.get_by_name("svc1").unwrap();
    assert_eq!(app.state, AppState::Stopped);
    assert_eq!(app.process_id, None);
    let latest = store.latest_history_for(&app.id).unwrap();
    assert_eq!(latest.exit_reason.as_deref(), Some("Stopped by user"));
    assert_eq!(latest.ended_at, Some(NOW + 41));
}

#[test]
fn stop_without_live_process_reconciles_to_stopped() {
    let mut store = Store::new();
    let mut app = App::new("svc", 8080, NOW).unwrap();
    app.state = AppState::Running;
    app.process_id = Some(999);
    store.save(&app);
    let mut sup = Supervisor::new();
    let action = sup.stop_begin(&mut store, "svc", NOW + 1).unwrap();
    assert_eq!(action, StopAction::AlreadyStopped);
    let app = store.get_by_name("svc").unwrap();
    assert_eq!(app.state, AppState::Stopped);
    assert_eq!(app.process_id, None);
}

#[test]
fn stop_unknown_app_fails() {
    let mut store = Store::new();
    let mut sup = Supervisor::new();
    let got = sup.stop_begin(&mut store, "nope", NOW).unwrap_err();
    assert_eq!(got, BinaryDropError::AppNotFound("nope".to_string()));
}

#[test]
fn start_accepts_a_stopped_deployed_record() {
    let mut store = deployed_store("svc");
    {
        let mut app = store.get_by_name("svc").unwrap();
        app.state = AppState::Stopped;
        store.save(&app);
    }
    let mut sup = Supervisor::new();
    let mut provider = TestProvider { next_pid: 61 };
    let pid = sup.handle_start(&mut store, &mut provider, "svc", NOW).unwrap();
    assert_eq!(pid, 61);
    assert_eq!(store.get_by_name("svc").unwrap().state, AppState::Running);
}

#[test]
fn warm_restore_relaunches_running_and_demotes_broken() {
    let mut store = Store::new();
    // One record persisted Running with a binary: must come back Running.
    create(&mut store, "alive", NOW).unwrap();
    deploy(&mut store, "alive", b"bin", "/data/apps/alive/app", NOW).unwrap();
    {
        let mut app = store.get_by_name("alive").unwrap();
        app.state = AppState::Running;
        app.process_id = Some(1);
        store.save(&app);
    }
    // One record persisted Running without a binary: must be demoted.
    {
        let mut app = App::new("broken", 8080, NOW).unwrap();
        app.state = AppState::Running;
        store.save(&app);
    }
    // One record not Running: must be untouched.
    create(&mut store, "idle", NOW).unwrap();

    let mut sup = Supervisor::new();
    let mut provider = TestProvider { next_pid: 3000 };
    let count = sup.warm_restore(&mut store, &mut provider, NOW + 100);
    assert_eq!(count, 1);
    assert_eq!(count, sup.process_count());
    let alive = store.get_by_name("alive").unwrap();
    assert_eq!(alive.state, AppState::Running);
    assert_eq!(alive.process_id, Some(3000));
    assert!(sup.is_app_running("alive"));
    let rows = store.get_by_app_id(&alive.id);
    assert_eq!(rows[0].started_at, NOW + 100);
    assert_eq!(rows[0].ended_at, None);
    assert_eq!(store.get_by_name("broken").unwrap().state, AppState::Failed);
    assert!(!sup.is_app_running("broken"));
    assert_eq!(store.get_by_name("idle").unwrap().state, AppState::Created);
}

#[test]
fn health_plan_cases() {
    let mut store = deployed_store("svc");
    let mut sup = Supervisor::new();
    let mut provider = TestProvider { next_pid: 5 };

    // Not running: skipped.
    assert!(matches!(sup.health_check_plan(&store, "svc"), Ok(HealthPlan::Skip)));
    // Unknown: not found.
    assert!(matches!(
        sup.health_check_plan(&store, "ghost"),
        Err(BinaryDropError::AppNotFound(_))
    ));

    sup.handle_start(&mut store, &mut provider, "svc", NOW).unwrap();
    match sup.health_check_plan(&store, "svc").unwrap() {
        HealthPlan::Probe { host, port, path, timeout, expected_status } => {
            assert_eq!(host, "0.0.0.0");
            assert_eq!(port, 8000);
            assert_eq!(path, "/");
            assert_eq!(timeout, 10);
            assert_eq!(expected_status, 200);
        }
        other => panic!("expected a probe, got {:?}", other),
    }

    // Running with a check but no live handle: an error for the driver.
    let mut sup2 = Supervisor::new();
    assert!(matches!(
        sup2.health_check_plan(&store, "svc"),
        Err(BinaryDropError::ProcessError(_))
    ));
    sup2.stop_begin(&mut store, "svc", NOW).unwrap();

    // Running without a configured check: skipped.
    let mut app = store.get_by_name("svc").unwrap();
    app.state = AppState::Running;
    app.health_check = None;
    store.save(&app);
    assert!(matches!(sup.health_check_plan(&store, "svc"), Ok(HealthPlan::Skip)));
}

#[test]
fn apps_to_check_lists_running_apps_with_checks() {
    let mut store = Store::new();
    create(&mut store, "a", NOW).unwrap();
    create(&mut store, "b", NOW).unwrap();
    create(&mut store, "c", NOW).unwrap();
    {
        let mut app = store.get_by_name("b").unwrap();
        app.state = AppState::Running;
        store.save(&app);
    }
    {
        let mut app = store.get_by_name("c").unwrap();
        app.state = AppState::Running;
        app.health_check = None;
        store.save(&app);
    }
    let names = apps_to_check(&store);
    assert_eq!(names, vec!["b".to_string()]);
}

#[test]
fn app_stats_reflect_record_table_and_history() {
    let mut store = deployed_store("svc");
    let mut sup = Supervisor::new();
    let mut provider = TestProvider { next_pid: 11 };
    sup.handle_start(&mut store, &mut provider, "svc", NOW).unwrap();
    let stats = sup.get_app_stats(&store, "svc", NOW + 30).unwrap();
    assert_eq!(stats.app_name, "svc");
    assert_eq!(stats.state, AppState::Running);
    assert_eq!(stats.uptime_secs, Some(30));
    assert_eq!(stats.pid, Some(11));
    assert_eq!(stats.restart_count, 0);
    assert_eq!(stats.total_runs, 1);
    assert!(sup.get_app_stats(&store, "ghost", NOW).is_none());
}

#[test]
fn restart_needs_stop_only_when_running() {
    let mut store = deployed_store("svc");
    let sup = Supervisor::new();
    assert_eq!(sup.restart_needs_stop(&store, "svc"), Ok(false));
    let mut app = store.get_by_name("svc").unwrap();
    app.state = AppState::Running;
    store.save(&app);
    assert_eq!(sup.restart_needs_stop(&store, "svc"), Ok(true));
    assert!(sup.restart_needs_stop(&store, "nope").is_err());
}
