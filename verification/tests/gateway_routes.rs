//! The gateway: routing by Host header, forwarding plans, the admin
//! dashboard, and the helpers they are built from.

use binarydrop::commands::{create, deploy};
use binarydrop::gateway::{build_target_uri, forward_headers, plan_for_request, route_for_host,
    GatewayPlan, HttpRequest, Route};
use binarydrop::models::AppState;
use binarydrop::store::Store;

const NOW: u64 = 1_700_000_000;

fn plain_request() -> HttpRequest {
    HttpRequest {
        method: "POST".to_string(),
        path_and_query: "/orders?id=7".to_string(),
        headers: vec![
            ("host".to_string(), "svc1.example".to_string()),
            ("accept".to_string(), "*/*".to_string()),
        ],
        body: b"payload".to_vec(),
    }
}

#[test]
fn routing_by_leftmost_label() {
    assert!(matches!(route_for_host("admin-api.example.com"), Route::AdminApi));
    assert!(matches!(route_for_host("admin.example.com"), Route::Admin));
    match route_for_host("svc1.example.com") {
        Route::App(name) => assert_eq!(name, "svc1"),
        other => panic!("expected an app route, got {:?}", other),
    }
    match route_for_host("admin") {
        // No dot after the label: an app named "admin", as the
        // reserved prefixes both require the trailing dot.
        Route::App(name) => assert_eq!(name, "admin"),
        other => panic!("expected an app route, got {:?}", other),
    }
    assert!(matches!(route_for_host(""), Route::NoApp));
    assert!(matches!(route_for_host(".example.com"), Route::NoApp));
}

#[test]
fn admin_host_renders_dashboard_with_every_app() {
    let mut store = Store::new();
    create(&mut store, "alpha", NOW).unwrap();
    create(&mut store, "beta", NOW).unwrap();
    match plan_for_request(&store, "admin.example.com", plain_request()) {
        GatewayPlan::Respond { status, body } => {
            assert_eq!(status, 200);
            assert!(body.starts_with("<!DOCTYPE html>"));
            assert!(body.contains("alpha"));
            assert!(body.contains("beta"));
            assert!(body.contains("created"));
            assert!(body.contains("8000"));
            assert!(body.contains("8001"));
        }
        other => panic!("expected a response, got a different plan: {}", kind_of(&other)),
    }
}

#[test]
fn unknown_app_gets_404() {
    let store = Store::new();
    match plan_for_request(&store, "ghost.example.com", plain_request()) {
        GatewayPlan::Respond { status, body } => {
            assert_eq!(status, 404);
            assert_eq!(body, "App not found: ghost");
        }
        other => panic!("expected a response, got: {}", kind_of(&other)),
    }
}

#[test]
fn stopped_app_gets_503() {
    let mut store = Store::new();
    create(&mut store, "svc1", NOW).unwrap();
    {
        let mut app = store.get_by_name("svc1").unwrap();
        app.state = AppState::Stopped;
        store.save(&app);
    }
    match plan_for_request(&store, "svc1.example.com", plain_request()) {
        GatewayPlan::Respond { status, body } => {
            assert_eq!(status, 503);
            assert_eq!(body, "App 'svc1' is not running");
        }
        other => panic!("expected a response, got: {}", kind_of(&other)),
    }
}

#[test]
fn running_app_is_forwarded_with_rewritten_headers() {
    let mut store = Store::new();
    create(&mut store, "svc1", NOW).unwrap();
    deploy(&mut store, "svc1", b"bin", "/data/apps/svc1/app", NOW).unwrap();
    {
        let mut app = store.get_by_name("svc1").unwrap();
        app.state = AppState::Running;
        app.process_id = Some(41);
        store.save(&app);
    }
    match plan_for_request(&store, "svc1.example.com", plain_request()) {
        GatewayPlan::ForwardApp { upstream_host, upstream_port, request } => {
            assert_eq!(upstream_host, "0.0.0.0");
            assert_eq!(upstream_port, 8000);
            assert_eq!(request.method, "POST");
            assert_eq!(request.path_and_query, "/orders?id=7");
            assert_eq!(request.body, b"payload".to_vec());
            assert_eq!(
                request.headers,
                vec![
                    ("accept".to_string(), "*/*".to_string()),
                    ("x-forwarded-host".to_string(), "svc1.example.com".to_string()),
                    ("x-forwarded-proto".to_string(), "http".to_string()),
                ]
            );
        }
        other => panic!("expected a forward, got: {}", kind_of(&other)),
    }
}

#[test]
fn admin_api_host_is_forwarded_in_process() {
    let store = Store::new();
    assert!(matches!(
        plan_for_request(&store, "admin-api.example.com", plain_request()),
        GatewayPlan::ForwardAdminApi
    ));
}

#[test]
fn empty_label_gets_404() {
    let store = Store::new();
    match plan_for_request(&store, ".example.com", plain_request()) {
        GatewayPlan::Respond { status, body } => {
            assert_eq!(status, 404);
            assert_eq!(body, "No app specified in host header");
        }
        other => panic!("expected a response, got: {}", kind_of(&other)),
    }
}

#[test]
fn forward_headers_drops_host_and_appends_forwarding_pair() {
    let headers = vec![
        ("host".to_string(), "a.example".to_string()),
        ("content-type".to_string(), "text/plain".to_string()),
    ];
    let out = forward_headers(headers, "a.example");
    assert_eq!(
        out,
        vec![
            ("content-type".to_string(), "text/plain".to_string()),
            ("x-forwarded-host".to_string(), "a.example".to_string()),
            ("x-forwarded-proto".to_string(), "http".to_string()),
        ]
    );
}

#[test]
fn target_uri_is_exact() {
    assert_eq!(build_target_uri("0.0.0.0", 8080, "/health"), "http://0.0.0.0:8080/health");
    assert_eq!(build_target_uri("127.0.0.1", 80, ""), "http://127.0.0.1:80");
}

fn kind_of(plan: &GatewayPlan) -> &'static str {
    match plan {
        GatewayPlan::Respond { .. } => "respond",
        GatewayPlan::ForwardAdminApi => "forward-admin-api",
        GatewayPlan::ForwardApp { .. } => "forward-app",
    }
}
