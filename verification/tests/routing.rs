use nyanpasu_ipc::bytes_eq;
use nyanpasu_ipc::routing::{
    dispatch, reserved_path_bytes, serve_request, Dispatch, RequestOutcome, Router,
};

#[test]
fn reserved_path_is_ws() {
    assert_eq!(reserved_path_bytes(), b"/ws".to_vec());
}

#[test]
fn reserved_path_dispatches_to_upgrade() {
    let router = Router::new();
    assert!(matches!(dispatch(&router, b"/ws"), Dispatch::Upgrade));
}

#[test]
fn only_reserved_path_upgrades() {
    let mut router = Router::new();
    router.add_route(b"/ws2".to_vec()).unwrap();
    router.add_route(b"/WS".to_vec()).unwrap();
    assert!(matches!(dispatch(&router, b"/ws"), Dispatch::Upgrade));
    assert!(matches!(dispatch(&router, b"/ws2"), Dispatch::Route(0)));
    assert!(matches!(dispatch(&router, b"/WS"), Dispatch::Route(1)));
    assert!(matches!(dispatch(&router, b"/w"), Dispatch::NotFound));
    assert!(matches!(dispatch(&router, b""), Dispatch::NotFound));
}

#[test]
fn routes_match_by_first_index() {
    let mut router = Router::new();
    let a = router.add_route(b"/core/start".to_vec()).unwrap();
    let b = router.add_route(b"/core/stop".to_vec()).unwrap();
    assert_eq!(a, 0);
    assert_eq!(b, 1);
    assert!(matches!(dispatch(&router, b"/core/stop"), Dispatch::Route(1)));
}

#[test]
fn reserved_path_cannot_be_registered() {
    let mut router = Router::new();
    assert!(router.add_route(b"/ws".to_vec()).is_err());
    assert_eq!(router.routes.len(), 0);
}

#[test]
fn payload_passes_through_unmodified() {
    let mut router = Router::new();
    router.add_route(b"/core/start".to_vec()).unwrap();
    let payload = b"{\"core_type\":\"clash\",\"config_file\":\"/etc/app/config.yaml\"}".to_vec();
    match serve_request(&router, b"/core/start", payload.clone()) {
        RequestOutcome::Routed { route, payload: handed } => {
            assert_eq!(route, 0);
            assert_eq!(handed, payload);
        }
        _ => panic!("expected the request to reach the bound route"),
    }
}

#[test]
fn upgrade_request_never_reaches_a_route() {
    let mut router = Router::new();
    router.add_route(b"/core/start".to_vec()).unwrap();
    match serve_request(&router, b"/ws", b"ignored".to_vec()) {
        RequestOutcome::Upgraded => {}
        _ => panic!("the reserved path must upgrade"),
    }
}

#[test]
fn unknown_path_is_no_route() {
    let router = Router::new();
    assert!(matches!(
        serve_request(&router, b"/missing", Vec::new()),
        RequestOutcome::NoRoute
    ));
}

#[test]
fn bytes_eq_compares_contents() {
    assert!(bytes_eq(b"abc", b"abc"));
    assert!(!bytes_eq(b"abc", b"abd"));
    assert!(!bytes_eq(b"abc", b"ab"));
    assert!(bytes_eq(b"", b""));
}
