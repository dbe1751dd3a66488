use nyanpasu_ipc::errors::{containment, Containment, Fault, ServerError};
use nyanpasu_ipc::server::{ConnEvent, ConnState, Phase, ServerState};
use nyanpasu_ipc::session::{Session, SessionEvent, SessionState};
use nyanpasu_ipc::transport::{
    endpoint_path, provision_plan, windows_descriptor_bytes, ProvisionStep, SOCKET_MODE,
};

#[test]
fn session_opens_then_closes_on_disconnect() {
    let mut s = Session::new();
    assert_eq!(s.state, SessionState::Pending);
    assert!(!s.subscribed);
    let released = s.step(SessionEvent::Opened);
    assert_eq!(s.state, SessionState::Open);
    assert!(s.subscribed);
    assert!(!released);
    let released = s.step(SessionEvent::ConnectionClosed);
    assert_eq!(s.state, SessionState::Closed);
    assert!(!s.subscribed);
    assert!(released);
}

#[test]
fn session_close_is_absorbing() {
    let mut s = Session::new();
    s.step(SessionEvent::StreamError);
    assert_eq!(s.state, SessionState::Closed);
    let released = s.step(SessionEvent::Opened);
    assert_eq!(s.state, SessionState::Closed);
    assert!(!released);
}

#[test]
fn pending_session_closes_without_release() {
    let mut s = Session::new();
    let released = s.step(SessionEvent::CloseSignal);
    assert_eq!(s.state, SessionState::Closed);
    assert!(!s.subscribed);
    assert!(!released);
}

#[test]
fn message_order_is_preserved_per_direction() {
    let mut s = Session::new();
    s.step(SessionEvent::Opened);
    s.send(b"first".to_vec());
    s.send(b"second".to_vec());
    s.receive(b"in-1".to_vec());
    s.receive(b"in-2".to_vec());
    assert_eq!(s.next_outbound(), Some(b"first".to_vec()));
    assert_eq!(s.next_outbound(), Some(b"second".to_vec()));
    assert_eq!(s.next_outbound(), None);
    assert_eq!(s.next_inbound(), Some(b"in-1".to_vec()));
    assert_eq!(s.next_inbound(), Some(b"in-2".to_vec()));
    assert_eq!(s.next_inbound(), None);
}

#[test]
fn server_phases_advance_in_order() {
    let mut srv = ServerState::new();
    assert_eq!(srv.phase, Phase::Idle);
    srv.endpoint_ready();
    assert_eq!(srv.phase, Phase::Listening);
    srv.start_accepting();
    assert_eq!(srv.phase, Phase::Accepting);
    srv.listener_failure();
    assert_eq!(srv.phase, Phase::Stopped);
}

#[test]
fn accepted_connections_get_fresh_ids() {
    let mut srv = ServerState::new();
    srv.endpoint_ready();
    srv.start_accepting();
    assert_eq!(srv.accept(), 0);
    assert_eq!(srv.accept(), 1);
    assert_eq!(srv.accept(), 2);
    assert_eq!(srv.conns.len(), 3);
    assert!(srv.conns.iter().all(|c| c.state == ConnState::Serving));
}

#[test]
fn failing_connection_leaves_others_untouched() {
    let mut srv = ServerState::new();
    srv.endpoint_ready();
    srv.start_accepting();
    let a = srv.accept();
    let b = srv.accept();
    srv.conn_event(a, ConnEvent::Failed);
    assert_eq!(srv.conns[a as usize].state, ConnState::Closed);
    assert_eq!(srv.conns[b as usize].state, ConnState::Serving);
    assert_eq!(srv.phase, Phase::Accepting);
}

#[test]
fn upgrade_event_marks_only_a_serving_connection() {
    let mut srv = ServerState::new();
    srv.endpoint_ready();
    srv.start_accepting();
    let a = srv.accept();
    srv.conn_event(a, ConnEvent::Upgraded);
    assert_eq!(srv.conns[0].state, ConnState::Upgraded);
    srv.conn_event(a, ConnEvent::Closed);
    assert_eq!(srv.conns[0].state, ConnState::Closed);
    srv.conn_event(a, ConnEvent::Upgraded);
    assert_eq!(srv.conns[0].state, ConnState::Closed);
}

#[test]
fn stale_artifact_is_removed_before_binding() {
    let plan = provision_plan(true);
    assert_eq!(
        plan,
        vec![
            ProvisionStep::RemoveStale,
            ProvisionStep::Bind,
            ProvisionStep::SetGroup,
            ProvisionStep::SetMode,
        ]
    );
}

#[test]
fn clean_path_binds_directly() {
    let plan = provision_plan(false);
    assert_eq!(
        plan,
        vec![
            ProvisionStep::Bind,
            ProvisionStep::SetGroup,
            ProvisionStep::SetMode,
        ]
    );
}

#[test]
fn socket_mode_is_owner_group_read_write() {
    assert_eq!(SOCKET_MODE, 0o664);
}

#[test]
fn endpoint_path_is_computed_from_the_logical_name() {
    let path = endpoint_path(b"/var/run/app", b"control");
    assert_eq!(path, b"/var/run/app/control.sock".to_vec());
}

#[test]
fn windows_descriptor_is_the_broad_placeholder() {
    assert_eq!(windows_descriptor_bytes(), b"D:(A;;GA;;;WD)".to_vec());
}

#[test]
fn fault_containment_matches_the_taxonomy() {
    assert!(matches!(
        containment(&Fault::Transport(b"bind failed".to_vec())),
        Containment::AbortStartup
    ));
    assert!(matches!(
        containment(&Fault::Accept(b"out of descriptors".to_vec())),
        Containment::StopProcess
    ));
    assert!(matches!(
        containment(&Fault::Connection { conn: 7, message: b"reset".to_vec() }),
        Containment::CloseConnection(7)
    ));
    assert!(matches!(
        containment(&Fault::Handler(b"bad request".to_vec())),
        Containment::ErrorResponse
    ));
}

#[test]
fn server_error_carries_its_message() {
    let io = ServerError::Io(b"broken pipe".to_vec());
    let other = ServerError::Other(b"anything".to_vec());
    assert_eq!(io.message(), &b"broken pipe".to_vec());
    assert_eq!(other.message(), &b"anything".to_vec());
}

#[test]
fn shutdown_stops_new_accepts_and_drains() {
    let mut srv = ServerState::new();
    srv.endpoint_ready();
    srv.start_accepting();
    let a = srv.accept();
    let b = srv.accept();
    srv.conn_event(b, ConnEvent::Closed);
    srv.request_shutdown();
    assert_eq!(srv.phase, Phase::Draining);
    assert_eq!(srv.conns[a as usize].state, ConnState::Serving);
    srv.drain_deadline();
    assert_eq!(srv.phase, Phase::Stopped);
    assert!(srv.conns.iter().all(|c| c.state == ConnState::Closed));
}

#[test]
fn clean_shutdown_removes_the_artifact() {
    let plan = nyanpasu_ipc::transport::shutdown_plan();
    assert_eq!(plan, vec![ProvisionStep::RemoveStale]);
}
