use std::sync::Arc;

use jetson_remote_lib::error_code::ErrorCode;
use jetson_remote_lib::ids::SessionId;
use jetson_remote_lib::rdp::types::RdpConnectionConfig;
use jetson_remote_lib::session::engine::{NativeSurfaceHandle, RdpEngine};
use jetson_remote_lib::session::events::RdpEngineEvent;
use jetson_remote_lib::session::fake::{FakeCall, FakeRdpAdapter, FakeStep};
use jetson_remote_lib::session::manager::{CleanupHooks, FakeCleanupHooks, SessionManager};
use jetson_remote_lib::session::model::{
    ClipboardPayload, DesktopSize, RdpEventSink, RdpInputEvent, SessionViewState, SharedEventSink,
};

struct S;

impl RdpEventSink for S {
    fn on_event(&self, _s: &str, _a: u64, _e: RdpEngineEvent) {}
}

fn cfg() -> RdpConnectionConfig {
    RdpConnectionConfig {
        certificate_name: "t".into(),
        host: "h".into(),
        port: 3389,
        username: "u".into(),
        password: "p".into(),
        dynamic_resolution: true,
        clipboard: true,
    }
}

fn sink() -> SharedEventSink {
    Arc::new(S)
}

fn manager() -> SessionManager<FakeRdpAdapter, Box<FakeCleanupHooks>> {
    SessionManager::new(FakeRdpAdapter::default(), Box::new(FakeCleanupHooks { events: vec![] }))
}

#[test]
fn connect_creates_exactly_one_engine() {
    let mut m = manager();
    m.connect(SessionId::new("s1"), "d1", &cfg(), NativeSurfaceHandle::new(1), sink()).unwrap();
    m.connect(SessionId::new("s2"), "d2", &cfg(), NativeSurfaceHandle::new(2), sink()).unwrap();
    let mut ids = m.session_ids();
    ids.sort();
    assert_eq!(ids, vec!["s1", "s2"]);
}

#[test]
fn duplicate_connect_while_connecting_is_coalesced() {
    let mut m = manager();
    m.connect(SessionId::new("s1"), "d1", &cfg(), NativeSurfaceHandle::new(1), sink()).unwrap();
    assert!(m.connect(SessionId::new("s1"), "d1", &cfg(), NativeSurfaceHandle::new(1), sink()).is_err());
}

#[test]
fn engine_error_transitions_to_error() {
    let adapter = FakeRdpAdapter::with_scenario(vec![FakeStep::ConnectError { code: ErrorCode::RdpConnectFailed }]);
    let mut m = SessionManager::new(adapter, Box::new(FakeCleanupHooks { events: vec![] }));
    let res = m.connect(SessionId::new("s1"), "d1", &cfg(), NativeSurfaceHandle::new(1), sink());
    assert!(res.is_err());
    assert_eq!(res.unwrap_err(), ErrorCode::RdpConnectFailed);
}

#[test]
fn retry_creates_new_attempt_id() {
    let mut m = manager();
    let snap1 = m.connect(SessionId::new("s1"), "d1", &cfg(), NativeSurfaceHandle::new(1), sink()).unwrap();
    m.disconnect("s1");
    let snap2 = m.connect(SessionId::new("s1"), "d1", &cfg(), NativeSurfaceHandle::new(1), sink()).unwrap();
    assert!(snap2.attempt_id > snap1.attempt_id);
}

#[test]
fn stale_engine_callback_is_ignored() {
    let mut m = manager();
    let snap1 = m.connect(SessionId::new("s1"), "d1", &cfg(), NativeSurfaceHandle::new(1), sink()).unwrap();
    let attempt1 = snap1.attempt_id;
    m.disconnect("s1");
    let snap2 = m.connect(SessionId::new("s1"), "d1", &cfg(), NativeSurfaceHandle::new(1), sink()).unwrap();
    m.handle_engine_event("s1", attempt1, RdpEngineEvent::Error { code: ErrorCode::Unknown, retryable: false });
    assert_eq!(m.snapshot("s1").state, SessionViewState::Connecting);
    assert_eq!(m.snapshot("s1").attempt_id, snap2.attempt_id);
}

#[test]
fn focus_is_exclusive() {
    let mut m = manager();
    m.connect(SessionId::new("s1"), "d1", &cfg(), NativeSurfaceHandle::new(1), sink()).unwrap();
    m.connect(SessionId::new("s2"), "d2", &cfg(), NativeSurfaceHandle::new(2), sink()).unwrap();
    m.mark_connected("s1");
    m.mark_connected("s2");
    m.focus("s1").unwrap();
    assert_eq!(m.focused(), Some("s1"));
    m.focus("s2").unwrap();
    assert_eq!(m.focused(), Some("s2"));
    assert!(!m.snapshot("s1").active);
}

#[test]
fn clipboard_and_input_route_only_to_focused() {
    let mut m = manager();
    m.connect(SessionId::new("s1"), "d1", &cfg(), NativeSurfaceHandle::new(1), sink()).unwrap();
    m.connect(SessionId::new("s2"), "d2", &cfg(), NativeSurfaceHandle::new(2), sink()).unwrap();
    m.mark_connected("s1");
    m.mark_connected("s2");
    m.focus("s1").unwrap();
    m.set_clipboard("s1", ClipboardPayload { text: "x".into() }).unwrap();
    m.send_input("s1", RdpInputEvent::MouseMove { x: 1, y: 2 }).unwrap();
    assert!(m.set_clipboard("s2", ClipboardPayload { text: "x".into() }).is_err());
    assert!(m.send_input("s2", RdpInputEvent::MouseMove { x: 1, y: 2 }).is_err());
}

#[test]
fn disconnect_releases_clipboard_and_cleans_up_in_order() {
    let hooks = FakeCleanupHooks { events: vec![] };
    let mut m = SessionManager::new(FakeRdpAdapter::default(), Box::new(hooks));
    m.connect(SessionId::new("s1"), "d1", &cfg(), NativeSurfaceHandle::new(1), sink()).unwrap();
    m.mark_connected("s1");
    m.focus("s1").unwrap();
    m.disconnect("s1");
    let mut events: Vec<String> = Vec::new();
    let _ = &mut events;
}

#[test]
fn second_disconnect_is_noop() {
    let hooks = FakeCleanupHooks { events: vec![] };
    let mut m = SessionManager::new(FakeRdpAdapter::default(), Box::new(hooks));
    m.connect(SessionId::new("s1"), "d1", &cfg(), NativeSurfaceHandle::new(1), sink()).unwrap();
    m.disconnect("s1");
    m.disconnect("s1");
    assert!(m.session_ids().is_empty());
}

#[test]
fn multi_device_engine_handles_are_isolated() {
    let mut m = manager();
    m.connect(SessionId::new("s1"), "d1", &cfg(), NativeSurfaceHandle::new(1), sink()).unwrap();
    m.connect(SessionId::new("s2"), "d2", &cfg(), NativeSurfaceHandle::new(2), sink()).unwrap();
    m.mark_connected("s1");
    m.mark_connected("s2");
    m.disconnect("s1");
    assert!(m.health("s2").is_some());
    assert!(m.health("s1").is_none());
}

#[test]
fn teardown_runs_surface_tunnel_secrets_in_order() {
    let mut m = manager();
    m.connect(SessionId::new("s1"), "d1", &cfg(), NativeSurfaceHandle::new(1), sink()).unwrap();
    m.focus("s1").unwrap();
    m.disconnect("s1");
    let events = &m.hooks().events;
    assert_eq!(
        events,
        &vec![
            ("surface_destroy".to_string(), "s1".to_string()),
            ("tunnel_close".to_string(), "s1".to_string()),
            ("release_secrets".to_string(), "s1".to_string()),
        ]
    );
    assert_eq!(m.focused(), None);
    m.disconnect("s1");
    assert_eq!(m.hooks().events.len(), 3);
}

#[test]
fn engine_events_move_the_current_attempt_only() {
    let mut m = manager();
    let snap = m.connect(SessionId::new("s1"), "d1", &cfg(), NativeSurfaceHandle::new(1), sink()).unwrap();
    m.handle_engine_event("s1", snap.attempt_id, RdpEngineEvent::Connected { desktop_size: DesktopSize::new(1, 1) });
    assert_eq!(m.snapshot("s1").state, SessionViewState::Connected);
    m.handle_engine_event("s1", snap.attempt_id, RdpEngineEvent::Error { code: ErrorCode::RdpEngineCrashed, retryable: false });
    let after = m.snapshot("s1");
    assert_eq!(after.state, SessionViewState::Error);
    assert_eq!(after.error.as_deref(), Some("rdp_engine_crashed"));
    m.handle_engine_event("s1", snap.attempt_id + 1, RdpEngineEvent::Connected { desktop_size: DesktopSize::new(1, 1) });
    assert_eq!(m.snapshot("s1").state, SessionViewState::Error);
}

#[test]
fn unknown_sessions_are_refused() {
    let mut m = manager();
    assert_eq!(m.focus("nope"), Err(ErrorCode::Unknown));
    assert_eq!(m.resize("nope", DesktopSize::new(10, 10)), Err(ErrorCode::Unknown));
    assert!(m.health("nope").is_none());
}

#[test]
fn fake_engine_records_calls_and_hands_out_handles() {
    let mut e = FakeRdpAdapter::default();
    let s: SharedEventSink = sink();
    let h0 = e.start("a", 7, &cfg(), NativeSurfaceHandle::new(3), &s).unwrap();
    let h1 = e.start("b", 8, &cfg(), NativeSurfaceHandle::new(4), &s).unwrap();
    assert_ne!(h0, h1);
    e.stop(&h0).unwrap();
    let calls = e.calls_snapshot();
    assert_eq!(calls.len(), 3);
    match &calls[0] {
        FakeCall::Start { session_id, attempt_id, .. } => {
            assert_eq!(session_id, "a");
            assert_eq!(*attempt_id, 7);
        }
        other => panic!("unexpected {other:?}"),
    }
}

#[test]
fn cleanup_hooks_record_action_and_session() {
    let mut hooks = FakeCleanupHooks { events: vec![] };
    hooks.tunnel_close("x");
    assert_eq!(hooks.events, vec![("tunnel_close".to_string(), "x".to_string())]);
}
