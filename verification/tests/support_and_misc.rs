use jetson_remote_lib::commands::app::{app_info, health_check};
use jetson_remote_lib::commands::connection::{
    device_key, identity_host, map_provision_error, map_ssh_error, map_tunnel_error, probe_error_from_remember,
    ProbeErrorCode,
};
use jetson_remote_lib::commands::network::probe_targets;
use jetson_remote_lib::commands::rdp::{
    after_attempt, launch_outcome, launch_start, repair_identity, restart_outcome, AttemptNext, LaunchStart,
    SessionLaunchMode,
};
use jetson_remote_lib::rdp::error::RdpErrorCode;
use jetson_remote_lib::rdp::types::RdpLaunchResult;
use jetson_remote_lib::bootstrap::error::ProvisionError;
use jetson_remote_lib::device::detector::{detect_outcome, DetectError, DetectOutcome};
use jetson_remote_lib::device::types::{DetectedIp, JetsonDetectionResult, JetsonDevice};
use jetson_remote_lib::net::probe::classify;
use jetson_remote_lib::remember::RememberError;
use jetson_remote_lib::ssh::error::SshError;
use jetson_remote_lib::ssh::executor::{drain_lines, flush_line};
use jetson_remote_lib::test_support::fake_clock::FakeClock;
use jetson_remote_lib::test_support::fault::{FaultAction, FaultEffect, FaultInjector};
use jetson_remote_lib::test_support::recorder::EventRecorder;
use jetson_remote_lib::tunnel::TunnelError;
use jetson_remote_lib::updater::{parse_curl_output, parse_version, release_check, update_check, version_is_newer};

#[test]
fn advance_is_additive_and_visible() {
    let mut clock = FakeClock::new(1_000);
    assert_eq!(clock.now_ms(), 1_000);
    assert_eq!(clock.advance(500), 1_500);
    assert_eq!(clock.now_ms(), 1_500);
    assert_eq!(clock.after(3, 250), 2_250);
}

#[test]
fn advance_never_goes_backwards() {
    let mut clock = FakeClock::new(0);
    let a = clock.advance(10);
    let b = clock.advance(5);
    assert!(b >= a);
}

#[test]
fn can_model_a_backoff_schedule() {
    let mut clock = FakeClock::new(0);
    let schedule = [200, 400, 800];
    let mut observed = Vec::new();
    for step in schedule {
        observed.push(clock.advance(step));
    }
    assert_eq!(observed, vec![200, 600, 1400]);
}

#[test]
fn empty_spec_has_no_rules() {
    let injector = FaultInjector::parse("");
    assert!(!injector.has("anything"));
    assert!(injector.trigger("anything").is_ok());
}

#[test]
fn parses_error_delay_and_panic_actions() {
    let injector =
        FaultInjector::parse("updater.download.mid=error:boom,app.start.after_runtime=panic,slow.point=delay:10");
    assert!(injector.has("updater.download.mid"));
    assert!(injector.has("app.start.after_runtime"));
    assert!(injector.has("slow.point"));
    assert!(injector.trigger("updater.download.mid").is_err());
    assert_eq!(injector.trigger("app.start.after_runtime").ok(), Some(FaultEffect::Panic));
    assert_eq!(injector.trigger("slow.point").ok(), Some(FaultEffect::DelayMs(10)));
}

#[test]
fn error_action_reports_key_and_message() {
    let injector = FaultInjector::parse("updater.swap.before=error:disk full");
    let err = injector.trigger("updater.swap.before").unwrap_err();
    assert_eq!(err.display_string(), "injected fault at updater.swap.before: disk full");
    assert_eq!(err.key(), "updater.swap.before");
}

#[test]
fn unarmed_point_stays_ok() {
    let injector = FaultInjector::parse("a=error:x");
    assert!(injector.trigger("b").is_ok());
}

#[test]
fn malformed_rules_are_ignored() {
    let injector = FaultInjector::parse("noequals,numeric=delay:abc,unknown=explode:now");
    assert!(!injector.has("noequals"));
    assert!(!injector.has("unknown"));
    assert!(injector.has("numeric"));
    assert!(injector.trigger("numeric").is_ok());
    assert!(injector.trigger("noequals").is_ok());
}

#[test]
fn arm_adds_runtime_rules() {
    let mut injector = FaultInjector::new();
    injector.arm("x", FaultAction::Error("late".into()));
    assert!(injector.trigger("x").is_err());
}

#[test]
fn error_message_cannot_carry_over_from_another_rule() {
    let injector = FaultInjector::parse("a=error:one,b=error:two");
    assert_eq!(injector.trigger("a").unwrap_err().display_string(), "injected fault at a: one");
    assert_eq!(injector.trigger("b").unwrap_err().display_string(), "injected fault at b: two");
}

#[test]
fn later_rule_for_a_key_wins() {
    let injector = FaultInjector::parse(" k = error: first ,k=delay: 7 ");
    assert_eq!(injector.trigger("k").ok(), Some(FaultEffect::DelayMs(7)));
}

#[test]
fn ordering_is_total_and_stable() {
    let mut recorder = EventRecorder::new();
    recorder.record("stop_rdp");
    recorder.record("detach_surface");
    recorder.record("close_tunnel");
    assert_eq!(recorder.names(), vec!["stop_rdp", "detach_surface", "close_tunnel"]);
    assert!(recorder.contains_in_order(&["detach_surface", "close_tunnel"]));
    assert!(recorder.contains_in_order(&["stop_rdp", "close_tunnel"]));
    assert!(!recorder.contains_in_order(&["close_tunnel", "stop_rdp"]));
    assert!(recorder.never("release_secrets"));
    assert_eq!(recorder.count("close_tunnel"), 1);
}

#[test]
fn contains_in_order_ignores_intervening_events() {
    let mut recorder = EventRecorder::new();
    for name in ["a", "noise", "b", "noise", "c"] {
        recorder.record(name);
    }
    assert!(recorder.contains_in_order(&["a", "b", "c"]));
    assert_eq!(recorder.count("noise"), 2);
}

#[test]
fn recorded_events_are_numbered_from_one() {
    let mut recorder = EventRecorder::new();
    let e = recorder.record("x");
    assert_eq!(e.seq, 1);
    assert_eq!(e.display_string(), "#1 x");
    let events = recorder.events();
    assert_eq!(events.len(), 1);
    assert_eq!(recorder.record("y").seq, 2);
}

#[test]
fn version_compare() {
    assert!(version_is_newer("0.1.0", "0.2.0"));
    assert!(!version_is_newer("0.2.0", "0.2.0"));
    assert!(version_is_newer("0.2.0", "0.10.0"));
    assert!(version_is_newer("0.2.0", "0.2.1"));
    assert!(!version_is_newer("0.2.1", "0.2.0"));
    assert!(!version_is_newer("1.0.0", "1.0.0-rc1"));
    assert!(version_is_newer("1.0.0", "1.0.1"));
}

#[test]
fn version_parsing_drops_prefixes_and_suffixes() {
    assert_eq!(parse_version(" v1.2.3 "), vec![1, 2, 3]);
    assert_eq!(parse_version("vV2.x"), vec![2, 0]);
    assert!(version_is_newer("1.0", "1.0.1"));
    assert!(!version_is_newer("1.0.0", "1"));
}

#[test]
fn update_check_statuses() {
    let r = update_check("0.1.0", false, 404, "").ok().unwrap();
    assert!(!r.update_available && r.latest_version.is_none());
    assert_eq!(update_check("0.1.0", false, 429, "").err().unwrap().code, "rateLimited");
    let e = update_check("0.1.0", false, 500, "{}").err().unwrap();
    assert_eq!(e.code, "network");
    assert_eq!(e.message, "GitHub API 响应异常 (HTTP 500)");
    assert_eq!(update_check("0.1.0", true, 200, "nope").err().unwrap().code, "parse");
}

#[test]
fn release_check_reads_tag_page_and_asset() {
    let body = r#"{"tag_name":"v0.3.0","html_url":"https://example/r","assets":[{"name":"x.dmg","browser_download_url":"u1"},{"name":"Jetson.APP.tar.gz","browser_download_url":"u2"}]}"#;
    let r = release_check("0.2.9", true, body).ok().unwrap();
    assert_eq!(r.latest_version.as_deref(), Some("0.3.0"));
    assert!(r.update_available);
    assert_eq!(r.release_url.as_deref(), Some("https://example/r"));
    assert_eq!(r.app_asset_url.as_deref(), Some("u2"));
    assert!(r.is_bundled_app);
}

#[test]
fn curl_output_splits_body_and_status() {
    assert_eq!(parse_curl_output("{\"a\":1}\n200"), ("{\"a\":1}".to_string(), 200));
    assert_eq!(parse_curl_output(""), (String::new(), 0));
    assert_eq!(parse_curl_output("body\r\n 404 \n"), ("body".to_string(), 404));
}

#[test]
fn errno_classes() {
    assert_eq!(classify(Some(51)), "ENETUNREACH");
    assert_eq!(classify(Some(65)), "EHOSTUNREACH (No route to host)");
    assert_eq!(classify(Some(7)), "other errno");
    assert_eq!(classify(None), "no errno (resolution/hang?)");
}

fn detection(serial: &str, machine: &str) -> JetsonDetectionResult {
    JetsonDetectionResult {
        is_jetson: true,
        hostname: "seeed-desktop".into(),
        architecture: "aarch64".into(),
        ubuntu_version: "22.04".into(),
        l4t_version: "R36.4".into(),
        jetpack_version: "6.2.1+b38".into(),
        device_model: "NVIDIA Jetson AGX Orin Developer Kit".into(),
        serial_number: serial.into(),
        machine_id: machine.into(),
        ipv4_addresses: vec![DetectedIp { address: "192.168.2.18".into(), kind: "lan".into() }],
    }
}

fn detection_json(hostname: &str, model: &str, machine: &str, serial: &str) -> JetsonDetectionResult {
    JetsonDetectionResult {
        is_jetson: true,
        hostname: hostname.into(),
        architecture: "aarch64".into(),
        ubuntu_version: "22.04".into(),
        l4t_version: "R36.4".into(),
        jetpack_version: "6.2.1".into(),
        device_model: model.into(),
        serial_number: serial.into(),
        machine_id: machine.into(),
        ipv4_addresses: vec![],
    }
}

#[test]
fn device_id_prefers_serial_over_machine_id() {
    let d = detection_json("seeed-desktop", "reComputer", "5dbfb124", "1421123007848");
    let device = JetsonDevice::from_detection("192.168.2.18", d);
    assert_eq!(device.device_id.as_deref(), Some("1421123007848"));
    let d = detection_json("h", "m", "5dbfb124", "");
    let device = JetsonDevice::from_detection("192.168.2.18", d);
    assert_eq!(device.device_id.as_deref(), Some("5dbfb124"));
    let d = detection_json("h", "m", "", "");
    let device = JetsonDevice::from_detection("192.168.2.18", d);
    assert_eq!(device.device_id, None);
}

#[test]
fn device_id_is_trimmed_and_paths_come_from_detection() {
    let d = JetsonDevice::from_detection("h", detection(" 1421123007848 ", "abc"));
    assert_eq!(d.device_id.as_deref(), Some("1421123007848"));
    let d = JetsonDevice::from_detection("h", detection("  ", " abc "));
    assert_eq!(d.device_id.as_deref(), Some("abc"));
    let d = JetsonDevice::from_detection("h", detection("", ""));
    assert_eq!(d.device_id, None);
    assert_eq!(d.paths.len(), 1);
    assert_eq!(d.paths[0].address, "192.168.2.18");
    assert_eq!(d.model.as_deref(), Some("NVIDIA Jetson AGX Orin Developer Kit"));
}

#[test]
fn detection_outcomes() {
    assert!(matches!(detect_outcome(Some(2), None), Err(DetectError::Ssh(SshError::CommandFailed(Some(2))))));
    assert!(matches!(detect_outcome(Some(0), None), Err(DetectError::Parse)));
    let mut nj = detection("", "");
    nj.is_jetson = false;
    assert!(matches!(detect_outcome(None, Some(nj)), Ok(DetectOutcome::NotJetson)));
    assert!(matches!(detect_outcome(Some(0), Some(detection("s", ""))), Ok(DetectOutcome::Device(_))));
}

#[test]
fn identity_and_device_keys() {
    assert_eq!(identity_host(Some("id-1"), "10.0.0.1"), "id-1");
    assert_eq!(identity_host(Some(""), "10.0.0.1"), "10.0.0.1");
    assert_eq!(device_key(Some("id-1"), "seeed", "10.0.0.1"), "seeed@id-1");
    assert_eq!(device_key(None, "seeed", "10.0.0.1"), "seeed@10.0.0.1");
}

#[test]
fn interface_errors_are_typed() {
    let e = map_ssh_error(SshError::CommandFailed(Some(7)));
    assert_eq!(e.code, ProbeErrorCode::RemoteCommandFailed);
    assert_eq!(e.message, "Remote command failed (exit Some(7))");
    assert_eq!(map_ssh_error(SshError::Timeout).code, ProbeErrorCode::SshTimeout);
    let e = map_provision_error(ProvisionError::BootstrapFailed(None));
    assert_eq!(e.message, "Remote desktop setup failed (exit None)");
    assert_eq!(map_tunnel_error(TunnelError::Unreachable).code, ProbeErrorCode::SshTimeout);
    assert_eq!(map_tunnel_error(TunnelError::LocalPort("p".into())).message, "Secure tunnel: local port allocation failed: p");
    let e = probe_error_from_remember(RememberError::Missing);
    assert_eq!(e.code, ProbeErrorCode::SavedPasswordMissing);
    let e = probe_error_from_remember(RememberError::Io("disk".into()));
    assert_eq!(e.message, "device memory error: disk");
}

#[test]
fn transport_auth_text_is_an_auth_failure() {
    let e = jetson_remote_lib::commands::connection::map_connect_detail("Authentication failure, remaining methods: publickey");
    assert_eq!(e.code, ProbeErrorCode::AuthenticationFailed);
    let e = jetson_remote_lib::commands::connection::map_connect_detail("Connection reset");
    assert_eq!(e.code, ProbeErrorCode::ConnectionRefused);
}

#[test]
fn session_launch_decisions() {
    assert!(launch_start(true, "s1", None, false, false).is_err());
    assert!(launch_start(false, "", None, false, false).is_err());
    assert_eq!(
        launch_start(false, "s1", None, true, true).ok(),
        Some(LaunchStart::AlreadyRunning { mode: SessionLaunchMode::Focused })
    );
    assert_eq!(
        launch_start(false, "s1", Some(false), true, false).ok(),
        Some(LaunchStart::Launch { mode: SessionLaunchMode::Background })
    );
    assert_eq!(after_attempt(SessionLaunchMode::Focused, false, true), AttemptNext::Opened { focus: true });
    assert_eq!(after_attempt(SessionLaunchMode::Background, false, false), AttemptNext::Repair);
    assert_eq!(after_attempt(SessionLaunchMode::Background, true, false), AttemptNext::GiveUp);
}

#[test]
fn streamed_output_splits_into_lines() {
    let mut pending = b"first\r\n\nsecond\npart".to_vec();
    let lines = drain_lines(&mut pending);
    assert_eq!(lines, vec!["first", "second"]);
    assert_eq!(pending, b"part");
    assert_eq!(flush_line(&mut pending).as_deref(), Some("part"));
    assert!(pending.is_empty());
    assert_eq!(flush_line(&mut pending), None);
}

#[test]
fn app_identity_and_probe_targets() {
    let info = app_info("1.2.3");
    assert_eq!(info.name, "Jetson Remote");
    assert_eq!(info.version, "1.2.3");
    assert_eq!(health_check(), "ok");
    let t = probe_targets(&vec!["10.0.0.1".to_string(), "  ".to_string(), "h".to_string()]);
    assert_eq!(t, vec!["10.0.0.1", "h"]);
}

#[test]
fn session_launch_outcomes_and_repair() {
    assert!(matches!(launch_outcome(AttemptNext::Opened { focus: false }), Some(Ok(RdpLaunchResult::Opened))));
    assert!(launch_outcome(AttemptNext::Repair).is_none());
    match launch_outcome(AttemptNext::GiveUp) {
        Some(Err(e)) => {
            assert_eq!(e.code, RdpErrorCode::RdpUnknown);
            assert_eq!(e.message, "Couldn't open the Jetson desktop.");
        }
        _ => panic!("a second attempt without a desktop must fail"),
    }
    assert_eq!(repair_identity(Some("SN123"), "192.168.1.5"), "SN123");
    assert_eq!(repair_identity(Some(""), "192.168.1.5"), "192.168.1.5");
    assert_eq!(repair_identity(None, "192.168.1.5"), "192.168.1.5");
    assert!(restart_outcome(Some(0)).is_ok());
    assert!(restart_outcome(None).is_ok());
    assert_eq!(restart_outcome(Some(1)).unwrap_err().code, RdpErrorCode::RdpUnknown);
}

#[test]
fn bundle_download_checks() {
    let e = jetson_remote_lib::updater::download_check(404, 5_000_000).unwrap_err();
    assert_eq!(e.code, "download");
    assert_eq!(e.message, "下载失败 (HTTP 404)");
    let e = jetson_remote_lib::updater::download_check(200, 1000).unwrap_err();
    assert_eq!(e.message, "下载内容异常（文件过小），请检查网络后重试");
    assert!(jetson_remote_lib::updater::download_check(200, 1024 * 1024).is_ok());
}
