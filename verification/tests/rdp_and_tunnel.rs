use jetson_remote_lib::commands::rdp::map_tunnel_rdp_error;
use jetson_remote_lib::rdp::args::{build, stdin_payload};
use jetson_remote_lib::rdp::error::{map_rdp_error, RdpError, RdpErrorCode};
use jetson_remote_lib::rdp::process::{LogBuffer, MAX_LOG_LINES};
use jetson_remote_lib::rdp::types::{RdpConnectionConfig, RdpConnectionRequest};
use jetson_remote_lib::registry::Registry;
use jetson_remote_lib::tunnel::{
    bind_external_target, classify_ensure, classify_exit, external_ports, stderr_summary, tunnel_mode_for,
    EnsureClass, TunnelError, TunnelMode, TunnelTarget, STDERR_SUMMARY_LIMIT,
};

fn config() -> RdpConnectionConfig {
    RdpConnectionConfig {
        certificate_name: "192.168.100.164".into(),
        host: "192.168.100.164".into(),
        port: 3389,
        username: "seeed".into(),
        password: "hunter2".into(),
        dynamic_resolution: true,
        clipboard: true,
    }
}

#[test]
fn password_never_in_argv() {
    let args = build("/opt/homebrew/bin/sdl-freerdp", &config(), "Jetson Remote");
    assert_eq!(args.argv, vec!["/opt/homebrew/bin/sdl-freerdp", "/args-from:stdin"]);
    let argv_joined = args.argv.join(" ");
    assert!(!argv_joined.contains("hunter2"));
}

#[test]
fn password_carried_only_via_stdin() {
    let args = build("sdl-freerdp", &config(), "Jetson Remote");
    assert!(args.stdin.iter().any(|l| l == "/p:hunter2"));
    assert!(args.stdin.iter().all(|l| l != "/p:hunter2" || l.starts_with("/p:")));
}

#[test]
fn cert_is_tofu_not_ignore() {
    let args = build("sdl-freerdp", &config(), "title");
    assert!(args.stdin.iter().any(|l| l == "/cert:tofu"));
    assert!(!args.stdin.join("\n").contains("cert:ignore"));
}

#[test]
fn required_options_present() {
    let args = build("sdl-freerdp", &config(), "Jetson Remote — 1.2.3.4");
    let joined = args.stdin.join("\n");
    assert!(joined.contains("/v:192.168.100.164:3389"));
    assert!(joined.contains("/cert:name:192.168.100.164"));
    assert!(joined.contains("/u:seeed"));
    assert!(joined.contains("+clipboard"));
    assert!(joined.contains("+dynamic-resolution"));
    assert!(joined.contains("/t:Jetson Remote — 1.2.3.4"));
}

#[test]
fn flags_off_when_disabled() {
    let mut c = config();
    c.clipboard = false;
    c.dynamic_resolution = false;
    let args = build("sdl-freerdp", &c, "t");
    assert!(!args.stdin.iter().any(|l| l == "+clipboard"));
    assert!(!args.stdin.iter().any(|l| l == "+dynamic-resolution"));
}

#[test]
fn stdin_payload_is_one_per_line() {
    let args = build("sdl-freerdp", &config(), "t");
    let payload = String::from_utf8(stdin_payload(&args)).unwrap();
    let lines: Vec<&str> = payload.lines().collect();
    assert_eq!(lines.len(), args.stdin.len());
    assert!(lines.contains(&"/cert:tofu"));
}

#[test]
fn maps_client_not_found() {
    let e = map_rdp_error(RdpError::ClientNotFound);
    assert!(matches!(e.code, RdpErrorCode::RdpClientNotFound));
    assert!(!e.message.contains("error"));
}

#[test]
fn launch_failed_drops_inner_io_string() {
    let io = std::io::Error::other("secret-path/tok");
    let e = map_rdp_error(RdpError::LaunchFailed(io));
    assert!(matches!(e.code, RdpErrorCode::RdpLaunchFailed));
    assert!(!e.message.contains("secret-path"));
}

#[test]
fn request_debug_redacts_password() {
    let req = RdpConnectionRequest {
        host: "192.168.100.164".into(),
        port: 3389,
        username: "seeed".into(),
        password: Some("s3cret".into()),
        device_id: None,
        certificate_name: None,
    };
    let dbg = req.debug_string();
    assert!(!dbg.contains("s3cret"));
    assert!(dbg.contains("<redacted>"));
}

#[test]
fn config_debug_redacts_password() {
    let config = RdpConnectionConfig {
        certificate_name: "h".into(),
        host: "h".into(),
        port: 3389,
        username: "u".into(),
        password: "s3cret".into(),
        dynamic_resolution: true,
        clipboard: true,
    };
    assert!(!config.debug_string().contains("s3cret"));
    assert_eq!(
        config.debug_string(),
        "RdpConnectionConfig { host: \"h\", port: 3389, username: \"u\", password: \"<redacted>\", dynamic_resolution: true, clipboard: true }"
    );
}

#[test]
fn config_from_request_pins_certificate_to_host() {
    let req = RdpConnectionRequest {
        host: "10.0.0.1".into(),
        port: 3389,
        username: "u".into(),
        password: None,
        device_id: None,
        certificate_name: None,
    };
    let c = RdpConnectionConfig::from_request(req);
    assert_eq!(c.certificate_name, "10.0.0.1");
    assert_eq!(c.password, "");
    assert!(c.clipboard && c.dynamic_resolution);
}

#[test]
fn classify_exit_maps_auth_and_network() {
    assert!(matches!(
        classify_exit("seeed@192.168.100.164: Permission denied (publickey,password).", Some(255)),
        TunnelError::AuthFailed
    ));
    assert!(matches!(
        classify_exit("ssh: connect to host 10.0.0.9 port 22: No route to host", Some(255)),
        TunnelError::Unreachable
    ));
    match classify_exit("bind [127.0.0.1]:2222: Address already in use", Some(255)) {
        TunnelError::SshExited(m) => assert!(m.contains("Address already in use")),
        other => panic!("unexpected {other:?}"),
    }
}

#[test]
fn classify_exit_reports_code_and_first_line() {
    match classify_exit("\n  \nbind failed\r\nmore", Some(-3)) {
        TunnelError::SshExited(m) => assert_eq!(m, "ssh exited -3: bind failed"),
        other => panic!("unexpected {other:?}"),
    }
    match classify_exit("", None) {
        TunnelError::SshExited(m) => assert_eq!(m, "ssh exited ?"),
        other => panic!("unexpected {other:?}"),
    }
}

#[test]
fn tunnel_error_codes_are_stable_and_distinct() {
    assert_eq!(TunnelError::ExternalSingleDevice.code(), "TUNNEL_EXTERNAL_SINGLE_DEVICE");
    assert_eq!(TunnelError::Unreachable.code(), "TUNNEL_TARGET_UNREACHABLE");
    assert_eq!(TunnelError::AuthFailed.code(), "TUNNEL_AUTH_FAILED");
    assert_eq!(TunnelError::LocalPort("x".into()).code(), "TUNNEL_LOCAL_PORT_FAILED");
    assert_eq!(TunnelError::SshExited("x".into()).code(), "TUNNEL_SSH_EXITED");
    let codes = [
        TunnelError::ExternalSingleDevice.code(),
        TunnelError::Unreachable.code(),
        TunnelError::AuthFailed.code(),
        TunnelError::LocalPort("x".into()).code(),
        TunnelError::SshExited("x".into()).code(),
    ];
    for (i, a) in codes.iter().enumerate() {
        for b in &codes[i + 1..] {
            assert_ne!(a, b);
        }
    }
}

fn target(host: &str, port: u16, username: &str) -> TunnelTarget {
    TunnelTarget { host: host.into(), port, username: username.into() }
}

#[test]
fn classify_ensure_multiple_devices_never_replace_each_other() {
    let mut active = Registry::new();
    active.insert("seeed@serialA".to_string(), target("192.168.1.10", 22, "seeed"));
    let b = target("192.168.1.11", 22, "seeed");
    assert_eq!(classify_ensure(&active, "seeed@serialB", &b), EnsureClass::Fresh);
    assert_eq!(active.len(), 1);
    assert!(active.contains_key("seeed@serialA"));
}

#[test]
fn classify_ensure_reuses_same_key_and_adopts_same_target() {
    let mut active = Registry::new();
    let t = target("192.168.1.10", 22, "seeed");
    active.insert("seeed@192.168.1.10".to_string(), t.clone());
    assert_eq!(classify_ensure(&active, "seeed@192.168.1.10", &t), EnsureClass::Reuse);
    assert_eq!(
        classify_ensure(&active, "seeed@serialA", &t),
        EnsureClass::Adopt { old_key: "seeed@192.168.1.10".into() }
    );
}

#[test]
fn classify_ensure_distinct_targets_never_adopt() {
    let mut active = Registry::new();
    active.insert("seeed@serialA".to_string(), target("192.168.1.10", 22, "seeed"));
    for t in [
        target("192.168.1.11", 22, "seeed"),
        target("192.168.1.10", 2222, "seeed"),
        target("192.168.1.10", 22, "root"),
    ] {
        assert_eq!(classify_ensure(&active, "seeed@serialB", &t), EnsureClass::Fresh);
    }
}

#[test]
fn tunnel_target_identifies_one_board_across_keys() {
    let first = target("192.168.2.18", 22, "seeed");
    assert_eq!(first, target("192.168.2.18", 22, "seeed"));
    assert_ne!(first, target("100.114.170.49", 22, "seeed"));
    assert_ne!(first, target("192.168.2.18", 22, "other"));
    assert!(first.same_target(&target("192.168.2.18", 22, "seeed")));
    assert!(!first.same_target(&target("192.168.2.18", 22, "other")));
}

#[test]
fn external_tunnel_is_bound_to_one_remote_identity() {
    let mut t = None;
    bind_external_target(&mut t, "seeed@jetson-a:22").unwrap();
    bind_external_target(&mut t, "seeed@jetson-a:22").unwrap();
    assert!(bind_external_target(&mut t, "seeed@jetson-b:22").is_err());
}

#[test]
fn stderr_summary_is_bounded() {
    let summary = stderr_summary(&"x".repeat(STDERR_SUMMARY_LIMIT + 20));
    assert_eq!(summary.chars().count(), STDERR_SUMMARY_LIMIT);
}

#[test]
fn stderr_summary_takes_first_nonblank_line() {
    assert_eq!(stderr_summary("\n   \n  still running  \nnext"), "still running");
    assert_eq!(stderr_summary(""), "no diagnostic output");
}

#[test]
fn tunnel_mode_and_external_ports() {
    assert_eq!(tunnel_mode_for(None), TunnelMode::Internal);
    assert_eq!(external_ports(Some(" 2222 "), None), Some((2222, 3389)));
    assert_eq!(external_ports(Some("2222"), Some("13389")), Some((2222, 13389)));
    assert_eq!(external_ports(Some("2222"), Some("x")), Some((2222, 3389)));
    assert_eq!(external_ports(Some("70000"), None), None);
    assert_eq!(external_ports(None, Some("3389")), None);
    assert_eq!(
        tunnel_mode_for(external_ports(Some("2222"), None)),
        TunnelMode::External { ssh_port: 2222, rdp_port: 3389 }
    );
}

#[test]
fn tunnel_failures_on_the_desktop_plane_carry_the_code() {
    let e = map_tunnel_rdp_error(TunnelError::AuthFailed);
    assert!(matches!(e.code, RdpErrorCode::RdpAuthenticationFailed));
    assert_eq!(e.message, "TUNNEL_AUTH_FAILED: Authentication failed");
    let e = map_tunnel_rdp_error(TunnelError::Setup("mkdir".into()));
    assert_eq!(e.message, "TUNNEL_SETUP_FAILED: mkdir");
}

#[test]
fn log_buffer_keeps_the_newest_lines() {
    let mut b = LogBuffer::new();
    b.push_log("   ".to_string());
    assert!(b.logs_snapshot().is_empty());
    for i in 0..(MAX_LOG_LINES + 5) {
        b.push_log(format!("line {i}"));
    }
    let logs = b.logs_snapshot();
    assert_eq!(logs.len(), MAX_LOG_LINES);
    assert_eq!(logs[0], "line 5");
}

#[test]
fn tunnel_arguments_carry_no_password() {
    let args = jetson_remote_lib::tunnel::tunnel_ssh_args(22, 2222, 3389, "/tmp/kh", "seeed", "192.168.1.5");
    assert_eq!(args[5], "22");
    assert_eq!(args[7], "127.0.0.1:2222:localhost:22");
    assert_eq!(args[9], "127.0.0.1:3389:localhost:3389");
    assert_eq!(args[15], "UserKnownHostsFile=/tmp/kh");
    assert_eq!(args.last().unwrap(), "seeed@192.168.1.5");
    assert_eq!(args.len(), 27);
    assert!(args.contains(&"PubkeyAuthentication=no".to_string()));
    assert_eq!(jetson_remote_lib::tunnel::askpass_script("/s/pw"), "#!/bin/sh\ncat \"/s/pw\"\n");
}

#[test]
fn freerdp_version_must_be_three() {
    assert!(jetson_remote_lib::rdp::process::version_check(true, b"This is FreeRDP version 3.5.1 (n/a)").is_ok());
    assert!(matches!(jetson_remote_lib::rdp::process::version_check(true, b"This is FreeRDP version 2.11.2"), Err(RdpError::VersionUnsupported)));
    assert!(matches!(jetson_remote_lib::rdp::process::version_check(false, b"3.5.1"), Err(RdpError::VersionUnsupported)));
}

#[test]
fn tunnel_start_supervision_steps() {
    assert_eq!(jetson_remote_lib::tunnel::tunnel_wait_step(true, true, true), jetson_remote_lib::tunnel::TunnelWait::Exited);
    assert_eq!(jetson_remote_lib::tunnel::tunnel_wait_step(false, true, true), jetson_remote_lib::tunnel::TunnelWait::PortsOpen);
    assert_eq!(jetson_remote_lib::tunnel::tunnel_wait_step(false, false, true), jetson_remote_lib::tunnel::TunnelWait::TimedOut);
    assert_eq!(jetson_remote_lib::tunnel::tunnel_wait_step(false, false, false), jetson_remote_lib::tunnel::TunnelWait::Poll);
    assert_eq!(jetson_remote_lib::tunnel::grace_step(true, true), Some(false));
    assert_eq!(jetson_remote_lib::tunnel::grace_step(false, true), Some(true));
    assert_eq!(jetson_remote_lib::tunnel::grace_step(false, false), None);
}

#[test]
fn empty_stdin_payload_is_one_line_break() {
    let args = jetson_remote_lib::rdp::args::FreeRdpArguments { argv: vec!["sdl-freerdp".into()], stdin: vec![] };
    assert_eq!(stdin_payload(&args), b"\n".to_vec());
    let args = jetson_remote_lib::rdp::args::FreeRdpArguments {
        argv: vec!["sdl-freerdp".into()],
        stdin: vec!["/u:a".into(), "/p:é".into()],
    };
    assert_eq!(stdin_payload(&args), "/u:a\n/p:é\n".as_bytes().to_vec());
}

fn request_without(port: Option<u16>, password: Option<&str>) -> RdpConnectionRequest {
    RdpConnectionRequest {
        host: "h".into(),
        port: port.unwrap_or_else(jetson_remote_lib::rdp::types::default_rdp_port),
        username: "u".into(),
        password: password.map(|p| p.to_string()),
        device_id: None,
        certificate_name: None,
    }
}

#[test]
fn request_port_defaults_to_3389() {
    let req = request_without(None, Some("p"));
    assert_eq!(req.port, 3389);
    assert_eq!(RdpConnectionConfig::from_request(req).port, 3389);
}

#[test]
fn request_password_defaults_to_missing() {
    let req = request_without(None, None);
    assert_eq!(req.password, None);
    assert_eq!(RdpConnectionConfig::from_request(req).password, "");
}

#[test]
fn stdin_payload_reads_back_as_its_lines() {
    let args = build("sdl-freerdp", &config(), "t");
    let payload = String::from_utf8(stdin_payload(&args)).unwrap();
    let lines: Vec<String> = payload.lines().map(|l| l.to_string()).collect();
    assert_eq!(lines, args.stdin);
}
