use jetson_remote_lib::error_code::ErrorCode;
use jetson_remote_lib::ids::{AttemptId, AttemptSequence, RunId, SessionId, TransactionId};

#[test]
fn attempt_id_is_monotonic() {
    let mut seq = AttemptSequence::new();
    let a = AttemptId::next(&mut seq);
    let b = AttemptId::next(&mut seq);
    let c = AttemptId::next(&mut seq);
    assert!(a < b && b < c, "attempt ids must strictly increase");
}

#[test]
fn run_id_and_transaction_id_display() {
    assert_eq!(RunId::new("r-7f3a9c").display_string(), "r-7f3a9c");
    assert_eq!(TransactionId::new("01JUPDATEABC").display_string(), "01JUPDATEABC");
}

#[test]
fn ids_never_carry_credentials_by_construction() {
    let run_id = RunId::new("valid-characters-only-token");
    assert!(!run_id.as_str().contains('\n'));
}

#[test]
fn session_id_displays_its_text() {
    let sid = SessionId::new("seeed@1421123007848");
    assert_eq!(sid.display_string(), "seeed@1421123007848");
    assert_eq!(sid.as_str(), "seeed@1421123007848");
}

#[test]
fn attempt_id_displays_with_prefix() {
    assert_eq!(AttemptId(42).display_string(), "a42");
    assert_eq!(AttemptId(42).value(), 42);
}

#[test]
fn retryable_set_is_deliberate() {
    assert!(ErrorCode::SshTimeout.retryable());
    assert!(ErrorCode::TunnelTargetUnreachable.retryable());
    assert!(!ErrorCode::SshAuthFailed.retryable(), "wrong password will not fix itself");
    assert!(!ErrorCode::NotAJetson.retryable());
    assert!(!ErrorCode::SudoFailed.retryable());
    assert!(!ErrorCode::SshHostKeyChanged.retryable(), "trust gate requires user decision");
    assert!(!ErrorCode::Unknown.retryable(), "unclassified failures must not auto-retry");
}

#[test]
fn error_codes_have_snake_case_names() {
    let cases: &[(ErrorCode, &str)] = &[
        (ErrorCode::SshTimeout, "ssh_timeout"),
        (ErrorCode::SshAuthFailed, "ssh_auth_failed"),
        (ErrorCode::SshHostKeyChanged, "ssh_host_key_changed"),
        (ErrorCode::DeviceUnreachable, "device_unreachable"),
        (ErrorCode::NotAJetson, "not_a_jetson"),
        (ErrorCode::SudoFailed, "sudo_failed"),
        (ErrorCode::ProvisionStepFailed, "provision_step_failed"),
        (ErrorCode::TunnelStartFailed, "tunnel_start_failed"),
        (ErrorCode::TunnelTargetUnreachable, "tunnel_target_unreachable"),
        (ErrorCode::LoopbackSshFailed, "loopback_ssh_failed"),
        (ErrorCode::RdpConnectFailed, "rdp_connect_failed"),
        (ErrorCode::RdpEngineCrashed, "rdp_engine_crashed"),
        (ErrorCode::Unknown, "unknown"),
    ];
    for (code, name) in cases {
        assert_eq!(code.as_str(), *name);
    }
}
