use jetson_remote_lib::bootstrap::error::ProvisionError;
use jetson_remote_lib::bootstrap::provision_protocol::{parse_event, validate_stream, SCHEMA};
use jetson_remote_lib::bootstrap::provisioner::{
    bootstrap_command, bootstrap_outcome, next_progress, parse_bootstrap_line, stage_event, stage_message,
    sudo_preflight_outcome, temp_path, verify_outcome,
};
use jetson_remote_lib::bootstrap::types::{
    classify, prepare_next, EnvironmentFacts, PrepareAction, PreparePhase, ProvisionStage, RemoteEnvironmentState,
};

fn facts(overrides: impl Fn(&mut EnvironmentFacts)) -> EnvironmentFacts {
    let mut f = EnvironmentFacts {
        xrdp_installed: true,
        xrdp_version: "0.9.17".into(),
        xorgxrdp_installed: true,
        xorgxrdp_version: "0.2.17".into(),
        xfce_installed: true,
        xrdp_enabled: true,
        xrdp_active: true,
        xrdp_sesman_active: true,
        port_3389_listening: true,
        port_3350_listening: true,
        xrdp_in_ssl_cert_group: true,
        session_configured: true,
        xsessionrc_ok: true,
    };
    overrides(&mut f);
    f
}

#[test]
fn classifies_ready() {
    assert_eq!(classify(&facts(|_| {})).state, RemoteEnvironmentState::Ready);
}

#[test]
fn classifies_provision_required_when_nothing_installed() {
    let f = facts(|f| {
        f.xrdp_installed = false;
        f.xorgxrdp_installed = false;
        f.xfce_installed = false;
    });
    assert_eq!(classify(&f).state, RemoteEnvironmentState::ProvisionRequired);
}

#[test]
fn classifies_partial_when_a_component_missing() {
    let f = facts(|f| f.xorgxrdp_installed = false);
    assert_eq!(classify(&f).state, RemoteEnvironmentState::Partial);
}

#[test]
fn classifies_broken_when_service_stopped() {
    let f = facts(|f| f.xrdp_active = false);
    assert_eq!(classify(&f).state, RemoteEnvironmentState::Broken);
}

#[test]
fn classifies_broken_when_sesman_is_unavailable() {
    let f = facts(|f| {
        f.xrdp_sesman_active = false;
        f.port_3350_listening = false;
    });
    let report = classify(&f);
    assert_eq!(report.state, RemoteEnvironmentState::Broken);
    assert!(report.issues.iter().any(|issue| issue.contains("sesman")));
}

#[test]
fn classifies_broken_when_xsessionrc_broken() {
    let f = facts(|f| f.xsessionrc_ok = false);
    assert_eq!(classify(&f).state, RemoteEnvironmentState::Broken);
}

#[test]
fn classifies_broken_when_xrdp_cannot_read_its_tls_key() {
    let f = facts(|f| f.xrdp_in_ssl_cert_group = false);
    let report = classify(&f);
    assert_eq!(report.state, RemoteEnvironmentState::Broken);
    assert!(report.issues.iter().any(|issue| issue.contains("ssl-cert")));
}

#[test]
fn ready_environment_has_no_issues_and_keeps_facts() {
    let report = classify(&facts(|_| {}));
    assert!(report.issues.is_empty());
    assert_eq!(report.facts.xrdp_version, "0.9.17");
    let none = classify(&EnvironmentFacts::default());
    assert_eq!(none.state, RemoteEnvironmentState::ProvisionRequired);
    assert_eq!(none.issues.len(), 11);
    assert_eq!(none.issues[0], "xrdp is not installed");
}

#[test]
fn parses_machine_markers_not_natural_language() {
    assert_eq!(
        parse_bootstrap_line("[bootstrap] step=install_packages status=start").unwrap().stage,
        ProvisionStage::InstallingPackages
    );
    assert_eq!(
        parse_bootstrap_line("[bootstrap] step=enable_service status=done").unwrap().stage,
        ProvisionStage::StartingService
    );
    assert!(parse_bootstrap_line("Reading package lists...").is_none());
    assert!(parse_bootstrap_line("[bootstrap] phase=start user=seeed").is_none());
}

#[test]
fn emitted_messages_never_contain_secret() {
    let stages = [ProvisionStage::Preflight, ProvisionStage::Uploading, ProvisionStage::InstallingPackages];
    for s in stages {
        let ev = stage_event(s);
        assert!(!ev.message.contains("SUPERSECRET"));
        assert!(!ev.message.contains("pw"));
    }
}

#[test]
fn bootstrap_reuses_preflight_authorization_without_replaying_password() {
    assert_eq!(
        bootstrap_command("/tmp/jetson-remote-bootstrap-ABC123.sh"),
        "sudo -n bash '/tmp/jetson-remote-bootstrap-ABC123.sh'"
    );
}

#[test]
fn consecutive_markers_of_one_stage_emit_once() {
    let (last, ev) = next_progress(None, "  [bootstrap] step=configure_session status=start");
    assert_eq!(last, Some(ProvisionStage::ConfiguringSession));
    assert_eq!(ev.unwrap().message, stage_message(ProvisionStage::ConfiguringSession));
    let (last2, ev2) = next_progress(last, "[bootstrap] step=fix_xsessionrc status=done");
    assert_eq!(last2, last);
    assert!(ev2.is_none());
    let (last3, ev3) = next_progress(last2, "noise");
    assert_eq!(last3, last2);
    assert!(ev3.is_none());
}

#[test]
fn sudo_preflight_outcomes() {
    assert!(matches!(
        sudo_preflight_outcome(Some(1), b"user is not in the SUDOERS file"),
        Err(ProvisionError::SudoPermissionDenied)
    ));
    assert!(matches!(sudo_preflight_outcome(Some(1), b"Sorry, try again."), Err(ProvisionError::SudoAuthFailed)));
    assert!(sudo_preflight_outcome(Some(0), b"").is_ok());
    assert!(sudo_preflight_outcome(None, b"").is_ok());
}

#[test]
fn temp_path_must_be_absolute() {
    assert_eq!(temp_path(b"/tmp/jr-boot-ABC123.sh\n").unwrap(), "/tmp/jr-boot-ABC123.sh");
    assert!(matches!(temp_path(b"  \n"), Err(ProvisionError::TempFile)));
    assert!(matches!(temp_path(b"tmp/x"), Err(ProvisionError::TempFile)));
    assert!(matches!(bootstrap_outcome(Some(2)), Err(ProvisionError::BootstrapFailed(Some(2)))));
    assert!(bootstrap_outcome(None).is_ok());
}

fn ev(seq: u64, ty: &str) -> String {
    format!(r#"{{"schema":"jr.provision.event/v1","seq":{seq},"run_id":"r1","ts":1,"type":"{ty}","ok":true}}"#)
}

#[test]
fn provision_jsonl_each_line_is_valid_json() {
    for line in [ev(1, "run_started"), ev(2, "step_started"), ev(3, "step_result")] {
        let (ty, json) = parse_event(&line).expect("parse");
        assert!(!ty.is_empty());
        assert!(json.is_object());
    }
    assert!(parse_event(r#"{"schema":"jr.provision.event/v1","seq":1,"type":"run_started""#).is_err());
}

#[test]
fn provision_jsonl_sequence_is_monotonic() {
    let stream = vec![ev(1, "run_started"), ev(2, "step_started"), ev(5, "step_result")];
    let err = validate_stream(&stream).unwrap_err();
    assert!(err.message.contains("monotonic"), "{}", err.message);
}

#[test]
fn provision_jsonl_has_run_id_and_schema_version() {
    assert_eq!(SCHEMA, "jr.provision.event/v1");
    assert!(validate_stream(&[ev(1, "run_started")]).is_ok());
    let bad = r#"{"schema":"jr.provision.event/v1","seq":1,"ts":1,"type":"run_started"}"#;
    assert!(validate_stream(&[bad.to_string()]).is_err());
}

#[test]
fn run_id_must_be_identical_across_stream() {
    let stream = vec![
        ev(1, "run_started"),
        r#"{"schema":"jr.provision.event/v1","seq":2,"run_id":"r2","ts":1,"type":"step_result","step_id":"a.b","check":"satisfied","apply":"not_run","verify":"passed"}"#.to_string(),
    ];
    assert!(validate_stream(&stream).is_err());
}

#[test]
fn failed_run_requires_error_object() {
    let mut stream = vec![ev(1, "run_started")];
    stream.push(
        r#"{"schema":"jr.provision.event/v1","seq":2,"run_id":"r1","ts":1,"type":"run_completed","status":"failed"}"#
            .to_string(),
    );
    assert!(validate_stream(&stream).is_err());
}

#[test]
fn happy_stream_passes() {
    let stream = vec![
        ev(1, "run_started"),
        ev(2, "step_started"),
        r#"{"schema":"jr.provision.event/v1","seq":3,"run_id":"r1","ts":1,"type":"step_result","step_id":"detect.os","check":"satisfied","apply":"not_run","verify":"passed","changed":false}"#.to_string(),
        r#"{"schema":"jr.provision.event/v1","seq":4,"run_id":"r1","ts":1,"type":"run_completed","status":"success","changed":false}"#.to_string(),
    ];
    validate_stream(&stream).expect("valid stream");
}

#[test]
fn stderr_noise_does_not_corrupt_jsonl() {
    let noisy = vec![
        ev(1, "run_started"),
        "[bootstrap] some log noise that wrongly reached stdout".to_string(),
        ev(2, "step_result"),
    ];
    assert!(validate_stream(&noisy).is_err(), "noise breaks the contract by design");
}

#[test]
fn protocol_errors_name_line_and_cause() {
    let empty: Vec<String> = vec!["   ".to_string()];
    let e = validate_stream(&empty).unwrap_err();
    assert_eq!(e.line, 0);
    assert_eq!(e.message, "empty protocol stream");
    let e = validate_stream(&[ev(1, "run_started"), ev(3, "x")]).unwrap_err();
    assert_eq!(e.line, 2);
    assert_eq!(e.message, "seq not monotonic: 3 after 1");
    let e = validate_stream(&[r#"{"schema":"other","seq":1,"run_id":"r"}"#.to_string()]).unwrap_err();
    assert_eq!(e.message, "unexpected schema other");
    assert_eq!(e.display_string(), "provision protocol line 1: unexpected schema other");
    let e = validate_stream(&[
        ev(1, "run_started"),
        r#"{"schema":"jr.provision.event/v1","seq":2,"run_id":"r1","type":"step_result","step_id":"a"}"#.to_string(),
    ])
    .unwrap_err();
    assert_eq!(e.message, "step_result missing check");
}

#[test]
fn verification_passes_only_a_ready_desktop() {
    let ready = classify(&facts(|_| {}));
    assert_eq!(ready.state, RemoteEnvironmentState::Ready);
    assert!(verify_outcome(ready).is_ok());
    let broken = classify(&facts(|f| f.xrdp_active = false));
    assert_ne!(broken.state, RemoteEnvironmentState::Ready);
    assert!(matches!(verify_outcome(broken), Err(ProvisionError::VerificationFailed)));
}

#[test]
fn first_event_must_be_run_started() {
    let e = validate_stream(&[ev(1, "step_started")]).unwrap_err();
    assert_eq!(e.line, 1);
    assert_eq!(e.message, "first event must be run_started");
    let e = validate_stream(&["".to_string(), ev(1, "step_result")]).unwrap_err();
    assert_eq!(e.line, 2);
    assert_eq!(e.message, "first event must be run_started");
    assert!(validate_stream(&["".to_string(), ev(1, "run_started"), ev(2, "step_started")]).is_ok());
}

#[test]
fn prepare_leaves_a_ready_desktop_alone() {
    assert_eq!(prepare_next(PreparePhase::Start, None), (ProvisionStage::CheckingEnvironment, PrepareAction::Check));
    assert_eq!(
        prepare_next(PreparePhase::Checked, Some(RemoteEnvironmentState::Ready)),
        (ProvisionStage::AlreadyReady, PrepareAction::FinishAlreadyReady)
    );
}

#[test]
fn prepare_provisions_then_verifies_anything_not_ready() {
    for state in [
        RemoteEnvironmentState::Partial,
        RemoteEnvironmentState::Broken,
        RemoteEnvironmentState::ProvisionRequired,
    ] {
        assert_eq!(
            prepare_next(PreparePhase::Checked, Some(state)),
            (ProvisionStage::ProvisionRequired, PrepareAction::Provision)
        );
    }
    assert_eq!(prepare_next(PreparePhase::Provisioned, None), (ProvisionStage::Verifying, PrepareAction::Verify));
    assert_eq!(
        prepare_next(PreparePhase::Verified, Some(RemoteEnvironmentState::Ready)),
        (ProvisionStage::Complete, PrepareAction::FinishProvisioned)
    );
}
