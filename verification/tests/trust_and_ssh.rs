use jetson_remote_lib::ssh::executor::{ChannelEvent, StreamCollector};
use jetson_remote_lib::ssh::error::SshError;
use jetson_remote_lib::ssh::handler::tofu_decision;
use jetson_remote_lib::ssh::types::{HostKeyInfo, SshConnectionInput};
use jetson_remote_lib::trust::{evaluate_trust, DeviceIdentity, HostKeyRecord, TrustDecision, TrustRecord, TrustStoreFile};
use russh::ChannelMsg;

fn opt(s: &str) -> Option<String> {
    if s.is_empty() {
        None
    } else {
        Some(s.to_string())
    }
}

fn record(machine: &str, serial: &str, keys: &[&str]) -> TrustRecord {
    TrustRecord {
        logical_device_id: serial.into(),
        machine_id: opt(machine),
        serial: opt(serial),
        trusted_host_keys: keys
            .iter()
            .map(|fp| HostKeyRecord { algorithm: "ssh-ed25519".into(), fingerprint: (*fp).into() })
            .collect(),
        known_addresses: vec![],
        first_seen_at: None,
        last_seen_at: None,
    }
}

fn ident(machine: &str, serial: &str) -> DeviceIdentity {
    DeviceIdentity { machine_id: opt(machine), serial: opt(serial) }
}

fn key(fp: &str) -> HostKeyRecord {
    HostKeyRecord { algorithm: "ssh-ed25519".into(), fingerprint: fp.into() }
}

#[test]
fn first_seen_when_no_previous_record() {
    assert_eq!(evaluate_trust(None, "s1", Some(&key("key1")), &ident("m1", "s1")), TrustDecision::FirstSeen);
}

#[test]
fn blocked_when_no_host_key() {
    assert_eq!(evaluate_trust(None, "s1", None, &ident("m1", "s1")), TrustDecision::Blocked);
}

#[test]
fn same_key_same_identity_is_trusted() {
    let prev = record("m1", "s1", &["key1"]);
    assert_eq!(evaluate_trust(Some(&prev), "s1", Some(&key("key1")), &ident("m1", "s1")), TrustDecision::Trusted);
}

#[test]
fn key_changed_same_identity_needs_verification() {
    let prev = record("m1", "s1", &["key1"]);
    assert_eq!(
        evaluate_trust(Some(&prev), "s1", Some(&key("key2")), &ident("m1", "s1")),
        TrustDecision::HostKeyChangedNeedsVerification
    );
}

#[test]
fn key_and_machine_changed_same_serial_is_reenroll() {
    let prev = record("m1", "s1", &["key1"]);
    assert_eq!(
        evaluate_trust(Some(&prev), "s1", Some(&key("key2")), &ident("m2", "s1")),
        TrustDecision::ReEnrollSameHardware
    );
}

#[test]
fn everything_changed_is_a_new_device_at_known_address() {
    let prev = record("m1", "s1", &["key1"]);
    assert_eq!(
        evaluate_trust(Some(&prev), "s1", Some(&key("key2")), &ident("m2", "s2")),
        TrustDecision::NewDeviceAtKnownAddress
    );
}

#[test]
fn same_key_machine_changed_same_serial_is_reenroll() {
    let prev = record("m1", "s1", &["key1"]);
    assert_eq!(
        evaluate_trust(Some(&prev), "s1", Some(&key("key1")), &ident("m2", "s1")),
        TrustDecision::ReEnrollSameHardware
    );
}

#[test]
fn same_key_all_identities_changed_is_conflict() {
    let prev = record("m1", "s1", &["key1"]);
    assert_eq!(
        evaluate_trust(Some(&prev), "s1", Some(&key("key1")), &ident("m2", "s2")),
        TrustDecision::IdentityConflict
    );
}

#[test]
fn missing_serial_on_one_side_is_treated_as_changed() {
    let prev = record("m1", "s1", &["key1"]);
    assert_eq!(
        evaluate_trust(Some(&prev), "s1", Some(&key("key1")), &ident("m1", "")),
        TrustDecision::IdentityConflict
    );
}

#[test]
fn auto_reconnect_and_saved_credential_only_on_trusted_first_seen() {
    assert!(TrustDecision::Trusted.allows_auto_reconnect());
    assert!(TrustDecision::FirstSeen.allows_auto_reconnect());
    assert!(TrustDecision::FirstSeen.allows_saved_credential());
    assert!(!TrustDecision::HostKeyChangedNeedsVerification.allows_auto_reconnect());
    assert!(!TrustDecision::ReEnrollSameHardware.allows_auto_reconnect());
    assert!(!TrustDecision::ReEnrollSameHardware.allows_saved_credential());
    assert!(!TrustDecision::NewDeviceAtKnownAddress.allows_auto_reconnect());
    assert!(!TrustDecision::IdentityConflict.allows_auto_reconnect());
    assert!(!TrustDecision::IdentityConflict.allows_saved_credential());
    assert!(!TrustDecision::Blocked.allows_auto_reconnect());
    assert!(!TrustDecision::Blocked.allows_saved_credential());
}

#[test]
fn known_key_matches() {
    assert_eq!(tofu_decision(Some("SHA256:aaa"), "SHA256:aaa"), (true, false));
}

#[test]
fn unknown_key() {
    assert_eq!(tofu_decision(None, "SHA256:aaa"), (false, false));
}

#[test]
fn changed_key() {
    assert_eq!(tofu_decision(Some("SHA256:aaa"), "SHA256:bbb"), (false, true));
}

#[test]
fn input_debug_redacts_password() {
    let input = SshConnectionInput {
        host: "192.168.100.164".into(),
        port: 22,
        username: "seeed".into(),
        password: Some("s3cret".into()),
    };
    let debug = input.debug_string();
    assert!(!debug.contains("s3cret"));
    assert!(debug.contains("<redacted>"));

    let none_input = SshConnectionInput { host: "h".into(), port: 22, username: "u".into(), password: None };
    assert!(none_input.debug_string().contains("<redacted>"));
}

#[test]
fn collects_stdout_stderr_exit_status() {
    let mut c = StreamCollector::new(1024);
    c.collect(&ChannelMsg::Data { data: b"hello".to_vec().into() }).unwrap();
    c.collect(&ChannelMsg::ExtendedData { data: b"err".to_vec().into(), ext: 1 }).unwrap();
    c.collect(&ChannelMsg::ExitStatus { exit_status: 7 }).unwrap();
    c.collect(&ChannelMsg::Eof).unwrap();

    let r = c.finish();
    assert_eq!(r.stdout, b"hello");
    assert_eq!(r.stderr, b"err");
    assert_eq!(r.exit_code, Some(7));
}

#[test]
fn exit_status_remains_none_when_absent() {
    let mut c = StreamCollector::new(1024);
    c.collect(&ChannelMsg::Data { data: b"x".to_vec().into() }).unwrap();
    c.collect(&ChannelMsg::Eof).unwrap();
    assert_eq!(c.finish().exit_code, None);
}

#[test]
fn rejects_output_over_limit() {
    let mut c = StreamCollector::new(4);
    assert!(matches!(c.collect(&ChannelMsg::Data { data: b"12345".to_vec().into() }), Err(SshError::OutputTooLarge)));
    assert!(c.stdout.is_empty());
    c.collect(&ChannelMsg::Data { data: b"1234".to_vec().into() }).unwrap();
    assert!(matches!(c.collect(&ChannelMsg::Data { data: b"x".to_vec().into() }), Err(SshError::OutputTooLarge)));
}

#[test]
fn push_limits_each_stream_separately() {
    let mut c = StreamCollector::new(3);
    c.push(ChannelEvent::Data(b"abc".to_vec())).unwrap();
    c.push(ChannelEvent::ExtendedData(b"xyz".to_vec())).unwrap();
    assert!(c.push(ChannelEvent::ExtendedData(b"!".to_vec())).is_err());
    c.push(ChannelEvent::Other).unwrap();
    assert_eq!(c.stderr, b"xyz");
}

#[test]
fn host_key_id_is_host_colon_port() {
    let k = HostKeyInfo { host: "10.0.0.2".into(), port: 22, algorithm: "ssh-ed25519".into(), fingerprint: "SHA256:x".into() };
    assert_eq!(k.key_id(), "10.0.0.2:22");
}

#[test]
fn trust_store_reads_back_what_was_saved() {
    let mut store = TrustStoreFile::new();
    assert_eq!(store.get_fingerprint("10.0.0.2", 22), None);
    let k = HostKeyInfo { host: "10.0.0.2".into(), port: 22, algorithm: "ssh-ed25519".into(), fingerprint: "SHA256:x".into() };
    store.save(&k);
    assert_eq!(store.get_fingerprint("10.0.0.2", 22).as_deref(), Some("SHA256:x"));
    assert_eq!(store.get_fingerprint("10.0.0.2", 2222), None);
    assert!(store.contains_fingerprint("SHA256:x"));
    let k2 = HostKeyInfo { fingerprint: "SHA256:y".into(), ..k };
    store.save(&k2);
    assert_eq!(store.get("10.0.0.2", 22).unwrap().fingerprint, "SHA256:y");
    assert_eq!(store.entries().len(), 1);
}

#[test]
fn input_debug_text_is_exact() {
    let input = SshConnectionInput { host: "a\"b".into(), port: 2222, username: "seeed".into(), password: Some("pw".into()) };
    assert_eq!(
        input.debug_string(),
        "SshConnectionInput { host: \"a\\\"b\", port: 2222, username: \"seeed\", password: \"<redacted>\" }"
    );
}
