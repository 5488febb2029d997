use std::collections::HashMap;
use std::sync::Mutex;

use jetson_remote_lib::commands::connection::ProbeErrorCode;
use jetson_remote_lib::commands::remember::{
    forget_remembered_device, get_remembered_devices, plan_remember, remember_device, RememberDeviceInput,
};
use jetson_remote_lib::device::types::DevicePath;
use jetson_remote_lib::remember::{
    resolve_password, DeviceEntry, DeviceEntryV1, DeviceEntryV2, RememberError, RememberedDevice,
    RememberedDeviceStore, RemoveOutcome, SecretStore, SECRET_SERVICE,
};

#[derive(Default)]
struct FakeSecretStore(Mutex<HashMap<(String, String), String>>);

impl SecretStore for FakeSecretStore {
    fn get(&self, service: &str, account: &str) -> Option<String> {
        self.0.lock().unwrap().get(&(service.to_string(), account.to_string())).cloned()
    }

    fn set(&self, service: &str, account: &str, secret: &str) -> Result<(), RememberError> {
        self.0.lock().unwrap().insert((service.to_string(), account.to_string()), secret.to_string());
        Ok(())
    }

    fn delete(&self, service: &str, account: &str) -> Result<(), RememberError> {
        self.0.lock().unwrap().remove(&(service.to_string(), account.to_string()));
        Ok(())
    }
}

fn paths(items: &[(&str, &str)]) -> Vec<DevicePath> {
    items.iter().map(|(kind, address)| DevicePath { kind: kind.to_string(), address: address.to_string() }).collect()
}

fn dev_v3(id: &str, username: &str, name: &str, addrs: &[&str]) -> RememberedDevice {
    RememberedDevice {
        device_id: Some(id.into()),
        username: username.into(),
        display_name: Some(name.into()),
        paths: addrs.iter().map(|a| DevicePath::lan(a)).collect(),
        last_used_path: addrs.first().map(|a| a.to_string()),
    }
}

fn dev_legacy(host: &str, username: &str) -> RememberedDevice {
    RememberedDevice {
        device_id: None,
        username: username.into(),
        display_name: None,
        paths: vec![DevicePath::lan(host)],
        last_used_path: None,
    }
}

const DEV_HOST: &str = "192.168.100.164";
const DEV_USER: &str = "seeed";
const DEV_ID: &str = "5dbfb12400000000";

#[test]
fn upsert_roundtrip_and_clear() {
    let mut store = RememberedDeviceStore::new();
    let device = dev_v3(DEV_ID, DEV_USER, "mini", &[DEV_HOST]);
    assert_eq!(store.load_all(), Vec::<RememberedDevice>::new());
    store.upsert(&device, 1);
    assert_eq!(store.load_all(), vec![device.clone()]);
    assert_eq!(store.load(), Some(device.clone()));
    store.clear();
    assert_eq!(store.load_all(), Vec::<RememberedDevice>::new());
    store.clear();
}

#[test]
fn upsert_rewrites_paths_and_moves_to_front() {
    let mut store = RememberedDeviceStore::new();
    let a = dev_v3("id-a", "seeed", "A", &["10.0.0.1"]);
    let b = dev_v3("id-b", "seeed", "B", &["10.0.0.2"]);
    store.upsert(&a, 10);
    store.upsert(&b, 12);
    let a2 = dev_v3("id-a", "seeed", "A", &["10.0.0.9", "100.64.0.9"]);
    store.upsert(&a2, 14);
    let all = store.load_all();
    assert_eq!(all.len(), 2);
    assert_eq!(all[0], a2);
    assert_eq!(all[1], b);
}

#[test]
fn v2_file_is_read_as_legacy_entries() {
    let store = RememberedDeviceStore::from_parsed(
        None,
        Some(vec![
            DeviceEntryV2 { host: "192.168.100.164".into(), username: "seeed".into(), last_connected_at: 5 },
            DeviceEntryV2 { host: "10.0.0.7".into(), username: "alice".into(), last_connected_at: 9 },
        ]),
        None,
    );
    assert_eq!(store.load_all(), vec![dev_legacy("10.0.0.7", "alice"), dev_legacy(DEV_HOST, DEV_USER)]);
    assert_eq!(store.load_all()[1].account(), "seeed@192.168.100.164");
}

#[test]
fn legacy_single_object_migrates_to_a_one_device_list() {
    let mut store = RememberedDeviceStore::from_parsed(
        None,
        None,
        Some(DeviceEntryV1 { host: "192.168.100.164".into(), username: "seeed".into() }),
    );
    assert_eq!(store.load_all(), vec![dev_legacy(DEV_HOST, DEV_USER)]);
    store.upsert(&dev_v3("id-x", "alice", "X", &["10.0.0.5"]), 1);
    assert_eq!(store.entries().len(), 2);
    assert_eq!(store.load(), Some(dev_v3("id-x", "alice", "X", &["10.0.0.5"])));
}

#[test]
fn corrupt_file_yields_an_empty_list() {
    let store = RememberedDeviceStore::from_parsed(None, None, None);
    assert_eq!(store.load_all(), Vec::<RememberedDevice>::new());
}

#[test]
fn old_version_in_current_shape_is_not_read_as_current() {
    let entry = DeviceEntry { device: dev_v3("id", "u", "n", &["h"]), last_connected_at: 1 };
    let store = RememberedDeviceStore::from_parsed(Some((2, vec![entry.clone()])), None, None);
    assert!(store.load_all().is_empty());
    let store = RememberedDeviceStore::from_parsed(Some((3, vec![entry])), None, None);
    assert_eq!(store.load_all().len(), 1);
}

#[test]
fn remove_deletes_only_the_named_device() {
    let mut store = RememberedDeviceStore::new();
    store.upsert(&dev_v3("id-a", "a", "A", &["10.0.0.1"]), 1);
    store.upsert(&dev_v3("id-b", "b", "B", &["10.0.0.2"]), 2);
    store.remove(Some("id-b"), None, "b");
    assert_eq!(store.load_all(), vec![dev_v3("id-a", "a", "A", &["10.0.0.1"])]);
    assert_eq!(store.remove(Some("id-z"), None, "nobody"), RemoveOutcome::Unchanged);
    assert_eq!(store.load_all().len(), 1);
    assert_eq!(store.remove(Some("id-a"), None, "a"), RemoveOutcome::Cleared);
    assert_eq!(store.load_all(), Vec::<RememberedDevice>::new());
}

#[test]
fn remove_also_drops_merged_legacy_duplicates() {
    let mut store = RememberedDeviceStore::new();
    store.upsert(&dev_legacy(DEV_HOST, DEV_USER), 1);
    store.upsert(&dev_v3("id-x", "u", "X", &["10.0.0.5"]), 2);
    store.remove(Some("id-x"), Some(DEV_HOST), "u");
    assert_eq!(store.load_all(), vec![dev_legacy(DEV_HOST, DEV_USER)]);
}

#[test]
fn legacy_merge_candidates_match_shared_addresses() {
    let mut store = RememberedDeviceStore::new();
    store.upsert(&dev_legacy("192.168.2.18", "seeed"), 1);
    store.upsert(&dev_legacy("10.0.0.7", "alice"), 2);
    store.upsert(&dev_v3(DEV_ID, "seeed", "robotics", &["192.168.2.19"]), 3);
    let candidates = store.legacy_merge_candidates("seeed", &["192.168.2.18", "192.168.2.19"]);
    assert_eq!(candidates, vec![dev_legacy("192.168.2.18", "seeed")]);
}

#[test]
fn account_is_username_at_device_id() {
    let d = dev_v3("5dbfb124", "seeed", "mini", &["192.168.100.164"]);
    assert_eq!(d.account(), "seeed@5dbfb124");
    assert_eq!(dev_legacy("jetson.local", "seeed").account(), "seeed@jetson.local");
}

#[test]
fn resolve_uses_typed_password_first() {
    let secrets = FakeSecretStore::default();
    let mut store = RememberedDeviceStore::new();
    store.upsert(&dev_v3(DEV_ID, DEV_USER, "mini", &[DEV_HOST]), 1);
    secrets.set(SECRET_SERVICE, &format!("{DEV_USER}@{DEV_ID}"), "stored").unwrap();
    let pw = resolve_password(&store, &secrets, Some(DEV_ID), DEV_HOST, DEV_USER, Some("typed")).unwrap();
    assert_eq!(pw, "typed");
}

#[test]
fn resolve_by_device_id_is_precise_with_several_devices() {
    let secrets = FakeSecretStore::default();
    let mut store = RememberedDeviceStore::new();
    let a = dev_v3("id-a", "seeed", "A", &["10.0.0.1"]);
    let b = dev_v3("id-b", "seeed", "B", &["10.0.0.2"]);
    store.upsert(&a, 1);
    store.upsert(&b, 2);
    secrets.set(SECRET_SERVICE, "seeed@id-a", "stored-a").unwrap();
    secrets.set(SECRET_SERVICE, "seeed@id-b", "stored-b").unwrap();

    let pw = resolve_password(&store, &secrets, Some("id-b"), "10.0.0.2", "seeed", None).unwrap();
    assert_eq!(pw, "stored-b");
    let pw = resolve_password(&store, &secrets, Some("id-a"), "irrelevant-entry-host", "seeed", Some("")).unwrap();
    assert_eq!(pw, "stored-a");
    assert!(matches!(
        resolve_password(&store, &secrets, Some("id-z"), "10.9.9.9", "seeed", None),
        Err(RememberError::Missing)
    ));
    let pw = resolve_password(&store, &secrets, Some("id-z"), "10.0.0.1", "seeed", None).unwrap();
    assert_eq!(pw, "stored-a");
}

#[test]
fn resolve_device_id_falls_back_to_legacy_secret_before_merge() {
    let secrets = FakeSecretStore::default();
    let mut store = RememberedDeviceStore::new();
    store.upsert(&dev_v3(DEV_ID, DEV_USER, "mini", &[DEV_HOST]), 1);
    secrets.set(SECRET_SERVICE, &format!("{DEV_USER}@{DEV_HOST}"), "legacy-secret").unwrap();
    store.upsert(&dev_legacy(DEV_HOST, DEV_USER), 2);
    let pw = resolve_password(&store, &secrets, Some(DEV_ID), DEV_HOST, DEV_USER, None).unwrap();
    assert_eq!(pw, "legacy-secret");
}

#[test]
fn resolve_legacy_falls_back_by_path() {
    let secrets = FakeSecretStore::default();
    let mut store = RememberedDeviceStore::new();
    store.upsert(&dev_legacy(DEV_HOST, DEV_USER), 1);
    store.upsert(&dev_legacy("10.0.0.7", "alice"), 2);
    secrets.set(SECRET_SERVICE, "seeed@192.168.100.164", "stored1").unwrap();
    secrets.set(SECRET_SERVICE, "alice@10.0.0.7", "stored2").unwrap();
    let pw = resolve_password(&store, &secrets, None, DEV_HOST, DEV_USER, None).unwrap();
    assert_eq!(pw, "stored1");
    let pw = resolve_password(&store, &secrets, None, "10.0.0.7", "alice", Some("")).unwrap();
    assert_eq!(pw, "stored2");
}

#[test]
fn resolve_works_over_loopback_with_exactly_one_device() {
    let secrets = FakeSecretStore::default();
    let mut store = RememberedDeviceStore::new();
    store.upsert(&dev_v3(DEV_ID, DEV_USER, "mini", &[DEV_HOST]), 1);
    secrets.set(SECRET_SERVICE, &format!("{DEV_USER}@{DEV_ID}"), "stored").unwrap();
    let pw = resolve_password(&store, &secrets, None, "127.0.0.1", DEV_USER, None).unwrap();
    assert_eq!(pw, "stored");
}

#[test]
fn resolve_refuses_loopback_when_several_devices_are_remembered() {
    let secrets = FakeSecretStore::default();
    let mut store = RememberedDeviceStore::new();
    store.upsert(&dev_v3(DEV_ID, DEV_USER, "mini", &[DEV_HOST]), 1);
    store.upsert(&dev_v3("id-b", "alice", "B", &["10.0.0.7"]), 2);
    secrets.set(SECRET_SERVICE, &format!("{DEV_USER}@{DEV_ID}"), "stored").unwrap();
    assert!(matches!(
        resolve_password(&store, &secrets, None, "127.0.0.1", DEV_USER, None),
        Err(RememberError::Missing)
    ));
}

#[test]
fn resolve_rejects_an_unremembered_identity() {
    let secrets = FakeSecretStore::default();
    let mut store = RememberedDeviceStore::new();
    store.upsert(&dev_v3(DEV_ID, DEV_USER, "mini", &[DEV_HOST]), 1);
    secrets.set(SECRET_SERVICE, &format!("{DEV_USER}@{DEV_ID}"), "stored").unwrap();
    assert!(matches!(
        resolve_password(&store, &secrets, None, "10.0.0.9", DEV_USER, None),
        Err(RememberError::Missing)
    ));
    assert!(matches!(
        resolve_password(&store, &secrets, Some(DEV_ID), DEV_HOST, "other", None),
        Err(RememberError::Missing)
    ));
}

#[test]
fn resolve_missing_is_an_error() {
    let secrets = FakeSecretStore::default();
    let store = RememberedDeviceStore::new();
    assert!(matches!(
        resolve_password(&store, &secrets, Some(DEV_ID), DEV_HOST, DEV_USER, None),
        Err(RememberError::Missing)
    ));
}

#[test]
fn paths_helper_lists_addresses() {
    let d = RememberedDevice {
        device_id: Some("id".into()),
        username: "u".into(),
        display_name: Some("n".into()),
        paths: paths(&[("lan", "192.168.2.18"), ("tailscale", "100.114.170.49")]),
        last_used_path: None,
    };
    assert_eq!(d.addresses(), vec!["192.168.2.18", "100.114.170.49"]);
}

fn input(device_id: Option<&str>, entry_host: Option<&str>, password: Option<&str>) -> RememberDeviceInput {
    RememberDeviceInput {
        device_id: device_id.map(|s| s.to_string()),
        username: "seeed".into(),
        display_name: Some("  robotics  ".into()),
        paths: paths(&[("lan", "192.168.2.19")]),
        entry_host: entry_host.map(|s| s.to_string()),
        password: password.map(|s| s.to_string()),
    }
}

#[test]
fn remember_device_merges_legacy_secret_and_entry() {
    let secrets = FakeSecretStore::default();
    let mut store = RememberedDeviceStore::new();
    store.upsert(&dev_legacy("192.168.2.18", "seeed"), 1);
    secrets.set(SECRET_SERVICE, "seeed@192.168.2.18", "old").unwrap();
    remember_device(&mut store, &secrets, input(Some(" id-9 "), Some("192.168.2.18"), None), 5).unwrap();
    let all = store.load_all();
    assert_eq!(all.len(), 1);
    assert_eq!(all[0].device_id.as_deref(), Some("id-9"));
    assert_eq!(all[0].display_name.as_deref(), Some("robotics"));
    assert_eq!(all[0].addresses(), vec!["192.168.2.19", "192.168.2.18"]);
    assert_eq!(secrets.get(SECRET_SERVICE, "seeed@id-9").as_deref(), Some("old"));
    assert_eq!(secrets.get(SECRET_SERVICE, "seeed@192.168.2.18"), None);
    let statuses = get_remembered_devices(&store, &secrets);
    assert_eq!(statuses.len(), 1);
    assert!(statuses[0].has_password);
}

#[test]
fn remember_device_needs_an_identity() {
    let secrets = FakeSecretStore::default();
    let mut store = RememberedDeviceStore::new();
    let mut i = input(Some("   "), None, Some("pw"));
    i.paths.clear();
    let err = remember_device(&mut store, &secrets, i, 1).unwrap_err();
    assert_eq!(err.code, ProbeErrorCode::Unknown);
    assert_eq!(err.message, "remember_device needs a device id or at least one address");
    assert!(store.load_all().is_empty());
    let plan = plan_remember(&input(None, Some("10.0.0.3"), None)).ok().unwrap();
    assert_eq!(plan.account, "seeed@192.168.2.19");
}

#[test]
fn forget_removes_secret_and_entry() {
    let secrets = FakeSecretStore::default();
    let mut store = RememberedDeviceStore::new();
    remember_device(&mut store, &secrets, input(Some("id-9"), None, Some("pw")), 1).unwrap();
    assert_eq!(secrets.get(SECRET_SERVICE, "seeed@id-9").as_deref(), Some("pw"));
    let outcome = forget_remembered_device(&mut store, &secrets, Some("id-9"), None, "seeed").ok().unwrap();
    assert_eq!(outcome, RemoveOutcome::Cleared);
    assert_eq!(secrets.get(SECRET_SERVICE, "seeed@id-9"), None);
    assert!(store.load_all().is_empty());
}

struct BrokenSecretStore;

impl SecretStore for BrokenSecretStore {
    fn get(&self, _service: &str, _account: &str) -> Option<String> {
        None
    }

    fn set(&self, _service: &str, _account: &str, _secret: &str) -> Result<(), RememberError> {
        Err(RememberError::Secret("locked".into()))
    }

    fn delete(&self, _service: &str, _account: &str) -> Result<(), RememberError> {
        Err(RememberError::Secret("locked".into()))
    }
}

#[test]
fn forget_without_identity_needs_no_secret_store() {
    let mut store = RememberedDeviceStore::new();
    let secrets = FakeSecretStore::default();
    remember_device(&mut store, &secrets, input(Some("id-9"), None, None), 1).unwrap();
    let outcome = forget_remembered_device(&mut store, &BrokenSecretStore, Some("  "), None, "seeed");
    assert_eq!(outcome.ok(), Some(RemoveOutcome::Unchanged));
    assert_eq!(store.load_all().len(), 1);
    let failed = forget_remembered_device(&mut store, &BrokenSecretStore, Some("id-9"), None, "seeed");
    assert!(failed.is_err());
    assert_eq!(store.load_all().len(), 1);
}

#[test]
fn upserted_device_loads_first_and_removed_one_does_not_load() {
    let mut store = RememberedDeviceStore::new();
    store.upsert(&dev_v3("id-a", "seeed", "A", &["10.0.0.1"]), 10);
    store.upsert(&dev_v3("id-b", "seeed", "B", &["10.0.0.2"]), 20);
    store.upsert(&dev_v3("id-a", "seeed", "A2", &["10.0.0.3"]), 30);
    let all = store.load_all();
    assert_eq!(all.len(), 2);
    assert_eq!(all[0].device_id.as_deref(), Some("id-a"));
    assert_eq!(all[0].display_name.as_deref(), Some("A2"));
    store.remove(Some("id-a"), None, "seeed");
    let all = store.load_all();
    assert_eq!(all.len(), 1);
    assert_eq!(all[0].device_id.as_deref(), Some("id-b"));
}

#[test]
fn stored_secret_is_the_password() {
    assert_eq!(jetson_remote_lib::remember::secret_outcome(Some("pw".into())).ok().as_deref(), Some("pw"));
    assert!(matches!(jetson_remote_lib::remember::secret_outcome(None), Err(RememberError::Missing)));
}

#[test]
fn load_all_keeps_file_order_among_equal_stamps() {
    let entry = |id: &str, at: u64| DeviceEntry { device: dev_v3(id, "u", id, &["h"]), last_connected_at: at };
    let store = RememberedDeviceStore::from_parsed(
        Some((3, vec![entry("a", 5), entry("b", 9), entry("c", 5), entry("d", 9), entry("e", 1)])),
        None,
        None,
    );
    let ids: Vec<String> = store.load_all().into_iter().map(|d| d.device_id.unwrap()).collect();
    assert_eq!(ids, vec!["b", "d", "a", "c", "e"]);
}

#[test]
fn upsert_then_load_puts_the_device_first_and_keeps_the_rest() {
    let mut store = RememberedDeviceStore::new();
    store.upsert(&dev_v3("a", "u", "A", &["10.0.0.1"]), 1);
    store.upsert(&dev_v3("b", "u", "B", &["10.0.0.2"]), 2);
    store.upsert(&dev_v3("c", "u", "C", &["10.0.0.3"]), 3);
    store.upsert(&dev_v3("a", "u", "A2", &["10.0.0.1"]), 4);
    let ids: Vec<String> = store.load_all().into_iter().map(|d| d.device_id.unwrap()).collect();
    assert_eq!(ids, vec!["a", "c", "b"]);
    assert_eq!(store.load_all()[0].display_name.as_deref(), Some("A2"));
}

#[test]
fn remove_then_load_keeps_the_order_of_the_rest() {
    let mut store = RememberedDeviceStore::new();
    store.upsert(&dev_v3("a", "u", "A", &["10.0.0.1"]), 1);
    store.upsert(&dev_v3("b", "u", "B", &["10.0.0.2"]), 2);
    store.upsert(&dev_v3("c", "u", "C", &["10.0.0.3"]), 3);
    store.remove(Some("b"), None, "u");
    let ids: Vec<String> = store.load_all().into_iter().map(|d| d.device_id.unwrap()).collect();
    assert_eq!(ids, vec!["c", "a"]);
}

#[test]
fn remember_device_reports_a_failed_password_write_and_keeps_the_list() {
    let mut store = RememberedDeviceStore::new();
    let err = remember_device(&mut store, &BrokenSecretStore, input(Some("id-9"), None, Some("pw")), 1).unwrap_err();
    assert!(matches!(err.code, ProbeErrorCode::Unknown));
    assert_eq!(err.message, "secure storage error: locked");
    assert!(store.load_all().is_empty());
}

#[test]
fn remember_device_without_password_does_not_write_a_secret() {
    let mut store = RememberedDeviceStore::new();
    remember_device(&mut store, &BrokenSecretStore, input(Some("id-9"), None, None), 1).unwrap();
    assert_eq!(store.load_all().len(), 1);
}
