//! What trust is recorded about a device.

use vstd::prelude::*;
use crate::text::str_eq;

verus! {

/// A host key: its algorithm and its fingerprint.
#[derive(Debug, Clone, PartialEq, Eq)]
pub struct HostKeyRecord {
    pub algorithm: String,
    pub fingerprint: String,
}

/// The product identity a device reports.
#[derive(Debug, Clone, PartialEq, Eq)]
pub struct DeviceIdentity {
    pub machine_id: Option<String>,
    pub serial: Option<String>,
}

impl Default for DeviceIdentity {
    fn default() -> (r: Self)
        ensures
            r.machine_id is None,
            r.serial is None,
    {
        DeviceIdentity { machine_id: None, serial: None }
    }
}

/// Everything trusted about one logical device.
#[derive(Debug, Clone, PartialEq, Eq)]
pub struct TrustRecord {
    pub logical_device_id: String,
    pub machine_id: Option<String>,
    pub serial: Option<String>,
    pub trusted_host_keys: Vec<HostKeyRecord>,
    pub known_addresses: Vec<String>,
    pub first_seen_at: Option<u64>,
    pub last_seen_at: Option<u64>,
}

/// Whether one of `keys` has fingerprint `fp`.
pub open spec fn has_fingerprint(keys: Seq<HostKeyRecord>, fp: Seq<char>) -> bool {
    exists|i: int| 0 <= i < keys.len() && (#[trigger] keys[i]).fingerprint@ == fp
}

impl TrustRecord {
    /// Whether `fingerprint` is one of the trusted host keys.
    pub fn matches_host_key(&self, fingerprint: &str) -> (r: bool)
        ensures
            r == has_fingerprint(self.trusted_host_keys@, fingerprint@),
    {
        let mut i: usize = 0;
        while i < self.trusted_host_keys.len()
            invariant
                i <= self.trusted_host_keys@.len(),
                forall|j: int| 0 <= j < i ==> (#[trigger] self.trusted_host_keys@[j]).fingerprint@ != fingerprint@,
            decreases self.trusted_host_keys@.len() - i,
        {
            if str_eq(self.trusted_host_keys[i].fingerprint.as_str(), fingerprint) {
                assert(self.trusted_host_keys@[i as int].fingerprint@ == fingerprint@);
                return true;
            }
            i = i + 1;
        }
        false
    }
}

} // verus!
