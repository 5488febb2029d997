//! The trust decision: host key first, then product identity.

use vstd::prelude::*;
use crate::trust::decision::TrustDecision;
use crate::trust::model::{has_fingerprint, DeviceIdentity, HostKeyRecord, TrustRecord};
use crate::text::str_eq;

verus! {

/// Two optional identities are the same when both are absent or both are
/// present with the same text; one absent side counts as a change.
pub open spec fn same_identity(a: Option<String>, b: Option<String>) -> bool {
    match (a, b) {
        (Some(x), Some(y)) => x@ == y@,
        (None, None) => true,
        _ => false,
    }
}

/// The decision table over (host key trusted, machine id same, serial same).
pub open spec fn decide(host_key_ok: bool, machine_same: bool, serial_same: bool) -> TrustDecision {
    if host_key_ok && machine_same && serial_same {
        TrustDecision::Trusted
    } else if !host_key_ok && machine_same && serial_same {
        TrustDecision::HostKeyChangedNeedsVerification
    } else if !machine_same && serial_same {
        TrustDecision::ReEnrollSameHardware
    } else if !host_key_ok && !machine_same && !serial_same {
        TrustDecision::NewDeviceAtKnownAddress
    } else {
        TrustDecision::IdentityConflict
    }
}

/// The decision for a device: blocked without a host key, first seen without
/// a previous record, else the decision table.
pub open spec fn trust_spec(
    previous: Option<TrustRecord>,
    observed_host_key: Option<HostKeyRecord>,
    observed_identity: DeviceIdentity,
) -> TrustDecision {
    match observed_host_key {
        None => TrustDecision::Blocked,
        Some(k) => match previous {
            None => TrustDecision::FirstSeen,
            Some(p) => decide(
                has_fingerprint(p.trusted_host_keys@, k.fingerprint@),
                same_identity(p.machine_id, observed_identity.machine_id),
                same_identity(p.serial, observed_identity.serial),
            ),
        },
    }
}

fn same_opt(a: &Option<String>, b: &Option<String>) -> (r: bool)
    ensures
        r == same_identity(*a, *b),
{
    match (a, b) {
        (Some(x), Some(y)) => str_eq(x.as_str(), y.as_str()),
        (None, None) => true,
        _ => false,
    }
}

/// Evaluate trust for a device seen now. `logical_device_id` names the
/// device and does not enter the decision.
pub fn evaluate_trust(
    previous: Option<&TrustRecord>,
    logical_device_id: &str,
    observed_host_key: Option<&HostKeyRecord>,
    observed_identity: &DeviceIdentity,
) -> (r: TrustDecision)
    ensures
        r == trust_spec(
            match previous {
                Some(p) => Some(*p),
                None => None,
            },
            match observed_host_key {
                Some(k) => Some(*k),
                None => None,
            },
            *observed_identity,
        ),
{
    let host_key = match observed_host_key {
        None => {
            return TrustDecision::Blocked;
        },
        Some(k) => k,
    };
    let prev = match previous {
        None => {
            return TrustDecision::FirstSeen;
        },
        Some(p) => p,
    };
    let host_key_ok = prev.matches_host_key(host_key.fingerprint.as_str());
    let machine_same = same_opt(&prev.machine_id, &observed_identity.machine_id);
    let serial_same = same_opt(&prev.serial, &observed_identity.serial);
    match (host_key_ok, machine_same, serial_same) {
        (true, true, true) => TrustDecision::Trusted,
        (false, true, true) => TrustDecision::HostKeyChangedNeedsVerification,
        (false, false, true) => TrustDecision::ReEnrollSameHardware,
        (false, true, false) => TrustDecision::IdentityConflict,
        (false, false, false) => TrustDecision::NewDeviceAtKnownAddress,
        (true, false, true) => TrustDecision::ReEnrollSameHardware,
        (true, true, false) => TrustDecision::IdentityConflict,
        (true, false, false) => TrustDecision::IdentityConflict,
    }
}

/// Only an unchanged host key with an unchanged identity is trusted: any
/// change of key, machine id or serial withholds the trusted verdict.
pub proof fn trusted_needs_everything_unchanged(host_key_ok: bool, machine_same: bool, serial_same: bool)
    ensures
        decide(host_key_ok, machine_same, serial_same) == TrustDecision::Trusted <==> (host_key_ok
            && machine_same && serial_same),
{
}

/// No device whose host key changed, or whose identity changed, may
/// reconnect on its own or use a saved password.
pub proof fn changed_device_never_auto_reconnects(host_key_ok: bool, machine_same: bool, serial_same: bool)
    requires
        !(host_key_ok && machine_same && serial_same),
    ensures
        !crate::trust::decision::auto_reconnect_allowed(decide(host_key_ok, machine_same, serial_same)),
{
}

/// The verdict for a device with a host key and a previous record, by what
/// changed: trusted when nothing did; "host key changed, verify" exactly
/// when only the key did (machine id and serial unchanged); re-enrolled
/// hardware when the machine id changed but the serial did not; a new
/// device at a known address when the key, machine id and serial all
/// changed; an identity conflict whenever the serial changed while the key
/// or the machine id stayed.
pub proof fn trust_verdict_by_change(
    previous: TrustRecord,
    key: HostKeyRecord,
    observed: DeviceIdentity,
    r: TrustDecision,
)
    requires
        r == trust_spec(Some(previous), Some(key), observed),
    ensures
        ({
            let key_ok = has_fingerprint(previous.trusted_host_keys@, key.fingerprint@);
            let machine_same = match (previous.machine_id, observed.machine_id) {
                (Some(a), Some(b)) => a@ == b@,
                (None, None) => true,
                _ => false,
            };
            let serial_same = match (previous.serial, observed.serial) {
                (Some(a), Some(b)) => a@ == b@,
                (None, None) => true,
                _ => false,
            };
            &&& (r == TrustDecision::Trusted) <==> (key_ok && machine_same && serial_same)
            &&& (r == TrustDecision::HostKeyChangedNeedsVerification) <==> (!key_ok && machine_same && serial_same)
            &&& (r == TrustDecision::ReEnrollSameHardware) <==> (!machine_same && serial_same)
            &&& (r == TrustDecision::NewDeviceAtKnownAddress) <==> (!key_ok && !machine_same && !serial_same)
            &&& (r == TrustDecision::IdentityConflict) <==> (!serial_same && (key_ok || machine_same))
        }),
{
}

/// Without a host key a device is blocked; with one but no previous
/// record it is seen for the first time.
pub proof fn trust_without_key_or_record(
    previous: Option<TrustRecord>,
    key: Option<HostKeyRecord>,
    observed: DeviceIdentity,
)
    ensures
        key is None ==> trust_spec(previous, key, observed) == TrustDecision::Blocked,
        key is Some && previous is None ==> trust_spec(previous, key, observed) == TrustDecision::FirstSeen,
{
}

} // verus!
