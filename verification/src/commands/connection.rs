//! Connecting to a device: the typed errors the interface sees, the stable
//! identity a device's trust and tunnel are keyed by, and the mapping of
//! lower-level failures.

use vstd::prelude::*;
use crate::bootstrap::error::ProvisionError;
use crate::bootstrap::types::RemoteEnvironmentReport;
use crate::device::detector::DetectError;
use crate::device::types::JetsonDevice;
use crate::remember::{remember_error_text, RememberError};
use crate::ssh::error::SshError;
use crate::ssh::types::{key_id_text, HostKeyInfo};
use crate::text::{concat, contains, contains_spec, decimal, decimal_string, lowercase, owned, to_lowercase};
use crate::trust::store::TrustStoreFile;
use crate::tunnel::TunnelError;

verus! {

/// The user's answer to a host-key prompt, with the full key to trust.
#[derive(Debug, Clone)]
pub enum HostKeyDecision {
    TrustAndConnect { key: HostKeyInfo },
    ReplaceAndConnect { key: HostKeyInfo },
}

impl HostKeyDecision {
    /// The key to trust, whichever the answer.
    pub fn key(&self) -> (r: &HostKeyInfo)
        ensures
            *r == (match *self {
                HostKeyDecision::TrustAndConnect { key } => key,
                HostKeyDecision::ReplaceAndConnect { key } => key,
            }),
    {
        match self {
            HostKeyDecision::TrustAndConnect { key } => key,
            HostKeyDecision::ReplaceAndConnect { key } => key,
        }
    }
}

/// What probing a device gives when it succeeds; a key that needs the
/// user's decision is not an error.
#[derive(Debug)]
pub enum ProbeResult {
    Device { device: JetsonDevice },
    HostKeyUnknown { key: HostKeyInfo },
    HostKeyChanged { current: HostKeyInfo, previous: HostKeyInfo },
}

/// What preparing the remote desktop gives when it succeeds.
#[derive(Debug)]
pub enum PrepareResult {
    Ready { was_already_ready: bool, environment: RemoteEnvironmentReport },
    HostKeyUnknown { key: HostKeyInfo },
    HostKeyChanged { current: HostKeyInfo, previous: HostKeyInfo },
}

/// The error codes the interface distinguishes.
#[derive(Debug, Clone, Copy, PartialEq, Eq, Structural)]
pub enum ProbeErrorCode {
    SshTimeout,
    ConnectionRefused,
    AuthenticationFailed,
    SshProtocolError,
    RemoteCommandFailed,
    DetectionParseFailed,
    NotAJetson,
    SudoAuthenticationFailed,
    SudoPermissionDenied,
    ProvisionFailed,
    ProvisionTimeout,
    VerificationFailed,
    Cancelled,
    SavedPasswordMissing,
    Unknown,
}

/// A typed, sanitized error for the interface.
#[derive(Debug)]
pub struct ProbeError {
    pub code: ProbeErrorCode,
    pub message: String,
    pub detail: Option<String>,
}

impl ProbeError {
    /// An error with a code and message and no detail.
    pub fn new(code: ProbeErrorCode, message: &str) -> (r: Self)
        ensures
            r.code == code,
            r.message@ == message@,
            r.detail is None,
    {
        ProbeError { code, message: owned(message), detail: None }
    }
}

/// Whether `e` is the interface error with code `c` and message `m`.
pub open spec fn is_probe_error(e: ProbeError, c: ProbeErrorCode, m: Seq<char>) -> bool {
    e.code == c && e.message@ == m && e.detail is None
}

/// Whether `r` is the interface error for remembered-device failure `e`: a
/// missing password has its own code; any other failure is unknown, with
/// its message.
pub open spec fn remember_probe_error(r: ProbeError, e: RememberError) -> bool {
    match e {
        RememberError::Missing => is_probe_error(
            r,
            ProbeErrorCode::SavedPasswordMissing,
            "No stored password is available for this device"@,
        ),
        _ => is_probe_error(r, ProbeErrorCode::Unknown, remember_error_text(e)),
    }
}

/// The interface error for a remembered-device failure.
pub fn probe_error_from_remember(e: RememberError) -> (r: ProbeError)
    ensures
        remember_probe_error(r, e),
{
    match e {
        RememberError::Missing => ProbeError::new(
            ProbeErrorCode::SavedPasswordMissing,
            "No stored password is available for this device",
        ),
        other => {
            let m = other.message();
            ProbeError { code: ProbeErrorCode::Unknown, message: m, detail: None }
        },
    }
}

/// The id when it is present and not empty.
pub open spec fn nonempty_id(device_id: Option<Seq<char>>) -> Option<Seq<char>> {
    match device_id {
        Some(id) => if id.len() > 0 {
            Some(id)
        } else {
            None
        },
        None => None,
    }
}

/// The text of an optional string slice.
pub open spec fn opt_str(o: Option<&str>) -> Option<Seq<char>> {
    match o {
        Some(s) => Some(s@),
        None => None,
    }
}

/// The host a device's trusted key is stored under: its id when known (so
/// all its addresses share one entry), else the address typed.
pub fn identity_host(device_id: Option<&str>, host: &str) -> (r: String)
    ensures
        r@ == (match nonempty_id(opt_str(device_id)) {
            Some(id) => id,
            None => host@,
        }),
{
    match device_id {
        Some(id) => if !id.is_empty() {
            owned(id)
        } else {
            owned(host)
        },
        None => owned(host),
    }
}

/// A device's stable key for trust and tunnels: `user@deviceId` when the id
/// is known, `user@host` otherwise.
pub fn device_key(device_id: Option<&str>, username: &str, host: &str) -> (r: String)
    ensures
        r@ == username@ + seq!['@'] + (match nonempty_id(opt_str(device_id)) {
            Some(id) => id,
            None => host@,
        }),
{
    let at = "@";
    proof {
        reveal_strlit("@");
    }
    let prefix = concat(username, at);
    let tail = identity_host(device_id, host);
    concat(prefix.as_str(), tail.as_str())
}

/// The previously trusted key shown when a device's key changed: the one
/// stored for the identity host, else an unknown-algorithm key with the
/// fingerprint that was expected.
pub fn previous_key(store: &TrustStoreFile, id_host: &str, port: u16, expected: &str) -> (r: HostKeyInfo)
    requires
        store.wf(),
    ensures
        r.host@ == id_host@,
        r.port == port,
        if store.trusted().dom().contains(key_id_text(id_host@, port)) {
            r.algorithm@ == store.trusted()[key_id_text(id_host@, port)].0 && r.fingerprint@ == store.trusted()[key_id_text(
                id_host@,
                port,
            )].1
        } else {
            r.algorithm@ == "unknown"@ && r.fingerprint@ == expected@
        },
{
    match store.get(id_host, port) {
        Some(h) => HostKeyInfo { host: owned(id_host), port, algorithm: h.algorithm, fingerprint: h.fingerprint },
        None => HostKeyInfo { host: owned(id_host), port, algorithm: owned("unknown"), fingerprint: owned(expected) },
    }
}

/// `{:?}` of an optional exit code: `Some(n)` or `None`.
pub open spec fn opt_code_text(code: Option<u32>) -> Seq<char> {
    match code {
        Some(c) => "Some("@ + decimal(c as nat) + ")"@,
        None => "None"@,
    }
}

/// `{:?}` of an optional exit code.
pub fn opt_code_string(code: Option<u32>) -> (r: String)
    ensures
        r@ == opt_code_text(code),
{
    match code {
        Some(c) => {
            let a = concat("Some(", decimal_string(c as u64).as_str());
            concat(a.as_str(), ")")
        },
        None => owned("None"),
    }
}

/// Whether lower-cased transport diagnostics speak of authentication.
pub open spec fn auth_detail(low: Seq<char>) -> bool {
    contains_spec(low, "permission denied"@) || contains_spec(low, "authentication"@) || contains_spec(
        low,
        "auth "@,
    )
}

/// The interface error for a transport failure with diagnostics `detail`:
/// an authentication failure when they speak of it (password-only control
/// plane), else an unreachable device.
pub fn map_connect_detail(detail: &str) -> (r: ProbeError)
    ensures
        if auth_detail(lowercase(detail@)) {
            is_probe_error(r, ProbeErrorCode::AuthenticationFailed, "Authentication failed"@)
        } else {
            is_probe_error(r, ProbeErrorCode::ConnectionRefused, "Could not reach the device"@)
        },
{
    let low = to_lowercase(detail);
    let l = low.as_str();
    if contains(l, "permission denied") || contains(l, "authentication") || contains(l, "auth ") {
        ProbeError::new(ProbeErrorCode::AuthenticationFailed, "Authentication failed")
    } else {
        ProbeError::new(ProbeErrorCode::ConnectionRefused, "Could not reach the device")
    }
}

/// The diagnostics of a transport error (its `Display` text).
#[verifier::external_body]
fn transport_error_text(e: &russh::Error) -> (r: String) {
    e.to_string()
}

/// Whether `r` is the interface error for SSH failure `e`: a timeout, a
/// rejected password, a failed command (with its exit status) or too much
/// output each have their own; a transport failure is an authentication
/// failure or an unreachable device, as its diagnostics say.
pub open spec fn ssh_probe_error(r: ProbeError, e: SshError) -> bool {
    match e {
        SshError::Timeout => is_probe_error(r, ProbeErrorCode::SshTimeout, "SSH connect timed out"@),
        SshError::Connect(_) => is_probe_error(r, ProbeErrorCode::AuthenticationFailed, "Authentication failed"@)
            || is_probe_error(r, ProbeErrorCode::ConnectionRefused, "Could not reach the device"@),
        SshError::AuthRejected => is_probe_error(r, ProbeErrorCode::AuthenticationFailed, "Authentication failed"@),
        SshError::CommandFailed(code) => is_probe_error(
            r,
            ProbeErrorCode::RemoteCommandFailed,
            "Remote command failed (exit "@ + opt_code_text(code) + ")"@,
        ),
        SshError::OutputTooLarge => is_probe_error(r, ProbeErrorCode::RemoteCommandFailed, "Remote output too large"@),
    }
}

/// The interface error for an SSH failure. A transport failure goes
/// through `map_connect_detail` with the error's text.
pub fn map_ssh_error(e: SshError) -> (r: ProbeError)
    ensures
        ssh_probe_error(r, e),
{
    match e {
        SshError::Timeout => ProbeError::new(ProbeErrorCode::SshTimeout, "SSH connect timed out"),
        SshError::Connect(err) => {
            let detail = transport_error_text(&err);
            map_connect_detail(detail.as_str())
        },
        SshError::AuthRejected => ProbeError::new(ProbeErrorCode::AuthenticationFailed, "Authentication failed"),
        SshError::CommandFailed(code) => {
            let a = concat("Remote command failed (exit ", opt_code_string(code).as_str());
            let m = concat(a.as_str(), ")");
            ProbeError { code: ProbeErrorCode::RemoteCommandFailed, message: m, detail: None }
        },
        SshError::OutputTooLarge => ProbeError::new(ProbeErrorCode::RemoteCommandFailed, "Remote output too large"),
    }
}

/// The interface error for a detection failure.
pub fn map_detect_error(e: DetectError) -> (r: ProbeError)
    ensures
        match e {
            DetectError::Ssh(s) => ssh_probe_error(r, s),
            DetectError::Parse => is_probe_error(
                r,
                ProbeErrorCode::DetectionParseFailed,
                "Could not read device information"@,
            ),
        },
{
    match e {
        DetectError::Ssh(s) => map_ssh_error(s),
        DetectError::Parse => ProbeError::new(ProbeErrorCode::DetectionParseFailed, "Could not read device information"),
    }
}

/// The interface error for a tunnel failure: an authentication failure,
/// an unreachable device, or an unknown error naming the tunnel's problem.
pub fn map_tunnel_error(e: TunnelError) -> (r: ProbeError)
    ensures
        match e {
            TunnelError::AuthFailed => is_probe_error(r, ProbeErrorCode::AuthenticationFailed, "Authentication failed"@),
            TunnelError::Unreachable => is_probe_error(r, ProbeErrorCode::SshTimeout, "Could not reach the device"@),
            TunnelError::Setup(m) => is_probe_error(r, ProbeErrorCode::Unknown, "Secure tunnel: "@ + m@),
            _ => is_probe_error(r, ProbeErrorCode::Unknown, "Secure tunnel: "@ + crate::tunnel::tunnel_message(e)),
        },
{
    match e {
        TunnelError::AuthFailed => ProbeError::new(ProbeErrorCode::AuthenticationFailed, "Authentication failed"),
        TunnelError::Unreachable => ProbeError::new(ProbeErrorCode::SshTimeout, "Could not reach the device"),
        TunnelError::Setup(m) => ProbeError {
            code: ProbeErrorCode::Unknown,
            message: concat("Secure tunnel: ", m.as_str()),
            detail: None,
        },
        other => {
            let m = other.message();
            ProbeError { code: ProbeErrorCode::Unknown, message: concat("Secure tunnel: ", m.as_str()), detail: None }
        },
    }
}

/// The interface error for a provisioning failure.
pub fn map_provision_error(e: ProvisionError) -> (r: ProbeError)
    ensures
        match e {
            ProvisionError::Ssh(s) => ssh_probe_error(r, s),
            ProvisionError::CheckParse => is_probe_error(r, ProbeErrorCode::DetectionParseFailed, "Could not read environment"@),
            ProvisionError::SudoAuthFailed => is_probe_error(
                r,
                ProbeErrorCode::SudoAuthenticationFailed,
                "Administrator access is required"@,
            ),
            ProvisionError::SudoPermissionDenied => is_probe_error(
                r,
                ProbeErrorCode::SudoPermissionDenied,
                "Administrator access is required (user not allowed to sudo)"@,
            ),
            ProvisionError::TempFile => is_probe_error(r, ProbeErrorCode::ProvisionFailed, "Could not prepare the setup script"@),
            ProvisionError::BootstrapFailed(code) => is_probe_error(
                r,
                ProbeErrorCode::ProvisionFailed,
                "Remote desktop setup failed (exit "@ + opt_code_text(code) + ")"@,
            ),
            ProvisionError::BootstrapTimeout => is_probe_error(
                r,
                ProbeErrorCode::ProvisionTimeout,
                "Remote desktop setup timed out"@,
            ),
            ProvisionError::VerificationFailed => is_probe_error(
                r,
                ProbeErrorCode::VerificationFailed,
                "Remote desktop did not become ready"@,
            ),
        },
{
    match e {
        ProvisionError::Ssh(s) => map_ssh_error(s),
        ProvisionError::CheckParse => ProbeError::new(ProbeErrorCode::DetectionParseFailed, "Could not read environment"),
        ProvisionError::SudoAuthFailed => ProbeError::new(
            ProbeErrorCode::SudoAuthenticationFailed,
            "Administrator access is required",
        ),
        ProvisionError::SudoPermissionDenied => ProbeError::new(
            ProbeErrorCode::SudoPermissionDenied,
            "Administrator access is required (user not allowed to sudo)",
        ),
        ProvisionError::TempFile => ProbeError::new(ProbeErrorCode::ProvisionFailed, "Could not prepare the setup script"),
        ProvisionError::BootstrapFailed(code) => {
            let a = concat("Remote desktop setup failed (exit ", opt_code_string(code).as_str());
            let m = concat(a.as_str(), ")");
            ProbeError { code: ProbeErrorCode::ProvisionFailed, message: m, detail: None }
        },
        ProvisionError::BootstrapTimeout => ProbeError::new(ProbeErrorCode::ProvisionTimeout, "Remote desktop setup timed out"),
        ProvisionError::VerificationFailed => ProbeError::new(
            ProbeErrorCode::VerificationFailed,
            "Remote desktop did not become ready",
        ),
    }
}


/// Whether an approval given under another name (a legacy host or a
/// loopback port) is moved to the device's stable identity: nothing was
/// trusted for the identity, the key came back unknown, and its exact
/// fingerprint is trusted elsewhere.
pub fn should_migrate_trust(store: &TrustStoreFile, expected: Option<&str>, unknown_key: Option<&HostKeyInfo>) -> (r: bool)
    requires
        store.wf(),
    ensures
        r == (expected is None && match unknown_key {
            Some(k) => exists|t: Seq<char>| #[trigger] store.trusted().dom().contains(t) && store.trusted()[t].1
                == k.fingerprint@,
            None => false,
        }),
{
    if expected.is_some() {
        return false;
    }
    match unknown_key {
        Some(k) => store.contains_fingerprint(k.fingerprint.as_str()),
        None => false,
    }
}

} // verus!
