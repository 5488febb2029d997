//! Stable machine-readable error codes. A code is a bare enum variant: it
//! carries no text, so no credential can travel inside one.

use vstd::prelude::*;

verus! {

/// A stable, user-visible failure class.
#[derive(Clone, Copy, Debug, PartialEq, Eq, Hash, Structural)]
pub enum ErrorCode {
    /// SSH TCP connect / banner read timed out.
    SshTimeout,
    /// SSH authentication rejected.
    SshAuthFailed,
    /// sshd presents a host key that differs from the trusted record.
    SshHostKeyChanged,
    /// Device is unreachable at the network level.
    DeviceUnreachable,
    /// The remote is reachable over SSH but is not a Jetson.
    NotAJetson,
    /// sudo credentials rejected or sudo unavailable.
    SudoFailed,
    /// A provisioning step failed.
    ProvisionStepFailed,
    /// The local ssh tunnel could not be started.
    TunnelStartFailed,
    /// The tunnel process is up but the far end is unreachable.
    TunnelTargetUnreachable,
    /// SSH over the loopback tunnel failed.
    LoopbackSshFailed,
    /// RDP handshake / authentication / transport failed.
    RdpConnectFailed,
    /// The embedded RDP engine crashed or exited unexpectedly.
    RdpEngineCrashed,
    /// Anything not yet classified.
    Unknown,
}

/// The codes for which a retry with the same inputs may succeed.
pub open spec fn is_retryable(c: ErrorCode) -> bool {
    match c {
        ErrorCode::SshTimeout | ErrorCode::DeviceUnreachable | ErrorCode::TunnelTargetUnreachable
        | ErrorCode::LoopbackSshFailed | ErrorCode::RdpConnectFailed => true,
        _ => false,
    }
}

/// The stable snake_case name of each code.
pub open spec fn code_name(c: ErrorCode) -> Seq<char> {
    match c {
        ErrorCode::SshTimeout => "ssh_timeout"@,
        ErrorCode::SshAuthFailed => "ssh_auth_failed"@,
        ErrorCode::SshHostKeyChanged => "ssh_host_key_changed"@,
        ErrorCode::DeviceUnreachable => "device_unreachable"@,
        ErrorCode::NotAJetson => "not_a_jetson"@,
        ErrorCode::SudoFailed => "sudo_failed"@,
        ErrorCode::ProvisionStepFailed => "provision_step_failed"@,
        ErrorCode::TunnelStartFailed => "tunnel_start_failed"@,
        ErrorCode::TunnelTargetUnreachable => "tunnel_target_unreachable"@,
        ErrorCode::LoopbackSshFailed => "loopback_ssh_failed"@,
        ErrorCode::RdpConnectFailed => "rdp_connect_failed"@,
        ErrorCode::RdpEngineCrashed => "rdp_engine_crashed"@,
        ErrorCode::Unknown => "unknown"@,
    }
}

impl ErrorCode {
    /// Whether a retry with the same inputs has a chance of succeeding.
    pub fn retryable(self) -> (r: bool)
        ensures
            r == is_retryable(self),
    {
        match self {
            ErrorCode::SshTimeout | ErrorCode::DeviceUnreachable
            | ErrorCode::TunnelTargetUnreachable | ErrorCode::LoopbackSshFailed
            | ErrorCode::RdpConnectFailed => true,
            _ => false,
        }
    }

    /// Stable world-facing code (the snake_case name of the variant).
    pub fn as_str(self) -> (r: &'static str)
        ensures
            r@ == code_name(self),
    {
        match self {
            ErrorCode::SshTimeout => "ssh_timeout",
            ErrorCode::SshAuthFailed => "ssh_auth_failed",
            ErrorCode::SshHostKeyChanged => "ssh_host_key_changed",
            ErrorCode::DeviceUnreachable => "device_unreachable",
            ErrorCode::NotAJetson => "not_a_jetson",
            ErrorCode::SudoFailed => "sudo_failed",
            ErrorCode::ProvisionStepFailed => "provision_step_failed",
            ErrorCode::TunnelStartFailed => "tunnel_start_failed",
            ErrorCode::TunnelTargetUnreachable => "tunnel_target_unreachable",
            ErrorCode::LoopbackSshFailed => "loopback_ssh_failed",
            ErrorCode::RdpConnectFailed => "rdp_connect_failed",
            ErrorCode::RdpEngineCrashed => "rdp_engine_crashed",
            ErrorCode::Unknown => "unknown",
        }
    }
}

/// Distinct codes have distinct names, so a name identifies its code.
pub proof fn code_names_are_distinct(a: ErrorCode, b: ErrorCode)
    requires
        a != b,
    ensures
        code_name(a) != code_name(b),
{
    reveal_strlit("ssh_timeout");
    reveal_strlit("ssh_auth_failed");
    reveal_strlit("ssh_host_key_changed");
    reveal_strlit("device_unreachable");
    reveal_strlit("not_a_jetson");
    reveal_strlit("sudo_failed");
    reveal_strlit("provision_step_failed");
    reveal_strlit("tunnel_start_failed");
    reveal_strlit("tunnel_target_unreachable");
    reveal_strlit("loopback_ssh_failed");
    reveal_strlit("rdp_connect_failed");
    reveal_strlit("rdp_engine_crashed");
    reveal_strlit("unknown");
    assert(code_name(a).len() != code_name(b).len() || code_name(a)[0] != code_name(b)[0]
        || code_name(a)[1] != code_name(b)[1] || code_name(a)[4] != code_name(b)[4]
        || code_name(a)[5] != code_name(b)[5] || code_name(a)[7] != code_name(b)[7]);
}

} // verus!
