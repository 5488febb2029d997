//! Opening device desktops: the decisions of a session launch, the typed
//! errors of the RDP commands, and the per-device tunnel key.

use vstd::prelude::*;
use crate::commands::connection::{nonempty_id, opt_str};
use crate::rdp::error::{map_rdp_error, rdp_error_spec, RdpError, RdpErrorCode, RdpIpcError};
use crate::rdp::types::{RdpLaunchResult, RdpStatus};
use crate::text::{concat, owned};
use crate::tunnel::{tunnel_code, TunnelError};

verus! {

/// One row of every session's status.
#[derive(Debug, Clone)]
pub struct SessionStatusEntry {
    pub session_id: String,
    pub status: RdpStatus,
}

/// Whether a launched session takes the screen or stays in the background.
#[derive(Debug, Clone, Copy, PartialEq, Eq, Structural)]
pub enum SessionLaunchMode {
    Focused,
    Background,
}

/// A device's tunnel key: `user@deviceId` when the id is known, else
/// `user@host`.
pub fn device_key(host: &str, device_id: Option<&str>, username: &str) -> (r: String)
    ensures
        r@ == username@ + seq!['@'] + (match nonempty_id(opt_str(device_id)) {
            Some(id) => id,
            None => host@,
        }),
{
    crate::commands::connection::device_key(device_id, username, host)
}

/// How a session launch starts, given whether the development sidecar
/// engine is selected and what the session manager knows of the session.
#[derive(Debug, Clone, Copy, PartialEq, Eq, Structural)]
pub enum LaunchStart {
    /// The session already shows a desktop: focus it when asked, and report
    /// it as running.
    AlreadyRunning { mode: SessionLaunchMode },
    /// Prepare the connection and launch.
    Launch { mode: SessionLaunchMode },
}

/// The mode a launch asks for (focused unless told otherwise).
pub open spec fn launch_mode(focus_on_launch: Option<bool>) -> SessionLaunchMode {
    match focus_on_launch {
        Some(false) => SessionLaunchMode::Background,
        _ => SessionLaunchMode::Focused,
    }
}

/// The start of a session launch: the sidecar engine and an empty session
/// id are refused; a session that runs with a usable desktop is already
/// running; anything else is launched.
pub fn launch_start(
    sidecar: bool,
    session_id: &str,
    focus_on_launch: Option<bool>,
    running: bool,
    usable_frame: bool,
) -> (r: Result<LaunchStart, RdpIpcError>)
    ensures
        sidecar || session_id@.len() == 0 ==> (r matches Err(e) && (e.code, e.message@) == rdp_error_spec(
            RdpError::Unknown,
        )),
        !(sidecar || session_id@.len() == 0) ==> r == (if running && usable_frame {
            Ok::<LaunchStart, RdpIpcError>(LaunchStart::AlreadyRunning { mode: launch_mode(focus_on_launch) })
        } else {
            Ok(LaunchStart::Launch { mode: launch_mode(focus_on_launch) })
        }),
{
    if sidecar || session_id.is_empty() {
        return Err(map_rdp_error(RdpError::Unknown));
    }
    let mode = match focus_on_launch {
        Some(false) => SessionLaunchMode::Background,
        _ => SessionLaunchMode::Focused,
    };
    if running && usable_frame {
        Ok(LaunchStart::AlreadyRunning { mode })
    } else {
        Ok(LaunchStart::Launch { mode })
    }
}

/// What to do once a launch attempt has waited for its first frame.
#[derive(Debug, Clone, Copy, PartialEq, Eq, Structural)]
pub enum AttemptNext {
    /// A desktop arrived: focus it when asked, and report it opened.
    Opened { focus: bool },
    /// No desktop after the first attempt: close, restart the desktop
    /// services, and try once more.
    Repair,
    /// No desktop after the repaired attempt either: close and fail.
    GiveUp,
}

/// The step after attempt `repaired` (false for the first) saw a usable
/// frame or not.
pub fn after_attempt(mode: SessionLaunchMode, repaired: bool, usable_frame: bool) -> (r: AttemptNext)
    ensures
        r == (if usable_frame {
            AttemptNext::Opened { focus: mode == SessionLaunchMode::Focused }
        } else if !repaired {
            AttemptNext::Repair
        } else {
            AttemptNext::GiveUp
        }),
{
    if usable_frame {
        AttemptNext::Opened { focus: mode == SessionLaunchMode::Focused }
    } else if !repaired {
        AttemptNext::Repair
    } else {
        AttemptNext::GiveUp
    }
}

/// The result a launch reports for each outcome of its attempts.
pub fn launch_outcome(next: AttemptNext) -> (r: Option<Result<RdpLaunchResult, RdpIpcError>>)
    ensures
        match next {
            AttemptNext::Opened { .. } => r == Some(Ok::<RdpLaunchResult, RdpIpcError>(RdpLaunchResult::Opened)),
            AttemptNext::Repair => r is None,
            AttemptNext::GiveUp => r matches Some(Err(e)) && (e.code, e.message@) == rdp_error_spec(RdpError::NoUsableFrame),
        },
{
    match next {
        AttemptNext::Opened { .. } => Some(Ok(RdpLaunchResult::Opened)),
        AttemptNext::Repair => None,
        AttemptNext::GiveUp => Some(Err(map_rdp_error(RdpError::NoUsableFrame))),
    }
}

/// The identity the desktop-service repair trusts the device's key under:
/// its id when known, else the certificate name (the device's real host).
pub fn repair_identity(device_id: Option<&str>, certificate_name: &str) -> (r: String)
    ensures
        r@ == (match nonempty_id(opt_str(device_id)) {
            Some(id) => id,
            None => certificate_name@,
        }),
{
    crate::commands::connection::identity_host(device_id, certificate_name)
}

/// The command that restarts the desktop services (password on stdin).
pub fn restart_services_command() -> (r: &'static str)
    ensures
        r@ == "sudo -S -p '' systemctl restart xrdp-sesman xrdp"@,
{
    "sudo -S -p '' systemctl restart xrdp-sesman xrdp"
}

/// The outcome of the service restart: success (or no status) passes.
pub fn restart_outcome(exit_code: Option<u32>) -> (r: Result<(), RdpIpcError>)
    ensures
        match exit_code {
            Some(c) if c != 0 => r matches Err(e) && (e.code, e.message@) == rdp_error_spec(RdpError::Unknown),
            _ => r is Ok,
        },
{
    match exit_code {
        Some(c) => if c == 0 {
            Ok(())
        } else {
            Err(map_rdp_error(RdpError::Unknown))
        },
        None => Ok(()),
    }
}

/// The interface code and message of a tunnel failure on the desktop
/// plane: the tunnel code, then what happened.
pub open spec fn tunnel_rdp_spec(e: TunnelError) -> (RdpErrorCode, Seq<char>) {
    let code = tunnel_code(e);
    match e {
        TunnelError::ExternalSingleDevice => (RdpErrorCode::RdpUnknown, code + ": single-device external tunnel"@),
        TunnelError::AuthFailed => (RdpErrorCode::RdpAuthenticationFailed, code + ": Authentication failed"@),
        TunnelError::Unreachable => (RdpErrorCode::RdpConnectionFailed, code + ": Could not reach the device"@),
        TunnelError::LocalPort(m) => (RdpErrorCode::RdpUnknown, code + ": "@ + m@),
        TunnelError::SshExited(m) => (RdpErrorCode::RdpUnknown, code + ": "@ + m@),
        TunnelError::Setup(m) => (RdpErrorCode::RdpUnknown, code + ": "@ + m@),
    }
}

/// The interface form of a tunnel failure on the desktop plane.
pub fn map_tunnel_rdp_error(e: TunnelError) -> (r: RdpIpcError)
    ensures
        (r.code, r.message@) == tunnel_rdp_spec(e),
{
    let code = e.code();
    let (c, message) = match e {
        TunnelError::ExternalSingleDevice => (RdpErrorCode::RdpUnknown, concat(code, ": single-device external tunnel")),
        TunnelError::AuthFailed => (RdpErrorCode::RdpAuthenticationFailed, concat(code, ": Authentication failed")),
        TunnelError::Unreachable => (RdpErrorCode::RdpConnectionFailed, concat(code, ": Could not reach the device")),
        TunnelError::LocalPort(m) => {
            let a = concat(code, ": ");
            (RdpErrorCode::RdpUnknown, concat(a.as_str(), m.as_str()))
        },
        TunnelError::SshExited(m) => {
            let a = concat(code, ": ");
            (RdpErrorCode::RdpUnknown, concat(a.as_str(), m.as_str()))
        },
        TunnelError::Setup(m) => {
            let a = concat(code, ": ");
            (RdpErrorCode::RdpUnknown, concat(a.as_str(), m.as_str()))
        },
    };
    RdpIpcError { code: c, message }
}

} // verus!
