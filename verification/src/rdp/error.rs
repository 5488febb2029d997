//! RDP errors and their sanitized interface form: no operating-system or
//! FreeRDP text ever reaches the interface.

use vstd::prelude::*;
use crate::text::owned;

verus! {

/// An operating-system I/O error.
#[verifier::external_type_specification]
#[verifier::external_body]
pub struct ExIoError(std::io::Error);

/// What can go wrong opening a desktop.
#[derive(Debug)]
pub enum RdpError {
    ClientNotFound,
    VersionUnsupported,
    LaunchFailed(std::io::Error),
    PasswordMissing,
    /// No desktop frame arrived, even after repairing the services.
    NoUsableFrame,
    Unknown,
}

/// The error codes the interface distinguishes.
#[derive(Debug, Clone, Copy, PartialEq, Eq, Structural)]
pub enum RdpErrorCode {
    RdpClientNotFound,
    RdpClientVersionUnsupported,
    RdpLaunchFailed,
    RdpAuthenticationFailed,
    RdpCertificateChanged,
    RdpConnectionFailed,
    RdpProcessCrashed,
    RdpAlreadyRunning,
    RdpPasswordMissing,
    RdpUnknown,
}

/// A typed, sanitized error for the interface.
#[derive(Debug)]
pub struct RdpIpcError {
    pub code: RdpErrorCode,
    pub message: String,
}

/// The interface code and message of each error; the text inside a launch
/// failure is dropped.
pub open spec fn rdp_error_spec(e: RdpError) -> (RdpErrorCode, Seq<char>) {
    match e {
        RdpError::ClientNotFound => (RdpErrorCode::RdpClientNotFound, "FreeRDP is required for this development build."@),
        RdpError::VersionUnsupported => (
            RdpErrorCode::RdpClientVersionUnsupported,
            "The installed FreeRDP version is not supported."@,
        ),
        RdpError::LaunchFailed(_) => (RdpErrorCode::RdpLaunchFailed, "Couldn't open the Jetson desktop."@),
        RdpError::PasswordMissing => (RdpErrorCode::RdpPasswordMissing, "No stored password is available for this device"@),
        RdpError::NoUsableFrame => (RdpErrorCode::RdpUnknown, "Couldn't open the Jetson desktop."@),
        RdpError::Unknown => (RdpErrorCode::RdpUnknown, "Couldn't open the Jetson desktop."@),
    }
}

/// The interface form of an RDP error.
pub fn map_rdp_error(e: RdpError) -> (r: RdpIpcError)
    ensures
        (r.code, r.message@) == rdp_error_spec(e),
{
    let (code, message) = match e {
        RdpError::ClientNotFound => (RdpErrorCode::RdpClientNotFound, "FreeRDP is required for this development build."),
        RdpError::VersionUnsupported => (
            RdpErrorCode::RdpClientVersionUnsupported,
            "The installed FreeRDP version is not supported.",
        ),
        RdpError::LaunchFailed(_) => (RdpErrorCode::RdpLaunchFailed, "Couldn't open the Jetson desktop."),
        RdpError::PasswordMissing => (RdpErrorCode::RdpPasswordMissing, "No stored password is available for this device"),
        RdpError::NoUsableFrame => (RdpErrorCode::RdpUnknown, "Couldn't open the Jetson desktop."),
        RdpError::Unknown => (RdpErrorCode::RdpUnknown, "Couldn't open the Jetson desktop."),
    };
    RdpIpcError { code, message: owned(message) }
}

} // verus!
