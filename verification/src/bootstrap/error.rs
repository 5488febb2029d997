//! Provisioning errors; they never carry secrets.

use vstd::prelude::*;
use crate::ssh::error::SshError;

verus! {

/// What can go wrong preparing a device's remote desktop.
#[derive(Debug)]
pub enum ProvisionError {
    Ssh(SshError),
    /// The environment check's output was not valid.
    CheckParse,
    /// sudo refused the password.
    SudoAuthFailed,
    /// The user may not use sudo.
    SudoPermissionDenied,
    /// The temporary script could not be prepared on the device.
    TempFile,
    BootstrapFailed(Option<u32>),
    BootstrapTimeout,
    /// The remote desktop was not ready after setup.
    VerificationFailed,
}

impl From<SshError> for ProvisionError {
    fn from(e: SshError) -> (r: Self) {
        ProvisionError::Ssh(e)
    }
}

impl vstd::std_specs::convert::FromSpecImpl<SshError> for ProvisionError {
    open spec fn obeys_from_spec() -> bool {
        true
    }

    open spec fn from_spec(v: SshError) -> ProvisionError {
        ProvisionError::Ssh(v)
    }
}

} // verus!
