//! SSH-layer errors; mapped to product error codes at the command boundary.

use vstd::prelude::*;

verus! {

/// The transport error of the SSH client library.
#[verifier::external_type_specification]
#[verifier::external_body]
pub struct ExRusshError(russh::Error);

/// What can go wrong talking to a device over SSH.
#[derive(Debug)]
pub enum SshError {
    Connect(russh::Error),
    Timeout,
    AuthRejected,
    CommandFailed(Option<u32>),
    OutputTooLarge,
}

} // verus!
