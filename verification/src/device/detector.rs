//! What a detection run means: the script's exit status and its parsed
//! report decide between a device, a host that is not a Jetson, and a
//! failure. Running the script over SSH is the application's part.

use vstd::prelude::*;
use crate::device::types::JetsonDetectionResult;
use crate::ssh::error::SshError;

verus! {

/// Why detection failed.
#[derive(Debug)]
pub enum DetectError {
    Ssh(SshError),
    /// The script's output was not a valid report.
    Parse,
}

/// What a host turned out to be.
#[derive(Debug)]
pub enum DetectOutcome {
    Device(JetsonDetectionResult),
    NotJetson,
}

/// The outcome of a detection run from its exit status and its report
/// (`None` when the output did not parse): a non-zero exit is a failed
/// command; then an unparsable report is a parse failure; then the report
/// says whether the host is a Jetson.
pub fn detect_outcome(exit_code: Option<u32>, report: Option<JetsonDetectionResult>) -> (r: Result<DetectOutcome, DetectError>)
    ensures
        match exit_code {
            Some(c) if c != 0 => r matches Err(DetectError::Ssh(SshError::CommandFailed(Some(k)))) && k == c,
            _ => match report {
                None => r matches Err(DetectError::Parse),
                Some(d) => if d.is_jetson {
                    r matches Ok(DetectOutcome::Device(x)) && x == d
                } else {
                    r matches Ok(DetectOutcome::NotJetson)
                },
            },
        },
{
    match exit_code {
        Some(c) => {
            if c != 0 {
                return Err(DetectError::Ssh(SshError::CommandFailed(Some(c))));
            }
        },
        None => {},
    }
    match report {
        None => Err(DetectError::Parse),
        Some(d) => if d.is_jetson {
            Ok(DetectOutcome::Device(d))
        } else {
            Ok(DetectOutcome::NotJetson)
        },
    }
}

} // verus!
