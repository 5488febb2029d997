//! The diagnostic result of a raw TCP probe. It keeps the operating
//! system's error number verbatim, so a local-network privacy block can be
//! told apart from a real transport failure.

use vstd::prelude::*;

verus! {

/// One probe of `host:port`.
#[derive(Debug, Clone)]
pub struct TcpProbe {
    pub host: String,
    pub port: u16,
    pub connected: bool,
    pub error_kind: Option<String>,
    pub os_errno: Option<i32>,
    pub detail: String,
}

/// The failure class of an error number, for the final report.
pub open spec fn errno_class(os_errno: Option<i32>) -> Seq<char> {
    match os_errno {
        Some(51) => "ENETUNREACH"@,
        Some(65) => "EHOSTUNREACH (No route to host)"@,
        Some(61) => "ECONNREFUSED"@,
        Some(60) => "ETIMEDOUT"@,
        Some(1) => "EPERM (blocked?)"@,
        Some(_) => "other errno"@,
        None => "no errno (resolution/hang?)"@,
    }
}

/// The failure class of an error number.
pub fn classify(os_errno: Option<i32>) -> (r: &'static str)
    ensures
        r@ == errno_class(os_errno),
{
    match os_errno {
        Some(51) => "ENETUNREACH",
        Some(65) => "EHOSTUNREACH (No route to host)",
        Some(61) => "ECONNREFUSED",
        Some(60) => "ETIMEDOUT",
        Some(1) => "EPERM (blocked?)",
        Some(_) => "other errno",
        None => "no errno (resolution/hang?)",
    }
}

} // verus!
