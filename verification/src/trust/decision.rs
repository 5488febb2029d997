//! The outcome of a trust evaluation and what it permits.

use vstd::prelude::*;

verus! {

/// What the app may do with a device after comparing what it sees now with
/// what it trusted before.
#[derive(Debug, Clone, Copy, PartialEq, Eq, Structural)]
pub enum TrustDecision {
    Trusted,
    FirstSeen,
    HostKeyChangedNeedsVerification,
    ReEnrollSameHardware,
    NewDeviceAtKnownAddress,
    IdentityConflict,
    Blocked,
}

/// Only a trusted or first-seen device may reconnect without asking.
pub open spec fn auto_reconnect_allowed(d: TrustDecision) -> bool {
    d == TrustDecision::Trusted || d == TrustDecision::FirstSeen
}

impl TrustDecision {
    /// Whether the app may reconnect on its own.
    pub fn allows_auto_reconnect(self) -> (r: bool)
        ensures
            r == auto_reconnect_allowed(self),
    {
        match self {
            TrustDecision::Trusted | TrustDecision::FirstSeen => true,
            _ => false,
        }
    }

    /// Whether a saved password may be used; the same rule as reconnecting.
    pub fn allows_saved_credential(self) -> (r: bool)
        ensures
            r == auto_reconnect_allowed(self),
    {
        self.allows_auto_reconnect()
    }
}

} // verus!
