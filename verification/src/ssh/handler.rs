//! Host-key trust on first use.

use vstd::prelude::*;
use crate::ssh::types::HostKeyInfo;
use crate::text::str_eq;

verus! {

/// The trust-on-first-use verdict `(accept, changed)` for a presented key:
/// a key equal to the expected one is accepted; a different one is rejected
/// as changed; with nothing expected the key is rejected as unknown.
pub open spec fn tofu_spec(expected: Option<Seq<char>>, seen: Seq<char>) -> (bool, bool) {
    match expected {
        Some(e) => if e == seen {
            (true, false)
        } else {
            (false, true)
        },
        None => (false, false),
    }
}

/// The trust-on-first-use verdict `(accept, changed)` for fingerprint `seen`.
pub fn tofu_decision(expected: Option<&str>, seen: &str) -> (r: (bool, bool))
    ensures
        r == tofu_spec(
            match expected {
                Some(e) => Some(e@),
                None => None,
            },
            seen@,
        ),
{
    match expected {
        Some(e) => {
            if str_eq(e, seen) {
                (true, false)
            } else {
                (false, true)
            }
        },
        None => (false, false),
    }
}

/// What the handshake and its caller share: the fingerprint the caller
/// trusts, and the key the server presented when it was not accepted.
pub struct TrustState {
    pub expected_fingerprint: Option<String>,
    pub captured: Option<HostKeyInfo>,
}

impl Default for TrustState {
    fn default() -> (r: Self)
        ensures
            r.expected_fingerprint is None,
            r.captured is None,
    {
        TrustState { expected_fingerprint: None, captured: None }
    }
}

/// Exactly one key is accepted: the expected one; nothing is accepted and
/// flagged as changed at once.
pub proof fn tofu_accepts_only_the_expected_key(expected: Option<Seq<char>>, seen: Seq<char>)
    ensures
        tofu_spec(expected, seen).0 <==> expected == Some(seen),
        !(tofu_spec(expected, seen).0 && tofu_spec(expected, seen).1),
{
}


/// Why a handshake was refused by trust on first use rather than failed.
#[derive(Debug)]
pub enum KeyRejection {
    /// Nothing was trusted for the host; the presented key is returned for
    /// the user to decide.
    Unknown(HostKeyInfo),
    /// A different key was trusted; the presented one and the expected
    /// fingerprint are returned.
    Changed { current: HostKeyInfo, expected: String },
}

/// What a failed handshake means: when our trust check captured the key,
/// the key is unknown (nothing expected) or changed; otherwise (no key
/// captured) it is a real transport failure (`None`).
pub fn rejected_handshake(expected: Option<&str>, captured: Option<HostKeyInfo>) -> (r: Option<KeyRejection>)
    ensures
        match (expected, captured) {
            (None, Some(info)) => r matches Some(KeyRejection::Unknown(k)) && k == info,
            (Some(e), Some(info)) => r matches Some(KeyRejection::Changed { current, expected: x }) && current == info
                && x@ == e@,
            (_, None) => r is None,
        },
{
    match (expected, captured) {
        (None, Some(info)) => Some(KeyRejection::Unknown(info)),
        (Some(e), Some(info)) => Some(KeyRejection::Changed { current: info, expected: crate::text::owned(e) }),
        (_, None) => None,
    }
}

} // verus!
