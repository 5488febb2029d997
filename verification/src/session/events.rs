//! Engine event surface.

use vstd::prelude::*;
use crate::error_code::ErrorCode;
use crate::session::model::{ClipboardPayload, DesktopSize};

verus! {

/// Why a session disconnected.
#[derive(Debug, Clone, Copy, PartialEq, Eq, Structural)]
pub enum RdpDisconnectReason {
    /// Clean local/user-initiated disconnect.
    Local,
    /// The remote closed the connection.
    RemoteClosed,
    /// Transport/network failure.
    Transport,
    /// The engine itself died.
    EngineExit,
}

/// An event the engine reports about one session attempt.
#[derive(Debug, Clone, PartialEq)]
pub enum RdpEngineEvent {
    Connecting,
    Connected { desktop_size: DesktopSize },
    Disconnected { reason: RdpDisconnectReason },
    Error { code: ErrorCode, retryable: bool },
    ClipboardOffer,
    ClipboardData { payload: ClipboardPayload },
}

impl RdpEngineEvent {
    /// Whether the event ends the attempt (a disconnect or an error).
    pub fn is_terminal(&self) -> (r: bool)
        ensures
            r == (self is Disconnected || self is Error),
    {
        match self {
            RdpEngineEvent::Disconnected { .. } | RdpEngineEvent::Error { .. } => true,
            _ => false,
        }
    }
}

} // verus!
