//! The engine boundary: engines see opaque handles only and report failures
//! as stable error codes.

use vstd::prelude::*;
use crate::error_code::ErrorCode;
use crate::session::model::{ClipboardPayload, DesktopSize, RdpInputEvent, SharedEventSink};
pub use crate::rdp::types::RdpConnectionConfig;

verus! {

/// Opaque native surface handle; engines treat it as a token.
#[derive(Debug, Clone, Copy, PartialEq, Eq, Hash, Structural)]
pub struct NativeSurfaceHandle(pub u64);

impl NativeSurfaceHandle {
    pub fn new(id: u64) -> (r: Self)
        ensures
            r.0 == id,
    {
        NativeSurfaceHandle(id)
    }
}

/// Opaque engine-owned session handle.
#[derive(Debug, Clone, Copy, PartialEq, Eq, Hash, Structural)]
pub struct RdpEngineHandle(pub u64);

/// What an engine reports about a running session.
#[derive(Debug, Clone, Copy, PartialEq, Eq, Structural)]
pub enum RdpEngineHealth {
    Running,
    RunningNoFrame,
    Stopped,
}

/// One call an engine received: the arguments it was given and what it
/// returned (the event sink handed to `start` is not recorded).
pub enum EngineCall {
    Start {
        session_id: Seq<char>,
        attempt_id: u64,
        config: RdpConnectionConfig,
        surface: NativeSurfaceHandle,
        result: Result<RdpEngineHandle, ErrorCode>,
    },
    Stop { handle: RdpEngineHandle, result: Result<(), ErrorCode> },
    Resize { handle: RdpEngineHandle, size: DesktopSize, result: Result<(), ErrorCode> },
    SetFocus { handle: RdpEngineHandle, focused: bool, result: Result<(), ErrorCode> },
    SendInput { handle: RdpEngineHandle, event: RdpInputEvent, result: Result<(), ErrorCode> },
    SetClipboard { handle: RdpEngineHandle, payload: ClipboardPayload, result: Result<(), ErrorCode> },
    Health { handle: RdpEngineHandle, result: RdpEngineHealth },
}

/// An RDP engine: starts sessions and routes commands to them. Every call
/// is appended to the engine's `log`, with its arguments and its result.
pub trait RdpEngine: Send {
    /// The calls received so far, oldest first.
    spec fn log(&self) -> Seq<EngineCall>;

    fn start(
        &mut self,
        session_id: &str,
        attempt_id: u64,
        config: &RdpConnectionConfig,
        surface: NativeSurfaceHandle,
        sink: &SharedEventSink,
    ) -> (r: Result<RdpEngineHandle, ErrorCode>)
        ensures
            final(self).log() == old(self).log().push(
                EngineCall::Start { session_id: session_id@, attempt_id, config: *config, surface, result: r },
            ),
    ;

    fn stop(&mut self, handle: &RdpEngineHandle) -> (r: Result<(), ErrorCode>)
        ensures
            final(self).log() == old(self).log().push(EngineCall::Stop { handle: *handle, result: r }),
    ;

    fn resize(&mut self, handle: &RdpEngineHandle, size: DesktopSize) -> (r: Result<(), ErrorCode>)
        ensures
            final(self).log() == old(self).log().push(EngineCall::Resize { handle: *handle, size, result: r }),
    ;

    fn set_focus(&mut self, handle: &RdpEngineHandle, focused: bool) -> (r: Result<(), ErrorCode>)
        ensures
            final(self).log() == old(self).log().push(EngineCall::SetFocus { handle: *handle, focused, result: r }),
    ;

    fn send_input(&mut self, handle: &RdpEngineHandle, event: RdpInputEvent) -> (r: Result<(), ErrorCode>)
        ensures
            final(self).log() == old(self).log().push(EngineCall::SendInput { handle: *handle, event, result: r }),
    ;

    fn set_clipboard(&mut self, handle: &RdpEngineHandle, payload: ClipboardPayload) -> (r: Result<(), ErrorCode>)
        ensures
            final(self).log() == old(self).log().push(EngineCall::SetClipboard { handle: *handle, payload, result: r }),
    ;

    fn health(&mut self, handle: &RdpEngineHandle) -> (r: RdpEngineHealth)
        ensures
            final(self).log() == old(self).log().push(EngineCall::Health { handle: *handle, result: r }),
    ;
}

} // verus!
