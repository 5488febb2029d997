//! Session layer data: pure values, no pointers.

use vstd::prelude::*;
use std::sync::Arc;
use crate::session::events::RdpEngineEvent;

verus! {

/// Desktop geometry in logical pixels.
#[derive(Debug, Clone, Copy, PartialEq, Eq, Structural)]
pub struct DesktopSize {
    pub width: u32,
    pub height: u32,
}

impl DesktopSize {
    pub fn new(width: u32, height: u32) -> (r: Self)
        ensures
            r.width == width,
            r.height == height,
    {
        DesktopSize { width, height }
    }
}

/// A clipboard text payload.
#[derive(Debug, Clone, PartialEq, Eq)]
pub struct ClipboardPayload {
    pub text: String,
}

/// Input event forwarded to the engine.
#[derive(Debug, Clone, PartialEq)]
pub enum RdpInputEvent {
    MouseMove { x: i32, y: i32 },
    MouseButton { button: u8, pressed: bool, x: i32, y: i32 },
    Key { scancode: u32, pressed: bool, extended: bool },
    UnicodeText(String),
    ResetModifiers,
}

/// A session's externally visible state.
#[derive(Debug, Clone, Copy, PartialEq, Eq, Structural)]
pub enum SessionViewState {
    Launching,
    Connecting,
    Connected,
    Error,
    Disconnected,
}

/// What the UI renders for one session.
#[derive(Debug, Clone)]
pub struct SessionSnapshot {
    pub session_id: String,
    pub device_id: String,
    pub state: SessionViewState,
    pub active: bool,
    pub attempt_id: u64,
    pub error: Option<String>,
}

/// Event sink installed on the engine at start.
pub trait RdpEventSink: Send + Sync {
    fn on_event(&self, session_id: &str, attempt_id: u64, event: RdpEngineEvent);
}

/// Shared handle to an event sink.
pub type SharedEventSink = Arc<dyn RdpEventSink>;

} // verus!
