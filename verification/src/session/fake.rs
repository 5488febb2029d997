//! A deterministic in-process engine for lifecycle tests: it follows a
//! scripted scenario and records every call it receives.

use vstd::prelude::*;
use crate::error_code::ErrorCode;
use crate::rdp::types::RdpConnectionConfig;
use crate::session::engine::{EngineCall, NativeSurfaceHandle, RdpEngine, RdpEngineHandle, RdpEngineHealth};
use crate::session::events::RdpEngineEvent;
use crate::session::model::{ClipboardPayload, DesktopSize, RdpEventSink, RdpInputEvent, SharedEventSink};
use crate::text::owned;

verus! {

/// One scripted behaviour of the fake engine.
#[derive(Debug, Clone, Copy, PartialEq, Eq, Structural)]
pub enum FakeStep {
    /// Emit `Connected` with this size when `start` is called.
    ConnectSuccess { size: DesktopSize },
    /// `start` fails with this code.
    ConnectError { code: ErrorCode },
    /// A disconnect after this many events (driven by the test).
    DisconnectAfter { events: u64 },
    /// Emit an engine-crash error event.
    EngineCrash,
}

/// One call the fake engine received.
#[derive(Debug, Clone)]
pub enum FakeCall {
    Start { session_id: String, attempt_id: u64, surface: NativeSurfaceHandle },
    Stop { handle: RdpEngineHandle },
    Resize { handle: RdpEngineHandle, size: DesktopSize },
    SetFocus { handle: RdpEngineHandle, focused: bool },
    SendInput { handle: RdpEngineHandle, event: RdpInputEvent },
    SetClipboard { handle: RdpEngineHandle, payload: ClipboardPayload },
}

/// The fake engine: its scenario, its call log, the next handle number,
/// and (for proofs) every call with its result.
pub struct FakeRdpAdapter {
    pub calls: Vec<FakeCall>,
    pub scenario: Vec<FakeStep>,
    pub attempts: u64,
    pub history: Ghost<Seq<EngineCall>>,
}

/// The error of the first `ConnectError` step of a scenario, if any.
pub open spec fn first_connect_error(s: Seq<FakeStep>) -> Option<ErrorCode>
    decreases s.len(),
{
    if s.len() == 0 {
        None
    } else {
        match s[0] {
            FakeStep::ConnectError { code } => Some(code),
            _ => first_connect_error(s.drop_first()),
        }
    }
}

proof fn lemma_first_connect_error_prefix(s: Seq<FakeStep>, i: int)
    requires
        0 <= i <= s.len(),
        forall|j: int| 0 <= j < i ==> !(#[trigger] s[j] is ConnectError),
    ensures
        first_connect_error(s) == first_connect_error(s.subrange(i, s.len() as int)),
    decreases i,
{
    if i > 0 {
        let t = s.drop_first();
        assert forall|j: int| 0 <= j < i - 1 implies !(#[trigger] t[j] is ConnectError) by {
            assert(t[j] == s[j + 1]);
        }
        lemma_first_connect_error_prefix(t, i - 1);
        assert(t.subrange(i - 1, t.len() as int) =~= s.subrange(i, s.len() as int));
    } else {
        assert(s.subrange(0, s.len() as int) =~= s);
    }
}

impl Default for FakeRdpAdapter {
    /// The default engine: one successful connect at 1280x800.
    fn default() -> (r: Self)
        ensures
            r.calls@ == Seq::<FakeCall>::empty(),
            r.scenario@ == seq![FakeStep::ConnectSuccess { size: DesktopSize { width: 1280, height: 800 } }],
            r.next_handle() == 0,
            r.log() == Seq::<EngineCall>::empty(),
    {
        let mut scenario: Vec<FakeStep> = Vec::new();
        scenario.push(FakeStep::ConnectSuccess { size: DesktopSize::new(1280, 800) });
        FakeRdpAdapter { calls: Vec::new(), scenario, attempts: 0, history: Ghost(Seq::empty()) }
    }
}

/// An event sink that ignores every event.
pub struct FakeEvents;

impl RdpEventSink for FakeEvents {
    fn on_event(&self, session_id: &str, attempt_id: u64, event: RdpEngineEvent) {
    }
}

impl FakeRdpAdapter {
    /// The handle number the next successful `start` returns.
    pub open spec fn next_handle(&self) -> u64 {
        self.attempts
    }

    /// An engine that follows `scenario`.
    pub fn with_scenario(scenario: Vec<FakeStep>) -> (r: Self)
        ensures
            r.calls@ == Seq::<FakeCall>::empty(),
            r.scenario@ == scenario@,
            r.next_handle() == 0,
            r.log() == Seq::<EngineCall>::empty(),
    {
        FakeRdpAdapter { calls: Vec::new(), scenario, attempts: 0, history: Ghost(Seq::empty()) }
    }

    /// A copy of the call log.
    pub fn calls_snapshot(&self) -> (r: Vec<FakeCall>)
        ensures
            r@.len() == self.calls@.len(),
            forall|i: int| 0 <= i < r@.len() ==> same_call(#[trigger] r@[i], self.calls@[i]),
    {
        let mut out: Vec<FakeCall> = Vec::new();
        let mut i: usize = 0;
        while i < self.calls.len()
            invariant
                i <= self.calls@.len(),
                out@.len() == i,
                forall|j: int| 0 <= j < i ==> same_call(#[trigger] out@[j], self.calls@[j]),
            decreases self.calls@.len() - i,
        {
            out.push(copy_call(&self.calls[i]));
            i = i + 1;
        }
        out
    }
}

/// Two recorded calls carry the same data (texts compared by content).
pub open spec fn same_call(a: FakeCall, b: FakeCall) -> bool {
    match (a, b) {
        (FakeCall::Start { session_id: s1, attempt_id: a1, surface: f1 },
         FakeCall::Start { session_id: s2, attempt_id: a2, surface: f2 }) =>
            s1@ == s2@ && a1 == a2 && f1 == f2,
        (FakeCall::Stop { handle: h1 }, FakeCall::Stop { handle: h2 }) => h1 == h2,
        (FakeCall::Resize { handle: h1, size: z1 }, FakeCall::Resize { handle: h2, size: z2 }) =>
            h1 == h2 && z1 == z2,
        (FakeCall::SetFocus { handle: h1, focused: f1 }, FakeCall::SetFocus { handle: h2, focused: f2 }) =>
            h1 == h2 && f1 == f2,
        (FakeCall::SendInput { handle: h1, event: e1 }, FakeCall::SendInput { handle: h2, event: e2 }) =>
            h1 == h2 && same_input(e1, e2),
        (FakeCall::SetClipboard { handle: h1, payload: p1 }, FakeCall::SetClipboard { handle: h2, payload: p2 }) =>
            h1 == h2 && p1.text@ == p2.text@,
        _ => false,
    }
}

/// Two input events carry the same data (texts compared by content).
pub open spec fn same_input(a: RdpInputEvent, b: RdpInputEvent) -> bool {
    match (a, b) {
        (RdpInputEvent::UnicodeText(t1), RdpInputEvent::UnicodeText(t2)) => t1@ == t2@,
        (RdpInputEvent::UnicodeText(_), _) => false,
        (_, RdpInputEvent::UnicodeText(_)) => false,
        _ => a == b,
    }
}

/// A field-by-field copy of an input event.
pub fn copy_input(e: &RdpInputEvent) -> (r: RdpInputEvent)
    ensures
        same_input(r, *e),
{
    match e {
        RdpInputEvent::MouseMove { x, y } => RdpInputEvent::MouseMove { x: *x, y: *y },
        RdpInputEvent::MouseButton { button, pressed, x, y } =>
            RdpInputEvent::MouseButton { button: *button, pressed: *pressed, x: *x, y: *y },
        RdpInputEvent::Key { scancode, pressed, extended } =>
            RdpInputEvent::Key { scancode: *scancode, pressed: *pressed, extended: *extended },
        RdpInputEvent::UnicodeText(t) => RdpInputEvent::UnicodeText(owned(t.as_str())),
        RdpInputEvent::ResetModifiers => RdpInputEvent::ResetModifiers,
    }
}

fn copy_call(c: &FakeCall) -> (r: FakeCall)
    ensures
        same_call(r, *c),
{
    match c {
        FakeCall::Start { session_id, attempt_id, surface } =>
            FakeCall::Start { session_id: owned(session_id.as_str()), attempt_id: *attempt_id, surface: *surface },
        FakeCall::Stop { handle } => FakeCall::Stop { handle: *handle },
        FakeCall::Resize { handle, size } => FakeCall::Resize { handle: *handle, size: *size },
        FakeCall::SetFocus { handle, focused } => FakeCall::SetFocus { handle: *handle, focused: *focused },
        FakeCall::SendInput { handle, event } => FakeCall::SendInput { handle: *handle, event: copy_input(event) },
        FakeCall::SetClipboard { handle, payload } =>
            FakeCall::SetClipboard { handle: *handle, payload: ClipboardPayload { text: owned(payload.text.as_str()) } },
    }
}

impl RdpEngine for FakeRdpAdapter {
    open spec fn log(&self) -> Seq<EngineCall> {
        self.history@
    }

    /// Records the call, then plays the scenario: each `ConnectSuccess`
    /// emits `Connected`, each `EngineCrash` emits an engine-crash error, and
    /// the first `ConnectError` ends the start with that code. Otherwise the
    /// handle is the next handle number.
    fn start(
        &mut self,
        session_id: &str,
        attempt_id: u64,
        config: &RdpConnectionConfig,
        surface: NativeSurfaceHandle,
        sink: &SharedEventSink,
    ) -> (r: Result<RdpEngineHandle, ErrorCode>)
        ensures
            final(self).calls@.len() == old(self).calls@.len() + 1,
            final(self).calls@.drop_last() == old(self).calls@,
            final(self).calls@.last() matches FakeCall::Start { session_id: s, attempt_id: a, surface: f }
                && s@ == session_id@ && a == attempt_id && f == surface,
            final(self).scenario@ == old(self).scenario@,
            final(self).next_handle() == old(self).next_handle().wrapping_add(1),
            r == (match first_connect_error(old(self).scenario@) {
                Some(code) => Err::<RdpEngineHandle, ErrorCode>(code),
                None => Ok(RdpEngineHandle(old(self).next_handle())),
            }),
    {
        self.calls.push(FakeCall::Start { session_id: owned(session_id), attempt_id, surface });
        let handle = RdpEngineHandle(self.attempts);
        self.attempts = self.attempts.wrapping_add(1);
        let n = self.scenario.len();
        let mut i: usize = 0;
        while i < n
            invariant
                n == self.scenario@.len(),
                self.scenario@ == old(self).scenario@,
                self.calls@.len() == old(self).calls@.len() + 1,
                self.calls@.drop_last() == old(self).calls@,
                self.calls@.last() matches FakeCall::Start { session_id: s, attempt_id: a, surface: f }
                    && s@ == session_id@ && a == attempt_id && f == surface,
                self.attempts == old(self).attempts.wrapping_add(1),
                self.history == old(self).history,
                handle.0 == old(self).attempts,
                i <= n,
                forall|j: int| 0 <= j < i ==> !(#[trigger] self.scenario@[j] is ConnectError),
            decreases n - i,
        {
            match self.scenario[i] {
                FakeStep::ConnectSuccess { size } => {
                    sink.on_event(session_id, attempt_id, RdpEngineEvent::Connected { desktop_size: size });
                },
                FakeStep::ConnectError { code } => {
                    proof {
                        lemma_first_connect_error_prefix(self.scenario@, i as int);
                        let rest = self.scenario@.subrange(i as int, n as int);
                        assert(rest[0] == self.scenario@[i as int]);
                    }
                    self.history = Ghost(
                        self.history@.push(
                            EngineCall::Start {
                                session_id: session_id@,
                                attempt_id,
                                config: *config,
                                surface,
                               
                                result: Err(code),
                            },
                        ),
                    );
                    return Err(code);
                },
                FakeStep::DisconnectAfter { .. } => {},
                FakeStep::EngineCrash => {
                    sink.on_event(
                        session_id,
                        attempt_id,
                        RdpEngineEvent::Error { code: ErrorCode::RdpEngineCrashed, retryable: false },
                    );
                },
            }
            i = i + 1;
        }
        proof {
            lemma_first_connect_error_prefix(self.scenario@, n as int);
            assert(self.scenario@.subrange(n as int, n as int).len() == 0);
        }
        self.history = Ghost(
            self.history@.push(
                EngineCall::Start { session_id: session_id@, attempt_id, config: *config, surface, result: Ok(handle) },
            ),
        );
        Ok(handle)
    }

    fn stop(&mut self, handle: &RdpEngineHandle) -> (r: Result<(), ErrorCode>)
        ensures
            final(self).calls@ == old(self).calls@.push(FakeCall::Stop { handle: *handle }),
            final(self).scenario@ == old(self).scenario@,
            final(self).next_handle() == old(self).next_handle(),
            r is Ok,
    {
        self.history = Ghost(self.history@.push(EngineCall::Stop { handle: *handle, result: Ok(()) }));
        self.calls.push(FakeCall::Stop { handle: *handle });
        Ok(())
    }

    fn resize(&mut self, handle: &RdpEngineHandle, size: DesktopSize) -> (r: Result<(), ErrorCode>)
        ensures
            final(self).calls@ == old(self).calls@.push(FakeCall::Resize { handle: *handle, size }),
            final(self).scenario@ == old(self).scenario@,
            final(self).next_handle() == old(self).next_handle(),
            r is Ok,
    {
        self.history = Ghost(self.history@.push(EngineCall::Resize { handle: *handle, size, result: Ok(()) }));
        self.calls.push(FakeCall::Resize { handle: *handle, size });
        Ok(())
    }

    fn set_focus(&mut self, handle: &RdpEngineHandle, focused: bool) -> (r: Result<(), ErrorCode>)
        ensures
            final(self).calls@ == old(self).calls@.push(FakeCall::SetFocus { handle: *handle, focused }),
            final(self).scenario@ == old(self).scenario@,
            final(self).next_handle() == old(self).next_handle(),
            r is Ok,
    {
        self.history = Ghost(self.history@.push(EngineCall::SetFocus { handle: *handle, focused, result: Ok(()) }));
        self.calls.push(FakeCall::SetFocus { handle: *handle, focused });
        Ok(())
    }

    fn send_input(&mut self, handle: &RdpEngineHandle, event: RdpInputEvent) -> (r: Result<(), ErrorCode>)
        ensures
            final(self).calls@ == old(self).calls@.push(FakeCall::SendInput { handle: *handle, event }),
            final(self).scenario@ == old(self).scenario@,
            final(self).next_handle() == old(self).next_handle(),
            r is Ok,
    {
        self.history = Ghost(self.history@.push(EngineCall::SendInput { handle: *handle, event, result: Ok(()) }));
        self.calls.push(FakeCall::SendInput { handle: *handle, event });
        Ok(())
    }

    fn set_clipboard(&mut self, handle: &RdpEngineHandle, payload: ClipboardPayload) -> (r: Result<(), ErrorCode>)
        ensures
            final(self).calls@ == old(self).calls@.push(FakeCall::SetClipboard { handle: *handle, payload }),
            final(self).scenario@ == old(self).scenario@,
            final(self).next_handle() == old(self).next_handle(),
            r is Ok,
    {
        self.history = Ghost(self.history@.push(EngineCall::SetClipboard { handle: *handle, payload, result: Ok(()) }));
        self.calls.push(FakeCall::SetClipboard { handle: *handle, payload });
        Ok(())
    }

    fn health(&mut self, handle: &RdpEngineHandle) -> (r: RdpEngineHealth)
        ensures
            final(self).calls@ == old(self).calls@,
            final(self).scenario@ == old(self).scenario@,
            final(self).next_handle() == old(self).next_handle(),
            r == RdpEngineHealth::Running,
    {
        self.history = Ghost(self.history@.push(EngineCall::Health { handle: *handle, result: RdpEngineHealth::Running }));
        RdpEngineHealth::Running
    }
}

} // verus!
