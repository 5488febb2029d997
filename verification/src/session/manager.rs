//! The session manager: all lifecycle policy for device sessions — attempt
//! generations, duplicate-connect coalescing, exclusive focus, input and
//! clipboard routing to the focused session only, stale-event rejection and
//! a deterministic teardown order.

use vstd::prelude::*;
use crate::error_code::{code_name, ErrorCode};
use crate::ids::{AttemptId, AttemptSequence, SessionId};
use crate::registry::Registry;
use crate::session::engine::{EngineCall, NativeSurfaceHandle, RdpConnectionConfig, RdpEngine, RdpEngineHandle, RdpEngineHealth};
use crate::session::events::RdpEngineEvent;
use crate::session::model::{ClipboardPayload, DesktopSize, RdpInputEvent, SessionSnapshot, SessionViewState, SharedEventSink};
use crate::text::{owned, str_eq};

verus! {

/// The teardown steps of a session, in the order they run.
#[derive(Debug, Clone, Copy, PartialEq, Eq, Structural)]
pub enum CleanupStep {
    StopRdp,
    DetachSurface,
    DestroySurface,
    CloseTunnel,
    ReleaseSecrets,
    RemoveSession,
}

/// Hooks the manager calls during teardown. `performed` is the log of the
/// actions taken so far: (action name, session id).
pub trait CleanupHooks: Send + Sync {
    spec fn performed(&self) -> Seq<(Seq<char>, Seq<char>)>;

    fn tunnel_close(&mut self, session_id: &str)
        ensures
            final(self).performed() == old(self).performed().push(("tunnel_close"@, session_id@)),
    ;

    fn release_secrets(&mut self, session_id: &str)
        ensures
            final(self).performed() == old(self).performed().push(("release_secrets"@, session_id@)),
    ;

    fn surface_destroy(&mut self, session_id: &str)
        ensures
            final(self).performed() == old(self).performed().push(("surface_destroy"@, session_id@)),
    ;
}

/// Hooks that record each teardown action as (action, session id).
pub struct FakeCleanupHooks {
    pub events: Vec<(String, String)>,
}

impl CleanupHooks for FakeCleanupHooks {
    open spec fn performed(&self) -> Seq<(Seq<char>, Seq<char>)> {
        self.events@.map_values(|e: (String, String)| (e.0@, e.1@))
    }

    fn tunnel_close(&mut self, session_id: &str) {
        let ghost before = self.events@;
        self.events.push((owned("tunnel_close"), owned(session_id)));
        assert(self.performed() =~= before.map_values(|e: (String, String)| (e.0@, e.1@)).push(("tunnel_close"@, session_id@)));
    }

    fn release_secrets(&mut self, session_id: &str) {
        let ghost before = self.events@;
        self.events.push((owned("release_secrets"), owned(session_id)));
        assert(self.performed() =~= before.map_values(|e: (String, String)| (e.0@, e.1@)).push(("release_secrets"@, session_id@)));
    }

    fn surface_destroy(&mut self, session_id: &str) {
        let ghost before = self.events@;
        self.events.push((owned("surface_destroy"), owned(session_id)));
        assert(self.performed() =~= before.map_values(|e: (String, String)| (e.0@, e.1@)).push(("surface_destroy"@, session_id@)));
    }
}

impl<H: CleanupHooks> CleanupHooks for Box<H> {
    open spec fn performed(&self) -> Seq<(Seq<char>, Seq<char>)> {
        (**self).performed()
    }

    fn tunnel_close(&mut self, session_id: &str) {
        (**self).tunnel_close(session_id)
    }

    fn release_secrets(&mut self, session_id: &str) {
        (**self).release_secrets(session_id)
    }

    fn surface_destroy(&mut self, session_id: &str) {
        (**self).surface_destroy(session_id)
    }
}

/// The record the manager keeps for one session.
pub struct SessionEntry {
    pub device_id: String,
    pub attempt_id: AttemptId,
    pub state: SessionViewState,
    pub handle: Option<RdpEngineHandle>,
    pub focused: bool,
    pub error: Option<String>,
}

/// A session record with its texts as character sequences.
pub struct EntryView {
    pub device_id: Seq<char>,
    pub attempt_id: u64,
    pub state: SessionViewState,
    pub handle: Option<RdpEngineHandle>,
    pub focused: bool,
    pub error: Option<Seq<char>>,
}

/// The content of an optional string.
pub open spec fn opt_text(o: Option<String>) -> Option<Seq<char>> {
    match o {
        Some(s) => Some(s@),
        None => None,
    }
}

fn copy_opt(o: &Option<String>) -> (r: Option<String>)
    ensures
        opt_text(r) == opt_text(*o),
{
    match o {
        Some(s) => Some(owned(s.as_str())),
        None => None,
    }
}

impl View for SessionEntry {
    type V = EntryView;

    open spec fn view(&self) -> EntryView {
        EntryView {
            device_id: self.device_id@,
            attempt_id: self.attempt_id.0,
            state: self.state,
            handle: self.handle,
            focused: self.focused,
            error: opt_text(self.error),
        }
    }
}

/// Whether `s` is the snapshot of session `id` with record `e`.
pub open spec fn is_snapshot(s: SessionSnapshot, id: Seq<char>, e: EntryView) -> bool {
    &&& s.session_id@ == id
    &&& s.device_id@ == e.device_id
    &&& s.state == e.state
    &&& s.active == e.focused
    &&& s.attempt_id == e.attempt_id
    &&& opt_text(s.error) == e.error
}

/// A connect to `id` is refused while its session is still starting.
pub open spec fn connect_busy(m: Map<Seq<char>, EntryView>, id: Seq<char>) -> bool {
    m.dom().contains(id) && (m[id].state == SessionViewState::Connecting || m[id].state
        == SessionViewState::Launching)
}

/// The sessions after `focus(id)` succeeds with previous focus `prev`:
/// `id` is marked active, then the previously focused session inactive.
pub open spec fn focus_update(m: Map<Seq<char>, EntryView>, prev: Option<Seq<char>>, id: Seq<char>) -> Map<Seq<char>, EntryView> {
    let m1 = m.insert(id, EntryView { focused: true, ..m[id] });
    match prev {
        Some(p) => if m1.dom().contains(p) {
            m1.insert(p, EntryView { focused: false, ..m1[p] })
        } else {
            m1
        },
        None => m1,
    }
}

/// The sessions after an engine event for attempt `a` of session `id`.
/// Events for any other attempt change nothing.
pub open spec fn event_update(m: Map<Seq<char>, EntryView>, id: Seq<char>, a: u64, ev: RdpEngineEvent) -> Map<Seq<char>, EntryView> {
    if m.dom().contains(id) && m[id].attempt_id == a {
        match ev {
            RdpEngineEvent::Connected { .. } => m.insert(id, EntryView { state: SessionViewState::Connected, ..m[id] }),
            RdpEngineEvent::Error { code, .. } => m.insert(
                id,
                EntryView { state: SessionViewState::Error, error: Some(code_name(code)), ..m[id] },
            ),
            RdpEngineEvent::Disconnected { .. } => m.insert(id, EntryView { state: SessionViewState::Disconnected, ..m[id] }),
            _ => m,
        }
    } else {
        m
    }
}

/// The teardown actions `disconnect(id)` performs, in order.
pub open spec fn teardown_log(id: Seq<char>) -> Seq<(Seq<char>, Seq<char>)> {
    seq![("surface_destroy"@, id), ("tunnel_close"@, id), ("release_secrets"@, id)]
}

/// The engine handle `focus(id)` unfocuses first: that of the previously
/// focused session, when it is another known session.
pub open spec fn focus_off_handle(m: Map<Seq<char>, EntryView>, prev: Option<Seq<char>>, id: Seq<char>) -> Option<RdpEngineHandle> {
    match prev {
        Some(p) => if p != id && m.dom().contains(p) {
            m[p].handle
        } else {
            None
        },
        None => None,
    }
}

/// The engine calls of `focus`, from log `l0` to log `l1`, with result `r`:
/// the previous session's handle `off` is unfocused first, and a failure
/// there ends the focus with that error; then the target's handle `on` is
/// focused, and `r` is that call's result.
pub open spec fn focus_log(
    l0: Seq<EngineCall>,
    l1: Seq<EngineCall>,
    off: Option<RdpEngineHandle>,
    on: Option<RdpEngineHandle>,
    r: Result<(), ErrorCode>,
) -> bool {
    let after_off = match off {
        Some(hp) => l0.push(EngineCall::SetFocus { handle: hp, focused: false, result: Ok(()) }),
        None => l0,
    };
    ||| (off matches Some(hp) && r is Err && l1 == l0.push(EngineCall::SetFocus { handle: hp, focused: false, result: r }))
    ||| match on {
        Some(h) => l1 == after_off.push(EngineCall::SetFocus { handle: h, focused: true, result: r }),
        None => r is Ok && l1 == after_off,
    }
}

/// Orchestrates device sessions over an engine.
pub struct SessionManager<E: RdpEngine, H: CleanupHooks> {
    engine: E,
    sessions: Registry<SessionEntry>,
    focused: Option<String>,
    hooks: H,
    attempts: AttemptSequence,
}

impl<E: RdpEngine, H: CleanupHooks> SessionManager<E, H> {
    /// The sessions, by session id.
    pub closed spec fn sessions(&self) -> Map<Seq<char>, EntryView> {
        self.sessions.map().map_values(|e: SessionEntry| e@)
    }

    /// The focused session id, if any.
    pub closed spec fn focused_id(&self) -> Option<Seq<char>> {
        opt_text(self.focused)
    }

    /// The last attempt id issued (0 before the first connect).
    pub closed spec fn issued(&self) -> u64 {
        self.attempts.issued()
    }

    /// The engine.
    pub closed spec fn engine_state(&self) -> E {
        self.engine
    }

    /// The calls the engine received so far, with their results.
    pub closed spec fn engine_log(&self) -> Seq<EngineCall> {
        self.engine.log()
    }

    /// The cleanup hooks.
    pub closed spec fn hooks_state(&self) -> H {
        self.hooks
    }

    /// The manager's invariant: a session is active only while it is the
    /// focused one, every session holds an engine handle, and no session
    /// carries an attempt id that was not yet issued.
    pub closed spec fn wf(&self) -> bool {
        &&& self.sessions.wf()
        &&& forall|k: Seq<char>| #[trigger] self.sessions().dom().contains(k) ==> {
            &&& (self.sessions()[k].focused ==> self.focused_id() == Some(k))
            &&& self.sessions()[k].handle is Some
            &&& self.sessions()[k].attempt_id <= self.issued()
        }
    }

    /// A manager with no sessions.
    pub fn new(engine: E, hooks: H) -> (r: Self)
        ensures
            r.wf(),
            r.sessions() == Map::<Seq<char>, EntryView>::empty(),
            r.focused_id() is None,
            r.issued() == 0,
            r.engine_state() == engine,
            r.hooks_state() == hooks,
    {
        let r = SessionManager {
            engine,
            sessions: Registry::new(),
            focused: None,
            hooks,
            attempts: AttemptSequence::new(),
        };
        assert(r.sessions() =~= Map::<Seq<char>, EntryView>::empty());
        r
    }

    proof fn lemma_sessions_insert(&self, old_reg: Registry<SessionEntry>, key: Seq<char>, e: SessionEntry)
        requires
            self.sessions.map() == old_reg.map().insert(key, e),
        ensures
            self.sessions() == old_reg.map().map_values(|x: SessionEntry| x@).insert(key, e@),
    {
        assert(self.sessions() =~= old_reg.map().map_values(|x: SessionEntry| x@).insert(key, e@));
    }

    /// Connect a new session. A session that is still connecting or
    /// launching is not restarted (`Err(Unknown)`, nothing changes);
    /// otherwise a new attempt id is issued and the engine started; on
    /// success the session is recorded as connecting, inactive, without error.
    pub fn connect(
        &mut self,
        session_id: SessionId,
        device_id: &str,
        config: &RdpConnectionConfig,
        surface: NativeSurfaceHandle,
        sink: SharedEventSink,
    ) -> (r: Result<SessionSnapshot, ErrorCode>)
        requires
            old(self).wf(),
            old(self).issued() < u64::MAX,
        ensures
            final(self).wf(),
            final(self).hooks_state() == old(self).hooks_state(),
            final(self).focused_id() == old(self).focused_id(),
            connect_busy(old(self).sessions(), session_id.0@) ==> r == Err::<SessionSnapshot, ErrorCode>(ErrorCode::Unknown)
                && *final(self) == *old(self),
            !connect_busy(old(self).sessions(), session_id.0@) ==> final(self).issued() == old(self).issued() + 1,
            !connect_busy(old(self).sessions(), session_id.0@) ==> forall|k: Seq<char>|
                #[trigger] old(self).sessions().dom().contains(k) ==> old(self).sessions()[k].attempt_id
                    < final(self).issued(),
            !connect_busy(old(self).sessions(), session_id.0@) ==> {
                &&& final(self).engine_log().len() == old(self).engine_log().len() + 1
                &&& final(self).engine_log().drop_last() == old(self).engine_log()
                &&& final(self).engine_log().last() matches EngineCall::Start {
                    session_id: s,
                    attempt_id: a,
                    config: c,
                    surface: f,
                    result: res,
                }
                &&& s == session_id.0@ && a == final(self).issued() && c == *config && f == surface
                &&& (res matches Err(code) ==> r == Err::<SessionSnapshot, ErrorCode>(code))
                &&& (res matches Ok(h) ==> r is Ok && final(self).sessions()[session_id.0@].handle == Some(h))
            },
            r is Err ==> final(self).sessions() == old(self).sessions(),
            r matches Ok(snap) ==> {
                &&& !connect_busy(old(self).sessions(), session_id.0@)
                &&& final(self).sessions().dom().contains(session_id.0@)
                &&& final(self).sessions()[session_id.0@].handle is Some
                &&& final(self).sessions() == old(self).sessions().insert(
                    session_id.0@,
                    EntryView {
                        device_id: device_id@,
                        attempt_id: final(self).issued(),
                        state: SessionViewState::Connecting,
                        handle: final(self).sessions()[session_id.0@].handle,
                        focused: false,
                        error: None,
                    },
                )
                &&& is_snapshot(snap, session_id.0@, final(self).sessions()[session_id.0@])
            },
    {
        match self.sessions.get(session_id.as_str()) {
            Some(entry) => {
                if entry.state == SessionViewState::Connecting || entry.state == SessionViewState::Launching {
                    return Err(ErrorCode::Unknown);
                }
            },
            None => {},
        }
        let attempt = AttemptId::next(&mut self.attempts);
        let handle = match self.engine.start(session_id.as_str(), attempt.value(), config, surface, &sink) {
            Ok(h) => h,
            Err(code) => {
                return Err(code);
            },
        };
        let entry = SessionEntry {
            device_id: owned(device_id),
            attempt_id: attempt,
            state: SessionViewState::Connecting,
            handle: Some(handle),
            focused: false,
            error: None,
        };
        let ghost old_reg = self.sessions;
        let ghost e = entry;
        self.sessions.insert(owned(session_id.as_str()), entry);
        proof {
            self.lemma_sessions_insert(old_reg, session_id.0@, e);
        }
        Ok(self.snapshot(session_id.as_str()))
    }

    /// Mark a session connected; an unknown id changes nothing.
    pub fn mark_connected(&mut self, session_id: &str)
        requires
            old(self).wf(),
        ensures
            final(self).wf(),
            final(self).focused_id() == old(self).focused_id(),
            final(self).issued() == old(self).issued(),
            final(self).engine_state() == old(self).engine_state(),
            final(self).hooks_state() == old(self).hooks_state(),
            final(self).sessions() == (if old(self).sessions().dom().contains(session_id@) {
                old(self).sessions().insert(
                    session_id@,
                    EntryView { state: SessionViewState::Connected, ..old(self).sessions()[session_id@] },
                )
            } else {
                old(self).sessions()
            }),
    {
        let updated = match self.sessions.get(session_id) {
            None => {
                return;
            },
            Some(e) => SessionEntry {
                device_id: owned(e.device_id.as_str()),
                attempt_id: e.attempt_id,
                state: SessionViewState::Connected,
                handle: e.handle,
                focused: e.focused,
                error: copy_opt(&e.error),
            },
        };
        let ghost old_reg = self.sessions;
        let ghost e = updated;
        self.sessions.insert(owned(session_id), updated);
        proof {
            self.lemma_sessions_insert(old_reg, session_id@, e);
            assert(e@ == EntryView { state: SessionViewState::Connected, ..old(self).sessions()[session_id@] });
            assert forall|k: Seq<char>| #[trigger] self.sessions().dom().contains(k) implies {
                &&& (self.sessions()[k].focused ==> self.focused_id() == Some(k))
                &&& self.sessions()[k].handle is Some
                &&& self.sessions()[k].attempt_id <= self.issued()
            } by {
                assert(old(self).sessions().dom().contains(k));
            }
        }
    }

    fn set_focused_flag(&mut self, session_id: &str, focused: bool)
        requires
            old(self).sessions.wf(),
            old(self).sessions().dom().contains(session_id@),
        ensures
            final(self).sessions.wf(),
            final(self).sessions() == old(self).sessions().insert(
                session_id@,
                EntryView { focused, ..old(self).sessions()[session_id@] },
            ),
            final(self).focused == old(self).focused,
            final(self).attempts == old(self).attempts,
            final(self).engine == old(self).engine,
            final(self).hooks == old(self).hooks,
    {
        let updated = match self.sessions.get(session_id) {
            None => {
                return;
            },
            Some(e) => SessionEntry {
                device_id: owned(e.device_id.as_str()),
                attempt_id: e.attempt_id,
                state: e.state,
                handle: e.handle,
                focused,
                error: copy_opt(&e.error),
            },
        };
        let ghost old_reg = self.sessions;
        let ghost e = updated;
        self.sessions.insert(owned(session_id), updated);
        proof {
            self.lemma_sessions_insert(old_reg, session_id@, e);
        }
    }

    /// Focus one session exclusively: the previously focused engine is
    /// unfocused first, then the target is focused; any engine failure is
    /// returned with the records unchanged. An unknown id is `Err(Unknown)`
    /// with nothing changed.
    pub fn focus(&mut self, session_id: &str) -> (r: Result<(), ErrorCode>)
        requires
            old(self).wf(),
        ensures
            final(self).wf(),
            final(self).issued() == old(self).issued(),
            final(self).hooks_state() == old(self).hooks_state(),
            !old(self).sessions().dom().contains(session_id@) ==> r == Err::<(), ErrorCode>(ErrorCode::Unknown)
                && *final(self) == *old(self),
            r is Err ==> final(self).sessions() == old(self).sessions() && final(self).focused_id() == old(self).focused_id(),
            r is Ok ==> final(self).focused_id() == Some(session_id@) && final(self).sessions() == focus_update(
                old(self).sessions(),
                old(self).focused_id(),
                session_id@,
            ),
            old(self).sessions().dom().contains(session_id@) ==> focus_log(
                old(self).engine_log(),
                final(self).engine_log(),
                focus_off_handle(old(self).sessions(), old(self).focused_id(), session_id@),
                old(self).sessions()[session_id@].handle,
                r,
            ),
    {
        if !self.sessions.contains_key(session_id) {
            return Err(ErrorCode::Unknown);
        }
        let prev = copy_opt(&self.focused);
        let ghost l0 = self.engine_log();
        let ghost off = focus_off_handle(self.sessions(), self.focused_id(), session_id@);
        let mut prev_handle: Option<RdpEngineHandle> = None;
        match &prev {
            Some(p) => {
                if !str_eq(p.as_str(), session_id) {
                    prev_handle = match self.sessions.get(p.as_str()) {
                        Some(e) => e.handle,
                        None => None,
                    };
                }
            },
            None => {},
        }
        assert(prev_handle == off);
        match prev_handle {
            Some(h) => {
                let res = self.engine.set_focus(&h, false);
                assert(self.engine_log() == l0.push(EngineCall::SetFocus { handle: h, focused: false, result: res }));
                match res {
                    Ok(u) => {
                        assert(res is Ok);
                        assert(u == ());
                        assert(res == Ok::<(), ErrorCode>(()));
                        assert(off == Some(h));
                        assert(self.engine_log() == l0.push(EngineCall::SetFocus { handle: h, focused: false, result: Ok(()) }));
                    },
                    Err(code) => {
                        return Err(code);
                    },
                }
            },
            None => {
                assert(self.engine_log() == l0);
            },
        }
        let ghost after_off = self.engine_log();
        assert(after_off == (match off {
            Some(hp) => l0.push(EngineCall::SetFocus { handle: hp, focused: false, result: Ok(()) }),
            None => l0,
        }));
        let target_handle = match self.sessions.get(session_id) {
            Some(e) => e.handle,
            None => None,
        };
        assert(target_handle == self.sessions()[session_id@].handle);
        match target_handle {
            Some(h) => {
                let res = self.engine.set_focus(&h, true);
                assert(self.engine_log() == after_off.push(EngineCall::SetFocus { handle: h, focused: true, result: res }));
                match res {
                    Ok(u) => {
                        assert(u == ());
                        assert(res == Ok::<(), ErrorCode>(()));
                    },
                    Err(code) => {
                        return Err(code);
                    },
                }
            },
            None => {},
        }
        let ghost l_end = self.engine_log();
        let ghost m0 = self.sessions();
        self.set_focused_flag(session_id, true);
        let ghost m1 = self.sessions();
        match &prev {
            Some(p) => {
                if self.sessions.contains_key(p.as_str()) {
                    self.set_focused_flag(p.as_str(), false);
                }
            },
            None => {},
        }
        self.focused = Some(owned(session_id));
        proof {
            assert(self.engine_log() == l_end);
            assert(self.sessions() == focus_update(m0, opt_text(prev), session_id@));
            assert forall|k: Seq<char>| #[trigger] self.sessions().dom().contains(k) implies {
                &&& (self.sessions()[k].focused ==> self.focused_id() == Some(k))
                &&& self.sessions()[k].handle is Some
                &&& self.sessions()[k].attempt_id <= self.issued()
            } by {
                assert(m0.dom().contains(k));
                if k != session_id@ && Some(k) != opt_text(prev) {
                    assert(self.sessions()[k] == m0[k]);
                }
            }
        }
        Ok(())
    }

    /// Route input to the focused session only: a session that is unknown or
    /// not active gets `Err(Unknown)` and nothing changes.
    pub fn send_input(&mut self, session_id: &str, event: RdpInputEvent) -> (r: Result<(), ErrorCode>)
        requires
            old(self).wf(),
        ensures
            final(self).wf(),
            final(self).sessions() == old(self).sessions(),
            final(self).focused_id() == old(self).focused_id(),
            final(self).issued() == old(self).issued(),
            final(self).hooks_state() == old(self).hooks_state(),
            !(old(self).sessions().dom().contains(session_id@) && old(self).sessions()[session_id@].focused)
                ==> r == Err::<(), ErrorCode>(ErrorCode::Unknown) && *final(self) == *old(self),
            r is Ok ==> old(self).focused_id() == Some(session_id@),
            old(self).sessions().dom().contains(session_id@) && old(self).sessions()[session_id@].focused ==> match old(
                self,
            ).sessions()[session_id@].handle {
                Some(h) => final(self).engine_log() == old(self).engine_log().push(
                    EngineCall::SendInput { handle: h, event, result: r },
                ),
                None => r is Ok && final(self).engine_log() == old(self).engine_log(),
            },
    {
        let handle = match self.sessions.get(session_id) {
            None => {
                return Err(ErrorCode::Unknown);
            },
            Some(e) => {
                if !e.focused {
                    return Err(ErrorCode::Unknown);
                }
                e.handle
            },
        };
        assert(self.sessions().dom().contains(session_id@));
        match handle {
            Some(h) => self.engine.send_input(&h, event),
            None => Ok(()),
        }
    }

    /// Route clipboard text to the focused session only: a session that is
    /// unknown or not active gets `Err(Unknown)` and nothing changes.
    pub fn set_clipboard(&mut self, session_id: &str, payload: ClipboardPayload) -> (r: Result<(), ErrorCode>)
        requires
            old(self).wf(),
        ensures
            final(self).wf(),
            final(self).sessions() == old(self).sessions(),
            final(self).focused_id() == old(self).focused_id(),
            final(self).issued() == old(self).issued(),
            final(self).hooks_state() == old(self).hooks_state(),
            !(old(self).sessions().dom().contains(session_id@) && old(self).sessions()[session_id@].focused)
                ==> r == Err::<(), ErrorCode>(ErrorCode::Unknown) && *final(self) == *old(self),
            r is Ok ==> old(self).focused_id() == Some(session_id@),
            old(self).sessions().dom().contains(session_id@) && old(self).sessions()[session_id@].focused ==> match old(
                self,
            ).sessions()[session_id@].handle {
                Some(h) => final(self).engine_log() == old(self).engine_log().push(
                    EngineCall::SetClipboard { handle: h, payload, result: r },
                ),
                None => r is Ok && final(self).engine_log() == old(self).engine_log(),
            },
    {
        let handle = match self.sessions.get(session_id) {
            None => {
                return Err(ErrorCode::Unknown);
            },
            Some(e) => {
                if !e.focused {
                    return Err(ErrorCode::Unknown);
                }
                e.handle
            },
        };
        assert(self.sessions().dom().contains(session_id@));
        match handle {
            Some(h) => self.engine.set_clipboard(&h, payload),
            None => Ok(()),
        }
    }

    /// Resize one session; an unknown id is `Err(Unknown)` with nothing changed.
    pub fn resize(&mut self, session_id: &str, size: DesktopSize) -> (r: Result<(), ErrorCode>)
        requires
            old(self).wf(),
        ensures
            final(self).wf(),
            final(self).sessions() == old(self).sessions(),
            final(self).focused_id() == old(self).focused_id(),
            final(self).issued() == old(self).issued(),
            final(self).hooks_state() == old(self).hooks_state(),
            !old(self).sessions().dom().contains(session_id@) ==> r == Err::<(), ErrorCode>(ErrorCode::Unknown)
                && *final(self) == *old(self),
            old(self).sessions().dom().contains(session_id@) ==> match old(self).sessions()[session_id@].handle {
                Some(h) => final(self).engine_log() == old(self).engine_log().push(
                    EngineCall::Resize { handle: h, size, result: r },
                ),
                None => r is Ok && final(self).engine_log() == old(self).engine_log(),
            },
    {
        let handle = match self.sessions.get(session_id) {
            None => {
                return Err(ErrorCode::Unknown);
            },
            Some(e) => e.handle,
        };
        assert(self.sessions().dom().contains(session_id@));
        match handle {
            Some(h) => self.engine.resize(&h, size),
            None => Ok(()),
        }
    }

    /// Deterministic teardown: stop the engine session, then destroy the
    /// surface, close the tunnel, release the secrets, and forget the
    /// session; focus is cleared if it pointed here. Disconnecting an
    /// unknown id changes nothing, so a second disconnect is a no-op.
    pub fn disconnect(&mut self, session_id: &str)
        requires
            old(self).wf(),
        ensures
            final(self).wf(),
            final(self).issued() == old(self).issued(),
            !old(self).sessions().dom().contains(session_id@) ==> *final(self) == *old(self),
            old(self).sessions().dom().contains(session_id@) ==> {
                &&& final(self).sessions() == old(self).sessions().remove(session_id@)
                &&& final(self).hooks_state().performed() == old(self).hooks_state().performed()
                    + teardown_log(session_id@)
                &&& final(self).focused_id() == (if old(self).focused_id() == Some(session_id@) {
                    None
                } else {
                    old(self).focused_id()
                })
                &&& match old(self).sessions()[session_id@].handle {
                    Some(h) => {
                        &&& final(self).engine_log().len() == old(self).engine_log().len() + 2
                        &&& final(self).engine_log().take(old(self).engine_log().len() as int) == old(self).engine_log()
                        &&& final(self).engine_log()[old(self).engine_log().len() as int] matches EngineCall::SetFocus {
                            handle: h1,
                            focused: f,
                            ..
                        } && h1 == h && !f
                        &&& final(self).engine_log()[old(self).engine_log().len() + 1int] matches EngineCall::Stop {
                            handle: h2,
                            ..
                        } && h2 == h
                    },
                    None => final(self).engine_log() == old(self).engine_log(),
                }
            },
    {
        let ghost old_reg = self.sessions;
        let removed = self.sessions.remove(session_id);
        let entry = match removed {
            None => {
                return;
            },
            Some(e) => e,
        };
        proof {
            assert(self.sessions() =~= old(self).sessions().remove(session_id@));
        }
        match entry.handle {
            Some(h) => {
                let _ = self.engine.set_focus(&h, false);
                let _ = self.engine.stop(&h);
            },
            None => {},
        }
        let ghost log0 = self.hooks.performed();
        self.hooks.surface_destroy(session_id);
        self.hooks.tunnel_close(session_id);
        self.hooks.release_secrets(session_id);
        assert(self.hooks.performed() =~= log0 + teardown_log(session_id@));
        let clear = match &self.focused {
            Some(f) => str_eq(f.as_str(), session_id),
            None => false,
        };
        if clear {
            self.focused = None;
        }
    }

    /// Apply an engine event. Events for an unknown session, or for an
    /// attempt other than the session's current one, change nothing.
    pub fn handle_engine_event(&mut self, session_id: &str, attempt_id: u64, event: RdpEngineEvent)
        requires
            old(self).wf(),
        ensures
            final(self).wf(),
            final(self).focused_id() == old(self).focused_id(),
            final(self).issued() == old(self).issued(),
            final(self).engine_state() == old(self).engine_state(),
            final(self).hooks_state() == old(self).hooks_state(),
            final(self).sessions() == event_update(old(self).sessions(), session_id@, attempt_id, event),
    {
        let current = match self.sessions.get(session_id) {
            None => {
                return;
            },
            Some(e) => e,
        };
        if current.attempt_id.value() != attempt_id {
            return;
        }
        let (state, error) = match event {
            RdpEngineEvent::Connected { .. } => (SessionViewState::Connected, copy_opt(&current.error)),
            RdpEngineEvent::Error { code, .. } => (SessionViewState::Error, Some(owned(code.as_str()))),
            RdpEngineEvent::Disconnected { .. } => (SessionViewState::Disconnected, copy_opt(&current.error)),
            _ => {
                return;
            },
        };
        let updated = SessionEntry {
            device_id: owned(current.device_id.as_str()),
            attempt_id: current.attempt_id,
            state,
            handle: current.handle,
            focused: current.focused,
            error,
        };
        let ghost old_reg = self.sessions;
        let ghost e = updated;
        self.sessions.insert(owned(session_id), updated);
        proof {
            self.lemma_sessions_insert(old_reg, session_id@, e);
        }
    }

    /// The engine's health for a session; `None` for an unknown session.
    pub fn health(&mut self, session_id: &str) -> (r: Option<RdpEngineHealth>)
        requires
            old(self).wf(),
        ensures
            final(self).wf(),
            final(self).sessions() == old(self).sessions(),
            final(self).focused_id() == old(self).focused_id(),
            final(self).issued() == old(self).issued(),
            final(self).hooks_state() == old(self).hooks_state(),
            r is Some <==> old(self).sessions().dom().contains(session_id@),
            old(self).sessions().dom().contains(session_id@) ==> match old(self).sessions()[session_id@].handle {
                Some(h) => r matches Some(x) && final(self).engine_log() == old(self).engine_log().push(
                    EngineCall::Health { handle: h, result: x },
                ),
                None => final(self).engine_log() == old(self).engine_log(),
            },
    {
        let handle = match self.sessions.get(session_id) {
            None => {
                return None;
            },
            Some(e) => e.handle,
        };
        assert(self.sessions().dom().contains(session_id@));
        match handle {
            Some(h) => Some(self.engine.health(&h)),
            None => None,
        }
    }

    /// The cleanup hooks, to inspect what teardown did.
    pub fn hooks(&self) -> (r: &H)
        ensures
            *r == self.hooks_state(),
    {
        &self.hooks
    }

    /// The focused session id, if any.
    pub fn focused(&self) -> (r: Option<&str>)
        ensures
            r is Some <==> self.focused_id() is Some,
            r matches Some(s) ==> self.focused_id() == Some(s@),
    {
        match &self.focused {
            Some(s) => Some(s.as_str()),
            None => None,
        }
    }

    /// The snapshot of one existing session.
    pub fn snapshot(&self, session_id: &str) -> (r: SessionSnapshot)
        requires
            self.wf(),
            self.sessions().dom().contains(session_id@),
        ensures
            is_snapshot(r, session_id@, self.sessions()[session_id@]),
    {
        match self.sessions.get(session_id) {
            Some(e) => SessionSnapshot {
                session_id: owned(session_id),
                device_id: owned(e.device_id.as_str()),
                state: e.state,
                active: e.focused,
                attempt_id: e.attempt_id.value(),
                error: copy_opt(&e.error),
            },
            None => {
                assert(false);
                SessionSnapshot {
                    session_id: owned(session_id),
                    device_id: String::new(),
                    state: SessionViewState::Error,
                    active: false,
                    attempt_id: 0,
                    error: None,
                }
            },
        }
    }

    /// Every session id, each once.
    pub fn session_ids(&self) -> (r: Vec<String>)
        requires
            self.wf(),
        ensures
            r@.map_values(|s: String| s@).no_duplicates(),
            forall|k: Seq<char>| r@.map_values(|s: String| s@).contains(k) <==> self.sessions().dom().contains(k),
    {
        proof {
            self.sessions.lemma_keys();
        }
        self.sessions.keys()
    }
}

/// Focus is exclusive: at most one session is active, and an active session
/// is the focused one.
pub proof fn focus_is_exclusive<E: RdpEngine, H: CleanupHooks>(m: SessionManager<E, H>, a: Seq<char>, b: Seq<char>)
    requires
        m.wf(),
        m.sessions().dom().contains(a),
        m.sessions().dom().contains(b),
        m.sessions()[a].focused,
        m.sessions()[b].focused,
    ensures
        a == b,
        m.focused_id() == Some(a),
{
}

/// A new attempt is newer than every attempt the manager holds: the attempt
/// id that the next connect issues exceeds all recorded ones.
pub proof fn next_attempt_is_newest<E: RdpEngine, H: CleanupHooks>(m: SessionManager<E, H>, k: Seq<char>)
    requires
        m.wf(),
        m.sessions().dom().contains(k),
    ensures
        m.sessions()[k].attempt_id < m.issued() + 1,
{
}

/// Events carrying a stale attempt id never change the sessions.
pub proof fn stale_event_is_ignored(m: Map<Seq<char>, EntryView>, id: Seq<char>, a: u64, ev: RdpEngineEvent)
    requires
        m.dom().contains(id) ==> m[id].attempt_id != a,
    ensures
        event_update(m, id, a, ev) == m,
{
}

/// A second disconnect of the same id finds nothing to tear down.
pub proof fn disconnect_is_idempotent(m: Map<Seq<char>, EntryView>, id: Seq<char>)
    ensures
        !m.remove(id).dom().contains(id),
        m.remove(id).remove(id) == m.remove(id),
{
    assert(m.remove(id).remove(id) =~= m.remove(id));
}

} // verus!
