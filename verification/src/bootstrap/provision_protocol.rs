//! The provisioning protocol: the runner's standard output is a stream of
//! JSON events, one per line. This module checks a captured stream against
//! the contract so nothing downstream ever parses shell output by hand.

use vstd::prelude::*;
use serde_json::Value;
use crate::json::{json_error, json_error_text, json_object_at, json_object_field, json_str_at, json_str_field, json_u64_at, json_u64_field, json_value};
use crate::text::{concat, decimal, decimal_string, owned, str_eq, trim, trim_spec};

verus! {

/// The protocol's schema name, carried by every event.
pub const SCHEMA: &'static str = "jr.provision.event/v1";

/// A contract violation: the line it is on (1-based; 0 for the stream as a
/// whole) and what is wrong.
#[derive(Debug, Clone, PartialEq, Eq)]
pub struct ContractError {
    pub line: usize,
    pub message: String,
}

impl ContractError {
    /// The displayed form: `provision protocol line N: message`.
    pub fn display_string(&self) -> (r: String)
        ensures
            r@ == "provision protocol line "@ + decimal(self.line as nat) + ": "@ + self.message@,
    {
        let n = decimal_string(self.line as u64);
        let a = concat("provision protocol line ", n.as_str());
        let b = concat(a.as_str(), ": ");
        concat(b.as_str(), self.message.as_str())
    }
}

/// A contract error as (line, message).
pub open spec fn err_at(n: nat, m: Seq<char>) -> Result<(u64, Option<Seq<char>>), (nat, Seq<char>)> {
    Err((n, m))
}

/// The checks one `step_result` event must pass: its step id and its
/// check, apply and verify outcomes are strings (the first missing one is
/// reported).
pub open spec fn step_result_check(text: Seq<char>, n: nat) -> Option<(nat, Seq<char>)> {
    if json_str_at(text, "step_id"@) is None {
        Some((n, "step_result missing step_id"@))
    } else if json_str_at(text, "check"@) is None {
        Some((n, "step_result missing check"@))
    } else if json_str_at(text, "apply"@) is None {
        Some((n, "step_result missing apply"@))
    } else if json_str_at(text, "verify"@) is None {
        Some((n, "step_result missing verify"@))
    } else {
        None
    }
}

/// The checks one `run_completed` event must pass: it has a status, and a
/// failed run carries an error object.
pub open spec fn run_completed_check(text: Seq<char>, n: nat) -> Option<(nat, Seq<char>)> {
    if json_str_at(text, "status"@) is None {
        Some((n, "run_completed missing status"@))
    } else if json_str_at(text, "status"@) == Some("failed"@) && !json_object_at(text, "error"@) {
        Some((n, "failed run must carry an error object"@))
    } else {
        None
    }
}

/// One non-blank line `text` (line number `n`) checked after the sequence
/// number `last` and the run id `rid` seen so far (none before the first
/// event): valid JSON with the schema, the next sequence number, the same
/// run id, `run_started` as the type of the first event, and the checks of
/// its event type. Gives the new sequence number and run id.
pub open spec fn line_check(text: Seq<char>, n: nat, last: u64, rid: Option<Seq<char>>) -> Result<
    (u64, Option<Seq<char>>),
    (nat, Seq<char>),
> {
    match json_error_text(text) {
        Some(e) => err_at(n, "invalid JSON: "@ + e),
        None => match json_str_at(text, "schema"@) {
            None => err_at(n, "missing schema"@),
            Some(s) => if s != "jr.provision.event/v1"@ {
                err_at(n, "unexpected schema "@ + s)
            } else {
                match json_u64_at(text, "seq"@) {
                    None => err_at(n, "missing/invalid seq"@),
                    Some(q) => if q != last + 1 {
                        err_at(n, "seq not monotonic: "@ + decimal(q as nat) + " after "@ + decimal(last as nat))
                    } else {
                        match json_str_at(text, "run_id"@) {
                            None => err_at(n, "missing run_id"@),
                            Some(r) => if rid is Some && rid->0 != r {
                                err_at(n, "run_id changed: "@ + rid->0 + " → "@ + r)
                            } else {
                                let ty = match json_str_at(text, "type"@) {
                                    Some(t) => t,
                                    None => Seq::<char>::empty(),
                                };
                                let type_check = if rid is None && ty != "run_started"@ {
                                    Some((n, "first event must be run_started"@))
                                } else if ty == "step_result"@ {
                                    step_result_check(text, n)
                                } else if ty == "run_completed"@ {
                                    run_completed_check(text, n)
                                } else {
                                    None
                                };
                                match type_check {
                                    Some(e) => Err(e),
                                    None => Ok((q, if rid is None { Some(r) } else { rid })),
                                }
                            },
                        }
                    },
                }
            },
        },
    }
}

/// The contract checked from line `i` on: blank lines are skipped; the
/// first violation is reported; a stream without any event is refused.
pub open spec fn validate_from(lines: Seq<Seq<char>>, i: int, last: u64, rid: Option<Seq<char>>) -> Result<
    (),
    (nat, Seq<char>),
>
    decreases lines.len() - i,
{
    if i < 0 || i >= lines.len() {
        if rid is None {
            Err((0, "empty protocol stream"@))
        } else {
            Ok(())
        }
    } else if trim_spec(lines[i]).len() == 0 {
        validate_from(lines, i + 1, last, rid)
    } else {
        match line_check(trim_spec(lines[i]), (i + 1) as nat, last, rid) {
            Err(e) => Err(e),
            Ok((l2, r2)) => validate_from(lines, i + 1, l2, r2),
        }
    }
}

/// The events of a stream from line `i` on: its non-blank lines, trimmed.
pub open spec fn events_from(lines: Seq<Seq<char>>, i: int) -> Seq<Seq<char>>
    decreases lines.len() - i,
{
    if i < 0 || i >= lines.len() {
        Seq::<Seq<char>>::empty()
    } else if trim_spec(lines[i]).len() == 0 {
        events_from(lines, i + 1)
    } else {
        seq![trim_spec(lines[i])] + events_from(lines, i + 1)
    }
}

/// The type of an event (empty when it has none).
pub open spec fn event_type(text: Seq<char>) -> Seq<char> {
    match json_str_at(text, "type"@) {
        Some(t) => t,
        None => Seq::<char>::empty(),
    }
}

/// Whether `text` is a well-formed event with sequence number `seq` of run
/// `run`: JSON with the schema, that sequence number and run id, and the
/// fields its type requires.
pub open spec fn event_ok(text: Seq<char>, seq: int, run: Seq<char>) -> bool {
    &&& json_error_text(text) is None
    &&& json_str_at(text, "schema"@) == Some("jr.provision.event/v1"@)
    &&& json_u64_at(text, "seq"@) matches Some(q) && q == seq
    &&& json_str_at(text, "run_id"@) == Some(run)
    &&& (event_type(text) == "step_result"@ ==> step_result_check(text, 0) is None)
    &&& (event_type(text) == "run_completed"@ ==> run_completed_check(text, 0) is None)
}

proof fn lemma_validate_from_ok(lines: Seq<Seq<char>>, i: int, last: u64, rid: Option<Seq<char>>)
    requires
        0 <= i,
        validate_from(lines, i, last, rid) is Ok,
    ensures
        ({
            let ev = events_from(lines, i);
            match rid {
                None => {
                    &&& ev.len() > 0
                    &&& event_type(ev[0]) == "run_started"@
                    &&& json_str_at(ev[0], "run_id"@) is Some
                    &&& forall|k: int| 0 <= k < ev.len() ==> event_ok(
                        #[trigger] ev[k],
                        last + k + 1,
                        json_str_at(ev[0], "run_id"@)->0,
                    )
                },
                Some(r) => forall|k: int| 0 <= k < ev.len() ==> event_ok(#[trigger] ev[k], last + k + 1, r),
            }
        }),
    decreases lines.len() - i,
{
    if i >= lines.len() {
    } else if trim_spec(lines[i]).len() == 0 {
        lemma_validate_from_ok(lines, i + 1, last, rid);
    } else {
        reveal_strlit("step_result");
        reveal_strlit("run_started");
        reveal_strlit("run_completed");
        assert("step_result"@[1] != "run_started"@[1]);
        assert("run_completed"@[4] != "run_started"@[4]);
        let t = trim_spec(lines[i]);
        let n = (i + 1) as nat;
        let (q, r2) = line_check(t, n, last, rid)->Ok_0;
        lemma_validate_from_ok(lines, i + 1, q, r2);
        let rest = events_from(lines, i + 1);
        let ev = events_from(lines, i);
        assert(ev == seq![t] + rest);
        assert(ev[0] == t);
        let run = match rid {
            Some(r) => r,
            None => json_str_at(t, "run_id"@)->0,
        };
        assert(q == last + 1);
        assert(r2 == Some(run));
        assert(json_error_text(t) is None);
        assert(json_str_at(t, "schema"@) == Some("jr.provision.event/v1"@));
        assert(json_str_at(t, "run_id"@) == Some(run));
        if event_type(t) == "step_result"@ {
            assert(rid is Some);
            assert(step_result_check(t, n) is None);
            assert(step_result_check(t, 0) is None);
        }
        if event_type(t) == "run_completed"@ {
            assert(rid is Some);
            assert(run_completed_check(t, n) is None);
            assert(run_completed_check(t, 0) is None);
        }
        assert(event_ok(t, last + 1, run));
        assert forall|k: int| 0 <= k < ev.len() implies event_ok(#[trigger] ev[k], last + k + 1, run) by {
            if k > 0 {
                assert(ev[k] == rest[k - 1]);
            }
        }
    }
}

/// A stream the contract accepts has at least one event; its first event
/// is `run_started`; and its k-th event (counting non-blank lines from 0)
/// is a well-formed event with sequence number k + 1 of the first event's
/// run.
pub proof fn accepted_stream_is_well_formed(lines: Seq<Seq<char>>)
    requires
        validate_from(lines, 0, 0, None) is Ok,
    ensures
        events_from(lines, 0).len() > 0,
        event_type(events_from(lines, 0)[0]) == "run_started"@,
        json_str_at(events_from(lines, 0)[0], "run_id"@) is Some,
        forall|k: int| 0 <= k < events_from(lines, 0).len() ==> event_ok(
            #[trigger] events_from(lines, 0)[k],
            k + 1,
            json_str_at(events_from(lines, 0)[0], "run_id"@)->0,
        ),
{
    lemma_validate_from_ok(lines, 0, 0, None);
}

/// The texts of a list of lines.
pub open spec fn lines_view(lines: Seq<String>) -> Seq<Seq<char>> {
    lines.map_values(|s: String| s@)
}

fn fail(n: usize, m: String) -> (r: Result<(u64, Option<String>), ContractError>)
    ensures
        r matches Err(e) && e.line == n && e.message@ == m@,
{
    Err(ContractError { line: n, message: m })
}

/// One non-blank line checked (see `line_check`).
fn check_line(text: &str, n: usize, last: u64, rid: Option<String>) -> (r: Result<(u64, Option<String>), ContractError>)
    requires
        last < u64::MAX,
    ensures
        match (r, line_check(text@, n as nat, last, crate::text::opt_view(rid))) {
            (Ok((l, x)), Ok((l2, x2))) => l == l2 && crate::text::opt_view(x) == x2,
            (Err(e), Err((n2, m2))) => e.line == n2 && e.message@ == m2,
            _ => false,
        },
{
    match json_error(text) {
        Some(e) => {
            return fail(n, concat("invalid JSON: ", e.as_str()));
        },
        None => {},
    }
    let schema = match json_str_field(text, "schema") {
        None => {
            return fail(n, owned("missing schema"));
        },
        Some(s) => s,
    };
    if !str_eq(schema.as_str(), SCHEMA) {
        return fail(n, concat("unexpected schema ", schema.as_str()));
    }
    let seq = match json_u64_field(text, "seq") {
        None => {
            return fail(n, owned("missing/invalid seq"));
        },
        Some(q) => q,
    };
    if seq != last + 1 {
        let a = concat("seq not monotonic: ", decimal_string(seq).as_str());
        let b = concat(a.as_str(), " after ");
        return fail(n, concat(b.as_str(), decimal_string(last).as_str()));
    }
    let this_run = match json_str_field(text, "run_id") {
        None => {
            return fail(n, owned("missing run_id"));
        },
        Some(r) => r,
    };
    let first = rid.is_none();
    let new_rid = match rid {
        Some(r) => {
            if !str_eq(r.as_str(), this_run.as_str()) {
                let a = concat("run_id changed: ", r.as_str());
                let b = concat(a.as_str(), " → ");
                return fail(n, concat(b.as_str(), this_run.as_str()));
            }
            Some(r)
        },
        None => Some(this_run),
    };
    let ty = match json_str_field(text, "type") {
        Some(t) => t,
        None => String::new(),
    };
    if first && !str_eq(ty.as_str(), "run_started") {
        return fail(n, owned("first event must be run_started"));
    }
    if str_eq(ty.as_str(), "step_result") {
        if json_str_field(text, "step_id").is_none() {
            return fail(n, owned("step_result missing step_id"));
        }
        if json_str_field(text, "check").is_none() {
            return fail(n, owned("step_result missing check"));
        }
        if json_str_field(text, "apply").is_none() {
            return fail(n, owned("step_result missing apply"));
        }
        if json_str_field(text, "verify").is_none() {
            return fail(n, owned("step_result missing verify"));
        }
    } else if str_eq(ty.as_str(), "run_completed") {
        let status = json_str_field(text, "status");
        match status {
            None => {
                return fail(n, owned("run_completed missing status"));
            },
            Some(st) => {
                if str_eq(st.as_str(), "failed") && !json_object_field(text, "error") {
                    return fail(n, owned("failed run must carry an error object"));
                }
            },
        }
    }
    Ok((seq, new_rid))
}

/// Check a captured stream (one string per line) against the contract:
/// every non-blank line is a JSON event with the schema; sequence numbers
/// run 1, 2, 3, ...; the run id never changes; the first event is
/// `run_started`; `step_result` events carry
/// their outcomes; a `run_completed` event has a status, and a failed one an
/// error object; the stream has at least one event.
pub fn validate_stream(lines: &[String]) -> (r: Result<(), ContractError>)
    ensures
        match (r, validate_from(lines_view(lines@), 0, 0, None)) {
            (Ok(()), Ok(())) => true,
            (Err(e), Err((n, m))) => e.line == n && e.message@ == m,
            _ => false,
        },
{
    let ghost lv = lines_view(lines@);
    let mut last_seq: u64 = 0;
    let mut run_id: Option<String> = None;
    let mut i: usize = 0;
    while i < lines.len()
        invariant
            i <= lines@.len(),
            lv == lines_view(lines@),
            last_seq <= i,
            validate_from(lv, 0, 0, None) == validate_from(lv, i as int, last_seq, crate::text::opt_view(run_id)),
        decreases lines@.len() - i,
    {
        let t = trim(lines[i].as_str());
        assert(lv[i as int] == lines@[i as int]@);
        if t.as_str().is_empty() {
            i = i + 1;
            continue;
        }
        let n = i + 1;
        match check_line(t.as_str(), n, last_seq, run_id) {
            Err(e) => {
                return Err(e);
            },
            Ok((l2, r2)) => {
                last_seq = l2;
                run_id = r2;
            },
        }
        i = i + 1;
    }
    if run_id.is_none() {
        return Err(ContractError { line: 0, message: owned("empty protocol stream") });
    }
    Ok(())
}

/// One protocol event: its type (empty when it has none) and the whole
/// JSON value. A line that is not JSON is refused as line 1.
pub fn parse_event(line: &str) -> (r: Result<(String, Value), ContractError>)
    ensures
        match json_error_text(line@) {
            Some(e) => r matches Err(err) && err.line == 1 && err.message@ == "invalid JSON: "@ + e,
            None => r matches Ok((ty, _)) && ty@ == (match json_str_at(line@, "type"@) {
                Some(t) => t,
                None => Seq::<char>::empty(),
            }),
        },
{
    match json_error(line) {
        Some(e) => {
            return Err(ContractError { line: 1, message: concat("invalid JSON: ", e.as_str()) });
        },
        None => {},
    }
    let value = match json_value(line) {
        Some(v) => v,
        None => {
            return Err(ContractError { line: 1, message: owned("invalid JSON") });
        },
    };
    let ty = match json_str_field(line, "type") {
        Some(t) => t,
        None => String::new(),
    };
    Ok((ty, value))
}

} // verus!
