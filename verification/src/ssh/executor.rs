//! Aggregation of a remote command's channel messages into its result.

use vstd::prelude::*;
use russh::ChannelMsg;
use crate::ssh::error::SshError;
use crate::bootstrap::provisioner::{lossy_text, utf8_lossy};
use crate::text::{chars_of, string_from_range};

verus! {

/// The messages of the SSH client library's channels.
#[verifier::external_type_specification]
#[verifier::external_body]
pub struct ExChannelMsg(russh::ChannelMsg);

/// What a remote command produced.
#[derive(Debug, Clone, PartialEq, Eq)]
pub struct RemoteCommandResult {
    pub stdout: Vec<u8>,
    pub stderr: Vec<u8>,
    /// Present only if the server reported an exit status.
    pub exit_code: Option<u32>,
}

/// The part of a channel message that a command's result is made of.
#[derive(Debug, Clone, PartialEq, Eq)]
pub enum ChannelEvent {
    /// Bytes on standard output.
    Data(Vec<u8>),
    /// Bytes on an extended stream (standard error).
    ExtendedData(Vec<u8>),
    /// The command's exit status.
    ExitStatus(u32),
    /// Any other message; it does not change the result.
    Other,
}

/// The part of channel message `msg` a command's result is made of: its
/// standard-output bytes, its extended-data bytes, its exit status, or
/// nothing.
pub uninterp spec fn channel_event_of(msg: ChannelMsg) -> ChannelEvent;

/// Tells the channel message's kinds apart, copying out its bytes or status.
#[verifier::external_body]
fn channel_event(msg: &ChannelMsg) -> (r: ChannelEvent)
    ensures
        r == channel_event_of(*msg),
{
    match msg {
        ChannelMsg::Data { data } => ChannelEvent::Data(data.to_vec()),
        ChannelMsg::ExtendedData { data, .. } => ChannelEvent::ExtendedData(data.to_vec()),
        ChannelMsg::ExitStatus { exit_status } => ChannelEvent::ExitStatus(*exit_status),
        _ => ChannelEvent::Other,
    }
}

/// Accumulates a command's standard output, standard error and exit status,
/// refusing either stream past `max_bytes`.
#[derive(Debug)]
pub struct StreamCollector {
    pub stdout: Vec<u8>,
    pub stderr: Vec<u8>,
    pub exit_code: Option<u32>,
    pub max_bytes: usize,
}

/// The collector state `(stdout, stderr, exit code)` after `ev`, or `None`
/// when `ev` would take a stream past `max`.
pub open spec fn collect_spec(
    out: Seq<u8>,
    err: Seq<u8>,
    code: Option<u32>,
    max: nat,
    ev: ChannelEvent,
) -> Option<(Seq<u8>, Seq<u8>, Option<u32>)> {
    match ev {
        ChannelEvent::Data(d) => if out.len() + d@.len() > max {
            None
        } else {
            Some((out + d@, err, code))
        },
        ChannelEvent::ExtendedData(d) => if err.len() + d@.len() > max {
            None
        } else {
            Some((out, err + d@, code))
        },
        ChannelEvent::ExitStatus(s) => Some((out, err, Some(s))),
        ChannelEvent::Other => Some((out, err, code)),
    }
}

fn append_bytes(buf: &mut Vec<u8>, data: &Vec<u8>)
    ensures
        final(buf)@ == old(buf)@ + data@,
{
    let mut i: usize = 0;
    while i < data.len()
        invariant
            i <= data@.len(),
            buf@ == old(buf)@ + data@.take(i as int),
        decreases data@.len() - i,
    {
        buf.push(data[i]);
        assert(data@.take(i + 1) =~= data@.take(i as int).push(data@[i as int]));
        i = i + 1;
    }
    assert(data@.take(data@.len() as int) =~= data@);
}

impl StreamCollector {
    /// The output limit per stream.
    pub closed spec fn limit(&self) -> nat {
        self.max_bytes as nat
    }

    /// An empty collector with limit `max_bytes`.
    pub fn new(max_bytes: usize) -> (r: Self)
        ensures
            r.stdout@.len() == 0,
            r.stderr@.len() == 0,
            r.exit_code is None,
            r.limit() == max_bytes,
    {
        StreamCollector { stdout: Vec::new(), stderr: Vec::new(), exit_code: None, max_bytes }
    }

    /// Take in one event. Bytes that would take their stream past the limit
    /// are refused with `OutputTooLarge` and leave the collector unchanged.
    pub fn push(&mut self, ev: ChannelEvent) -> (r: Result<(), SshError>)
        ensures
            final(self).limit() == old(self).limit(),
            match collect_spec(old(self).stdout@, old(self).stderr@, old(self).exit_code, old(self).limit(), ev) {
                Some((o, e, c)) => r is Ok && final(self).stdout@ == o && final(self).stderr@ == e
                    && final(self).exit_code == c,
                None => r matches Err(SshError::OutputTooLarge) && final(self).stdout@ == old(self).stdout@
                    && final(self).stderr@ == old(self).stderr@ && final(self).exit_code == old(self).exit_code,
            },
    {
        match ev {
            ChannelEvent::Data(d) => {
                if d.len() > self.max_bytes || self.stdout.len() > self.max_bytes - d.len() {
                    return Err(SshError::OutputTooLarge);
                }
                append_bytes(&mut self.stdout, &d);
            },
            ChannelEvent::ExtendedData(d) => {
                if d.len() > self.max_bytes || self.stderr.len() > self.max_bytes - d.len() {
                    return Err(SshError::OutputTooLarge);
                }
                append_bytes(&mut self.stderr, &d);
            },
            ChannelEvent::ExitStatus(s) => {
                self.exit_code = Some(s);
            },
            ChannelEvent::Other => {},
        }
        Ok(())
    }

    /// Take in one channel message: its data, extended data or exit status,
    /// as `push` does for the corresponding event; other messages change
    /// nothing.
    pub fn collect(&mut self, msg: &ChannelMsg) -> (r: Result<(), SshError>)
        ensures
            final(self).limit() == old(self).limit(),
            match collect_spec(
                old(self).stdout@,
                old(self).stderr@,
                old(self).exit_code,
                old(self).limit(),
                channel_event_of(*msg),
            ) {
                Some((o, e, c)) => r is Ok && final(self).stdout@ == o && final(self).stderr@ == e && final(self).exit_code
                    == c,
                None => r matches Err(SshError::OutputTooLarge) && final(self).stdout@ == old(self).stdout@
                    && final(self).stderr@ == old(self).stderr@ && final(self).exit_code == old(self).exit_code,
            },
    {
        self.push(channel_event(msg))
    }

    /// The command's result.
    pub fn finish(self) -> (r: RemoteCommandResult)
        ensures
            r.stdout@ == self.stdout@,
            r.stderr@ == self.stderr@,
            r.exit_code == self.exit_code,
    {
        RemoteCommandResult { stdout: self.stdout, stderr: self.stderr, exit_code: self.exit_code }
    }
}

/// Output never exceeds the limit: a collector that starts within its limit
/// stays within it whatever event it takes in.
pub proof fn collected_output_stays_bounded(
    out: Seq<u8>,
    err: Seq<u8>,
    code: Option<u32>,
    max: nat,
    ev: ChannelEvent,
)
    requires
        out.len() <= max,
        err.len() <= max,
    ensures
        collect_spec(out, err, code, max, ev) matches Some((o, e, c)) ==> o.len() <= max && e.len() <= max,
{
}


/// The position of the first line feed byte in `p` (its length when none).
pub open spec fn newline_byte_pos(p: Seq<u8>) -> nat
    decreases p.len(),
{
    if p.len() == 0 || p[0] == 10u8 {
        0
    } else {
        1 + newline_byte_pos(p.drop_first())
    }
}

/// `s` without its trailing carriage returns and line feeds.
pub open spec fn trim_crlf(s: Seq<char>) -> Seq<char>
    decreases s.len(),
{
    if s.len() > 0 && (s.last() == '\r' || s.last() == '\n') {
        trim_crlf(s.drop_last())
    } else {
        s
    }
}

/// The non-empty complete lines of `p` (decoded, line ends trimmed), and
/// the bytes after its last line feed.
pub open spec fn drain_spec(p: Seq<u8>) -> (Seq<Seq<char>>, Seq<u8>)
    decreases p.len(),
{
    let i = newline_byte_pos(p);
    if i >= p.len() {
        (Seq::<Seq<char>>::empty(), p)
    } else {
        let line = trim_crlf(lossy_text(p.take(i + 1 as int)));
        let rest = drain_spec(p.skip(i + 1 as int));
        (if line.len() > 0 {
            seq![line] + rest.0
        } else {
            rest.0
        }, rest.1)
    }
}

proof fn lemma_newline_byte_pos(p: Seq<u8>, j: int)
    requires
        0 <= j <= p.len(),
        forall|k: int| 0 <= k < j ==> p[k] != 10u8,
    ensures
        newline_byte_pos(p) == j + newline_byte_pos(p.skip(j)),
    decreases j,
{
    if j > 0 {
        lemma_newline_byte_pos(p.drop_first(), j - 1);
        assert(p.drop_first().skip(j - 1) =~= p.skip(j));
    } else {
        assert(p.skip(0) =~= p);
    }
}

fn trim_crlf_exec(s: &str) -> (r: String)
    ensures
        r@ == trim_crlf(s@),
{
    let cs = chars_of(s);
    let mut k = cs.len();
    assert(s@.take(s@.len() as int) =~= s@);
    while k > 0 && (cs[k - 1] == '\r' || cs[k - 1] == '\n')
        invariant
            k <= cs@.len(),
            cs@ == s@,
            trim_crlf(s@) == trim_crlf(s@.take(k as int)),
        decreases k,
    {
        proof {
            assert(s@.take(k as int).drop_last() =~= s@.take(k - 1));
        }
        k = k - 1;
    }
    proof {
        assert(s@.take(s@.len() as int) =~= s@);
    }
    let r = string_from_range(&cs, 0, k);
    assert(cs@.subrange(0, k as int) =~= s@.take(k as int));
    r
}

fn bytes_range(p: &Vec<u8>, from: usize, to: usize) -> (r: Vec<u8>)
    requires
        from <= to <= p@.len(),
    ensures
        r@ == p@.subrange(from as int, to as int),
{
    let mut out: Vec<u8> = Vec::new();
    let mut i = from;
    while i < to
        invariant
            from <= i <= to <= p@.len(),
            out@ == p@.subrange(from as int, i as int),
        decreases to - i,
    {
        out.push(p[i]);
        assert(out@ =~= p@.subrange(from as int, i + 1));
        i = i + 1;
    }
    out
}

/// Take the complete lines out of the pending output: the non-empty ones
/// are returned (decoded, line ends trimmed), in order; the bytes after
/// the last line feed stay pending.
pub fn drain_lines(pending: &mut Vec<u8>) -> (r: Vec<String>)
    ensures
        r@.map_values(|s: String| s@) == drain_spec(old(pending)@).0,
        final(pending)@ == drain_spec(old(pending)@).1,
{
    let mut out: Vec<String> = Vec::new();
    loop
        invariant_except_break
            out@.map_values(|s: String| s@) + drain_spec(pending@).0 == drain_spec(old(pending)@).0,
            drain_spec(pending@).1 == drain_spec(old(pending)@).1,
        ensures
            out@.map_values(|s: String| s@) == drain_spec(old(pending)@).0,
            pending@ == drain_spec(old(pending)@).1,
        decreases pending@.len(),
    {
        let ghost p = pending@;
        let mut j: usize = 0;
        while j < pending.len() && pending[j] != 10u8
            invariant
                j <= pending@.len(),
                pending@ == p,
                forall|k: int| 0 <= k < j ==> p[k] != 10u8,
            decreases pending@.len() - j,
        {
            j = j + 1;
        }
        proof {
            lemma_newline_byte_pos(p, j as int);
            if j < p.len() {
                assert(p.skip(j as int)[0] == 10u8);
            }
            assert(newline_byte_pos(p) == j);
        }
        if j >= pending.len() {
            proof {
                assert(out@.map_values(|s: String| s@) + Seq::<Seq<char>>::empty() =~= out@.map_values(|s: String| s@));
            }
            break;
        }
        let line_bytes = bytes_range(pending, 0, j + 1);
        let text = utf8_lossy(line_bytes.as_slice());
        let line = trim_crlf_exec(text.as_str());
        let rest = bytes_range(pending, j + 1, pending.len());
        proof {
            assert(line_bytes@ =~= p.take(j + 1));
            assert(rest@ =~= p.skip(j + 1));
        }
        let ghost prev = out@;
        if !line.as_str().is_empty() {
            out.push(line);
            proof {
                assert(out@.map_values(|s: String| s@) =~= prev.map_values(|s: String| s@).push(trim_crlf(lossy_text(p.take(j + 1)))));
                assert(out@.map_values(|s: String| s@) + drain_spec(rest@).0 =~= prev.map_values(|s: String| s@) + drain_spec(p).0);
            }
        }
        *pending = rest;
    }
    out
}

/// The last, unterminated line of pending output (decoded, line ends
/// trimmed), when not empty; the pending output is cleared.
pub fn flush_line(pending: &mut Vec<u8>) -> (r: Option<String>)
    ensures
        final(pending)@.len() == 0,
        match r {
            Some(s) => old(pending)@.len() > 0 && s@ == trim_crlf(lossy_text(old(pending)@)) && s@.len() > 0,
            None => old(pending)@.len() == 0 || trim_crlf(lossy_text(old(pending)@)).len() == 0,
        },
{
    if pending.len() == 0 {
        return None;
    }
    let text = utf8_lossy(pending.as_slice());
    let line = trim_crlf_exec(text.as_str());
    *pending = Vec::new();
    if line.as_str().is_empty() {
        None
    } else {
        Some(line)
    }
}

} // verus!
