//! What is kept of a FreeRDP process: its recent output lines, in a bounded
//! buffer, and its observable status. The process itself is the
//! application's part.

use vstd::prelude::*;
use std::collections::VecDeque;
use crate::bootstrap::provisioner::{lossy_text, utf8_lossy};
use crate::rdp::error::RdpError;
use crate::rdp::types::RdpStatus;
use crate::text::{contains, contains_spec, owned, trim, trim_spec};

verus! {

/// The most output lines kept.
pub const MAX_LOG_LINES: usize = 300;

/// The most recent non-blank output lines of a process, oldest first.
pub struct LogBuffer {
    lines: VecDeque<String>,
}

/// The buffer after taking in `line`: blank lines are dropped; at the
/// limit the oldest line goes.
pub open spec fn push_log_spec(kept: Seq<Seq<char>>, line: Seq<char>) -> Seq<Seq<char>> {
    if trim_spec(line).len() == 0 {
        kept
    } else if kept.len() >= MAX_LOG_LINES {
        kept.drop_first().push(line)
    } else {
        kept.push(line)
    }
}

impl LogBuffer {
    /// The kept lines, oldest first.
    pub closed spec fn kept(&self) -> Seq<Seq<char>> {
        self.lines@.map_values(|s: String| s@)
    }

    /// An empty buffer.
    pub fn new() -> (r: Self)
        ensures
            r.kept() == Seq::<Seq<char>>::empty(),
    {
        let r = LogBuffer { lines: VecDeque::new() };
        assert(r.kept() =~= Seq::<Seq<char>>::empty());
        r
    }

    /// Take in one output line.
    pub fn push_log(&mut self, line: String)
        ensures
            final(self).kept() == push_log_spec(old(self).kept(), line@),
    {
        if trim(line.as_str()).as_str().is_empty() {
            return;
        }
        let ghost l = line@;
        if self.lines.len() >= MAX_LOG_LINES {
            let _ = self.lines.pop_front();
        }
        let ghost mid = self.lines@;
        self.lines.push_back(line);
        proof {
            assert(self.kept() =~= mid.map_values(|s: String| s@).push(l));
            if old(self).kept().len() >= MAX_LOG_LINES {
                assert(mid.map_values(|s: String| s@) =~= old(self).kept().drop_first());
            }
        }
    }

    /// Copies of the kept lines, oldest first.
    pub fn logs_snapshot(&self) -> (r: Vec<String>)
        ensures
            r@.map_values(|s: String| s@) == self.kept(),
    {
        let mut out: Vec<String> = Vec::new();
        let mut i: usize = 0;
        while i < self.lines.len()
            invariant
                i <= self.lines@.len(),
                out@.map_values(|s: String| s@) == self.kept().take(i as int),
            decreases self.lines@.len() - i,
        {
            let ghost prev = out@;
            out.push(owned(self.lines[i].as_str()));
            proof {
                assert(out@.map_values(|s: String| s@) =~= prev.map_values(|s: String| s@).push(self.lines@[i as int]@));
                assert(self.kept().take(i + 1) =~= self.kept().take(i as int).push(self.lines@[i as int]@));
            }
            i = i + 1;
        }
        assert(self.kept().take(self.lines@.len() as int) =~= self.kept());
        out
    }
}

/// The buffer never holds more than the limit.
pub proof fn log_buffer_is_bounded(kept: Seq<Seq<char>>, line: Seq<char>)
    requires
        kept.len() <= MAX_LOG_LINES,
    ensures
        push_log_spec(kept, line).len() <= MAX_LOG_LINES,
{
}

/// A process's status from what waiting on it gave: `Some(Some(code))` for
/// an exit with a code, `Some(None)` for an exit by signal, `None` for still
/// running; a failed wait (`Err`) counts as an exit without code.
pub fn status_from_wait(wait: Result<Option<Option<i32>>, ()>) -> (r: RdpStatus)
    ensures
        match wait {
            Ok(None) => r == RdpStatus::Running,
            Ok(Some(code)) => r matches RdpStatus::Exited { exit_code, error } && exit_code == code && error is None,
            Err(()) => r matches RdpStatus::Exited { exit_code, error } && exit_code is None && error is None,
        },
{
    match wait {
        Ok(Some(code)) => RdpStatus::Exited { exit_code: code, error: None },
        Ok(None) => RdpStatus::Running,
        Err(()) => RdpStatus::Exited { exit_code: None, error: None },
    }
}

/// The outcome of asking the FreeRDP binary for its version: it is usable
/// when it ran successfully and reports a 3.x version (its output, read
/// as UTF-8 with replacement, holds `3.`); otherwise the version is
/// unsupported.
pub fn version_check(success: bool, stdout: &[u8]) -> (r: Result<(), RdpError>)
    ensures
        success && contains_spec(lossy_text(stdout@), "3."@) ==> r is Ok,
        !(success && contains_spec(lossy_text(stdout@), "3."@)) ==> r matches Err(RdpError::VersionUnsupported),
{
    if !success {
        return Err(RdpError::VersionUnsupported);
    }
    let text = utf8_lossy(stdout);
    if contains(text.as_str(), "3.") {
        Ok(())
    } else {
        Err(RdpError::VersionUnsupported)
    }
}

} // verus!
