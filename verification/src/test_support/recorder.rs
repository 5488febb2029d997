//! An ordered log of named events with exact order assertions.

use vstd::prelude::*;
use crate::text::{concat, decimal, decimal_string, owned, str_eq};

verus! {

/// One recorded event: its sequence number (from 1) and name.
#[derive(Debug, Clone, PartialEq, Eq)]
pub struct RecordedEvent {
    pub seq: u64,
    pub name: String,
}

impl RecordedEvent {
    /// The displayed form: `#seq name`.
    pub fn display_string(&self) -> (r: String)
        ensures
            r@ == seq!['#'] + decimal(self.seq as nat) + seq![' '] + self.name@,
    {
        let hash = "#";
        let space = " ";
        proof {
            reveal_strlit("#");
            reveal_strlit(" ");
        }
        let a = concat(hash, decimal_string(self.seq).as_str());
        let b = concat(a.as_str(), space);
        concat(b.as_str(), self.name.as_str())
    }
}

/// The recorded events, in order.
#[derive(Debug)]
pub struct EventRecorder {
    events: Vec<RecordedEvent>,
}

/// Whether `want` occurs in `names` as a subsequence (in order, other
/// names in between allowed).
pub open spec fn subsequence(want: Seq<Seq<char>>, names: Seq<Seq<char>>) -> bool
    decreases names.len(),
{
    if want.len() == 0 {
        true
    } else if names.len() == 0 {
        false
    } else if names[0] == want[0] {
        subsequence(want.drop_first(), names.drop_first())
    } else {
        subsequence(want, names.drop_first())
    }
}

/// How many names of `names` equal `n`.
pub open spec fn occurrences(names: Seq<Seq<char>>, n: Seq<char>) -> nat
    decreases names.len(),
{
    if names.len() == 0 {
        0
    } else {
        occurrences(names.drop_last(), n) + if names.last() == n {
            1nat
        } else {
            0nat
        }
    }
}

impl EventRecorder {
    /// The names recorded, in order.
    pub closed spec fn name_seq(&self) -> Seq<Seq<char>> {
        self.events@.map_values(|e: RecordedEvent| e.name@)
    }

    /// The recorder's invariant: event `i` has sequence number `i + 1`.
    pub closed spec fn wf(&self) -> bool {
        forall|i: int| 0 <= i < self.events@.len() ==> #[trigger] self.events@[i].seq == i + 1
    }

    /// An empty recorder.
    pub fn new() -> (r: Self)
        ensures
            r.wf(),
            r.name_seq() == Seq::<Seq<char>>::empty(),
    {
        let r = EventRecorder { events: Vec::new() };
        assert(r.name_seq() =~= Seq::<Seq<char>>::empty());
        r
    }

    /// Record an event named `name`; it gets the next sequence number.
    pub fn record(&mut self, name: &str) -> (r: RecordedEvent)
        requires
            old(self).wf(),
            old(self).name_seq().len() < u64::MAX,
        ensures
            final(self).wf(),
            final(self).name_seq() == old(self).name_seq().push(name@),
            r.seq == old(self).name_seq().len() + 1,
            r.name@ == name@,
    {
        let seq = self.events.len() as u64 + 1;
        let e = RecordedEvent { seq, name: owned(name) };
        let copy = RecordedEvent { seq, name: owned(name) };
        let ghost before = self.events@;
        self.events.push(e);
        assert(self.name_seq() =~= before.map_values(|e: RecordedEvent| e.name@).push(name@));
        copy
    }

    /// Copies of the events, in recording order.
    pub fn events(&self) -> (r: Vec<RecordedEvent>)
        requires
            self.wf(),
        ensures
            r@.map_values(|e: RecordedEvent| e.name@) == self.name_seq(),
            forall|i: int| 0 <= i < r@.len() ==> #[trigger] r@[i].seq == i + 1,
    {
        let mut out: Vec<RecordedEvent> = Vec::new();
        let mut i: usize = 0;
        while i < self.events.len()
            invariant
                self.wf(),
                i <= self.events@.len(),
                out@.len() == i,
                forall|j: int| 0 <= j < i ==> (#[trigger] out@[j]).seq == self.events@[j].seq && out@[j].name@
                    == self.events@[j].name@,
            decreases self.events@.len() - i,
        {
            let e = &self.events[i];
            out.push(RecordedEvent { seq: e.seq, name: owned(e.name.as_str()) });
            i = i + 1;
        }
        assert(out@.map_values(|e: RecordedEvent| e.name@) =~= self.name_seq());
        out
    }

    /// The names, in recording order.
    pub fn names(&self) -> (r: Vec<String>)
        ensures
            r@.map_values(|s: String| s@) == self.name_seq(),
    {
        let mut out: Vec<String> = Vec::new();
        let mut i: usize = 0;
        while i < self.events.len()
            invariant
                i <= self.events@.len(),
                out@.map_values(|s: String| s@) == self.name_seq().take(i as int),
            decreases self.events@.len() - i,
        {
            let ghost prev = out@;
            out.push(owned(self.events[i].name.as_str()));
            assert(out@.map_values(|s: String| s@) =~= prev.map_values(|s: String| s@).push(self.events@[i as int].name@));
            assert(self.name_seq().take(i + 1) =~= self.name_seq().take(i as int).push(self.events@[i as int].name@));
            i = i + 1;
        }
        assert(self.name_seq().take(self.events@.len() as int) =~= self.name_seq());
        out
    }

    /// Whether the names `expected` were recorded in this relative order,
    /// whatever was recorded in between.
    pub fn contains_in_order(&self, expected: &[&str]) -> (r: bool)
        ensures
            r == subsequence(expected@.map_values(|s: &str| s@), self.name_seq()),
    {
        let ghost want = expected@.map_values(|s: &str| s@);
        let ghost names = self.name_seq();
        let mut cursor: usize = 0;
        let mut k: usize = 0;
        assert(want.skip(0) =~= want);
        assert(names.skip(0) =~= names);
        while k < expected.len()
            invariant
                k <= expected@.len(),
                cursor <= self.events@.len(),
                want == expected@.map_values(|s: &str| s@),
                names == self.name_seq(),
                subsequence(want, names) == subsequence(want.skip(k as int), names.skip(cursor as int)),
            decreases expected@.len() - k,
        {
            let mut j = cursor;
            while j < self.events.len() && !str_eq(self.events[j].name.as_str(), expected[k])
                invariant
                    cursor <= j <= self.events@.len(),
                    k < expected@.len(),
                    want == expected@.map_values(|s: &str| s@),
                    names == self.name_seq(),
                    subsequence(want.skip(k as int), names.skip(cursor as int)) == subsequence(
                        want.skip(k as int),
                        names.skip(j as int),
                    ),
                decreases self.events@.len() - j,
            {
                proof {
                    let w = want.skip(k as int);
                    let ns = names.skip(j as int);
                    assert(ns[0] == self.events@[j as int].name@);
                    assert(w[0] == expected@[k as int]@);
                    assert(ns.drop_first() =~= names.skip(j + 1));
                }
                j = j + 1;
            }
            if j == self.events.len() {
                proof {
                    let w = want.skip(k as int);
                    assert(names.skip(j as int).len() == 0);
                    assert(w.len() > 0);
                }
                return false;
            }
            proof {
                let w = want.skip(k as int);
                let ns = names.skip(j as int);
                assert(ns[0] == self.events@[j as int].name@);
                assert(w[0] == expected@[k as int]@);
                assert(ns.drop_first() =~= names.skip(j + 1));
                assert(w.drop_first() =~= want.skip(k + 1));
            }
            cursor = j + 1;
            k = k + 1;
        }
        proof {
            assert(want.skip(k as int).len() == 0);
            assert(want.skip(0) =~= want);
            assert(names.skip(0) =~= names);
        }
        true
    }

    /// Whether no event named `forbidden` was recorded.
    pub fn never(&self, forbidden: &str) -> (r: bool)
        ensures
            r == !self.name_seq().contains(forbidden@),
    {
        let mut i: usize = 0;
        while i < self.events.len()
            invariant
                i <= self.events@.len(),
                forall|j: int| 0 <= j < i ==> self.name_seq()[j] != forbidden@,
            decreases self.events@.len() - i,
        {
            if str_eq(self.events[i].name.as_str(), forbidden) {
                assert(self.name_seq()[i as int] == forbidden@);
                return false;
            }
            i = i + 1;
        }
        true
    }

    /// How many events named `name` were recorded.
    pub fn count(&self, name: &str) -> (r: usize)
        ensures
            r == occurrences(self.name_seq(), name@),
    {
        let mut n: usize = 0;
        let mut i: usize = 0;
        while i < self.events.len()
            invariant
                i <= self.events@.len(),
                n == occurrences(self.name_seq().take(i as int), name@),
                n <= i,
            decreases self.events@.len() - i,
        {
            proof {
                assert(self.name_seq().take(i + 1).drop_last() =~= self.name_seq().take(i as int));
            }
            if str_eq(self.events[i].name.as_str(), name) {
                n = n + 1;
            }
            i = i + 1;
        }
        assert(self.name_seq().take(self.events@.len() as int) =~= self.name_seq());
        n
    }
}

impl Default for EventRecorder {
    fn default() -> (r: Self)
        ensures
            r.wf(),
            r.name_seq() == Seq::<Seq<char>>::empty(),
    {
        EventRecorder::new()
    }
}

/// The recorded order is total and stable: what was recorded is, in order,
/// a subsequence of the log, and every prefix of the log is too.
pub proof fn recorded_log_contains_itself(names: Seq<Seq<char>>)
    ensures
        subsequence(names, names),
    decreases names.len(),
{
    if names.len() > 0 {
        recorded_log_contains_itself(names.drop_first());
    }
}

/// An event recorded after another is found after it.
pub proof fn later_record_keeps_order(names: Seq<Seq<char>>, want: Seq<Seq<char>>, next: Seq<char>)
    requires
        subsequence(want, names),
    ensures
        subsequence(want, names.push(next)),
        subsequence(want.push(next), names.push(next)),
    decreases names.len(),
{
    if want.len() == 0 {
        if names.len() > 0 {
            later_record_keeps_order(names.drop_first(), want, next);
            assert(names.push(next).drop_first() =~= names.drop_first().push(next));
            assert(names.push(next)[0] == names[0]);
            assert(want.push(next)[0] == next);
            assert(want.push(next).drop_first() =~= want);
        } else {
            assert(want.push(next).drop_first() =~= want);
            assert(names.push(next).drop_first() =~= names);
        }
    } else if names.len() == 0 {
    } else {
        assert(names.push(next).drop_first() =~= names.drop_first().push(next));
        assert(names.push(next)[0] == names[0]);
        assert(want.push(next)[0] == want[0]);
        if names[0] == want[0] {
            later_record_keeps_order(names.drop_first(), want.drop_first(), next);
            assert(want.push(next).drop_first() =~= want.drop_first().push(next));
        } else {
            later_record_keeps_order(names.drop_first(), want, next);
        }
    }
}

} // verus!
