//! Stable identifier newtypes. Every long-running flow carries its own
//! generation so a stale callback can never contaminate a newer attempt.

use vstd::prelude::*;
use crate::text::{owned, concat, decimal, decimal_string};

verus! {

/// One live desktop session, keyed by `username@deviceId` on the frontend.
#[derive(Clone, Debug, PartialEq, Eq, Hash)]
pub struct SessionId(pub String);

/// One provisioning run.
#[derive(Clone, Debug, PartialEq, Eq, Hash)]
pub struct RunId(pub String);

/// One updater transaction.
#[derive(Clone, Debug, PartialEq, Eq, Hash)]
pub struct TransactionId(pub String);

impl SessionId {
    pub fn new(value: &str) -> (r: Self)
        ensures
            r.0@ == value@,
    {
        SessionId(owned(value))
    }

    pub fn as_str(&self) -> (r: &str)
        ensures
            r@ == self.0@,
    {
        self.0.as_str()
    }

    /// The displayed form: the identifier text itself.
    pub fn display_string(&self) -> (r: String)
        ensures
            r@ == self.0@,
    {
        owned(self.0.as_str())
    }
}

impl RunId {
    pub fn new(value: &str) -> (r: Self)
        ensures
            r.0@ == value@,
    {
        RunId(owned(value))
    }

    pub fn as_str(&self) -> (r: &str)
        ensures
            r@ == self.0@,
    {
        self.0.as_str()
    }

    /// The displayed form: the identifier text itself.
    pub fn display_string(&self) -> (r: String)
        ensures
            r@ == self.0@,
    {
        owned(self.0.as_str())
    }
}

impl TransactionId {
    pub fn new(value: &str) -> (r: Self)
        ensures
            r.0@ == value@,
    {
        TransactionId(owned(value))
    }

    pub fn as_str(&self) -> (r: &str)
        ensures
            r@ == self.0@,
    {
        self.0.as_str()
    }

    /// The displayed form: the identifier text itself.
    pub fn display_string(&self) -> (r: String)
        ensures
            r@ == self.0@,
    {
        owned(self.0.as_str())
    }
}

/// One connection attempt; ids issued by one `AttemptSequence` strictly
/// increase.
#[derive(Clone, Copy, Debug, PartialEq, Eq, PartialOrd, Ord, Hash)]
pub struct AttemptId(pub u64);

/// The source of attempt ids: remembers the last id it issued (0 = none).
/// Ids are unique and increasing per sequence only: two sequences (for
/// instance those of two session managers) issue the same ids, so ids from
/// different sequences must not be compared.
#[derive(Debug)]
pub struct AttemptSequence {
    last: u64,
}

impl AttemptSequence {
    /// The last id issued (0 before the first).
    pub closed spec fn issued(&self) -> u64 {
        self.last
    }

    /// A sequence that has issued nothing yet; its first id is 1.
    pub fn new() -> (r: Self)
        ensures
            r.issued() == 0,
    {
        AttemptSequence { last: 0 }
    }
}

impl AttemptId {
    /// Allocate the next attempt id (1-based), strictly above every id the
    /// sequence issued before.
    pub fn next(seq: &mut AttemptSequence) -> (r: Self)
        requires
            old(seq).issued() < u64::MAX,
        ensures
            r.0 == old(seq).issued() + 1,
            final(seq).issued() == r.0,
    {
        seq.last = seq.last + 1;
        AttemptId(seq.last)
    }

    pub fn value(self) -> (r: u64)
        ensures
            r == self.0,
    {
        self.0
    }

    /// The displayed form `a<n>`.
    pub fn display_string(self) -> (r: String)
        ensures
            r@ == "a"@ + decimal(self.0 as nat),
    {
        let n = decimal_string(self.0);
        concat("a", n.as_str())
    }
}

} // verus!
