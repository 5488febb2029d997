//! Probing a device's candidate addresses.

use vstd::prelude::*;
use crate::text::{owned, trim_spec, trim};

verus! {

/// One probed address: whether SSH answered, and how fast.
#[derive(Debug, Clone)]
pub struct PathProbeEntry {
    pub address: String,
    pub reachable: bool,
    pub rtt_ms: Option<u64>,
}

/// The texts of a list of strings.
pub open spec fn texts(v: Seq<String>) -> Seq<Seq<char>> {
    v.map_values(|s: String| s@)
}

/// The addresses worth probing: the non-blank ones, in order.
pub fn probe_targets(addresses: &Vec<String>) -> (r: Vec<String>)
    ensures
        texts(r@) == texts(addresses@).filter(|a: Seq<char>| trim_spec(a).len() > 0),
{
    let ghost av = texts(addresses@);
    let ghost p = |a: Seq<char>| trim_spec(a).len() > 0;
    let mut out: Vec<String> = Vec::new();
    let mut i: usize = 0;
    while i < addresses.len()
        invariant
            i <= addresses@.len(),
            av == texts(addresses@),
            p == (|a: Seq<char>| trim_spec(a).len() > 0),
            texts(out@) == av.take(i as int).filter(p),
        decreases addresses@.len() - i,
    {
        let a = &addresses[i];
        let keep = !trim(a.as_str()).as_str().is_empty();
        proof {
            reveal(Seq::filter);
            assert(av.take(i + 1).drop_last() =~= av.take(i as int));
            assert(av[i as int] == a@);
        }
        let ghost prev = out@;
        if keep {
            out.push(owned(a.as_str()));
            assert(texts(out@) =~= texts(prev).push(a@));
        }
        i = i + 1;
    }
    assert(av.take(av.len() as int) =~= av);
    out
}

/// The entry for a probed address: reachable with its round trip, or not.
pub fn path_probe_entry(address: String, connected_rtt_ms: Option<u64>) -> (r: PathProbeEntry)
    ensures
        r.address@ == address@,
        r.reachable == connected_rtt_ms is Some,
        r.rtt_ms == connected_rtt_ms,
{
    PathProbeEntry { address, reachable: connected_rtt_ms.is_some(), rtt_ms: connected_rtt_ms }
}

} // verus!
