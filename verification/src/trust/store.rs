//! The trust-on-first-use store: the host key trusted for each `host:port`.
//! Non-secret metadata only; it never holds credentials. The table lives in
//! memory; reading and writing its file is the application's part.

use vstd::prelude::*;
use crate::registry::Registry;
use crate::ssh::types::{host_port_key, key_id_text, HostKeyInfo};
use crate::text::owned;

verus! {

/// A trusted host key.
#[derive(Debug, Clone)]
pub struct StoredHost {
    pub algorithm: String,
    pub fingerprint: String,
}

impl View for StoredHost {
    type V = (Seq<char>, Seq<char>);

    open spec fn view(&self) -> (Seq<char>, Seq<char>) {
        (self.algorithm@, self.fingerprint@)
    }
}

impl StoredHost {
    /// A copy with the same texts.
    pub fn copy(&self) -> (r: StoredHost)
        ensures
            r@ == self@,
    {
        StoredHost { algorithm: owned(self.algorithm.as_str()), fingerprint: owned(self.fingerprint.as_str()) }
    }
}

/// The trusted host keys, by `host:port`.
pub struct TrustStoreFile {
    hosts: Registry<StoredHost>,
}

impl TrustStoreFile {
    /// The trusted keys by `host:port` text, as (algorithm, fingerprint).
    pub closed spec fn trusted(&self) -> Map<Seq<char>, (Seq<char>, Seq<char>)> {
        self.hosts.map().map_values(|h: StoredHost| h@)
    }

    /// The store's invariant.
    pub closed spec fn wf(&self) -> bool {
        self.hosts.wf()
    }

    /// A store that trusts nothing (what a missing or unreadable file gives).
    pub fn new() -> (r: Self)
        ensures
            r.wf(),
            r.trusted() == Map::<Seq<char>, (Seq<char>, Seq<char>)>::empty(),
    {
        let r = TrustStoreFile { hosts: Registry::new() };
        assert(r.trusted() =~= Map::<Seq<char>, (Seq<char>, Seq<char>)>::empty());
        r
    }

    proof fn lemma_insert(&self, old_reg: Registry<StoredHost>, k: Seq<char>, h: StoredHost)
        requires
            self.hosts.map() == old_reg.map().insert(k, h),
        ensures
            self.trusted() == old_reg.map().map_values(|x: StoredHost| x@).insert(k, h@),
    {
        assert(self.trusted() =~= old_reg.map().map_values(|x: StoredHost| x@).insert(k, h@));
    }

    /// Trust `algorithm`/`fingerprint` for the entry key `key`, replacing
    /// what was trusted under it before.
    pub fn insert_entry(&mut self, key: &str, host: StoredHost)
        requires
            old(self).wf(),
        ensures
            final(self).wf(),
            final(self).trusted() == old(self).trusted().insert(key@, host@),
    {
        let ghost old_reg = self.hosts;
        let ghost h = host;
        self.hosts.insert(owned(key), host);
        proof {
            self.lemma_insert(old_reg, key@, h);
        }
    }

    /// The key trusted for `host:port`, if any.
    pub fn get(&self, host: &str, port: u16) -> (r: Option<StoredHost>)
        requires
            self.wf(),
        ensures
            r is Some <==> self.trusted().dom().contains(key_id_text(host@, port)),
            r matches Some(h) ==> h@ == self.trusted()[key_id_text(host@, port)],
    {
        let k = host_port_key(host, port);
        match self.hosts.get(k.as_str()) {
            Some(h) => Some(h.copy()),
            None => None,
        }
    }

    /// The fingerprint trusted for `host:port`, if any.
    pub fn get_fingerprint(&self, host: &str, port: u16) -> (r: Option<String>)
        requires
            self.wf(),
        ensures
            r is Some <==> self.trusted().dom().contains(key_id_text(host@, port)),
            r matches Some(f) ==> f@ == self.trusted()[key_id_text(host@, port)].1,
    {
        match self.get(host, port) {
            Some(h) => Some(h.fingerprint),
            None => None,
        }
    }

    /// Trust `key` for its `host:port`, replacing any key trusted there
    /// before (the explicit "replace" flow).
    pub fn save(&mut self, key: &HostKeyInfo)
        requires
            old(self).wf(),
        ensures
            final(self).wf(),
            final(self).trusted() == old(self).trusted().insert(
                key_id_text(key.host@, key.port),
                (key.algorithm@, key.fingerprint@),
            ),
    {
        let k = key.key_id();
        let h = StoredHost { algorithm: owned(key.algorithm.as_str()), fingerprint: owned(key.fingerprint.as_str()) };
        self.insert_entry(k.as_str(), h);
    }

    /// The trusted entries, each as its key text and host key, in the order
    /// they were first trusted.
    pub fn entries(&self) -> (r: Vec<(String, StoredHost)>)
        requires
            self.wf(),
        ensures
            r@.len() == self.trusted().dom().len(),
            forall|i: int| 0 <= i < r@.len() ==> self.trusted().dom().contains((#[trigger] r@[i]).0@)
                && self.trusted()[r@[i].0@] == r@[i].1@,
    {
        proof {
            self.hosts.lemma_keys();
            assert(self.trusted().dom() =~= self.hosts.map().dom());
        }
        let n = self.hosts.len();
        let mut out: Vec<(String, StoredHost)> = Vec::new();
        let mut i: usize = 0;
        while i < n
            invariant
                self.hosts.wf(),
                n == self.hosts.key_seq().len(),
                i <= n,
                out@.len() == i,
                forall|j: int| 0 <= j < i ==> self.trusted().dom().contains((#[trigger] out@[j]).0@)
                    && self.trusted()[out@[j].0@] == out@[j].1@,
            decreases n - i,
        {
            let (k, h) = self.hosts.at(i);
            out.push((owned(k.as_str()), h.copy()));
            i = i + 1;
        }
        out
    }
}

/// What a save stores is what a later lookup of the same `host:port` gives
/// back.
pub proof fn saved_key_is_read_back(
    before: Map<Seq<char>, (Seq<char>, Seq<char>)>,
    host: Seq<char>,
    port: u16,
    algorithm: Seq<char>,
    fingerprint: Seq<char>,
)
    ensures
        before.insert(key_id_text(host, port), (algorithm, fingerprint)).dom().contains(key_id_text(host, port)),
        before.insert(key_id_text(host, port), (algorithm, fingerprint))[key_id_text(host, port)] == (
            algorithm,
            fingerprint,
        ),
{
}


impl TrustStoreFile {
    /// Whether some trusted entry has fingerprint `fingerprint`.
    pub fn contains_fingerprint(&self, fingerprint: &str) -> (r: bool)
        requires
            self.wf(),
        ensures
            r == exists|k: Seq<char>| #[trigger] self.trusted().dom().contains(k) && self.trusted()[k].1 == fingerprint@,
    {
        proof {
            self.hosts.lemma_keys();
        }
        let n = self.hosts.len();
        let mut i: usize = 0;
        while i < n
            invariant
                self.hosts.wf(),
                n == self.hosts.key_seq().len(),
                i <= n,
                forall|j: int| 0 <= j < i ==> self.trusted()[#[trigger] self.hosts.key_seq()[j]].1 != fingerprint@,
            decreases n - i,
        {
            let (k, h) = self.hosts.at(i);
            if crate::text::str_eq(h.fingerprint.as_str(), fingerprint) {
                assert(self.trusted().dom().contains(k@));
                return true;
            }
            i = i + 1;
        }
        proof {
            assert forall|k: Seq<char>| #[trigger] self.trusted().dom().contains(k) implies self.trusted()[k].1 != fingerprint@ by {
                assert(self.hosts.map().dom().contains(k));
                assert(self.hosts.key_seq().contains(k));
                let j = choose|j: int| 0 <= j < self.hosts.key_seq().len() && self.hosts.key_seq()[j] == k;
            }
        }
        false
    }
}

} // verus!
