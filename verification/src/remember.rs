//! Remembered devices. One device is one stable id (the machine id) with a
//! display name and the addresses it was last seen on; legacy entries (from
//! before device ids) carry a single LAN address instead. The list is kept
//! most recently connected first. Passwords never live here: they stay in a
//! secret store, under the account `user@deviceId` (legacy: `user@host`).
//!
//! The store holds the list as its file holds it; reading and writing that
//! file is the application's part.

use vstd::prelude::*;
use crate::device::types::{copy_paths, paths_view, DevicePath};
use crate::text::{concat, copy_opt, opt_view, owned, str_eq, strs_view};

verus! {

/// The secret-store service under which remembered passwords are kept.
pub const SECRET_SERVICE: &'static str = "com.jetsonremote.app.remembered-device";

/// The name of the remembered-device list file.
pub const FILE_NAME: &'static str = "remembered.json";

/// The list format this store writes.
pub const FORMAT_VERSION: u32 = 3;

/// A remembered device's identity. It has no password field by design.
#[derive(Debug, Clone, PartialEq, Eq)]
pub struct RememberedDevice {
    /// The stable id; `None` for legacy entries.
    pub device_id: Option<String>,
    pub username: String,
    /// The name the user gave the device, once named.
    pub display_name: Option<String>,
    /// The addresses the device may be reached on.
    pub paths: Vec<DevicePath>,
    /// The address the last successful connection used.
    pub last_used_path: Option<String>,
}

/// A remembered device with its texts as character sequences.
pub struct DeviceView {
    pub device_id: Option<Seq<char>>,
    pub username: Seq<char>,
    pub display_name: Option<Seq<char>>,
    pub paths: Seq<(Seq<char>, Seq<char>)>,
    pub last_used_path: Option<Seq<char>>,
}

impl View for RememberedDevice {
    type V = DeviceView;

    open spec fn view(&self) -> DeviceView {
        DeviceView {
            device_id: opt_view(self.device_id),
            username: self.username@,
            display_name: opt_view(self.display_name),
            paths: paths_view(self.paths@),
            last_used_path: opt_view(self.last_used_path),
        }
    }
}

/// The secret-store account of a device: `user@deviceId`, or for a legacy
/// entry `user@` followed by its first address (empty when it has none).
pub open spec fn account_text(d: DeviceView) -> Seq<char> {
    match d.device_id {
        Some(id) => d.username + seq!['@'] + id,
        None => d.username + seq!['@'] + (if d.paths.len() > 0 {
            d.paths[0].1
        } else {
            Seq::<char>::empty()
        }),
    }
}

/// Whether one of the device's paths has address `a`.
pub open spec fn has_address(d: DeviceView, a: Seq<char>) -> bool {
    exists|k: int| 0 <= k < d.paths.len() && (#[trigger] d.paths[k]).1 == a
}

/// Whether the device has one of the addresses `hosts`.
pub open spec fn shares_address(d: DeviceView, hosts: Seq<Seq<char>>) -> bool {
    exists|j: int| 0 <= j < hosts.len() && has_address(d, #[trigger] hosts[j])
}

/// Whether `d` is the device named by `device_id`/`username`: with an id,
/// the same id; without, a legacy entry that shares one of `hosts`. The
/// username must match either way.
pub open spec fn same_device_spec(
    d: DeviceView,
    device_id: Option<Seq<char>>,
    username: Seq<char>,
    hosts: Seq<Seq<char>>,
) -> bool {
    &&& d.username == username
    &&& match device_id {
        Some(id) => d.device_id == Some(id),
        None => d.device_id is None && shares_address(d, hosts),
    }
}

/// The text of an optional string slice.
pub open spec fn opt_str(o: Option<&str>) -> Option<Seq<char>> {
    match o {
        Some(s) => Some(s@),
        None => None,
    }
}

impl RememberedDevice {
    /// A copy with the same texts.
    pub fn copy(&self) -> (r: Self)
        ensures
            r@ == self@,
    {
        RememberedDevice {
            device_id: copy_opt(&self.device_id),
            username: owned(self.username.as_str()),
            display_name: copy_opt(&self.display_name),
            paths: copy_paths(&self.paths),
            last_used_path: copy_opt(&self.last_used_path),
        }
    }

    /// The secret-store account for this device: `user@deviceId`; a legacy
    /// entry keeps `user@host` so its stored secret stays reachable.
    pub fn account(&self) -> (r: String)
        ensures
            r@ == account_text(self@),
    {
        let at = "@";
        proof {
            reveal_strlit("@");
        }
        let prefix = concat(self.username.as_str(), at);
        match &self.device_id {
            Some(id) => concat(prefix.as_str(), id.as_str()),
            None => {
                if self.paths.len() > 0 {
                    concat(prefix.as_str(), self.paths[0].address.as_str())
                } else {
                    proof {
                        assert(prefix@ + Seq::<char>::empty() =~= prefix@);
                    }
                    prefix
                }
            },
        }
    }

    /// Every address this device may be reachable on, in order.
    pub fn addresses(&self) -> (r: Vec<&str>)
        ensures
            r@.len() == self.paths@.len(),
            forall|i: int| 0 <= i < r@.len() ==> (#[trigger] r@[i])@ == self.paths@[i].address@,
    {
        let mut out: Vec<&str> = Vec::new();
        let mut i: usize = 0;
        while i < self.paths.len()
            invariant
                i <= self.paths@.len(),
                out@.len() == i,
                forall|j: int| 0 <= j < i ==> (#[trigger] out@[j])@ == self.paths@[j].address@,
            decreases self.paths@.len() - i,
        {
            out.push(self.paths[i].address.as_str());
            i = i + 1;
        }
        out
    }

    /// Whether this entry is a legacy one (no device id).
    pub fn is_legacy(&self) -> (r: bool)
        ensures
            r == (self.device_id is None),
    {
        self.device_id.is_none()
    }

    /// Whether one of this device's paths has address `a`.
    pub fn has_address(&self, a: &str) -> (r: bool)
        ensures
            r == has_address(self@, a@),
    {
        let mut k: usize = 0;
        while k < self.paths.len()
            invariant
                k <= self.paths@.len(),
                forall|j: int| 0 <= j < k ==> (#[trigger] self.paths@[j]).address@ != a@,
            decreases self.paths@.len() - k,
        {
            if str_eq(self.paths[k].address.as_str(), a) {
                assert(self@.paths[k as int].1 == a@);
                return true;
            }
            k = k + 1;
        }
        assert forall|j: int| 0 <= j < self@.paths.len() implies (#[trigger] self@.paths[j]).1 != a@ by {
            assert(self@.paths[j] == self.paths@[j]@);
        }
        false
    }

    /// Whether this device has one of the addresses `hosts`.
    pub fn shares_address(&self, hosts: &[&str]) -> (r: bool)
        ensures
            r == shares_address(self@, strs_view(hosts@)),
    {
        let mut j: usize = 0;
        while j < hosts.len()
            invariant
                j <= hosts@.len(),
                forall|q: int| 0 <= q < j ==> !has_address(self@, #[trigger] strs_view(hosts@)[q]),
            decreases hosts@.len() - j,
        {
            if self.has_address(hosts[j]) {
                assert(has_address(self@, strs_view(hosts@)[j as int]));
                return true;
            }
            j = j + 1;
        }
        false
    }

    /// Whether this is the device named by `device_id` and `username`: with
    /// an id, the same id; without, a legacy entry sharing one of `hosts`.
    pub fn same_device(&self, device_id: Option<&str>, username: &str, hosts: &[&str]) -> (r: bool)
        ensures
            r == same_device_spec(self@, opt_str(device_id), username@, strs_view(hosts@)),
    {
        if !str_eq(self.username.as_str(), username) {
            return false;
        }
        match device_id {
            Some(id) => match &self.device_id {
                Some(mine) => str_eq(mine.as_str(), id),
                None => false,
            },
            None => self.device_id.is_none() && self.shares_address(hosts),
        }
    }
}

/// What remembering, forgetting or resolving a device can fail with.
#[derive(Debug)]
pub enum RememberError {
    /// No stored password is available for the device.
    Missing,
    /// The secret store failed.
    Secret(String),
    /// The device list could not be read or written.
    Io(String),
}

/// The message shown for an error.
pub open spec fn remember_error_text(e: RememberError) -> Seq<char> {
    match e {
        RememberError::Missing => "no stored password is available for this device"@,
        RememberError::Secret(m) => "secure storage error: "@ + m@,
        RememberError::Io(m) => "device memory error: "@ + m@,
    }
}

impl RememberError {
    /// The error's message.
    pub fn message(&self) -> (r: String)
        ensures
            r@ == remember_error_text(*self),
    {
        match self {
            RememberError::Missing => owned("no stored password is available for this device"),
            RememberError::Secret(m) => concat("secure storage error: ", m.as_str()),
            RememberError::Io(m) => concat("device memory error: ", m.as_str()),
        }
    }
}


/// One entry of the device list file: a device and when it last connected
/// (milliseconds since the Unix epoch; 0 when unknown).
#[derive(Debug, Clone)]
pub struct DeviceEntry {
    pub device: RememberedDevice,
    pub last_connected_at: u64,
}

/// An entry as (device, last connected at).
pub type EntryView = (DeviceView, u64);

impl View for DeviceEntry {
    type V = (DeviceView, u64);

    open spec fn view(&self) -> (DeviceView, u64) {
        (self.device@, self.last_connected_at)
    }
}

impl DeviceEntry {
    /// A copy with the same texts.
    pub fn copy(&self) -> (r: Self)
        ensures
            r@ == self@,
    {
        DeviceEntry { device: self.device.copy(), last_connected_at: self.last_connected_at }
    }
}

/// The views of a sequence of entries.
pub open spec fn entries_view(s: Seq<DeviceEntry>) -> Seq<(DeviceView, u64)> {
    s.map_values(|e: DeviceEntry| e@)
}

/// Where an entry stamped `t` goes in a list kept newest first: before the
/// first entry stamped earlier than `t`, so entries with an equal stamp
/// keep their order.
pub open spec fn insert_pos(s: Seq<(DeviceView, u64)>, t: u64) -> nat
    decreases s.len(),
{
    if s.len() == 0 {
        0
    } else if s[0].1 < t {
        0
    } else {
        1 + insert_pos(s.drop_first(), t)
    }
}

/// The entries most recently connected first: a stable sort by descending
/// stamp (entries with equal stamps keep their file order).
pub open spec fn mru(s: Seq<(DeviceView, u64)>) -> Seq<(DeviceView, u64)>
    decreases s.len(),
{
    if s.len() == 0 {
        s
    } else {
        let m = mru(s.drop_last());
        m.insert(insert_pos(m, s.last().1) as int, s.last())
    }
}

/// Whether the stamps of `s` never increase.
pub open spec fn newest_first(s: Seq<(DeviceView, u64)>) -> bool {
    forall|i: int, j: int| 0 <= i < j < s.len() ==> #[trigger] s[i].1 >= #[trigger] s[j].1
}

proof fn lemma_insert_pos_bounds(s: Seq<(DeviceView, u64)>, t: u64)
    ensures
        insert_pos(s, t) <= s.len(),
        forall|k: int| 0 <= k < insert_pos(s, t) ==> s[k].1 >= t,
        insert_pos(s, t) < s.len() ==> s[insert_pos(s, t) as int].1 < t,
    decreases s.len(),
{
    if s.len() > 0 && s[0].1 >= t {
        let r = s.drop_first();
        lemma_insert_pos_bounds(r, t);
        assert forall|k: int| 0 <= k < insert_pos(s, t) implies s[k].1 >= t by {
            if k > 0 {
                assert(s[k] == r[k - 1]);
            }
        }
    }
}

proof fn lemma_insert_pos_skip(s: Seq<(DeviceView, u64)>, t: u64, i: int)
    requires
        0 <= i <= s.len(),
        forall|k: int| 0 <= k < i ==> s[k].1 >= t,
    ensures
        insert_pos(s, t) == i + insert_pos(s.subrange(i, s.len() as int), t),
    decreases i,
{
    if i > 0 {
        let r = s.drop_first();
        assert forall|k: int| 0 <= k < i - 1 implies r[k].1 >= t by {
            assert(r[k] == s[k + 1]);
        }
        lemma_insert_pos_skip(r, t, i - 1);
        assert(r.subrange(i - 1, r.len() as int) =~= s.subrange(i, s.len() as int));
    } else {
        assert(s.subrange(0, s.len() as int) =~= s);
    }
}

/// The list ordering is newest first.
pub proof fn mru_is_newest_first(s: Seq<(DeviceView, u64)>)
    ensures
        newest_first(mru(s)),
        mru(s).len() == s.len(),
    decreases s.len(),
{
    if s.len() > 0 {
        let m = mru(s.drop_last());
        mru_is_newest_first(s.drop_last());
        let t = s.last().1;
        let p = insert_pos(m, t) as int;
        lemma_insert_pos_bounds(m, t);
        m.insert_ensures(p, s.last());
        let r = m.insert(p, s.last());
        assert forall|i: int, j: int| 0 <= i < j < r.len() implies #[trigger] r[i].1 >= #[trigger] r[j].1 by {
            if j < p {
                assert(r[i] == m[i] && r[j] == m[j]);
            } else if j == p {
                assert(r[i] == m[i]);
            } else if i < p {
                assert(r[i] == m[i] && r[j] == m[j - 1]);
            } else if i == p {
                assert(r[j] == m[j - 1]);
                assert(m[p].1 < t);
                assert(m[p].1 >= m[j - 1].1 || j - 1 == p);
            } else {
                assert(r[i] == m[i - 1] && r[j] == m[j - 1]);
            }
        }
    }
}

/// The ordering only reorders: the same entries, each as often.
pub proof fn mru_is_permutation(s: Seq<(DeviceView, u64)>)
    ensures
        mru(s).to_multiset() == s.to_multiset(),
    decreases s.len(),
{
    broadcast use vstd::seq_lib::to_multiset_insert, vstd::seq_lib::to_multiset_build;
    if s.len() > 0 {
        let m = mru(s.drop_last());
        mru_is_permutation(s.drop_last());
        mru_is_newest_first(s.drop_last());
        lemma_insert_pos_bounds(m, s.last().1);
        assert(s.drop_last().push(s.last()) =~= s);
    } else {
        assert(s =~= Seq::<(DeviceView, u64)>::empty());
    }
}

/// Where `t` goes in the newest-first list `out`.
fn find_insert_pos(out: &Vec<DeviceEntry>, t: u64) -> (r: usize)
    ensures
        r == insert_pos(entries_view(out@), t),
        r <= out@.len(),
{
    let ghost v = entries_view(out@);
    proof {
        lemma_insert_pos_bounds(v, t);
    }
    let mut i: usize = 0;
    while i < out.len() && out[i].last_connected_at >= t
        invariant
            v == entries_view(out@),
            i <= out@.len(),
            forall|k: int| 0 <= k < i ==> v[k].1 >= t,
        decreases out@.len() - i,
    {
        i = i + 1;
    }
    proof {
        lemma_insert_pos_skip(v, t, i as int);
        let rest = v.subrange(i as int, v.len() as int);
        if i < out.len() {
            assert(rest[0] == v[i as int]);
        }
    }
    i
}

/// Copies of `entries`, most recently connected first.
pub fn mru_entries(entries: &Vec<DeviceEntry>) -> (r: Vec<DeviceEntry>)
    ensures
        entries_view(r@) == mru(entries_view(entries@)),
{
    let mut out: Vec<DeviceEntry> = Vec::new();
    let mut i: usize = 0;
    while i < entries.len()
        invariant
            i <= entries@.len(),
            entries_view(out@) == mru(entries_view(entries@.take(i as int))),
        decreases entries@.len() - i,
    {
        let e = entries[i].copy();
        let ghost ev = e@;
        let p = find_insert_pos(&out, e.last_connected_at);
        let ghost before = out@;
        proof {
            mru_is_newest_first(entries_view(entries@.take(i as int)));
        }
        out.insert(p, e);
        proof {
            let tk = entries_view(entries@.take(i + 1));
            assert(entries@.take(i + 1).drop_last() =~= entries@.take(i as int));
            assert(tk.drop_last() =~= entries_view(entries@.take(i as int)));
            assert(tk.last() == ev);
            before.insert_ensures(p as int, e);
            entries_view(before).insert_ensures(p as int, ev);
            assert(out@ == before.insert(p as int, e));
            assert forall|k: int| 0 <= k < out@.len() implies #[trigger] entries_view(out@)[k] == entries_view(before).insert(p as int, ev)[k] by {
                if k < p {
                } else if k == p {
                } else {
                    assert(out@[k] == before[k - 1]);
                }
            }
            assert(entries_view(out@) =~= entries_view(before).insert(p as int, ev));
        }
        i = i + 1;
    }
    assert(entries@.take(entries@.len() as int) =~= entries@);
    out
}


/// A legacy list entry (read only): one host per device, no device id.
#[derive(Debug, Clone)]
pub struct DeviceEntryV2 {
    pub host: String,
    pub username: String,
    pub last_connected_at: u64,
}

/// The oldest list format: a single device object.
#[derive(Debug, Clone)]
pub struct DeviceEntryV1 {
    pub host: String,
    pub username: String,
}

/// The entry a legacy device is read as: no id, no name, one LAN path.
pub open spec fn legacy_entry(host: Seq<char>, username: Seq<char>, stamp: u64) -> (DeviceView, u64) {
    (
        DeviceView {
            device_id: None,
            username,
            display_name: None,
            paths: seq![("lan"@, host)],
            last_used_path: None,
        },
        stamp,
    )
}

/// What removing a device did to the list file.
#[derive(Debug, Clone, Copy, PartialEq, Eq, Structural)]
pub enum RemoveOutcome {
    /// Nothing matched; the list is as it was.
    Unchanged,
    /// Nothing is left; the list file goes away.
    Cleared,
    /// The list is to be written back without the removed devices.
    Rewritten,
}

/// The devices of a sequence of entries.
pub open spec fn devices_of(s: Seq<(DeviceView, u64)>) -> Seq<DeviceView> {
    s.map_values(|e: (DeviceView, u64)| e.0)
}

/// The views of a sequence of devices.
pub open spec fn devices_view(v: Seq<RememberedDevice>) -> Seq<DeviceView> {
    v.map_values(|d: RememberedDevice| d@)
}

/// The addresses of a device, in order.
pub open spec fn addresses_of(d: DeviceView) -> Seq<Seq<char>> {
    d.paths.map_values(|p: (Seq<char>, Seq<char>)| p.1)
}

/// Whether an upsert of `dev` keeps entry `e`: it goes when it has the same
/// device id, or when both are legacy and `e` has the same username and one
/// of `dev`'s addresses.
pub open spec fn upsert_keeps(dev: DeviceView, e: (DeviceView, u64)) -> bool {
    &&& !(e.0.device_id is Some && dev.device_id == e.0.device_id)
    &&& !(e.0.device_id is None && dev.device_id is None && e.0.username == dev.username && shares_address(
        e.0,
        addresses_of(dev),
    ))
}

/// Whether a removal by `device_id` / `host` / `username` takes entry `e`:
/// with an id, the entry with that id and any legacy entry of the same user
/// at `host`; without an id, the legacy entry of that user at `host`.
pub open spec fn remove_matches(
    device_id: Option<Seq<char>>,
    host: Option<Seq<char>>,
    username: Seq<char>,
    e: (DeviceView, u64),
) -> bool {
    let legacy_at_host = e.0.device_id is None && e.0.username == username && match host {
        Some(h) => has_address(e.0, h),
        None => false,
    };
    ||| (device_id is Some && e.0.device_id == device_id)
    ||| legacy_at_host
}

/// Whether a legacy entry of `username` shares one of `hosts`.
pub open spec fn merge_candidate(username: Seq<char>, hosts: Seq<Seq<char>>, d: DeviceView) -> bool {
    d.device_id is None && same_device_spec(d, None, username, hosts)
}

proof fn lemma_filter_take_step<A>(s: Seq<A>, p: spec_fn(A) -> bool, i: int)
    requires
        0 <= i < s.len(),
    ensures
        s.take(i + 1).filter(p) == (if p(s[i]) {
            s.take(i).filter(p).push(s[i])
        } else {
            s.take(i).filter(p)
        }),
{
    reveal(Seq::filter);
    assert(s.take(i + 1).drop_last() =~= s.take(i));
}

/// The list after removing a device by identity: unchanged when nothing
/// matches, empty when nothing is left, else the rest newest first.
pub open spec fn remove_spec(
    fe: Seq<(DeviceView, u64)>,
    device_id: Option<Seq<char>>,
    host: Option<Seq<char>>,
    username: Seq<char>,
) -> Seq<(DeviceView, u64)> {
    let kept = mru(fe).filter(|e: (DeviceView, u64)| !remove_matches(device_id, host, username, e));
    if kept.len() == fe.len() {
        fe
    } else {
        kept
    }
}

/// The list after an upsert of `dev` at time `now`.
pub open spec fn upsert_spec(fe: Seq<(DeviceView, u64)>, dev: DeviceView, now: u64) -> Seq<(DeviceView, u64)> {
    seq![(dev, now)] + mru(fe).filter(|e: (DeviceView, u64)| upsert_keeps(dev, e))
}

/// What removing a device does to the list (see `remove`): nothing matches,
/// the list empties, or the rest is rewritten.
pub open spec fn remove_outcome_spec(
    fe: Seq<(DeviceView, u64)>,
    device_id: Option<Seq<char>>,
    host: Option<Seq<char>>,
    username: Seq<char>,
) -> RemoveOutcome {
    let kept = mru(fe).filter(|e: (DeviceView, u64)| !remove_matches(device_id, host, username, e));
    if kept.len() == fe.len() {
        RemoveOutcome::Unchanged
    } else if kept.len() == 0 {
        RemoveOutcome::Cleared
    } else {
        RemoveOutcome::Rewritten
    }
}

/// The remembered devices: the list as its file holds it.
pub struct RememberedDeviceStore {
    entries: Vec<DeviceEntry>,
}

impl RememberedDeviceStore {
    /// The entries in file order.
    pub closed spec fn file_entries(&self) -> Seq<(DeviceView, u64)> {
        entries_view(self.entries@)
    }

    /// An empty list (no file yet).
    pub fn new() -> (r: Self)
        ensures
            r.file_entries() == Seq::<(DeviceView, u64)>::empty(),
    {
        let r = RememberedDeviceStore { entries: Vec::new() };
        assert(r.file_entries() =~= Seq::<(DeviceView, u64)>::empty());
        r
    }

    /// The list read from a file, given the file parsed in each format (a
    /// `None` where it does not parse as that format): the current format
    /// when its version is at least 3; else the legacy list, each device
    /// read as a legacy entry; else the single legacy device, stamped 0;
    /// else (corrupt or missing) nothing.
    pub fn from_parsed(
        v3: Option<(u32, Vec<DeviceEntry>)>,
        v2: Option<Vec<DeviceEntryV2>>,
        v1: Option<DeviceEntryV1>,
    ) -> (r: Self)
        ensures
            match v3 {
                Some((version, devices)) if version >= FORMAT_VERSION => r.file_entries() == entries_view(devices@),
                _ => match v2 {
                    Some(devices) => r.file_entries().len() == devices@.len() && forall|i: int|
                        0 <= i < devices@.len() ==> #[trigger] r.file_entries()[i] == legacy_entry(
                            devices@[i].host@,
                            devices@[i].username@,
                            devices@[i].last_connected_at,
                        ),
                    None => match v1 {
                        Some(d) => r.file_entries() == seq![legacy_entry(d.host@, d.username@, 0)],
                        None => r.file_entries() == Seq::<(DeviceView, u64)>::empty(),
                    },
                },
            },
    {
        match v3 {
            Some((version, devices)) => {
                if version >= FORMAT_VERSION {
                    return RememberedDeviceStore { entries: devices };
                }
            },
            None => {},
        }
        let lan = "lan";
        proof {
            reveal_strlit("lan");
        }
        match v2 {
            Some(devices) => {
                let mut entries: Vec<DeviceEntry> = Vec::new();
                let mut i: usize = 0;
                while i < devices.len()
                    invariant
                        i <= devices@.len(),
                        entries@.len() == i,
                        forall|j: int| 0 <= j < i ==> #[trigger] entries@[j]@ == legacy_entry(
                            devices@[j].host@,
                            devices@[j].username@,
                            devices@[j].last_connected_at,
                        ),
                    decreases devices@.len() - i,
                {
                    let d = &devices[i];
                    let mut paths: Vec<DevicePath> = Vec::new();
                    paths.push(DevicePath::lan(d.host.as_str()));
                    let e = DeviceEntry {
                        device: RememberedDevice {
                            device_id: None,
                            username: owned(d.username.as_str()),
                            display_name: None,
                            paths,
                            last_used_path: None,
                        },
                        last_connected_at: d.last_connected_at,
                    };
                    assert(paths_view(e.device.paths@) =~= seq![("lan"@, d.host@)]);
                    entries.push(e);
                    i = i + 1;
                }
                let r = RememberedDeviceStore { entries };
                assert forall|j: int| 0 <= j < devices@.len() implies #[trigger] r.file_entries()[j] == legacy_entry(
                    devices@[j].host@,
                    devices@[j].username@,
                    devices@[j].last_connected_at,
                ) by {
                    assert(r.file_entries()[j] == entries@[j]@);
                }
                r
            },
            None => match v1 {
                Some(d) => {
                    let mut paths: Vec<DevicePath> = Vec::new();
                    paths.push(DevicePath::lan(d.host.as_str()));
                    let e = DeviceEntry {
                        device: RememberedDevice {
                            device_id: None,
                            username: d.username,
                            display_name: None,
                            paths,
                            last_used_path: None,
                        },
                        last_connected_at: 0,
                    };
                    assert(paths_view(e.device.paths@) =~= seq![("lan"@, d.host@)]);
                    let mut entries: Vec<DeviceEntry> = Vec::new();
                    entries.push(e);
                    let r = RememberedDeviceStore { entries };
                    assert(r.file_entries() =~= seq![legacy_entry(d.host@, d.username@, 0)]);
                    r
                },
                None => RememberedDeviceStore::new(),
            },
        }
    }

    /// The list entries in file order, to write the file from.
    pub fn entries(&self) -> (r: &Vec<DeviceEntry>)
        ensures
            entries_view(r@) == self.file_entries(),
    {
        &self.entries
    }

    /// Every remembered device, most recently connected first (equal stamps
    /// in file order).
    pub fn load_all(&self) -> (r: Vec<RememberedDevice>)
        ensures
            devices_view(r@) == devices_of(mru(self.file_entries())),
    {
        let sorted = mru_entries(&self.entries);
        let mut out: Vec<RememberedDevice> = Vec::new();
        let mut i: usize = 0;
        while i < sorted.len()
            invariant
                i <= sorted@.len(),
                devices_view(out@) == devices_of(entries_view(sorted@.take(i as int))),
            decreases sorted@.len() - i,
        {
            let ghost prev = out@;
            out.push(sorted[i].device.copy());
            assert(devices_view(out@) =~= devices_view(prev).push(sorted@[i as int].device@));
            assert(entries_view(sorted@.take(i + 1)) =~= entries_view(sorted@.take(i as int)).push(sorted@[i as int]@));
            assert(devices_of(entries_view(sorted@.take(i + 1))) =~= devices_of(entries_view(sorted@.take(i as int))).push(sorted@[i as int].device@));
            i = i + 1;
        }
        assert(sorted@.take(sorted@.len() as int) =~= sorted@);
        out
    }

    /// The most recently connected device, if any.
    pub fn load(&self) -> (r: Option<RememberedDevice>)
        ensures
            match r {
                Some(d) => mru(self.file_entries()).len() > 0 && d@ == mru(self.file_entries())[0].0,
                None => self.file_entries().len() == 0,
            },
    {
        proof {
            mru_is_newest_first(self.file_entries());
        }
        let mut all = self.load_all();
        let ghost m = mru(self.file_entries());
        assert(devices_view(all@).len() == all@.len());
        assert(devices_of(m).len() == m.len());
        if all.len() == 0 {
            None
        } else {
            assert(devices_view(all@)[0] == all@[0]@);
            assert(devices_of(m)[0] == m[0].0);
            Some(all.remove(0))
        }
    }

    /// Insert or refresh `device` at time `now_ms`: it goes to the front
    /// with that stamp, replacing its previous entry (same device id; for a
    /// legacy device, the legacy entry of the same user sharing one of its
    /// addresses); every other entry is kept, newest first.
    pub fn upsert(&mut self, device: &RememberedDevice, now_ms: u64)
        ensures
            final(self).file_entries() == seq![(device@, now_ms)] + mru(old(self).file_entries()).filter(
                |e: (DeviceView, u64)| upsert_keeps(device@, e),
            ),
            final(self).file_entries() == upsert_spec(old(self).file_entries(), device@, now_ms),
    {
        let sorted = mru_entries(&self.entries);
        let hosts = device.addresses();
        let ghost dv = device@;
        let ghost pred = |e: (DeviceView, u64)| upsert_keeps(dv, e);
        let ghost sv = entries_view(sorted@);
        proof {
            assert(strs_view(hosts@) =~= addresses_of(dv));
        }
        let mut out: Vec<DeviceEntry> = Vec::new();
        out.push(DeviceEntry { device: device.copy(), last_connected_at: now_ms });
        let mut i: usize = 0;
        while i < sorted.len()
            invariant
                i <= sorted@.len(),
                sv == entries_view(sorted@),
                strs_view(hosts@) == addresses_of(dv),
                dv == device@,
                pred == (|e: (DeviceView, u64)| upsert_keeps(dv, e)),
                entries_view(out@) == seq![(dv, now_ms)] + sv.take(i as int).filter(pred),
            decreases sorted@.len() - i,
        {
            let e = &sorted[i];
            let same_id = match (&e.device.device_id, &device.device_id) {
                (Some(a), Some(b)) => str_eq(a.as_str(), b.as_str()),
                _ => false,
            };
            let same_legacy = e.device.device_id.is_none() && device.device_id.is_none()
                && str_eq(e.device.username.as_str(), device.username.as_str())
                && e.device.shares_address(hosts.as_slice());
            proof {
                lemma_filter_take_step(sv, pred, i as int);
                assert(sv[i as int] == e@);
                assert(same_id == (e@.0.device_id is Some && dv.device_id == e@.0.device_id));
            }
            let ghost prev = out@;
            if !same_id && !same_legacy {
                out.push(e.copy());
                assert(entries_view(out@) =~= entries_view(prev).push(e@));
            }
            i = i + 1;
        }
        assert(sv.take(sv.len() as int) =~= sv);
        self.entries = out;
    }

    /// Remove one device by identity (see `remove_matches`). A removal that
    /// matches nothing leaves the list as it is; one that empties it clears
    /// it; otherwise the rest is kept, newest first.
    pub fn remove(&mut self, device_id: Option<&str>, host: Option<&str>, username: &str) -> (r: RemoveOutcome)
        ensures
            ({
                let kept = mru(old(self).file_entries()).filter(
                    |e: (DeviceView, u64)| !remove_matches(opt_str(device_id), opt_str(host), username@, e),
                );
                if kept.len() == old(self).file_entries().len() {
                    r == RemoveOutcome::Unchanged && final(self).file_entries() == old(self).file_entries()
                } else if kept.len() == 0 {
                    r == RemoveOutcome::Cleared && final(self).file_entries() == Seq::<(DeviceView, u64)>::empty()
                } else {
                    r == RemoveOutcome::Rewritten && final(self).file_entries() == kept
                }
            }),
            final(self).file_entries() == remove_spec(old(self).file_entries(), opt_str(device_id), opt_str(host), username@),
            r == remove_outcome_spec(old(self).file_entries(), opt_str(device_id), opt_str(host), username@),
    {
        let sorted = mru_entries(&self.entries);
        let ghost sv = entries_view(sorted@);
        let ghost pred = |e: (DeviceView, u64)| !remove_matches(opt_str(device_id), opt_str(host), username@, e);
        proof {
            mru_is_newest_first(entries_view(self.entries@));
        }
        let mut out: Vec<DeviceEntry> = Vec::new();
        let mut i: usize = 0;
        while i < sorted.len()
            invariant
                i <= sorted@.len(),
                sv == entries_view(sorted@),
                pred == (|e: (DeviceView, u64)| !remove_matches(opt_str(device_id), opt_str(host), username@, e)),
                entries_view(out@) == sv.take(i as int).filter(pred),
            decreases sorted@.len() - i,
        {
            let e = &sorted[i];
            let matched_id = match (device_id, &e.device.device_id) {
                (Some(id), Some(mine)) => str_eq(mine.as_str(), id),
                _ => false,
            };
            let legacy_at_host = e.device.device_id.is_none() && str_eq(e.device.username.as_str(), username)
                && match host {
                Some(h) => e.device.has_address(h),
                None => false,
            };
            proof {
                lemma_filter_take_step(sv, pred, i as int);
                assert(sv[i as int] == e@);
            }
            let ghost prev = out@;
            if !(matched_id || legacy_at_host) {
                out.push(e.copy());
                assert(entries_view(out@) =~= entries_view(prev).push(e@));
            }
            i = i + 1;
        }
        assert(sv.take(sv.len() as int) =~= sv);
        if out.len() == self.entries.len() {
            RemoveOutcome::Unchanged
        } else if out.len() == 0 {
            self.entries = Vec::new();
            assert(self.file_entries() =~= Seq::<(DeviceView, u64)>::empty());
            RemoveOutcome::Cleared
        } else {
            self.entries = out;
            RemoveOutcome::Rewritten
        }
    }

    /// Forget every device (the list file goes away).
    pub fn clear(&mut self)
        ensures
            final(self).file_entries() == Seq::<(DeviceView, u64)>::empty(),
    {
        self.entries = Vec::new();
        assert(self.file_entries() =~= Seq::<(DeviceView, u64)>::empty());
    }

    /// The legacy entries of `username` that share one of `hosts`, newest
    /// first: the entries whose secrets move to the device-id account on the
    /// device's first connect.
    pub fn legacy_merge_candidates(&self, username: &str, hosts: &[&str]) -> (r: Vec<RememberedDevice>)
        ensures
            devices_view(r@) == devices_of(mru(self.file_entries())).filter(
                |d: DeviceView| merge_candidate(username@, strs_view(hosts@), d),
            ),
    {
        let all = self.load_all();
        let ghost av = devices_view(all@);
        let ghost pred = |d: DeviceView| merge_candidate(username@, strs_view(hosts@), d);
        let mut out: Vec<RememberedDevice> = Vec::new();
        let mut i: usize = 0;
        while i < all.len()
            invariant
                i <= all@.len(),
                av == devices_view(all@),
                pred == (|d: DeviceView| merge_candidate(username@, strs_view(hosts@), d)),
                devices_view(out@) == av.take(i as int).filter(pred),
            decreases all@.len() - i,
        {
            let d = &all[i];
            let keep = d.is_legacy() && d.same_device(None, username, hosts);
            proof {
                lemma_filter_take_step(av, pred, i as int);
                assert(av[i as int] == d@);
            }
            let ghost prev = out@;
            if keep {
                out.push(d.copy());
                assert(devices_view(out@) =~= devices_view(prev).push(d@));
            }
            i = i + 1;
        }
        assert(av.take(av.len() as int) =~= av);
        out
    }
}


/// The error a store operation ended with, `None` when it succeeded.
pub open spec fn failure_of(r: Result<(), RememberError>) -> Option<RememberError> {
    match r {
        Ok(_) => None,
        Err(e) => Some(e),
    }
}

/// Where device passwords are kept, by service and account. Implemented by
/// the application (a private file) and by tests (in memory).
pub trait SecretStore: Send + Sync {
    /// Whether a lookup of `account` under `service` may answer `answer`:
    /// a store may say what its lookups give (one kept elsewhere may answer
    /// differently from one lookup to the next); one that says nothing may
    /// answer anything.
    open spec fn answers(&self, service: Seq<char>, account: Seq<char>, answer: Option<Seq<char>>) -> bool {
        true
    }

    /// The stored secret, or `None` when absent or unreadable.
    fn get(&self, service: &str, account: &str) -> (r: Option<String>)
        ensures
            self.answers(service@, account@, opt_view(r)),
    ;

    /// Whether writing `secret` to `account` under `service` may end with
    /// `failure` (`None` for success); one that says nothing may end
    /// either way.
    open spec fn writes(&self, service: Seq<char>, account: Seq<char>, secret: Seq<char>, failure: Option<RememberError>) -> bool {
        true
    }

    /// Whether deleting `account` under `service` may end with `failure`
    /// (`None` for success); one that says nothing may end either way.
    open spec fn deletes(&self, service: Seq<char>, account: Seq<char>, failure: Option<RememberError>) -> bool {
        true
    }

    /// Store `secret` for the account.
    fn set(&self, service: &str, account: &str, secret: &str) -> (r: Result<(), RememberError>)
        ensures
            self.writes(service@, account@, secret@, failure_of(r)),
    ;

    /// Delete the account's secret.
    fn delete(&self, service: &str, account: &str) -> (r: Result<(), RememberError>)
        ensures
            self.deletes(service@, account@, failure_of(r)),
    ;
}

/// The index of the first device satisfying `p`, if any.
pub open spec fn first_match(devs: Seq<DeviceView>, p: spec_fn(DeviceView) -> bool) -> Option<int>
    decreases devs.len(),
{
    if devs.len() == 0 {
        None
    } else if p(devs[0]) {
        Some(0)
    } else {
        match first_match(devs.drop_first(), p) {
            Some(i) => Some(i + 1),
            None => None,
        }
    }
}

/// The device with id `id` of user `username`.
pub open spec fn by_id(id: Seq<char>, username: Seq<char>) -> spec_fn(DeviceView) -> bool {
    |d: DeviceView| d.device_id == Some(id) && d.username == username
}

/// A device of user `username` with address `host`.
pub open spec fn by_host(host: Seq<char>, username: Seq<char>) -> spec_fn(DeviceView) -> bool {
    |d: DeviceView| d.username == username && has_address(d, host)
}

/// The wire host of a tunnelled connection, which names no device.
pub open spec fn loopback() -> Seq<char> {
    seq!['1', '2', '7', '.', '0', '.', '0', '.', '1']
}

/// The device whose secret a connection uses, given whether the device
/// found by id has a secret: with a (non-empty) id, the device with that id
/// and username when it has a secret, else the first device of that user at
/// `host`; over the loopback host, the only remembered device when it is
/// that user's; otherwise the first device of that user at `host`.
pub open spec fn choose_spec(
    devs: Seq<DeviceView>,
    device_id: Option<Seq<char>>,
    host: Seq<char>,
    username: Seq<char>,
    precise_has_secret: bool,
) -> Option<int> {
    if device_id is Some && device_id->0.len() > 0 {
        match first_match(devs, by_id(device_id->0, username)) {
            Some(i) if precise_has_secret => Some(i),
            _ => first_match(devs, by_host(host, username)),
        }
    } else if host == loopback() {
        if devs.len() == 1 && devs[0].username == username {
            Some(0)
        } else {
            None
        }
    } else {
        first_match(devs, by_host(host, username))
    }
}

proof fn lemma_first_match_skip(devs: Seq<DeviceView>, p: spec_fn(DeviceView) -> bool, i: int)
    requires
        0 <= i <= devs.len(),
        forall|k: int| 0 <= k < i ==> !p(#[trigger] devs[k]),
    ensures
        first_match(devs, p) == (match first_match(devs.subrange(i, devs.len() as int), p) {
            Some(j) => Some(j + i),
            None => None::<int>,
        }),
    decreases i,
{
    if i > 0 {
        let r = devs.drop_first();
        assert forall|k: int| 0 <= k < i - 1 implies !p(#[trigger] r[k]) by {
            assert(r[k] == devs[k + 1]);
        }
        lemma_first_match_skip(r, p, i - 1);
        assert(r.subrange(i - 1, r.len() as int) =~= devs.subrange(i, devs.len() as int));
    } else {
        assert(devs.subrange(0, devs.len() as int) =~= devs);
    }
}

proof fn lemma_first_match_at(devs: Seq<DeviceView>, p: spec_fn(DeviceView) -> bool, i: int)
    requires
        0 <= i < devs.len(),
        forall|k: int| 0 <= k < i ==> !p(#[trigger] devs[k]),
        p(devs[i]),
    ensures
        first_match(devs, p) == Some(i),
{
    lemma_first_match_skip(devs, p, i);
    let rest = devs.subrange(i, devs.len() as int);
    assert(rest[0] == devs[i]);
}

proof fn lemma_first_match_none(devs: Seq<DeviceView>, p: spec_fn(DeviceView) -> bool)
    requires
        forall|k: int| 0 <= k < devs.len() ==> !p(#[trigger] devs[k]),
    ensures
        first_match(devs, p) is None,
{
    lemma_first_match_skip(devs, p, devs.len() as int);
    assert(devs.subrange(devs.len() as int, devs.len() as int).len() == 0);
}

/// The first device with id `id` of user `username`.
fn find_by_id(devices: &Vec<RememberedDevice>, id: &str, username: &str) -> (r: Option<usize>)
    ensures
        match r {
            Some(i) => first_match(devices_view(devices@), by_id(id@, username@)) == Some(i as int),
            None => first_match(devices_view(devices@), by_id(id@, username@)) is None,
        },
{
    let ghost dv = devices_view(devices@);
    let ghost p = by_id(id@, username@);
    let mut i: usize = 0;
    while i < devices.len()
        invariant
            i <= devices@.len(),
            dv == devices_view(devices@),
            p == by_id(id@, username@),
            forall|k: int| 0 <= k < i ==> !p(#[trigger] dv[k]),
        decreases devices@.len() - i,
    {
        let d = &devices[i];
        let hit = match &d.device_id {
            Some(mine) => str_eq(mine.as_str(), id),
            None => false,
        } && str_eq(d.username.as_str(), username);
        assert(dv[i as int] == d@);
        if hit {
            proof {
                lemma_first_match_at(dv, p, i as int);
            }
            return Some(i);
        }
        i = i + 1;
    }
    proof {
        lemma_first_match_none(dv, p);
    }
    None
}

/// The first device of user `username` with address `host`.
fn find_by_host(devices: &Vec<RememberedDevice>, host: &str, username: &str) -> (r: Option<usize>)
    ensures
        match r {
            Some(i) => first_match(devices_view(devices@), by_host(host@, username@)) == Some(i as int),
            None => first_match(devices_view(devices@), by_host(host@, username@)) is None,
        },
{
    let ghost dv = devices_view(devices@);
    let ghost p = by_host(host@, username@);
    let mut i: usize = 0;
    while i < devices.len()
        invariant
            i <= devices@.len(),
            dv == devices_view(devices@),
            p == by_host(host@, username@),
            forall|k: int| 0 <= k < i ==> !p(#[trigger] dv[k]),
        decreases devices@.len() - i,
    {
        let d = &devices[i];
        let hit = str_eq(d.username.as_str(), username) && d.has_address(host);
        assert(dv[i as int] == d@);
        if hit {
            proof {
                lemma_first_match_at(dv, p, i as int);
            }
            return Some(i);
        }
        i = i + 1;
    }
    proof {
        lemma_first_match_none(dv, p);
    }
    None
}

/// The device found by a (non-empty) id, before its secret is consulted.
pub fn precise_device(devices: &Vec<RememberedDevice>, device_id: Option<&str>, username: &str) -> (r: Option<usize>)
    ensures
        match device_id {
            Some(id) if id@.len() > 0 => match r {
                Some(i) => first_match(devices_view(devices@), by_id(id@, username@)) == Some(i as int),
                None => first_match(devices_view(devices@), by_id(id@, username@)) is None,
            },
            _ => r is None,
        },
        r matches Some(i) ==> i < devices@.len(),
{
    proof {
        if device_id is Some {
            lemma_first_match_bounds(devices_view(devices@), by_id(opt_str(device_id)->0, username@));
        }
    }
    match device_id {
        Some(id) => {
            if id.is_empty() {
                None
            } else {
                find_by_id(devices, id, username)
            }
        },
        None => None,
    }
}

/// The device whose secret a connection uses (see `choose_spec`), given
/// whether the device found by id has a secret.
pub fn choose_device(
    devices: &Vec<RememberedDevice>,
    device_id: Option<&str>,
    host: &str,
    username: &str,
    precise_has_secret: bool,
) -> (r: Option<usize>)
    ensures
        match r {
            Some(i) => choose_spec(devices_view(devices@), opt_str(device_id), host@, username@, precise_has_secret)
                == Some(i as int) && i < devices@.len(),
            None => choose_spec(devices_view(devices@), opt_str(device_id), host@, username@, precise_has_secret)
                is None,
        },
        r matches Some(i) ==> devices@[i as int].username@ == username@,
{
    let loop_host = "127.0.0.1";
    proof {
        reveal_strlit("127.0.0.1");
        assert(loop_host@ =~= loopback());
    }
    let has_id = match device_id {
        Some(id) => !id.is_empty(),
        None => false,
    };
    let r = if has_id {
        match precise_device(devices, device_id, username) {
            Some(i) => {
                if precise_has_secret {
                    Some(i)
                } else {
                    find_by_host(devices, host, username)
                }
            },
            None => find_by_host(devices, host, username),
        }
    } else if str_eq(host, loop_host) {
        if devices.len() == 1 && str_eq(devices[0].username.as_str(), username) {
            assert(devices_view(devices@)[0] == devices@[0]@);
            Some(0)
        } else {
            assert(devices@.len() == 1 ==> devices_view(devices@)[0] == devices@[0]@);
            None
        }
    } else {
        find_by_host(devices, host, username)
    };
    proof {
        match r {
            Some(i) => {
                let c = choose_spec(devices_view(devices@), opt_str(device_id), host@, username@, precise_has_secret);
                assert(c == Some(i as int));
                lemma_first_match_bounds(devices_view(devices@), by_id(opt_str(device_id)->0, username@));
                lemma_first_match_bounds(devices_view(devices@), by_host(host@, username@));
                chosen_device_is_the_users(devices_view(devices@), opt_str(device_id), host@, username@, precise_has_secret, i as int);
                assert(devices_view(devices@)[i as int] == devices@[i as int]@);
            },
            None => {},
        }
    }
    r
}

proof fn lemma_first_match_bounds(devs: Seq<DeviceView>, p: spec_fn(DeviceView) -> bool)
    ensures
        first_match(devs, p) matches Some(i) ==> 0 <= i < devs.len(),
    decreases devs.len(),
{
    if devs.len() > 0 {
        lemma_first_match_bounds(devs.drop_first(), p);
    }
}

/// The device found by a (non-empty) id, before its secret is consulted.
pub open spec fn precise_spec(devs: Seq<DeviceView>, device_id: Option<Seq<char>>, username: Seq<char>) -> Option<
    int,
> {
    if device_id is Some && device_id->0.len() > 0 {
        first_match(devs, by_id(device_id->0, username))
    } else {
        None
    }
}

/// The password outcome for a lookup answer: the secret, or `Missing`.
pub open spec fn secret_result(answer: Option<Seq<char>>, r: Result<String, RememberError>) -> bool {
    match answer {
        Some(v) => r matches Ok(s) && s@ == v,
        None => r matches Err(RememberError::Missing),
    }
}

/// How a stored password is resolved, given whether the device found by id
/// has a secret (`precise_has`), what the lookup of that device's account
/// answered (`precise_answer`) and what the lookup of the chosen device's
/// account answered (`chosen_answer`): the lookup of the device found by id
/// decides `precise_has`; no chosen device is `Missing`; otherwise the
/// outcome is the chosen device's secret.
pub open spec fn resolved_from<S: SecretStore>(
    secrets: &S,
    devs: Seq<DeviceView>,
    device_id: Option<Seq<char>>,
    host: Seq<char>,
    username: Seq<char>,
    precise_has: bool,
    precise_answer: Option<Seq<char>>,
    chosen_answer: Option<Seq<char>>,
    r: Result<String, RememberError>,
) -> bool {
    &&& (precise_spec(devs, device_id, username) matches Some(j) ==> secrets.answers(
        SECRET_SERVICE@,
        account_text(devs[j]),
        precise_answer,
    ) && (precise_answer is Some <==> precise_has))
    &&& match choose_spec(devs, device_id, host, username, precise_has) {
        None => r matches Err(RememberError::Missing),
        Some(i) => secrets.answers(SECRET_SERVICE@, account_text(devs[i]), chosen_answer) && secret_result(
            chosen_answer,
            r,
        ),
    }
}

/// The password for a connection. A typed, non-empty password always
/// wins. Otherwise the secret of the device `choose_spec` picks among the
/// remembered devices (newest first), consulting the secret store for the
/// device found by id; no device, or no secret, is `Missing`.
pub fn resolve_password<S: SecretStore>(
    remembered: &RememberedDeviceStore,
    secrets: &S,
    device_id: Option<&str>,
    host: &str,
    username: &str,
    provided: Option<&str>,
) -> (r: Result<String, RememberError>)
    ensures
        match provided {
            Some(p) if p@.len() > 0 => r matches Ok(s) && s@ == p@,
            _ => {
                &&& (r is Err ==> (r matches Err(RememberError::Missing)))
                &&& exists|precise_has: bool, precise_answer: Option<Seq<char>>, chosen_answer: Option<Seq<char>>|
                    #[trigger] resolved_from(
                        secrets,
                        devices_of(mru(remembered.file_entries())),
                        opt_str(device_id),
                        host@,
                        username@,
                        precise_has,
                        precise_answer,
                        chosen_answer,
                        r,
                    )
            },
        },
{
    match provided {
        Some(p) => {
            if !p.is_empty() {
                return Ok(owned(p));
            }
        },
        None => {},
    }
    let devices = remembered.load_all();
    let ghost devs = devices_view(devices@);
    let ghost mut precise_answer: Option<Seq<char>> = None;
    let has_secret = match precise_device(&devices, device_id, username) {
        Some(i) => {
            let account = devices[i].account();
            let found = secrets.get(SECRET_SERVICE, account.as_str());
            proof {
                precise_answer = opt_view(found);
                assert(devs[i as int] == devices@[i as int]@);
            }
            found.is_some()
        },
        None => false,
    };
    match choose_device(&devices, device_id, host, username, has_secret) {
        None => {
            let r = Err(RememberError::Missing);
            assert(resolved_from(secrets, devs, opt_str(device_id), host@, username@, has_secret, precise_answer, None, r));
            r
        },
        Some(i) => {
            let account = devices[i].account();
            let found = secrets.get(SECRET_SERVICE, account.as_str());
            let r = secret_outcome(found);
            proof {
                assert(devs[i as int] == devices@[i as int]@);
                assert(resolved_from(
                    secrets,
                    devs,
                    opt_str(device_id),
                    host@,
                    username@,
                    has_secret,
                    precise_answer,
                    opt_view(found),
                    r,
                ));
            }
            r
        },
    }
}

/// The password for the chosen device's stored secret: the secret itself,
/// or `Missing` when none is stored.
pub fn secret_outcome(stored: Option<String>) -> (r: Result<String, RememberError>)
    ensures
        match stored {
            Some(s) => r matches Ok(p) && p@ == s@,
            None => r matches Err(RememberError::Missing),
        },
{
    match stored {
        Some(secret) => Ok(secret),
        None => Err(RememberError::Missing),
    }
}


proof fn lemma_in_mru(fe: Seq<(DeviceView, u64)>, e: (DeviceView, u64))
    ensures
        fe.contains(e) <==> mru(fe).contains(e),
{
    mru_is_permutation(fe);
    vstd::seq_lib::to_multiset_contains(fe, e);
    vstd::seq_lib::to_multiset_contains(mru(fe), e);
}

proof fn lemma_filter_full<A>(s: Seq<A>, p: spec_fn(A) -> bool)
    requires
        s.filter(p).len() == s.len(),
    ensures
        forall|i: int| 0 <= i < s.len() ==> p(#[trigger] s[i]),
    decreases s.len(),
{
    reveal(Seq::filter);
    if s.len() > 0 {
        s.drop_last().lemma_filter_len(p);
        if !p(s.last()) {
            assert(s.filter(p) == s.drop_last().filter(p));
            assert(false);
        }
        lemma_filter_full(s.drop_last(), p);
        assert forall|i: int| 0 <= i < s.len() implies p(#[trigger] s[i]) by {
            if i < s.len() - 1 {
                assert(s[i] == s.drop_last()[i]);
            }
        }
    }
}

proof fn lemma_filter_all<A>(s: Seq<A>, p: spec_fn(A) -> bool)
    requires
        forall|i: int| 0 <= i < s.len() ==> p(#[trigger] s[i]),
    ensures
        s.filter(p) == s,
    decreases s.len(),
{
    reveal(Seq::filter);
    if s.len() > 0 {
        assert forall|i: int| 0 <= i < s.drop_last().len() implies p(#[trigger] s.drop_last()[i]) by {
            assert(s.drop_last()[i] == s[i]);
        }
        lemma_filter_all(s.drop_last(), p);
        assert(s.drop_last().push(s.last()) =~= s);
    } else {
        assert(s.filter(p) =~= s);
    }
}

/// After an upsert of a device with an id, that device is the first entry
/// and no other entry carries its id (no duplicates).
pub proof fn upsert_leaves_one_entry_per_id(fe: Seq<(DeviceView, u64)>, dev: DeviceView, now: u64)
    requires
        dev.device_id is Some,
    ensures
        upsert_spec(fe, dev, now)[0] == (dev, now),
        forall|i: int| 1 <= i < upsert_spec(fe, dev, now).len() ==> (#[trigger] upsert_spec(fe, dev, now)[i]).0.device_id
            != dev.device_id,
{
    broadcast use vstd::seq_lib::group_filter_ensures;
    let kept = mru(fe).filter(|e: (DeviceView, u64)| upsert_keeps(dev, e));
    let r = upsert_spec(fe, dev, now);
    assert forall|i: int| 1 <= i < r.len() implies (#[trigger] r[i]).0.device_id != dev.device_id by {
        assert(r[i] == kept[i - 1]);
        assert(upsert_keeps(dev, kept[i - 1]));
    }
}

/// An upsert keeps every entry that is not the same device.
pub proof fn upsert_keeps_other_devices(fe: Seq<(DeviceView, u64)>, dev: DeviceView, now: u64, e: (DeviceView, u64))
    requires
        fe.contains(e),
        upsert_keeps(dev, e),
    ensures
        upsert_spec(fe, dev, now).contains(e),
{
    broadcast use vstd::seq_lib::group_filter_ensures;
    lemma_in_mru(fe, e);
    let m = mru(fe);
    let i = choose|i: int| 0 <= i < m.len() && m[i] == e;
    m.lemma_filter_contains(|x: (DeviceView, u64)| upsert_keeps(dev, x), i);
    let kept = m.filter(|x: (DeviceView, u64)| upsert_keeps(dev, x));
    let j = choose|j: int| 0 <= j < kept.len() && kept[j] == e;
    assert(upsert_spec(fe, dev, now)[j + 1] == e);
}

/// After a removal no entry matches what was removed.
pub proof fn removed_device_is_gone(
    fe: Seq<(DeviceView, u64)>,
    device_id: Option<Seq<char>>,
    host: Option<Seq<char>>,
    username: Seq<char>,
)
    ensures
        forall|i: int| 0 <= i < remove_spec(fe, device_id, host, username).len() ==> !remove_matches(
            device_id,
            host,
            username,
            #[trigger] remove_spec(fe, device_id, host, username)[i],
        ),
{
    broadcast use vstd::seq_lib::group_filter_ensures;
    let p = |e: (DeviceView, u64)| !remove_matches(device_id, host, username, e);
    let m = mru(fe);
    let kept = m.filter(p);
    mru_is_newest_first(fe);
    if kept.len() == fe.len() {
        lemma_filter_full(m, p);
        assert forall|i: int| 0 <= i < fe.len() implies !remove_matches(device_id, host, username, #[trigger] fe[i]) by {
            lemma_in_mru(fe, fe[i]);
            let j = choose|j: int| 0 <= j < m.len() && m[j] == fe[i];
            assert(p(m[j]));
        }
    } else {
        assert forall|i: int| 0 <= i < kept.len() implies !remove_matches(device_id, host, username, #[trigger] kept[i]) by {
            assert(p(kept[i]));
        }
    }
}

/// Removing the same device twice changes nothing the second time.
pub proof fn remove_is_idempotent(
    fe: Seq<(DeviceView, u64)>,
    device_id: Option<Seq<char>>,
    host: Option<Seq<char>>,
    username: Seq<char>,
)
    ensures
        remove_spec(remove_spec(fe, device_id, host, username), device_id, host, username) == remove_spec(
            fe,
            device_id,
            host,
            username,
        ),
{
    let f = remove_spec(fe, device_id, host, username);
    removed_device_is_gone(fe, device_id, host, username);
    let p = |e: (DeviceView, u64)| !remove_matches(device_id, host, username, e);
    let m = mru(f);
    mru_is_newest_first(f);
    assert forall|i: int| 0 <= i < m.len() implies p(#[trigger] m[i]) by {
        lemma_in_mru(f, m[i]);
        assert(m.contains(m[i]));
        let j = choose|j: int| 0 <= j < f.len() && f[j] == m[i];
        assert(!remove_matches(device_id, host, username, f[j]));
    }
    lemma_filter_all(m, p);
}

proof fn lemma_filter_from<A>(s: Seq<A>, p: spec_fn(A) -> bool, i: int)
    requires
        0 <= i < s.filter(p).len(),
    ensures
        s.contains(s.filter(p)[i]),
    decreases s.len(),
{
    reveal(Seq::filter);
    if s.len() > 0 {
        let d = s.drop_last();
        if i < d.filter(p).len() {
            lemma_filter_from(d, p, i);
            let j = choose|j: int| 0 <= j < d.len() && d[j] == d.filter(p)[i];
            assert(s[j] == d[j]);
        } else {
            assert(s[s.len() - 1] == s.filter(p)[i]);
        }
    }
}

/// An entry at the head whose stamp is at least every other stamp stays at
/// the head of the newest-first order.
proof fn lemma_newest_head_stays_first(s: Seq<(DeviceView, u64)>)
    requires
        s.len() > 0,
        forall|i: int| 0 <= i < s.len() ==> #[trigger] s[i].1 <= s[0].1,
    ensures
        mru(s).len() > 0,
        mru(s)[0] == s[0],
    decreases s.len(),
{
    mru_is_newest_first(s);
    if s.len() > 1 {
        let d = s.drop_last();
        assert forall|i: int| 0 <= i < d.len() implies #[trigger] d[i].1 <= d[0].1 by {
            assert(d[i] == s[i]);
        }
        lemma_newest_head_stays_first(d);
        let m = mru(d);
        let t = s.last().1;
        assert(s.last() == s[s.len() - 1]);
        assert(m[0].1 >= t);
        let p = insert_pos(m, t) as int;
        assert(p >= 1);
        mru_is_newest_first(d);
        lemma_insert_pos_bounds(m, t);
        m.insert_ensures(p, s.last());
    } else {
        assert(s.drop_last().len() == 0);
        assert(mru(s.drop_last()) =~= Seq::<(DeviceView, u64)>::empty());
    }
}

/// A device upserted at a time no earlier than any other entry's is the
/// first device of the loaded (newest-first) list.
pub proof fn upserted_device_loads_first(fe: Seq<(DeviceView, u64)>, dev: DeviceView, now: u64)
    requires
        forall|i: int| 0 <= i < fe.len() ==> #[trigger] fe[i].1 <= now,
    ensures
        devices_of(mru(upsert_spec(fe, dev, now))).len() > 0,
        devices_of(mru(upsert_spec(fe, dev, now)))[0] == dev,
{
    broadcast use vstd::seq_lib::group_filter_ensures;
    let kept = mru(fe).filter(|e: (DeviceView, u64)| upsert_keeps(dev, e));
    let u = upsert_spec(fe, dev, now);
    assert forall|i: int| 0 <= i < u.len() implies #[trigger] u[i].1 <= u[0].1 by {
        if i > 0 {
            assert(u[i] == kept[i - 1]);
            lemma_filter_from(mru(fe), |e: (DeviceView, u64)| upsert_keeps(dev, e), i - 1);
            assert(mru(fe).contains(kept[i - 1]));
            lemma_in_mru(fe, kept[i - 1]);
            let j = choose|j: int| 0 <= j < fe.len() && fe[j] == kept[i - 1];
            assert(fe[j].1 <= now);
        }
    }
    lemma_newest_head_stays_first(u);
}

/// After a removal no device of the loaded (newest-first) list matches what
/// was removed.
pub proof fn removed_device_does_not_load(
    fe: Seq<(DeviceView, u64)>,
    device_id: Option<Seq<char>>,
    host: Option<Seq<char>>,
    username: Seq<char>,
)
    ensures
        forall|i: int| 0 <= i < mru(remove_spec(fe, device_id, host, username)).len() ==> !remove_matches(
            device_id,
            host,
            username,
            #[trigger] mru(remove_spec(fe, device_id, host, username))[i],
        ),
{
    let f = remove_spec(fe, device_id, host, username);
    removed_device_is_gone(fe, device_id, host, username);
    assert forall|i: int| 0 <= i < mru(f).len() implies !remove_matches(device_id, host, username, #[trigger] mru(f)[i]) by {
        lemma_in_mru(f, mru(f)[i]);
        assert(mru(f).contains(mru(f)[i]));
        let j = choose|j: int| 0 <= j < f.len() && f[j] == mru(f)[i];
    }
}

proof fn lemma_insert_pos_end(s: Seq<(DeviceView, u64)>, t: u64)
    requires
        forall|k: int| 0 <= k < s.len() ==> s[k].1 >= t,
    ensures
        insert_pos(s, t) == s.len(),
{
    lemma_insert_pos_skip(s, t, s.len() as int);
    assert(s.subrange(s.len() as int, s.len() as int).len() == 0);
}

/// Ordering a list that is already newest first leaves it as it is.
pub proof fn mru_keeps_a_sorted_list(s: Seq<(DeviceView, u64)>)
    requires
        newest_first(s),
    ensures
        mru(s) == s,
    decreases s.len(),
{
    if s.len() > 0 {
        let d = s.drop_last();
        assert(newest_first(d)) by {
            assert forall|i: int, j: int| 0 <= i < j < d.len() implies #[trigger] d[i].1 >= #[trigger] d[j].1 by {
                assert(d[i] == s[i] && d[j] == s[j]);
            }
        }
        mru_keeps_a_sorted_list(d);
        let t = s.last().1;
        assert forall|k: int| 0 <= k < d.len() implies d[k].1 >= t by {
            assert(d[k] == s[k]);
            assert(s[k].1 >= s[s.len() - 1].1);
        }
        lemma_insert_pos_end(d, t);
        assert(d.insert(d.len() as int, s.last()) =~= s);
    }
}

proof fn lemma_filter_keeps_order(s: Seq<(DeviceView, u64)>, p: spec_fn((DeviceView, u64)) -> bool)
    requires
        newest_first(s),
    ensures
        newest_first(s.filter(p)),
    decreases s.len(),
{
    reveal(Seq::filter);
    if s.len() > 0 {
        let d = s.drop_last();
        assert(newest_first(d)) by {
            assert forall|i: int, j: int| 0 <= i < j < d.len() implies #[trigger] d[i].1 >= #[trigger] d[j].1 by {
                assert(d[i] == s[i] && d[j] == s[j]);
            }
        }
        lemma_filter_keeps_order(d, p);
        let f = d.filter(p);
        if p(s.last()) {
            let g = f.push(s.last());
            assert(s.filter(p) == g);
            assert forall|i: int, j: int| 0 <= i < j < g.len() implies #[trigger] g[i].1 >= #[trigger] g[j].1 by {
                if j == g.len() - 1 {
                    lemma_filter_from(d, p, i);
                    let k = choose|k: int| 0 <= k < d.len() && d[k] == f[i];
                    assert(s[k] == d[k]);
                    assert(s[k].1 >= s[s.len() - 1].1);
                } else {
                    assert(g[i] == f[i] && g[j] == f[j]);
                }
            }
        } else {
            assert(s.filter(p) == f);
        }
    }
}

/// After an upsert at a time no earlier than any entry's, the loaded
/// (newest-first) list is the device followed by the previously loaded
/// entries that are not the same device, in their order.
pub proof fn upsert_then_load(fe: Seq<(DeviceView, u64)>, dev: DeviceView, now: u64)
    requires
        forall|i: int| 0 <= i < fe.len() ==> #[trigger] fe[i].1 <= now,
    ensures
        mru(upsert_spec(fe, dev, now)) == seq![(dev, now)] + mru(fe).filter(
            |e: (DeviceView, u64)| upsert_keeps(dev, e),
        ),
{
    let p = |e: (DeviceView, u64)| upsert_keeps(dev, e);
    let kept = mru(fe).filter(p);
    let u = upsert_spec(fe, dev, now);
    mru_is_newest_first(fe);
    lemma_filter_keeps_order(mru(fe), p);
    assert forall|i: int, j: int| 0 <= i < j < u.len() implies #[trigger] u[i].1 >= #[trigger] u[j].1 by {
        assert(u[j] == kept[j - 1]);
        lemma_filter_from(mru(fe), p, j - 1);
        lemma_in_mru(fe, kept[j - 1]);
        let k = choose|k: int| 0 <= k < fe.len() && fe[k] == kept[j - 1];
        assert(fe[k].1 <= now);
        if i > 0 {
            assert(u[i] == kept[i - 1]);
        }
    }
    mru_keeps_a_sorted_list(u);
}

/// After a removal, the loaded (newest-first) list is the previously loaded
/// one without the removed entries, in its order.
pub proof fn remove_then_load(
    fe: Seq<(DeviceView, u64)>,
    device_id: Option<Seq<char>>,
    host: Option<Seq<char>>,
    username: Seq<char>,
)
    ensures
        mru(remove_spec(fe, device_id, host, username)) == mru(fe).filter(
            |e: (DeviceView, u64)| !remove_matches(device_id, host, username, e),
        ),
{
    let p = |e: (DeviceView, u64)| !remove_matches(device_id, host, username, e);
    let m = mru(fe);
    let kept = m.filter(p);
    mru_is_newest_first(fe);
    if kept.len() == fe.len() {
        lemma_filter_full(m, p);
        lemma_filter_all(m, p);
    } else {
        lemma_filter_keeps_order(m, p);
        mru_keeps_a_sorted_list(kept);
    }
}

/// Entries with equal stamps keep their file order: restricted to the
/// entries stamped `t`, the ordered list is the file's list.
pub proof fn mru_is_stable(s: Seq<(DeviceView, u64)>, t: u64)
    ensures
        mru(s).filter(|e: (DeviceView, u64)| e.1 == t) == s.filter(|e: (DeviceView, u64)| e.1 == t),
    decreases s.len(),
{
    let q = |e: (DeviceView, u64)| e.1 == t;
    if s.len() > 0 {
        let d = s.drop_last();
        let x = s.last();
        let m = mru(d);
        mru_is_stable(d, t);
        mru_is_newest_first(d);
        lemma_insert_pos_bounds(m, x.1);
        let p = insert_pos(m, x.1) as int;
        let a = m.take(p);
        let b = m.skip(p);
        let one = Seq::<(DeviceView, u64)>::empty().push(x);
        assert(m.insert(p, x) =~= a + one + b);
        assert(m =~= a + b);
        Seq::filter_distributes_over_add(a + one, b, q);
        Seq::filter_distributes_over_add(a, one, q);
        Seq::filter_distributes_over_add(a, b, q);
        d.lemma_filter_push(x, q);
        Seq::<(DeviceView, u64)>::empty().lemma_filter_push(x, q);
        assert(Seq::<(DeviceView, u64)>::empty().filter(q) =~= Seq::<(DeviceView, u64)>::empty()) by {
            reveal(Seq::filter);
        }
        assert(d.push(x) =~= s);
        if x.1 == t {
            assert forall|k: int| 0 <= k < b.len() implies !q(#[trigger] b[k]) by {
                assert(b[k] == m[p + k]);
                if k > 0 {
                    assert(m[p].1 >= m[p + k].1);
                }
            }
            b.lemma_all_neg_filter_empty(q);
            assert(b.filter(q) =~= Seq::<(DeviceView, u64)>::empty());
            assert(m.filter(q) =~= a.filter(q) + b.filter(q));
            assert(mru(s).filter(q) =~= m.filter(q).push(x));
        } else {
            assert(one.filter(q) =~= Seq::<(DeviceView, u64)>::empty());
            assert(mru(s).filter(q) =~= m.filter(q));
        }
    }
}

proof fn lemma_first_match_found(devs: Seq<DeviceView>, p: spec_fn(DeviceView) -> bool)
    ensures
        first_match(devs, p) matches Some(i) ==> 0 <= i < devs.len() && p(devs[i]),
    decreases devs.len(),
{
    if devs.len() > 0 && !p(devs[0]) {
        let r = devs.drop_first();
        lemma_first_match_found(r, p);
        if let Some(j) = first_match(r, p) {
            assert(devs[j + 1] == r[j]);
        }
    }
}

/// The device whose secret a connection uses always belongs to the
/// requested user; it carries the requested device id or has the host
/// among its addresses, and without a device id it has the host among its
/// addresses, unless the host is the loopback one, where it is the one and
/// only remembered device.
pub proof fn chosen_device_is_the_users(
    devs: Seq<DeviceView>,
    device_id: Option<Seq<char>>,
    host: Seq<char>,
    username: Seq<char>,
    precise_has_secret: bool,
    i: int,
)
    requires
        choose_spec(devs, device_id, host, username, precise_has_secret) == Some(i),
    ensures
        0 <= i < devs.len(),
        devs[i].username == username,
        !(device_id is Some && device_id->0.len() > 0) && host == loopback() ==> devs.len() == 1 && i == 0,
        device_id is Some && device_id->0.len() > 0 ==> devs[i].device_id == device_id || has_address(devs[i], host),
        !(device_id is Some && device_id->0.len() > 0) && host != loopback() ==> has_address(devs[i], host),
{
    if device_id is Some {
        lemma_first_match_found(devs, by_id(device_id->0, username));
    }
    lemma_first_match_found(devs, by_host(host, username));
}

} // verus!
