//! Remembering and forgetting devices. Passwords cross into this module
//! only to be stored; they are never returned. Legacy entries (one per
//! address, no device id) are folded into the device-id identity on the
//! device's first connect.

use vstd::prelude::*;
use crate::commands::connection::{is_probe_error, probe_error_from_remember, remember_probe_error, ProbeError, ProbeErrorCode};
use crate::device::types::{copy_paths, paths_view, DevicePath};
use crate::remember::{
    account_text, devices_of, devices_view, has_address, merge_candidate, mru, opt_str, remove_outcome_spec, remove_spec, shares_address,
    upsert_spec, DeviceView, RememberError, RemoveOutcome, RememberedDevice, RememberedDeviceStore, SecretStore,
    SECRET_SERVICE,
};
use crate::text::{concat, copy_opt, opt_view, owned, str_eq, strs_view, trim, trim_spec};

verus! {

/// One row of the remembered-device list shown to the user. It has no
/// password field; `has_password` says whether a secret is stored.
#[derive(Debug)]
pub struct RememberedDeviceStatus {
    pub device_id: Option<String>,
    pub username: String,
    pub display_name: Option<String>,
    pub paths: Vec<DevicePath>,
    pub last_used_path: Option<String>,
    pub has_password: bool,
}

/// What the interface sends to remember a device after a successful probe.
#[derive(Debug)]
pub struct RememberDeviceInput {
    pub device_id: Option<String>,
    pub username: String,
    /// `None` keeps the previous name.
    pub display_name: Option<String>,
    /// The device's current addresses; they replace the stored ones.
    pub paths: Vec<DevicePath>,
    /// The address typed this time.
    pub entry_host: Option<String>,
    /// The typed password; empty or `None` keeps the stored one.
    pub password: Option<String>,
}

/// Every remembered device, newest first, with whether a password is
/// stored for it (a missing or unreadable secret reads as none).
pub fn get_remembered_devices<S: SecretStore>(store: &RememberedDeviceStore, secrets: &S) -> (r: Vec<RememberedDeviceStatus>)
    ensures
        r@.len() == mru(store.file_entries()).len(),
        forall|i: int| 0 <= i < r@.len() ==> ({
            let d = devices_of(mru(store.file_entries()))[i];
            &&& opt_view((#[trigger] r@[i]).device_id) == d.device_id
            &&& r@[i].username@ == d.username
            &&& opt_view(r@[i].display_name) == d.display_name
            &&& paths_view(r@[i].paths@) == d.paths
            &&& opt_view(r@[i].last_used_path) == d.last_used_path
            &&& exists|answer: Option<Seq<char>>|
                #![trigger secrets.answers(SECRET_SERVICE@, account_text(d), answer)]
                secrets.answers(SECRET_SERVICE@, account_text(d), answer) && (answer is Some <==> r@[i].has_password)
        }),
{
    let all = store.load_all();
    let ghost av = devices_view(all@);
    let mut out: Vec<RememberedDeviceStatus> = Vec::new();
    let mut i: usize = 0;
    while i < all.len()
        invariant
            i <= all@.len(),
            av == devices_view(all@),
            av == devices_of(mru(store.file_entries())),
            out@.len() == i,
            forall|j: int| 0 <= j < i ==> ({
                let d = av[j];
                &&& opt_view((#[trigger] out@[j]).device_id) == d.device_id
                &&& out@[j].username@ == d.username
                &&& opt_view(out@[j].display_name) == d.display_name
                &&& paths_view(out@[j].paths@) == d.paths
                &&& opt_view(out@[j].last_used_path) == d.last_used_path
                &&& exists|answer: Option<Seq<char>>|
                    #![trigger secrets.answers(SECRET_SERVICE@, account_text(d), answer)]
                    secrets.answers(SECRET_SERVICE@, account_text(d), answer) && (answer is Some
                        <==> out@[j].has_password)
            }),
        decreases all@.len() - i,
    {
        let d = &all[i];
        let account = d.account();
        let found = secrets.get(SECRET_SERVICE, account.as_str());
        let has_password = found.is_some();
        assert(av[i as int] == d@);
        assert(secrets.answers(SECRET_SERVICE@, account_text(av[i as int]), opt_view(found)));
        out.push(RememberedDeviceStatus {
            device_id: copy_opt(&d.device_id),
            username: owned(d.username.as_str()),
            display_name: copy_opt(&d.display_name),
            paths: copy_paths(&d.paths),
            last_used_path: copy_opt(&d.last_used_path),
            has_password,
        });
        i = i + 1;
    }
    proof {
        assert(devices_of(mru(store.file_entries())).len() == mru(store.file_entries()).len());
    }
    out
}

/// An optional text trimmed, empty meaning absent.
pub open spec fn trimmed_nonempty(o: Option<Seq<char>>) -> Option<Seq<char>> {
    match o {
        Some(s) => if trim_spec(s).len() > 0 {
            Some(trim_spec(s))
        } else {
            None
        },
        None => None,
    }
}

fn trimmed_opt(o: &Option<String>) -> (r: Option<String>)
    ensures
        opt_view(r) == trimmed_nonempty(opt_view(*o)),
{
    match o {
        Some(s) => {
            let t = trim(s.as_str());
            if t.as_str().is_empty() {
                None
            } else {
                Some(t)
            }
        },
        None => None,
    }
}

fn trimmed_str(o: Option<&str>) -> (r: Option<String>)
    ensures
        opt_view(r) == trimmed_nonempty(opt_str(o)),
{
    match o {
        Some(s) => {
            let t = trim(s);
            if t.as_str().is_empty() {
                None
            } else {
                Some(t)
            }
        },
        None => None,
    }
}

/// The addresses to remember: the reported ones, plus the typed address
/// (as a LAN path) when it is new.
pub open spec fn plan_paths(paths: Seq<(Seq<char>, Seq<char>)>, entry: Option<Seq<char>>) -> Seq<(Seq<char>, Seq<char>)> {
    match entry {
        Some(e) => if e.len() > 0 && !(exists|k: int| 0 <= k < paths.len() && (#[trigger] paths[k]).1 == e) {
            paths.push(("lan"@, e))
        } else {
            paths
        },
        None => paths,
    }
}

/// The device an input remembers: trimmed id and name (empty meaning
/// absent), the planned paths, and the typed address as last used.
pub open spec fn plan_device(input: RememberDeviceInput) -> DeviceView {
    DeviceView {
        device_id: trimmed_nonempty(opt_view(input.device_id)),
        username: input.username@,
        display_name: trimmed_nonempty(opt_view(input.display_name)),
        paths: plan_paths(paths_view(input.paths@), opt_view(input.entry_host)),
        last_used_path: opt_view(input.entry_host),
    }
}

/// Whether an input names no device: no id and no address.
pub open spec fn plan_fails(input: RememberDeviceInput) -> bool {
    plan_device(input).device_id is None && plan_device(input).paths.len() == 0
}

/// The message when an input names no device.
pub open spec fn no_identity_message() -> Seq<char> {
    "remember_device needs a device id or at least one address"@
}

/// A remembered device to write, and its secret-store account.
pub struct RememberPlan {
    pub device: RememberedDevice,
    pub account: String,
}

/// The device an input remembers and its account; an input that names no
/// device is refused.
pub fn plan_remember(input: &RememberDeviceInput) -> (r: Result<RememberPlan, ProbeError>)
    ensures
        plan_fails(*input) ==> (r matches Err(e) && is_probe_error(e, ProbeErrorCode::Unknown, no_identity_message())),
        !plan_fails(*input) ==> (r matches Ok(p) && p.device@ == plan_device(*input) && p.account@ == account_text(
            plan_device(*input),
        )),
{
    let device_id = trimmed_opt(&input.device_id);
    let display_name = trimmed_opt(&input.display_name);
    let mut paths = copy_paths(&input.paths);
    let ghost pv0 = paths_view(paths@);
    match &input.entry_host {
        Some(entry) => {
            if !entry.as_str().is_empty() {
                let mut found = false;
                let mut k: usize = 0;
                while k < paths.len()
                    invariant
                        k <= paths@.len(),
                        paths_view(paths@) == pv0,
                        found == (exists|j: int| 0 <= j < k && (#[trigger] pv0[j]).1 == entry@),
                    decreases paths@.len() - k,
                {
                    assert(pv0[k as int] == paths@[k as int]@);
                    if str_eq(paths[k].address.as_str(), entry.as_str()) {
                        found = true;
                    }
                    k = k + 1;
                }
                if !found {
                    let lan = DevicePath::lan(entry.as_str());
                    paths.push(lan);
                    proof {
                        reveal_strlit("lan");
                        assert(paths_view(paths@) =~= pv0.push(("lan"@, entry@)));
                    }
                }
            }
        },
        None => {},
    }
    let ghost pv = paths_view(paths@);
    assert(pv == plan_paths(paths_view(input.paths@), opt_view(input.entry_host)));
    let at = "@";
    proof {
        reveal_strlit("@");
    }
    let account = match &device_id {
        Some(id) => {
            let a = concat(input.username.as_str(), at);
            concat(a.as_str(), id.as_str())
        },
        None => {
            if paths.len() == 0 {
                return Err(
                    ProbeError::new(ProbeErrorCode::Unknown, "remember_device needs a device id or at least one address"),
                );
            }
            assert(pv[0] == paths@[0]@);
            let a = concat(input.username.as_str(), at);
            concat(a.as_str(), paths[0].address.as_str())
        },
    };
    let device = RememberedDevice {
        device_id,
        username: owned(input.username.as_str()),
        display_name,
        paths,
        last_used_path: copy_opt(&input.entry_host),
    };
    Ok(RememberPlan { device, account })
}

/// The first address of a device, if any.
pub open spec fn first_address(d: DeviceView) -> Option<Seq<char>> {
    if d.paths.len() > 0 {
        Some(d.paths[0].1)
    } else {
        None
    }
}

/// The list after removing each merge candidate (by its first address, as
/// a legacy entry of `username`), in order.
pub open spec fn after_merge(fe: Seq<(DeviceView, u64)>, cands: Seq<DeviceView>, username: Seq<char>) -> Seq<(DeviceView, u64)>
    decreases cands.len(),
{
    if cands.len() == 0 {
        fe
    } else {
        after_merge(remove_spec(fe, None, first_address(cands[0]), username), cands.drop_first(), username)
    }
}

/// The legacy entries an input folds in: those of its user sharing one of
/// its planned addresses, newest first.
pub open spec fn merge_candidates_of(fe: Seq<(DeviceView, u64)>, input: RememberDeviceInput) -> Seq<DeviceView> {
    devices_of(mru(fe)).filter(
        |d: DeviceView| merge_candidate(input.username@, plan_device(input).paths.map_values(|p: (Seq<char>, Seq<char>)| p.1), d),
    )
}

/// The first address of a device.
fn first_address_of(d: &RememberedDevice) -> (r: Option<&str>)
    ensures
        opt_str(r) == first_address(d@),
{
    if d.paths.len() > 0 {
        assert(d@.paths[0] == d.paths@[0]@);
        Some(d.paths[0].address.as_str())
    } else {
        None
    }
}

/// Folding in candidates `a` then `b` is folding in `a + b`.
proof fn lemma_after_merge_split(fe: Seq<(DeviceView, u64)>, a: Seq<DeviceView>, b: Seq<DeviceView>, username: Seq<char>)
    ensures
        after_merge(fe, a + b, username) == after_merge(after_merge(fe, a, username), b, username),
    decreases a.len(),
{
    if a.len() == 0 {
        assert(a + b =~= b);
    } else {
        assert((a + b).drop_first() =~= a.drop_first() + b);
        assert((a + b)[0] == a[0]);
        lemma_after_merge_split(remove_spec(fe, None, first_address(a[0]), username), a.drop_first(), b, username);
    }
}

/// No secret-store failure reads as the refusal of an input that names no
/// device.
proof fn lemma_store_error_is_not_refusal(r: ProbeError, e: RememberError)
    requires
        remember_probe_error(r, e),
    ensures
        !is_probe_error(r, ProbeErrorCode::Unknown, no_identity_message()),
{
    reveal_strlit("remember_device needs a device id or at least one address");
    reveal_strlit("secure storage error: ");
    reveal_strlit("device memory error: ");
    match e {
        RememberError::Missing => {},
        RememberError::Secret(m) => {
            assert(r.message@[0] == 's');
        },
        RememberError::Io(m) => {
            assert(r.message@[0] == 'd');
        },
    }
}

/// What folding in legacy device `legacy` did to the secrets of a device
/// with account `account`: the legacy secret, when a lookup found one, was
/// copied to `account` when a lookup there found none; then the legacy
/// secret was deleted.
pub open spec fn folded_secret<S: SecretStore>(secrets: &S, legacy: DeviceView, account: Seq<char>) -> bool {
    &&& exists|found: Option<Seq<char>>|
        #[trigger] secrets.answers(SECRET_SERVICE@, account_text(legacy), found) && (found matches Some(v)
            ==> exists|there: Option<Seq<char>>|
            #[trigger] secrets.answers(SECRET_SERVICE@, account, there) && (there is None ==> secrets.writes(
                SECRET_SERVICE@,
                account,
                v,
                None,
            )))
    &&& secrets.deletes(SECRET_SERVICE@, account_text(legacy), None)
}

/// Whether `e` is a failure a write or a delete of the secret store may
/// end with.
pub open spec fn store_failure<S: SecretStore>(secrets: &S, e: RememberError) -> bool {
    ||| exists|account: Seq<char>, secret: Seq<char>| #[trigger] secrets.writes(SECRET_SERVICE@, account, secret, Some(e))
    ||| exists|account: Seq<char>| #[trigger] secrets.deletes(SECRET_SERVICE@, account, Some(e))
}

/// Remember a device after a successful probe, at time `now_ms`:
/// 1. fold in its legacy entries: copy each one's secret to the device's
///    account when that has none, then delete the legacy secret and entry;
/// 2. store the typed password, if any (before the list, so a crash leaves
///    an orphan secret rather than a device without its secret);
/// 3. upsert the device at the front of the list.
/// Any secret-store failure ends the flow with its error.
pub fn remember_device<S: SecretStore>(
    store: &mut RememberedDeviceStore,
    secrets: &S,
    input: RememberDeviceInput,
    now_ms: u64,
) -> (r: Result<(), ProbeError>)
    ensures
        plan_fails(input) ==> ((r matches Err(e) && is_probe_error(e, ProbeErrorCode::Unknown, no_identity_message()))
            && final(store).file_entries() == old(store).file_entries()),
        plan_fails(input) <==> (r matches Err(e) && is_probe_error(e, ProbeErrorCode::Unknown, no_identity_message())),
        !plan_fails(input) && merge_candidates_of(old(store).file_entries(), input).len() == 0 && (match input.password {
            Some(p) => p@.len() == 0,
            None => true,
        }) ==> r is Ok,
        !plan_fails(input) && r is Err ==> (r matches Err(e) && exists|re: RememberError|
            remember_probe_error(e, re) && #[trigger] store_failure(secrets, re)),
        !plan_fails(input) && r is Err ==> exists|k: int|
            0 <= k <= merge_candidates_of(old(store).file_entries(), input).len() && final(store).file_entries()
                == after_merge(
                old(store).file_entries(),
                merge_candidates_of(old(store).file_entries(), input).take(k),
                input.username@,
            ),
        r is Ok ==> forall|k: int|
            0 <= k < merge_candidates_of(old(store).file_entries(), input).len() ==> folded_secret(
                secrets,
                #[trigger] merge_candidates_of(old(store).file_entries(), input)[k],
                account_text(plan_device(input)),
            ),
        r is Ok ==> (match input.password {
            Some(p) => p@.len() > 0 ==> secrets.writes(SECRET_SERVICE@, account_text(plan_device(input)), p@, None),
            None => true,
        }),
        r is Ok ==> final(store).file_entries() == upsert_spec(
            after_merge(old(store).file_entries(), merge_candidates_of(old(store).file_entries(), input), input.username@),
            plan_device(input),
            now_ms,
        ),
{
    let plan = match plan_remember(&input) {
        Ok(p) => p,
        Err(e) => {
            return Err(e);
        },
    };
    assert(!plan_fails(input));
    let ghost fe0 = store.file_entries();
    let hosts = plan.device.addresses();
    proof {
        assert(strs_view(hosts@) =~= plan_device(input).paths.map_values(|p: (Seq<char>, Seq<char>)| p.1));
    }
    let candidates = store.legacy_merge_candidates(input.username.as_str(), hosts.as_slice());
    let ghost cands = devices_view(candidates@);
    assert(cands == merge_candidates_of(fe0, input));
    assert(cands.skip(0) =~= cands);
    let mut i: usize = 0;
    while i < candidates.len()
        invariant
            i <= candidates@.len(),
            !plan_fails(input),
            cands == devices_view(candidates@),
            after_merge(fe0, cands, input.username@) == after_merge(
                store.file_entries(),
                cands.skip(i as int),
                input.username@,
            ),
            store.file_entries() == after_merge(fe0, cands.take(i as int), input.username@),
            fe0 == old(store).file_entries(),
            cands == merge_candidates_of(fe0, input),
            plan.account@ == account_text(plan_device(input)),
            forall|j: int| 0 <= j < i ==> folded_secret(secrets, #[trigger] cands[j], plan.account@),
        decreases candidates@.len() - i,
    {
        let legacy = &candidates[i];
        let legacy_account = legacy.account();
        let found = secrets.get(SECRET_SERVICE, legacy_account.as_str());
        let ghost mut there_seen: Option<Seq<char>> = None;
        match &found {
            Some(old_secret) => {
                let there = secrets.get(SECRET_SERVICE, plan.account.as_str());
                proof {
                    there_seen = opt_view(there);
                }
                if there.is_none() {
                    match secrets.set(SECRET_SERVICE, plan.account.as_str(), old_secret.as_str()) {
                        Ok(()) => {},
                        Err(e) => {
                            let ghost ge = e;
                            let pe = probe_error_from_remember(e);
                            proof {
                                lemma_store_error_is_not_refusal(pe, ge);
                                assert(secrets.writes(SECRET_SERVICE@, plan.account@, old_secret@, Some(ge)));
                                assert(store_failure(secrets, ge));
                            }
                            return Err(pe);
                        },
                    }
                }
                assert(there_seen is None ==> secrets.writes(SECRET_SERVICE@, plan.account@, old_secret@, None));
            },
            None => {},
        }
        assert(found is Some ==> secrets.answers(SECRET_SERVICE@, plan.account@, there_seen) && (there_seen is None
            ==> secrets.writes(SECRET_SERVICE@, plan.account@, found->0@, None)));
        match secrets.delete(SECRET_SERVICE, legacy_account.as_str()) {
            Ok(()) => {},
            Err(e) => {
                let ghost ge = e;
                let pe = probe_error_from_remember(e);
                proof {
                    lemma_store_error_is_not_refusal(pe, ge);
                    assert(secrets.deletes(SECRET_SERVICE@, legacy_account@, Some(ge)));
                    assert(store_failure(secrets, ge));
                }
                return Err(pe);
            },
        }
        proof {
            assert(cands[i as int] == legacy@) by {
                assert(cands[i as int] == candidates@[i as int]@);
            }
            assert(secrets.answers(SECRET_SERVICE@, account_text(legacy@), opt_view(found)));
            assert(folded_secret(secrets, cands[i as int], plan.account@));
        }
        let ghost before = store.file_entries();
        let _ = store.remove(None, first_address_of(legacy), input.username.as_str());
        proof {
            let rest = cands.skip(i as int);
            assert(rest[0] == legacy@);
            assert(rest.drop_first() =~= cands.skip(i + 1));
            assert(cands[i as int] == candidates@[i as int]@);
            assert(cands.take(i + 1) =~= cands.take(i as int) + seq![cands[i as int]]);
            lemma_after_merge_split(fe0, cands.take(i as int), seq![cands[i as int]], input.username@);
            let one = seq![cands[i as int]];
            assert(one.drop_first() =~= Seq::<DeviceView>::empty());
            assert(one[0] == cands[i as int]);
            let x = after_merge(fe0, cands.take(i as int), input.username@);
            let y = remove_spec(x, None, first_address(cands[i as int]), input.username@);
            assert(after_merge(y, Seq::<DeviceView>::empty(), input.username@) == y);
            assert(after_merge(x, one, input.username@) == y);
            assert(store.file_entries() == y);
        }
        i = i + 1;
    }
    proof {
        assert(cands.skip(candidates@.len() as int).len() == 0);
    }
    match &input.password {
        Some(pw) => {
            if !pw.as_str().is_empty() {
                match secrets.set(SECRET_SERVICE, plan.account.as_str(), pw.as_str()) {
                    Ok(()) => {},
                    Err(e) => {
                        let ghost ge = e;
                        let pe = probe_error_from_remember(e);
                        proof {
                            lemma_store_error_is_not_refusal(pe, ge);
                            assert(secrets.writes(SECRET_SERVICE@, plan.account@, pw@, Some(ge)));
                            assert(store_failure(secrets, ge));
                            assert(cands.take(cands.len() as int) =~= cands);
                        }
                        return Err(pe);
                    },
                }
            }
        },
        None => {},
    }
    store.upsert(&plan.device, now_ms);
    Ok(())
}

/// Whether forgetting by `device_id` / `host` / `username` takes device
/// `d`'s secret: same username, and either the same id, or a legacy entry
/// at `host`.
pub open spec fn forget_takes(device_id: Option<Seq<char>>, host: Option<Seq<char>>, username: Seq<char>, d: DeviceView) -> bool {
    &&& d.username == username
    &&& ((device_id is Some && d.device_id == device_id) || (d.device_id is None && host is Some && has_address(
        d,
        host->0,
    )))
}

/// The secret-store accounts a forget removes: those of the devices it
/// takes; when none, the account derived from the id (else the host).
pub open spec fn forget_accounts_spec(
    devs: Seq<DeviceView>,
    device_id: Option<Seq<char>>,
    host: Option<Seq<char>>,
    username: Seq<char>,
) -> Seq<Seq<char>> {
    let taken = devs.filter(|d: DeviceView| forget_takes(device_id, host, username, d)).map_values(
        |d: DeviceView| account_text(d),
    );
    if taken.len() > 0 {
        taken
    } else {
        match device_id {
            Some(id) => seq![username + seq!['@'] + id],
            None => match host {
                Some(h) => seq![username + seq!['@'] + h],
                None => Seq::<Seq<char>>::empty(),
            },
        }
    }
}

proof fn lemma_filter_map_step(s: Seq<DeviceView>, p: spec_fn(DeviceView) -> bool, i: int)
    requires
        0 <= i < s.len(),
    ensures
        s.take(i + 1).filter(p).map_values(|d: DeviceView| account_text(d)) == (if p(s[i]) {
            s.take(i).filter(p).map_values(|d: DeviceView| account_text(d)).push(account_text(s[i]))
        } else {
            s.take(i).filter(p).map_values(|d: DeviceView| account_text(d))
        }),
{
    reveal(Seq::filter);
    assert(s.take(i + 1).drop_last() =~= s.take(i));
    if p(s[i]) {
        assert(s.take(i + 1).filter(p) == s.take(i).filter(p).push(s[i]));
        assert(s.take(i + 1).filter(p).map_values(|d: DeviceView| account_text(d)) =~= s.take(i).filter(p).map_values(
            |d: DeviceView| account_text(d),
        ).push(account_text(s[i])));
    }
}

/// The accounts a forget removes (see `forget_accounts_spec`).
pub fn forget_accounts(
    devices: &Vec<RememberedDevice>,
    device_id: Option<&str>,
    host: Option<&str>,
    username: &str,
) -> (r: Vec<String>)
    ensures
        r@.map_values(|s: String| s@) == forget_accounts_spec(devices_view(devices@), opt_str(device_id), opt_str(host), username@),
{
    let ghost dv = devices_view(devices@);
    let ghost p = |d: DeviceView| forget_takes(opt_str(device_id), opt_str(host), username@, d);
    let mut out: Vec<String> = Vec::new();
    let mut i: usize = 0;
    while i < devices.len()
        invariant
            i <= devices@.len(),
            dv == devices_view(devices@),
            p == (|d: DeviceView| forget_takes(opt_str(device_id), opt_str(host), username@, d)),
            out@.map_values(|s: String| s@) == dv.take(i as int).filter(p).map_values(|d: DeviceView| account_text(d)),
        decreases devices@.len() - i,
    {
        let d = &devices[i];
        let same_id = match (device_id, &d.device_id) {
            (Some(id), Some(mine)) => str_eq(mine.as_str(), id),
            _ => false,
        };
        let legacy_at_host = d.device_id.is_none() && match host {
            Some(h) => d.has_address(h),
            None => false,
        };
        let takes = str_eq(d.username.as_str(), username) && (same_id || legacy_at_host);
        proof {
            assert(dv[i as int] == d@);
            lemma_filter_map_step(dv, p, i as int);
        }
        let ghost prev = out@;
        if takes {
            out.push(d.account());
            assert(out@.map_values(|s: String| s@) =~= prev.map_values(|s: String| s@).push(account_text(d@)));
        }
        i = i + 1;
    }
    assert(dv.take(dv.len() as int) =~= dv);
    if out.len() == 0 {
        assert(out@ =~= Seq::<String>::empty());
        let at = "@";
        proof {
            reveal_strlit("@");
            assert(at@ =~= seq!['@']);
        }
        match device_id {
            Some(id) => {
                let a = concat(username, at);
                let acc = concat(a.as_str(), id);
                assert(acc@ =~= username@ + seq!['@'] + id@);
                out.push(acc);
                assert(out@.map_values(|s: String| s@) =~= seq![username@ + seq!['@'] + id@]);
            },
            None => match host {
                Some(h) => {
                    let a = concat(username, at);
                    let acc = concat(a.as_str(), h);
                    assert(acc@ =~= username@ + seq!['@'] + h@);
                    out.push(acc);
                    assert(out@.map_values(|s: String| s@) =~= seq![username@ + seq!['@'] + h@]);
                },
                None => {},
            },
        }
    }
    out
}

/// With neither an id nor a host, a forget takes no secret.
proof fn lemma_forget_nothing(devs: Seq<DeviceView>, username: Seq<char>)
    ensures
        forget_accounts_spec(devs, None, None, username).len() == 0,
    decreases devs.len(),
{
    let p = |d: DeviceView| forget_takes(None, None, username, d);
    reveal(Seq::filter);
    if devs.len() > 0 {
        lemma_forget_nothing(devs.drop_last(), username);
        assert(devs.filter(p) == devs.drop_last().filter(p));
    }
    assert(devs.filter(p).len() == 0);
}

/// Forget one device by identity (id and host trimmed, empty meaning
/// absent): delete the secrets of `forget_accounts`, then remove its list
/// entries. Gives what the removal did to the list; a secret-store failure
/// ends the flow with its error. With no secret to delete (neither an id
/// nor a host) it cannot fail.
pub fn forget_remembered_device<S: SecretStore>(
    store: &mut RememberedDeviceStore,
    secrets: &S,
    device_id: Option<&str>,
    host: Option<&str>,
    username: &str,
) -> (r: Result<RemoveOutcome, ProbeError>)
    ensures
        forget_accounts_spec(
            devices_of(mru(old(store).file_entries())),
            trimmed_nonempty(opt_str(device_id)),
            trimmed_nonempty(opt_str(host)),
            username@,
        ).len() == 0 ==> r is Ok,
        trimmed_nonempty(opt_str(device_id)) is None && trimmed_nonempty(opt_str(host)) is None ==> r is Ok,
        r matches Ok(o) ==> o == remove_outcome_spec(
            old(store).file_entries(),
            trimmed_nonempty(opt_str(device_id)),
            trimmed_nonempty(opt_str(host)),
            username@,
        ),
        r is Err ==> final(store).file_entries() == old(store).file_entries(),
        r is Ok ==> forall|k: int|
            0 <= k < forget_accounts_spec(
                devices_of(mru(old(store).file_entries())),
                trimmed_nonempty(opt_str(device_id)),
                trimmed_nonempty(opt_str(host)),
                username@,
            ).len() ==> secrets.deletes(
                SECRET_SERVICE@,
                #[trigger] forget_accounts_spec(
                    devices_of(mru(old(store).file_entries())),
                    trimmed_nonempty(opt_str(device_id)),
                    trimmed_nonempty(opt_str(host)),
                    username@,
                )[k],
                None,
            ),
        r matches Err(e) ==> exists|k: int, re: RememberError|
            0 <= k < forget_accounts_spec(
                devices_of(mru(old(store).file_entries())),
                trimmed_nonempty(opt_str(device_id)),
                trimmed_nonempty(opt_str(host)),
                username@,
            ).len() && #[trigger] secrets.deletes(
                SECRET_SERVICE@,
                forget_accounts_spec(
                    devices_of(mru(old(store).file_entries())),
                    trimmed_nonempty(opt_str(device_id)),
                    trimmed_nonempty(opt_str(host)),
                    username@,
                )[k],
                Some(re),
            ) && remember_probe_error(e, re),
        r is Ok ==> final(store).file_entries() == remove_spec(
            old(store).file_entries(),
            trimmed_nonempty(opt_str(device_id)),
            trimmed_nonempty(opt_str(host)),
            username@,
        ),
{
    let id = trimmed_str(device_id);
    let h = trimmed_str(host);
    let id_ref: Option<&str> = match &id {
        Some(s) => Some(s.as_str()),
        None => None,
    };
    let h_ref: Option<&str> = match &h {
        Some(s) => Some(s.as_str()),
        None => None,
    };
    let devices = store.load_all();
    let accounts = forget_accounts(&devices, id_ref, h_ref, username);
    let ghost want = forget_accounts_spec(
        devices_of(mru(old(store).file_entries())),
        trimmed_nonempty(opt_str(device_id)),
        trimmed_nonempty(opt_str(host)),
        username@,
    );
    proof {
        lemma_forget_nothing(devices_of(mru(store.file_entries())), username@);
        assert(opt_str(id_ref) == trimmed_nonempty(opt_str(device_id)));
        assert(opt_str(h_ref) == trimmed_nonempty(opt_str(host)));
        assert(accounts@.map_values(|a: String| a@).len() == accounts@.len());
    }
    let mut i: usize = 0;
    while i < accounts.len()
        invariant
            i <= accounts@.len(),
            accounts@.len() == want.len(),
            trimmed_nonempty(opt_str(device_id)) is None && trimmed_nonempty(opt_str(host)) is None ==> want.len() == 0,
            store.file_entries() == old(store).file_entries(),
            accounts@.map_values(|a: String| a@) == want,
            want == forget_accounts_spec(
                devices_of(mru(old(store).file_entries())),
                trimmed_nonempty(opt_str(device_id)),
                trimmed_nonempty(opt_str(host)),
                username@,
            ),
            forall|k: int| 0 <= k < i ==> secrets.deletes(SECRET_SERVICE@, #[trigger] want[k], None),
        decreases accounts@.len() - i,
    {
        let done = secrets.delete(SECRET_SERVICE, accounts[i].as_str());
        assert(want[i as int] == accounts@[i as int]@);
        match done {
            Ok(()) => {},
            Err(e) => {
                let pe = probe_error_from_remember(e);
                assert(secrets.deletes(SECRET_SERVICE@, want[i as int], Some(e)));
                return Err(pe);
            },
        }
        i = i + 1;
    }
    Ok(store.remove(id_ref, h_ref, username))
}

} // verus!
