//! A Jetson device as the app knows it: its stable identity and the
//! addresses it can be reached on.

use vstd::prelude::*;
use crate::text::{owned, trim, trim_spec};

verus! {

/// One candidate address of a device, with its kind (`lan`, `tailscale`).
#[derive(Debug, Clone, PartialEq, Eq)]
pub struct DevicePath {
    pub kind: String,
    pub address: String,
}

impl View for DevicePath {
    type V = (Seq<char>, Seq<char>);

    /// (kind, address).
    open spec fn view(&self) -> (Seq<char>, Seq<char>) {
        (self.kind@, self.address@)
    }
}

/// The views of a sequence of paths.
pub open spec fn paths_view(ps: Seq<DevicePath>) -> Seq<(Seq<char>, Seq<char>)> {
    ps.map_values(|p: DevicePath| p@)
}

/// A copy of a list of paths.
pub fn copy_paths(ps: &Vec<DevicePath>) -> (r: Vec<DevicePath>)
    ensures
        paths_view(r@) == paths_view(ps@),
{
    let mut out: Vec<DevicePath> = Vec::new();
    let mut i: usize = 0;
    while i < ps.len()
        invariant
            i <= ps@.len(),
            paths_view(out@) == paths_view(ps@.take(i as int)),
        decreases ps@.len() - i,
    {
        let ghost prev = out@;
        out.push(ps[i].copy());
        assert(paths_view(out@) =~= paths_view(prev).push(ps@[i as int]@));
        assert(ps@.take(i + 1) =~= ps@.take(i as int).push(ps@[i as int]));
        assert(paths_view(ps@.take(i + 1)) =~= paths_view(ps@.take(i as int)).push(ps@[i as int]@));
        i = i + 1;
    }
    assert(ps@.take(ps@.len() as int) =~= ps@);
    out
}

impl DevicePath {
    /// A copy with the same texts.
    pub fn copy(&self) -> (r: Self)
        ensures
            r@ == self@,
    {
        DevicePath { kind: owned(self.kind.as_str()), address: owned(self.address.as_str()) }
    }

    /// A LAN path to `address`.
    pub fn lan(address: &str) -> (r: Self)
        ensures
            r.kind@ == "lan"@,
            r.address@ == address@,
    {
        DevicePath { kind: owned("lan"), address: owned(address) }
    }
}

/// One IPv4 address reported by the detection script.
#[derive(Debug, Clone)]
pub struct DetectedIp {
    pub address: String,
    pub kind: String,
}

/// What the detection script reports about a host.
#[derive(Debug, Clone)]
pub struct JetsonDetectionResult {
    pub is_jetson: bool,
    pub hostname: String,
    pub architecture: String,
    pub ubuntu_version: String,
    pub l4t_version: String,
    pub jetpack_version: String,
    pub device_model: String,
    pub serial_number: String,
    pub machine_id: String,
    pub ipv4_addresses: Vec<DetectedIp>,
}

/// A detected Jetson device.
#[derive(Debug, Clone)]
pub struct JetsonDevice {
    pub host: String,
    pub device_id: Option<String>,
    pub paths: Vec<DevicePath>,
    pub hostname: Option<String>,
    pub model: Option<String>,
    pub architecture: Option<String>,
    pub ubuntu_version: Option<String>,
    pub jetpack_version: Option<String>,
    pub l4t_version: Option<String>,
}

/// The stable device id: the trimmed serial number, else the trimmed
/// machine id, else none.
pub open spec fn device_id_of(serial: Seq<char>, machine_id: Seq<char>) -> Option<Seq<char>> {
    if trim_spec(serial).len() > 0 {
        Some(trim_spec(serial))
    } else if trim_spec(machine_id).len() > 0 {
        Some(trim_spec(machine_id))
    } else {
        None
    }
}

/// Whether `p` is the path made from detected address `ip`.
pub open spec fn path_of_ip(p: DevicePath, ip: DetectedIp) -> bool {
    p.kind@ == ip.kind@ && p.address@ == ip.address@
}

/// Whether `o` holds exactly the text `s`.
pub open spec fn some_text(o: Option<String>, s: Seq<char>) -> bool {
    o matches Some(t) && t@ == s
}

impl JetsonDevice {
    /// The device for a detection result obtained from `host`: the id is the
    /// serial number, falling back to the machine id (both trimmed, empty
    /// meaning absent); the paths are the detected addresses in order.
    pub fn from_detection(host: &str, d: JetsonDetectionResult) -> (r: Self)
        ensures
            r.host@ == host@,
            match (r.device_id, device_id_of(d.serial_number@, d.machine_id@)) {
                (Some(a), Some(b)) => a@ == b,
                (None, None) => true,
                _ => false,
            },
            r.paths@.len() == d.ipv4_addresses@.len(),
            forall|i: int| 0 <= i < r.paths@.len() ==> path_of_ip(#[trigger] r.paths@[i], d.ipv4_addresses@[i]),
            some_text(r.hostname, d.hostname@),
            some_text(r.model, d.device_model@),
            some_text(r.architecture, d.architecture@),
            some_text(r.ubuntu_version, d.ubuntu_version@),
            some_text(r.jetpack_version, d.jetpack_version@),
            some_text(r.l4t_version, d.l4t_version@),
    {
        let serial = trim(d.serial_number.as_str());
        let machine = trim(d.machine_id.as_str());
        let device_id = if !serial.as_str().is_empty() {
            Some(serial)
        } else if !machine.as_str().is_empty() {
            Some(machine)
        } else {
            None
        };
        let mut paths: Vec<DevicePath> = Vec::new();
        let mut i: usize = 0;
        while i < d.ipv4_addresses.len()
            invariant
                i <= d.ipv4_addresses@.len(),
                paths@.len() == i,
                forall|j: int| 0 <= j < i ==> path_of_ip(#[trigger] paths@[j], d.ipv4_addresses@[j]),
            decreases d.ipv4_addresses@.len() - i,
        {
            let ip = &d.ipv4_addresses[i];
            paths.push(DevicePath { kind: owned(ip.kind.as_str()), address: owned(ip.address.as_str()) });
            i = i + 1;
        }
        JetsonDevice {
            host: owned(host),
            device_id,
            paths,
            hostname: Some(d.hostname),
            model: Some(d.device_model),
            architecture: Some(d.architecture),
            ubuntu_version: Some(d.ubuntu_version),
            jetpack_version: Some(d.jetpack_version),
            l4t_version: Some(d.l4t_version),
        }
    }
}

} // verus!
