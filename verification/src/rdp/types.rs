//! RDP connection shapes. The password never appears in any debug text.

use vstd::prelude::*;
use crate::text::{bool_string, bool_text, concat, debug_str, decimal, decimal_string, owned, str_debug_text};

verus! {

/// Connection request from the frontend. The frontend supplies only the
/// target; the safe FreeRDP invocation is built entirely here.
#[derive(Clone)]
pub struct RdpConnectionRequest {
    pub host: String,
    pub port: u16,
    pub username: String,
    /// `None` = use the remembered password.
    pub password: Option<String>,
    /// Stable device identity, when known.
    pub device_id: Option<String>,
    /// Name the server certificate is pinned under (the real device host).
    pub certificate_name: Option<String>,
}

/// The RDP port used when the request names none.
pub fn default_rdp_port() -> (r: u16)
    ensures
        r == 3389,
{
    3389
}

/// The debug text of a request: every field but the password, which is
/// always shown as `"<redacted>"`.
pub open spec fn request_debug_text(host: Seq<char>, port: u16, username: Seq<char>) -> Seq<char> {
    "RdpConnectionRequest { host: "@ + str_debug_text(host) + ", port: "@ + decimal(port as nat) + ", username: "@
        + str_debug_text(username) + ", password: \"<redacted>\" }"@
}

/// The debug text of a configuration, password always `"<redacted>"`.
pub open spec fn config_debug_text(
    host: Seq<char>,
    port: u16,
    username: Seq<char>,
    dynamic_resolution: bool,
    clipboard: bool,
) -> Seq<char> {
    "RdpConnectionConfig { host: "@ + str_debug_text(host) + ", port: "@ + decimal(port as nat) + ", username: "@
        + str_debug_text(username) + ", password: \"<redacted>\", dynamic_resolution: "@ + bool_text(
        dynamic_resolution,
    ) + ", clipboard: "@ + bool_text(clipboard) + " }"@
}

impl RdpConnectionRequest {
    /// Secret-safe debug text: the password is never printed.
    pub fn debug_string(&self) -> (r: String)
        ensures
            r@ == request_debug_text(self.host@, self.port, self.username@),
    {
        let a = concat("RdpConnectionRequest { host: ", debug_str(self.host.as_str()).as_str());
        let b = concat(a.as_str(), ", port: ");
        let c = concat(b.as_str(), decimal_string(self.port as u64).as_str());
        let d = concat(c.as_str(), ", username: ");
        let e = concat(d.as_str(), debug_str(self.username.as_str()).as_str());
        let r = concat(e.as_str(), ", password: \"<redacted>\" }");
        assert(r@ =~= request_debug_text(self.host@, self.port, self.username@));
        r
    }
}

/// Internal connection configuration; `port` may be a local forwarded port.
#[derive(Clone)]
pub struct RdpConnectionConfig {
    pub certificate_name: String,
    pub host: String,
    pub port: u16,
    pub username: String,
    pub password: String,
    pub dynamic_resolution: bool,
    pub clipboard: bool,
}

impl RdpConnectionConfig {
    /// Build the configuration for a request: a missing password degrades to
    /// empty, the certificate name defaults to the host, and clipboard and
    /// dynamic resolution are on.
    pub fn from_request(r: RdpConnectionRequest) -> (c: Self)
        ensures
            c.certificate_name@ == (match r.certificate_name {
                Some(n) => n@,
                None => r.host@,
            }),
            c.host@ == r.host@,
            c.port == r.port,
            c.username@ == r.username@,
            c.password@ == (match r.password {
                Some(p) => p@,
                None => Seq::<char>::empty(),
            }),
            c.dynamic_resolution,
            c.clipboard,
    {
        let certificate_name = match r.certificate_name {
            Some(n) => n,
            None => r.host.clone(),
        };
        let password = match r.password {
            Some(p) => p,
            None => String::new(),
        };
        RdpConnectionConfig {
            certificate_name,
            host: r.host,
            port: r.port,
            username: r.username,
            password,
            dynamic_resolution: true,
            clipboard: true,
        }
    }

    /// Secret-safe debug text: the password is never printed.
    pub fn debug_string(&self) -> (r: String)
        ensures
            r@ == config_debug_text(self.host@, self.port, self.username@, self.dynamic_resolution, self.clipboard),
    {
        let a = concat("RdpConnectionConfig { host: ", debug_str(self.host.as_str()).as_str());
        let b = concat(a.as_str(), ", port: ");
        let c = concat(b.as_str(), decimal_string(self.port as u64).as_str());
        let d = concat(c.as_str(), ", username: ");
        let e = concat(d.as_str(), debug_str(self.username.as_str()).as_str());
        let f = concat(e.as_str(), ", password: \"<redacted>\", dynamic_resolution: ");
        let g = concat(f.as_str(), bool_string(self.dynamic_resolution));
        let h = concat(g.as_str(), ", clipboard: ");
        let i = concat(h.as_str(), bool_string(self.clipboard));
        let r = concat(i.as_str(), " }");
        assert(r@ =~= config_debug_text(
            self.host@,
            self.port,
            self.username@,
            self.dynamic_resolution,
            self.clipboard,
        ));
        r
    }
}

/// Requests that differ only in their password have the same debug text.
pub proof fn request_debug_ignores_password(a: RdpConnectionRequest, b: RdpConnectionRequest)
    requires
        a.host@ == b.host@,
        a.port == b.port,
        a.username@ == b.username@,
    ensures
        request_debug_text(a.host@, a.port, a.username@) == request_debug_text(b.host@, b.port, b.username@),
{
}

/// Observable process status: running, not running, or exited.
#[derive(Debug, Clone, PartialEq, Eq)]
pub enum RdpStatus {
    NotRunning,
    Running,
    Exited { exit_code: Option<i32>, error: Option<String> },
}

/// Outcome of a launch request.
#[derive(Debug, Clone, Copy, PartialEq, Eq, Structural)]
pub enum RdpLaunchResult {
    Opened,
    AlreadyRunning,
}

} // verus!
