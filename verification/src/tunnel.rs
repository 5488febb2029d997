//! The in-app loopback SSH tunnel: its routing mode, its errors, and the
//! decisions made around it. One tunnel serves one remote device (keyed by
//! `username@deviceId`); both addresses of a device share it, two devices
//! never do. Spawning and supervising the `ssh` process is the
//! application's part.

use vstd::prelude::*;
use crate::registry::Registry;
use crate::text::{
    concat, contains, contains_spec, decimal, decimal_string, first_nonblank, first_nonblank_line, lowercase, owned, parse_u16,
    parse_u16_spec, signed_decimal, signed_decimal_string, str_eq, take_chars, to_lowercase, trim, trim_spec,
};

verus! {

/// The local SSH port tried first, so the trusted key store does not churn.
pub const PREFERRED_SSH_PORT: u16 = 2222;

/// The local RDP port tried first.
pub const PREFERRED_RDP_PORT: u16 = 3389;

/// The most characters of `ssh` diagnostics that go to the log.
pub const STDERR_SUMMARY_LIMIT: usize = 240;

/// The loopback endpoints both planes use instead of the device's address.
#[derive(Debug, Clone, PartialEq, Eq)]
pub struct TunnelEndpoints {
    pub host: String,
    pub ssh_port: u16,
    pub rdp_port: u16,
}

/// How tunnels are routed in this process: one per device (`Internal`), or
/// one externally managed tunnel for a single device (a debugging mode).
#[derive(Debug, Clone, Copy, PartialEq, Eq, Structural)]
pub enum TunnelMode {
    Internal,
    External { ssh_port: u16, rdp_port: u16 },
}

/// What can go wrong setting up a tunnel.
#[derive(Debug)]
pub enum TunnelError {
    ExternalSingleDevice,
    Unreachable,
    AuthFailed,
    LocalPort(String),
    SshExited(String),
    Setup(String),
}

/// The stable code of each error kind.
pub open spec fn tunnel_code(e: TunnelError) -> Seq<char> {
    match e {
        TunnelError::ExternalSingleDevice => "TUNNEL_EXTERNAL_SINGLE_DEVICE"@,
        TunnelError::Unreachable => "TUNNEL_TARGET_UNREACHABLE"@,
        TunnelError::AuthFailed => "TUNNEL_AUTH_FAILED"@,
        TunnelError::LocalPort(_) => "TUNNEL_LOCAL_PORT_FAILED"@,
        TunnelError::SshExited(_) => "TUNNEL_SSH_EXITED"@,
        TunnelError::Setup(_) => "TUNNEL_SETUP_FAILED"@,
    }
}

/// The message of each error.
pub open spec fn tunnel_message(e: TunnelError) -> Seq<char> {
    match e {
        TunnelError::ExternalSingleDevice => "the external tunnel supports a single device only"@,
        TunnelError::Unreachable => "could not reach the device"@,
        TunnelError::AuthFailed => "authentication failed"@,
        TunnelError::LocalPort(m) => "local port allocation failed: "@ + m@,
        TunnelError::SshExited(m) => "ssh tunnel exited: "@ + m@,
        TunnelError::Setup(m) => "tunnel setup failed: "@ + m@,
    }
}

impl TunnelError {
    /// The stable machine-readable code of the error kind; it never holds
    /// anything but the kind.
    pub fn code(&self) -> (r: &'static str)
        ensures
            r@ == tunnel_code(*self),
    {
        match self {
            TunnelError::ExternalSingleDevice => "TUNNEL_EXTERNAL_SINGLE_DEVICE",
            TunnelError::Unreachable => "TUNNEL_TARGET_UNREACHABLE",
            TunnelError::AuthFailed => "TUNNEL_AUTH_FAILED",
            TunnelError::LocalPort(_) => "TUNNEL_LOCAL_PORT_FAILED",
            TunnelError::SshExited(_) => "TUNNEL_SSH_EXITED",
            TunnelError::Setup(_) => "TUNNEL_SETUP_FAILED",
        }
    }

    /// The error's message.
    pub fn message(&self) -> (r: String)
        ensures
            r@ == tunnel_message(*self),
    {
        match self {
            TunnelError::ExternalSingleDevice => owned("the external tunnel supports a single device only"),
            TunnelError::Unreachable => owned("could not reach the device"),
            TunnelError::AuthFailed => owned("authentication failed"),
            TunnelError::LocalPort(m) => concat("local port allocation failed: ", m.as_str()),
            TunnelError::SshExited(m) => concat("ssh tunnel exited: ", m.as_str()),
            TunnelError::Setup(m) => concat("tunnel setup failed: ", m.as_str()),
        }
    }
}

/// Distinct error kinds have distinct codes.
pub proof fn tunnel_codes_are_distinct(a: TunnelError, b: TunnelError)
    requires
        tunnel_code(a) == tunnel_code(b),
    ensures
        (a is ExternalSingleDevice) == (b is ExternalSingleDevice),
        (a is Unreachable) == (b is Unreachable),
        (a is AuthFailed) == (b is AuthFailed),
        (a is LocalPort) == (b is LocalPort),
        (a is SshExited) == (b is SshExited),
        (a is Setup) == (b is Setup),
{
    reveal_strlit("TUNNEL_EXTERNAL_SINGLE_DEVICE");
    reveal_strlit("TUNNEL_TARGET_UNREACHABLE");
    reveal_strlit("TUNNEL_AUTH_FAILED");
    reveal_strlit("TUNNEL_LOCAL_PORT_FAILED");
    reveal_strlit("TUNNEL_SSH_EXITED");
    reveal_strlit("TUNNEL_SETUP_FAILED");
    let ca = tunnel_code(a);
    assert(ca.len() > 9);
    if ca[8] == 'E' {
        assert(a is ExternalSingleDevice || a is SshExited || a is Setup);
    }
}

/// The remote board a tunnel ends at. Two keys with the same target are the
/// same physical device.
#[derive(Debug, Clone, PartialEq, Eq)]
pub struct TunnelTarget {
    pub host: String,
    pub port: u16,
    pub username: String,
}

impl View for TunnelTarget {
    type V = (Seq<char>, u16, Seq<char>);

    open spec fn view(&self) -> (Seq<char>, u16, Seq<char>) {
        (self.host@, self.port, self.username@)
    }
}

impl TunnelTarget {
    /// Whether both name the same board and user.
    pub fn same_target(&self, other: &TunnelTarget) -> (r: bool)
        ensures
            r == (self@ == other@),
    {
        self.port == other.port && str_eq(self.host.as_str(), other.host.as_str()) && str_eq(
            self.username.as_str(),
            other.username.as_str(),
        )
    }
}

/// How `ensure` treats a key and target, given the tunnels (key -> target).
#[derive(Debug, Clone, PartialEq, Eq)]
pub enum EnsureClass {
    /// The key owns a tunnel already; its health is re-checked.
    Reuse,
    /// The same target lives under another key (an identity upgrade from
    /// `user@host` to `user@deviceId`); it is re-keyed if healthy.
    Adopt { old_key: String },
    /// Neither the key nor the target has a tunnel; a new one is spawned.
    Fresh,
}

/// Classify an `ensure` for `key` and `target`: `Reuse` when the key has a
/// tunnel; otherwise `Adopt` of a key whose tunnel has the same target (the
/// first such in table order); otherwise `Fresh`.
pub fn classify_ensure(active: &Registry<TunnelTarget>, key: &str, target: &TunnelTarget) -> (r: EnsureClass)
    requires
        active.wf(),
    ensures
        active.map().dom().contains(key@) ==> r == EnsureClass::Reuse,
        !active.map().dom().contains(key@) ==> match r {
            EnsureClass::Reuse => false,
            EnsureClass::Adopt { old_key } => active.map().dom().contains(old_key@)
                && active.map()[old_key@]@ == target@,
            EnsureClass::Fresh => forall|k: Seq<char>| #[trigger] active.map().dom().contains(k)
                ==> active.map()[k]@ != target@,
        },
{
    if active.contains_key(key) {
        return EnsureClass::Reuse;
    }
    proof {
        active.lemma_keys();
    }
    let n = active.len();
    let mut i: usize = 0;
    while i < n
        invariant
            active.wf(),
            !active.map().dom().contains(key@),
            n == active.key_seq().len(),
            i <= n,
            forall|j: int| 0 <= j < i ==> active.map()[#[trigger] active.key_seq()[j]]@ != target@,
        decreases n - i,
    {
        let (k, t) = active.at(i);
        if t.same_target(target) {
            return EnsureClass::Adopt { old_key: owned(k.as_str()) };
        }
        i = i + 1;
    }
    proof {
        assert forall|k: Seq<char>| #[trigger] active.map().dom().contains(k) implies active.map()[k]@ != target@ by {
            assert(active.key_seq().contains(k));
            let j = choose|j: int| 0 <= j < active.key_seq().len() && active.key_seq()[j] == k;
        }
    }
    EnsureClass::Fresh
}

/// Bind the single external tunnel to `key`: the first key binds it, the
/// same key again is fine, any other key is refused.
pub fn bind_external_target(slot: &mut Option<String>, key: &str) -> (r: Result<(), TunnelError>)
    ensures
        match *old(slot) {
            None => r is Ok && (*final(slot) matches Some(s) && s@ == key@),
            Some(existing) => if existing@ == key@ {
                r is Ok && *final(slot) == *old(slot)
            } else {
                r matches Err(TunnelError::ExternalSingleDevice) && *final(slot) == *old(slot)
            },
        },
{
    match slot {
        Some(existing) => {
            if str_eq(existing.as_str(), key) {
                Ok(())
            } else {
                Err(TunnelError::ExternalSingleDevice)
            }
        },
        None => {
            *slot = Some(owned(key));
            Ok(())
        },
    }
}

/// The routing mode for the external ports the environment names, if any.
pub fn tunnel_mode_for(external_ports: Option<(u16, u16)>) -> (r: TunnelMode)
    ensures
        r == (match external_ports {
            Some((s, p)) => TunnelMode::External { ssh_port: s, rdp_port: p },
            None => TunnelMode::Internal,
        }),
{
    match external_ports {
        Some((ssh_port, rdp_port)) => TunnelMode::External { ssh_port, rdp_port },
        None => TunnelMode::Internal,
    }
}

/// The external ports named by the SSH and RDP port settings (their raw
/// texts, when set): the SSH port is required, the RDP port defaults to
/// the preferred one; each is trimmed and parsed as a port.
pub fn external_ports(ssh_setting: Option<&str>, rdp_setting: Option<&str>) -> (r: Option<(u16, u16)>)
    ensures
        r == (match ssh_setting {
            Some(s) => match parse_u16_spec(trim_spec(s@)) {
                Some(sp) => Some(
                    (
                        sp,
                        match rdp_setting {
                            Some(t) => match parse_u16_spec(trim_spec(t@)) {
                                Some(rp) => rp,
                                None => PREFERRED_RDP_PORT,
                            },
                            None => PREFERRED_RDP_PORT,
                        },
                    ),
                ),
                None => None,
            },
            None => None,
        }),
{
    let ssh = match ssh_setting {
        Some(s) => match parse_u16(trim(s).as_str()) {
            Some(p) => p,
            None => {
                return None;
            },
        },
        None => {
            return None;
        },
    };
    let rdp = match rdp_setting {
        Some(t) => match parse_u16(trim(t).as_str()) {
            Some(p) => p,
            None => PREFERRED_RDP_PORT,
        },
        None => PREFERRED_RDP_PORT,
    };
    Some((ssh, rdp))
}

/// The log summary of `ssh` diagnostics: the first non-blank line, trimmed
/// and cut to `STDERR_SUMMARY_LIMIT` characters; a fixed text when there is
/// none.
pub open spec fn stderr_summary_spec(stderr: Seq<char>) -> Seq<char> {
    let line = match first_nonblank_line(stderr) {
        Some(l) => trim_spec(l),
        None => "no diagnostic output"@,
    };
    if line.len() <= STDERR_SUMMARY_LIMIT {
        line
    } else {
        line.take(STDERR_SUMMARY_LIMIT as int)
    }
}

/// Summarise `ssh` diagnostics for the log.
pub fn stderr_summary(stderr: &str) -> (r: String)
    ensures
        r@ == stderr_summary_spec(stderr@),
        r@.len() <= STDERR_SUMMARY_LIMIT,
{
    let line = match first_nonblank(stderr) {
        Some(l) => trim(l.as_str()),
        None => owned("no diagnostic output"),
    };
    take_chars(line.as_str(), STDERR_SUMMARY_LIMIT)
}

/// Whether lower-cased `ssh` diagnostics speak of an authentication failure.
pub open spec fn auth_failure(low: Seq<char>) -> bool {
    contains_spec(low, "permission denied"@) || contains_spec(low, "authentication failed"@)
}

/// Whether lower-cased `ssh` diagnostics speak of an unreachable device.
pub open spec fn unreachable_failure(low: Seq<char>) -> bool {
    ||| contains_spec(low, "no route to host"@)
    ||| contains_spec(low, "network is unreachable"@)
    ||| contains_spec(low, "connection refused"@)
    ||| contains_spec(low, "could not resolve hostname"@)
    ||| contains_spec(low, "operation timed out"@)
    ||| contains_spec(low, "connection timed out"@)
    ||| contains_spec(low, "unreachable"@)
}

/// The message of an `ssh` exit that is neither: its exit code (`?` when
/// killed by a signal) and its first non-blank line.
pub open spec fn exit_message(stderr: Seq<char>, code: Option<i32>) -> Seq<char> {
    "ssh exited "@ + match code {
        Some(c) => signed_decimal(c as int),
        None => "?"@,
    } + match first_nonblank_line(stderr) {
        Some(l) => ": "@ + l,
        None => Seq::<char>::empty(),
    }
}

/// What `classify_exit` promises of its result `r` for diagnostics
/// `stderr` and exit code `code`.
pub open spec fn exit_classified(stderr: Seq<char>, code: Option<i32>, r: TunnelError) -> bool {
    &&& auth_failure(lowercase(stderr)) ==> r is AuthFailed
    &&& !auth_failure(lowercase(stderr)) && unreachable_failure(lowercase(stderr)) ==> r is Unreachable
    &&& !auth_failure(lowercase(stderr)) && !unreachable_failure(lowercase(stderr)) ==> (r matches TunnelError::SshExited(
        m,
    ) && m@ == exit_message(stderr, code))
}

/// Map an `ssh` exit to an error: authentication failures first, then an
/// unreachable device, else the exit itself.
pub fn classify_exit(stderr: &str, code: Option<i32>) -> (r: TunnelError)
    ensures
        exit_classified(stderr@, code, r),
        auth_failure(lowercase(stderr@)) ==> r is AuthFailed,
        !auth_failure(lowercase(stderr@)) && unreachable_failure(lowercase(stderr@)) ==> r is Unreachable,
        !auth_failure(lowercase(stderr@)) && !unreachable_failure(lowercase(stderr@)) ==> (r matches TunnelError::SshExited(m)
            && m@ == exit_message(stderr@, code)),
{
    let low = to_lowercase(stderr);
    let l = low.as_str();
    if contains(l, "permission denied") || contains(l, "authentication failed") {
        return TunnelError::AuthFailed;
    }
    if contains(l, "no route to host") || contains(l, "network is unreachable") || contains(l, "connection refused")
        || contains(l, "could not resolve hostname") || contains(l, "operation timed out") || contains(
        l,
        "connection timed out",
    ) || contains(l, "unreachable") {
        return TunnelError::Unreachable;
    }
    let code_text = match code {
        Some(c) => signed_decimal_string(c),
        None => owned("?"),
    };
    let head = concat("ssh exited ", code_text.as_str());
    let message = match first_nonblank(stderr) {
        Some(first) => {
            let tail = concat(": ", first.as_str());
            concat(head.as_str(), tail.as_str())
        },
        None => {
            assert(head@ + Seq::<char>::empty() =~= head@);
            head
        },
    };
    proof {
        assert(message@ =~= exit_message(stderr@, code));
    }
    TunnelError::SshExited(message)
}

/// A loopback forward of local port `local` to the device's port `remote`:
/// `127.0.0.1:<local>:localhost:<remote>`.
pub open spec fn forward_spec(local: u16, remote: Seq<char>) -> Seq<char> {
    "127.0.0.1:"@ + decimal(local as nat) + ":localhost:"@ + remote
}

/// The `ssh` arguments of a tunnel to `username@host` (SSH port
/// `remote_port`) forwarding local `ssh_port` to the device's SSH and local
/// `rdp_port` to its desktop: no shell, no user configuration, forwards
/// that must succeed, keys pinned in `known_hosts` (a new one accepted),
/// one password prompt answered by the askpass helper, no public-key
/// authentication, keep-alives. The password is not among them.
pub open spec fn tunnel_args_spec(
    remote_port: u16,
    ssh_port: u16,
    rdp_port: u16,
    known_hosts: Seq<char>,
    username: Seq<char>,
    host: Seq<char>,
) -> Seq<Seq<char>> {
    seq![
        "-N"@, "-T"@, "-F"@, "/dev/null"@, "-p"@, decimal(remote_port as nat),
        "-L"@, forward_spec(ssh_port, "22"@), "-L"@, forward_spec(rdp_port, "3389"@),
        "-o"@, "ExitOnForwardFailure=yes"@, "-o"@, "StrictHostKeyChecking=accept-new"@,
        "-o"@, "UserKnownHostsFile="@ + known_hosts, "-o"@, "NumberOfPasswordPrompts=1"@,
        "-o"@, "PreferredAuthentications=password,keyboard-interactive"@, "-o"@, "PubkeyAuthentication=no"@,
        "-o"@, "ServerAliveInterval=15"@, "-o"@, "ServerAliveCountMax=3"@, username + seq!['@'] + host,
    ]
}

fn forward(local: u16, remote: &str) -> (r: String)
    ensures
        r@ == forward_spec(local, remote@),
{
    let a = concat("127.0.0.1:", decimal_string(local as u64).as_str());
    let b = concat(a.as_str(), ":localhost:");
    concat(b.as_str(), remote)
}

fn push_text(v: &mut Vec<String>, s: String)
    ensures
        final(v)@.map_values(|a: String| a@) == old(v)@.map_values(|a: String| a@).push(s@),
{
    let ghost t = s@;
    v.push(s);
    assert(v@.map_values(|a: String| a@) =~= old(v)@.map_values(|a: String| a@).push(t));
}

/// The `ssh` arguments of a tunnel (see `tunnel_args_spec`).
pub fn tunnel_ssh_args(
    remote_port: u16,
    ssh_port: u16,
    rdp_port: u16,
    known_hosts: &str,
    username: &str,
    host: &str,
) -> (r: Vec<String>)
    ensures
        r@.map_values(|a: String| a@) == tunnel_args_spec(remote_port, ssh_port, rdp_port, known_hosts@, username@, host@),
{
    let mut v: Vec<String> = Vec::new();
    push_text(&mut v, owned("-N"));
    push_text(&mut v, owned("-T"));
    push_text(&mut v, owned("-F"));
    push_text(&mut v, owned("/dev/null"));
    push_text(&mut v, owned("-p"));
    push_text(&mut v, decimal_string(remote_port as u64));
    push_text(&mut v, owned("-L"));
    push_text(&mut v, forward(ssh_port, "22"));
    push_text(&mut v, owned("-L"));
    push_text(&mut v, forward(rdp_port, "3389"));
    push_text(&mut v, owned("-o"));
    push_text(&mut v, owned("ExitOnForwardFailure=yes"));
    push_text(&mut v, owned("-o"));
    push_text(&mut v, owned("StrictHostKeyChecking=accept-new"));
    push_text(&mut v, owned("-o"));
    push_text(&mut v, concat("UserKnownHostsFile=", known_hosts));
    push_text(&mut v, owned("-o"));
    push_text(&mut v, owned("NumberOfPasswordPrompts=1"));
    push_text(&mut v, owned("-o"));
    push_text(&mut v, owned("PreferredAuthentications=password,keyboard-interactive"));
    push_text(&mut v, owned("-o"));
    push_text(&mut v, owned("PubkeyAuthentication=no"));
    push_text(&mut v, owned("-o"));
    push_text(&mut v, owned("ServerAliveInterval=15"));
    push_text(&mut v, owned("-o"));
    push_text(&mut v, owned("ServerAliveCountMax=3"));
    let at = concat(username, "@");
    proof {
        reveal_strlit("@");
        assert("@"@ =~= seq!['@']);
    }
    let last = concat(at.as_str(), host);
    assert(last@ =~= username@ + seq!['@'] + host@);
    push_text(&mut v, last);
    assert(v@.map_values(|a: String| a@) =~= tunnel_args_spec(
        remote_port,
        ssh_port,
        rdp_port,
        known_hosts@,
        username@,
        host@,
    ));
    v
}

/// The askpass helper `ssh` runs for the password: a shell script that
/// prints the password file `pw_file`.
pub open spec fn askpass_spec(pw_file: Seq<char>) -> Seq<char> {
    "#!/bin/sh\ncat \""@ + pw_file + "\"\n"@
}

/// The askpass helper script for password file `pw_file`.
pub fn askpass_script(pw_file: &str) -> (r: String)
    ensures
        r@ == askpass_spec(pw_file@),
{
    let a = concat("#!/bin/sh\ncat \"", pw_file);
    concat(a.as_str(), "\"\n")
}

/// What the supervision of a starting tunnel does next.
#[derive(Debug, Clone, Copy, PartialEq, Eq, Structural)]
pub enum TunnelWait {
    /// `ssh` exited: reap it and classify its exit.
    Exited,
    /// Both forwards accept connections: wait out the authentication grace.
    PortsOpen,
    /// The deadline passed first: stop `ssh`; the device is unreachable.
    TimedOut,
    /// Nothing yet: poll again.
    Poll,
}

/// One step of waiting for a tunnel: an exit is seen first, then open
/// forwards, then the deadline. The forwards open before authentication
/// ends, so open ports alone are not success.
pub fn tunnel_wait_step(exited: bool, ports_open: bool, past_deadline: bool) -> (r: TunnelWait)
    ensures
        r == (if exited {
            TunnelWait::Exited
        } else if ports_open {
            TunnelWait::PortsOpen
        } else if past_deadline {
            TunnelWait::TimedOut
        } else {
            TunnelWait::Poll
        }),
{
    if exited {
        TunnelWait::Exited
    } else if ports_open {
        TunnelWait::PortsOpen
    } else if past_deadline {
        TunnelWait::TimedOut
    } else {
        TunnelWait::Poll
    }
}

/// What the authentication grace gives: `ssh` exiting within it is a
/// failure (`Some(false)`); surviving it means the tunnel is up
/// (`Some(true)`); otherwise keep waiting (`None`).
pub fn grace_step(exited: bool, grace_over: bool) -> (r: Option<bool>)
    ensures
        r == (if exited {
            Some(false)
        } else if grace_over {
            Some(true)
        } else {
            None::<bool>
        }),
{
    if exited {
        Some(false)
    } else if grace_over {
        Some(true)
    } else {
        None
    }
}

/// An `ssh` exit whose lower-cased diagnostics say "permission denied" or
/// "authentication failed" is an authentication failure.
pub proof fn denied_exits_are_auth_failures(stderr: Seq<char>, code: Option<i32>, r: TunnelError, phrase: Seq<char>)
    requires
        exit_classified(stderr, code, r),
        phrase == "permission denied"@ || phrase == "authentication failed"@,
        contains_spec(lowercase(stderr), phrase),
    ensures
        r is AuthFailed,
{
}

/// An `ssh` exit whose lower-cased diagnostics name an unreachable device
/// (no route to host, network is unreachable, connection refused, could
/// not resolve hostname, operation or connection timed out, unreachable)
/// and no authentication failure is classified as unreachable.
pub proof fn unreachable_exits_are_unreachable(stderr: Seq<char>, code: Option<i32>, r: TunnelError, phrase: Seq<char>)
    requires
        exit_classified(stderr, code, r),
        phrase == "no route to host"@ || phrase == "network is unreachable"@ || phrase == "connection refused"@
            || phrase == "could not resolve hostname"@ || phrase == "operation timed out"@ || phrase
            == "connection timed out"@ || phrase == "unreachable"@,
        contains_spec(lowercase(stderr), phrase),
        !contains_spec(lowercase(stderr), "permission denied"@),
        !contains_spec(lowercase(stderr), "authentication failed"@),
    ensures
        r is Unreachable,
{
}

/// An `ssh` exit whose lower-cased diagnostics name neither an
/// authentication failure nor an unreachable device is reported as the
/// exit: its code and first non-blank line.
pub proof fn other_exits_are_reported(stderr: Seq<char>, code: Option<i32>, r: TunnelError)
    requires
        exit_classified(stderr, code, r),
        forall|phrase: Seq<char>|
            (phrase == "permission denied"@ || phrase == "authentication failed"@ || phrase == "no route to host"@
                || phrase == "network is unreachable"@ || phrase == "connection refused"@ || phrase
                == "could not resolve hostname"@ || phrase == "operation timed out"@ || phrase
                == "connection timed out"@ || phrase == "unreachable"@) ==> !#[trigger] contains_spec(
                lowercase(stderr),
                phrase,
            ),
    ensures
        r matches TunnelError::SshExited(m) && m@ == exit_message(stderr, code),
{
}

} // verus!
