//! SSH connection shapes. The password never appears in any debug text.

use vstd::prelude::*;
use std::time::Duration;
use crate::text::{concat, debug_str, decimal, decimal_string, owned, str_debug_text};
use russh::keys::{HashAlg, PublicKeyOrCertificate};

verus! {

/// The SSH port used when the input names none.
pub const DEFAULT_PORT: u16 = 22;

/// The most output bytes one remote command may produce per stream (1 MiB).
pub const MAX_OUTPUT_BYTES: usize = 1048576;

/// What the frontend sends to connect to a device.
#[derive(Clone)]
pub struct SshConnectionInput {
    pub host: String,
    pub port: u16,
    pub username: String,
    /// `None` = use the remembered password.
    pub password: Option<String>,
}

/// The port used when the input names none.
pub fn default_port() -> (r: u16)
    ensures
        r == DEFAULT_PORT,
{
    DEFAULT_PORT
}

/// The debug text of a connection input: host, port and username, with the
/// password always shown as `"<redacted>"`.
pub open spec fn input_debug_text(host: Seq<char>, port: u16, username: Seq<char>) -> Seq<char> {
    "SshConnectionInput { host: "@ + str_debug_text(host) + ", port: "@ + decimal(port as nat) + ", username: "@
        + str_debug_text(username) + ", password: \"<redacted>\" }"@
}

impl SshConnectionInput {
    /// Secret-safe debug text: the password is never printed, present or not.
    pub fn debug_string(&self) -> (r: String)
        ensures
            r@ == input_debug_text(self.host@, self.port, self.username@),
    {
        let a = concat("SshConnectionInput { host: ", debug_str(self.host.as_str()).as_str());
        let b = concat(a.as_str(), ", port: ");
        let c = concat(b.as_str(), decimal_string(self.port as u64).as_str());
        let d = concat(c.as_str(), ", username: ");
        let e = concat(d.as_str(), debug_str(self.username.as_str()).as_str());
        let r = concat(e.as_str(), ", password: \"<redacted>\" }");
        assert(r@ =~= input_debug_text(self.host@, self.port, self.username@));
        r
    }
}

/// The duration of `secs` whole seconds.
pub uninterp spec fn duration_of_secs(secs: u64) -> Duration;

/// `Duration::from_secs`.
#[verifier::external_body]
fn secs(n: u64) -> (r: Duration)
    ensures
        r == duration_of_secs(n),
{
    Duration::from_secs(n)
}

/// Timeouts and the output limit of the SSH client.
#[derive(Clone, Copy, Debug)]
pub struct SshConfig {
    pub connect_timeout: Duration,
    pub command_timeout: Duration,
    /// For multi-minute commands such as provisioning.
    pub provision_timeout: Duration,
    pub max_output_bytes: usize,
}

impl Default for SshConfig {
    /// 8 s to connect, 15 s per command, 15 min to provision, 1 MiB of output.
    fn default() -> (r: Self)
        ensures
            r.connect_timeout == duration_of_secs(8),
            r.command_timeout == duration_of_secs(15),
            r.provision_timeout == duration_of_secs(900),
            r.max_output_bytes == MAX_OUTPUT_BYTES,
    {
        SshConfig {
            connect_timeout: secs(8),
            command_timeout: secs(15),
            provision_timeout: secs(900),
            max_output_bytes: MAX_OUTPUT_BYTES,
        }
    }
}

/// Non-secret host-key metadata shown to the user for trust decisions.
#[derive(Clone, Debug, PartialEq, Eq)]
pub struct HostKeyInfo {
    pub host: String,
    pub port: u16,
    pub algorithm: String,
    /// OpenSSH style `SHA256:<base64>`.
    pub fingerprint: String,
}

/// The key under which a host's key is stored: `host:port`.
pub open spec fn key_id_text(host: Seq<char>, port: u16) -> Seq<char> {
    host + seq![':'] + decimal(port as nat)
}

/// `host:port` for a host and port.
pub fn host_port_key(host: &str, port: u16) -> (r: String)
    ensures
        r@ == key_id_text(host@, port),
{
    let colon = ":";
    proof {
        reveal_strlit(":");
    }
    let prefix = concat(host, colon);
    let digits = decimal_string(port as u64);
    concat(prefix.as_str(), digits.as_str())
}

impl HostKeyInfo {
    /// The key under which this host's key is stored: `host:port`.
    pub fn key_id(&self) -> (r: String)
        ensures
            r@ == key_id_text(self.host@, self.port),
    {
        host_port_key(self.host.as_str(), self.port)
    }
}


/// A server key as presented in a handshake.
#[verifier::external_type_specification]
#[verifier::external_body]
pub struct ExPublicKeyOrCertificate(russh::keys::PublicKeyOrCertificate);

/// What a presented server key shows: a plain key's algorithm and SHA-256
/// fingerprint (`SHA256:<base64>`), or a certificate's algorithm.
pub enum PresentedKey {
    Plain { algorithm: String, fingerprint: String },
    Certificate { algorithm: String },
}

/// What presented key `key` shows: a plain key's algorithm name and
/// SHA-256 fingerprint text (`SHA256:<base64>`), or a certificate's
/// algorithm name.
pub uninterp spec fn presented_of(key: PublicKeyOrCertificate) -> PresentedKey;

/// Tells a presented key's kinds apart, reading its algorithm name and, for
/// a plain key, its SHA-256 fingerprint text.
#[verifier::external_body]
fn presented_key(key: &PublicKeyOrCertificate) -> (r: PresentedKey)
    ensures
        r == presented_of(*key),
{
    match key {
        PublicKeyOrCertificate::PublicKey { key, .. } => PresentedKey::Plain {
            algorithm: key.algorithm().to_string(),
            fingerprint: key.fingerprint(HashAlg::Sha256).to_string(),
        },
        PublicKeyOrCertificate::Certificate(cert) => PresentedKey::Certificate { algorithm: cert.algorithm().to_string() },
    }
}

impl HostKeyInfo {
    /// The key information for what a presented key shows: a plain key's
    /// algorithm and fingerprint; a certificate's algorithm with a
    /// fingerprint that matches no trusted key.
    pub fn from_presented(host: &str, port: u16, key: PresentedKey) -> (r: Self)
        ensures
            r.host@ == host@,
            r.port == port,
            match key {
                PresentedKey::Plain { algorithm, fingerprint } => r.algorithm@ == algorithm@ && r.fingerprint@
                    == fingerprint@,
                PresentedKey::Certificate { algorithm } => r.algorithm@ == algorithm@ && r.fingerprint@
                    == "SHA256:unknown"@,
            },
    {
        match key {
            PresentedKey::Plain { algorithm, fingerprint } => HostKeyInfo { host: owned(host), port, algorithm, fingerprint },
            PresentedKey::Certificate { algorithm } => HostKeyInfo {
                host: owned(host),
                port,
                algorithm,
                fingerprint: owned("SHA256:unknown"),
            },
        }
    }

    /// The key information for a key presented by `host:port`.
    pub fn from_key(host: &str, port: u16, key: &PublicKeyOrCertificate) -> (r: Self)
        ensures
            r.host@ == host@,
            r.port == port,
            match presented_of(*key) {
                PresentedKey::Plain { algorithm, fingerprint } => r.algorithm@ == algorithm@ && r.fingerprint@
                    == fingerprint@,
                PresentedKey::Certificate { algorithm } => r.algorithm@ == algorithm@ && r.fingerprint@
                    == "SHA256:unknown"@,
            },
    {
        HostKeyInfo::from_presented(host, port, presented_key(key))
    }
}

} // verus!
