# Jetson Remote library

The core of a desktop client that connects to NVIDIA Jetson boards over SSH,
prepares their remote desktop (xrdp) and opens it, one tunnel and one session
per device. The library in `src/` is written in Verus: every function has a
contract and is proved; `app/` is the ordinary Rust around it.

## `src/` (verified)

- `text`, `registry`: exact text utilities (trimming, search, decimal
  formatting and parsing) and the ordered key/value table the other modules
  keep their tables in.
- `ids`, `error_code`: attempt and session identifiers, stable error codes.
- `ssh`: trust on first use of host keys, the aggregation of a remote
  command's output under a size limit, line streaming, connection shapes with
  secret-free debug texts.
- `trust`: the trust decision for a device (host key, machine id, serial)
  and the trusted-key store.
- `remember`: the remembered-device list (current and legacy formats, most
  recent first, one entry per device), the choice of a device for a
  connection and the password it uses.
- `device`, `bootstrap`: device detection results, the environment report
  and its readiness, the provisioning commands, progress and outcomes, and
  the provisioning event protocol.
- `tunnel`: which tunnel a request reuses, adopts or spawns, the external
  tunnel's binding, and what an exited `ssh` means.
- `rdp`, `session`: FreeRDP arguments (the password only on standard input),
  the output buffer, typed errors, and the multi-session manager (focus,
  attempts, stale events, teardown order).
- `commands`: the decisions of the interface commands and their typed
  errors.
- `updater`: version comparison and the reading of a release query.
- `json`: the JSON reads the library makes, through `serde_json`.
- `test_support`: a fake clock, fault injection and an event recorder.

Laws that span functions are public proof functions next to the functions
they speak of.

## `app/` (not verified)

The files the application keeps, the SSH client (`russh`), the tunnel, desktop
and update processes, network probes and the command flows. Each decision
in them is a call into the library.

## `tests/`

Scenario tests of the library, run against the compiled crate.
