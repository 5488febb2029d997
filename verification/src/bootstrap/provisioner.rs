//! Provisioning decisions: stage messages, the commands run on the device,
//! the progress markers of the setup script, and what each step's outcome
//! means. Running the commands over SSH is the application's part.

use vstd::prelude::*;
use crate::bootstrap::error::ProvisionError;
use crate::bootstrap::types::{ProvisionEvent, ProvisionStage, RemoteEnvironmentReport, RemoteEnvironmentState};
use crate::ssh::error::SshError;
use crate::text::{
    chars_of, concat, contains, contains_spec, is_ws, lowercase, owned, starts_with, starts_with_spec,
    str_eq, string_from_range, to_lowercase, trim, trim_spec,
};

verus! {

/// The interface text of each stage; none of them holds user data.
pub open spec fn stage_text(stage: ProvisionStage) -> Seq<char> {
    match stage {
        ProvisionStage::CheckingEnvironment => "Checking remote desktop"@,
        ProvisionStage::AlreadyReady => "Remote desktop ready"@,
        ProvisionStage::ProvisionRequired => "Remote desktop needs setup"@,
        ProvisionStage::Preflight => "Checking administrator access"@,
        ProvisionStage::Uploading => "Uploading setup"@,
        ProvisionStage::InstallingPackages => "Installing remote desktop components"@,
        ProvisionStage::ConfiguringSession => "Configuring the desktop"@,
        ProvisionStage::StartingService => "Starting remote desktop"@,
        ProvisionStage::Verifying => "Verifying setup"@,
        ProvisionStage::Complete => "Setup complete"@,
    }
}

/// The interface text of a stage.
pub fn stage_message(stage: ProvisionStage) -> (r: &'static str)
    ensures
        r@ == stage_text(stage),
{
    match stage {
        ProvisionStage::CheckingEnvironment => "Checking remote desktop",
        ProvisionStage::AlreadyReady => "Remote desktop ready",
        ProvisionStage::ProvisionRequired => "Remote desktop needs setup",
        ProvisionStage::Preflight => "Checking administrator access",
        ProvisionStage::Uploading => "Uploading setup",
        ProvisionStage::InstallingPackages => "Installing remote desktop components",
        ProvisionStage::ConfiguringSession => "Configuring the desktop",
        ProvisionStage::StartingService => "Starting remote desktop",
        ProvisionStage::Verifying => "Verifying setup",
        ProvisionStage::Complete => "Setup complete",
    }
}

/// The progress event of a stage: its message, no detail.
pub fn stage_event(stage: ProvisionStage) -> (r: ProvisionEvent)
    ensures
        r.stage == stage,
        r.message@ == stage_text(stage),
        r.detail is None,
{
    ProvisionEvent { stage, message: owned(stage_message(stage)), detail: None }
}

/// `'path'`: a path in single quotes, as the device's shell gets it.
pub open spec fn quoted(path: Seq<char>) -> Seq<char> {
    seq!['\''] + path + seq!['\'']
}

fn quote(path: &str) -> (r: String)
    ensures
        r@ == quoted(path@),
{
    let q = "'";
    proof {
        reveal_strlit("'");
    }
    let a = concat(q, path);
    concat(a.as_str(), q)
}

/// The command that runs the uploaded setup script. sudo was authorised by
/// the preflight, so it runs non-interactively and the password is not sent
/// again (sudo might not read it, leaving it to the script's shell).
pub fn bootstrap_command(path: &str) -> (r: String)
    ensures
        r@ == "sudo -n bash "@ + quoted(path@),
{
    let p = quote(path);
    concat("sudo -n bash ", p.as_str())
}

/// The command that creates the unpredictable temporary script path.
pub fn mktemp_command() -> (r: &'static str)
    ensures
        r@ == "mktemp /tmp/jetson-remote-bootstrap-XXXXXX.sh"@,
{
    "mktemp /tmp/jetson-remote-bootstrap-XXXXXX.sh"
}

/// The command that writes the setup script (given on stdin) to `path`.
pub fn upload_command(path: &str) -> (r: String)
    ensures
        r@ == "cat > "@ + quoted(path@),
{
    let p = quote(path);
    concat("cat > ", p.as_str())
}

/// The command that makes the script at `path` executable.
pub fn chmod_command(path: &str) -> (r: String)
    ensures
        r@ == "chmod +x "@ + quoted(path@),
{
    let p = quote(path);
    concat("chmod +x ", p.as_str())
}

/// The command that removes the script at `path`, whatever happened.
pub fn cleanup_command(path: &str) -> (r: String)
    ensures
        r@ == "rm -f "@ + quoted(path@),
{
    let p = quote(path);
    concat("rm -f ", p.as_str())
}

/// The command that checks the sudo password (sent on stdin, never argv).
pub fn sudo_preflight_command() -> (r: &'static str)
    ensures
        r@ == "sudo -S -p '' -v"@,
{
    "sudo -S -p '' -v"
}

/// The stdin of the sudo check: the password and a line break.
pub fn sudo_preflight_input(password: &str) -> (r: String)
    ensures
        r@ == password@ + seq!['\n'],
{
    let nl = "\n";
    proof {
        reveal_strlit("\n");
    }
    concat(password, nl)
}

/// The text of bytes decoded as UTF-8, invalid sequences replaced.
pub uninterp spec fn lossy_text(bytes: Seq<u8>) -> Seq<char>;

/// `String::from_utf8_lossy`.
#[verifier::external_body]
pub(crate) fn utf8_lossy(bytes: &[u8]) -> (r: String)
    ensures
        r@ == lossy_text(bytes@),
{
    String::from_utf8_lossy(bytes).to_string()
}

/// The outcome of the sudo check: success (or no status) passes; a failure
/// whose diagnostics mention the sudoers file means the user may not use
/// sudo; any other failure is a rejected password.
pub fn sudo_preflight_outcome(exit_code: Option<u32>, stderr: &[u8]) -> (r: Result<(), ProvisionError>)
    ensures
        match exit_code {
            Some(c) if c != 0 => if contains_spec(lowercase(lossy_text(stderr@)), "sudoers"@) {
                r matches Err(ProvisionError::SudoPermissionDenied)
            } else {
                r matches Err(ProvisionError::SudoAuthFailed)
            },
            _ => r is Ok,
        },
{
    match exit_code {
        Some(c) => {
            if c == 0 {
                return Ok(());
            }
            let text = utf8_lossy(stderr);
            let low = to_lowercase(text.as_str());
            if contains(low.as_str(), "sudoers") {
                Err(ProvisionError::SudoPermissionDenied)
            } else {
                Err(ProvisionError::SudoAuthFailed)
            }
        },
        None => Ok(()),
    }
}

/// The temporary script path `mktemp` printed: its trimmed output, which
/// must be an absolute path.
pub fn temp_path(stdout: &[u8]) -> (r: Result<String, ProvisionError>)
    ensures
        ({
            let p = trim_spec(lossy_text(stdout@));
            if p.len() > 0 && p[0] == '/' {
                r matches Ok(s) && s@ == p
            } else {
                r matches Err(ProvisionError::TempFile)
            }
        }),
{
    let text = utf8_lossy(stdout);
    let path = trim(text.as_str());
    let slash = "/";
    proof {
        reveal_strlit("/");
        assert(slash@ =~= seq!['/']);
        if path@.len() > 0 {
            assert(path@.subrange(0, 1) =~= seq![path@[0]]);
            if path@[0] == '/' {
                assert(path@.subrange(0, 1) =~= slash@);
            } else {
                assert(path@.subrange(0, 1)[0] != slash@[0]);
            }
        }
    }
    if !path.as_str().is_empty() && starts_with(path.as_str(), slash) {
        Ok(path)
    } else {
        Err(ProvisionError::TempFile)
    }
}

/// The outcome of the setup script: success (or no status) passes, any
/// other exit code fails with it.
pub fn bootstrap_outcome(exit_code: Option<u32>) -> (r: Result<(), ProvisionError>)
    ensures
        match exit_code {
            Some(c) if c != 0 => r matches Err(ProvisionError::BootstrapFailed(Some(k))) && k == c,
            _ => r is Ok,
        },
{
    match exit_code {
        Some(c) => if c == 0 {
            Ok(())
        } else {
            Err(ProvisionError::BootstrapFailed(Some(c)))
        },
        None => Ok(()),
    }
}

/// The outcome of the environment check command: a non-zero exit is a
/// failed remote command.
pub fn check_exit_outcome(exit_code: Option<u32>) -> (r: Result<(), ProvisionError>)
    ensures
        match exit_code {
            Some(c) if c != 0 => r matches Err(ProvisionError::Ssh(SshError::CommandFailed(Some(k)))) && k == c,
            _ => r is Ok,
        },
{
    match exit_code {
        Some(c) => if c == 0 {
            Ok(())
        } else {
            Err(ProvisionError::Ssh(SshError::CommandFailed(Some(c))))
        },
        None => Ok(()),
    }
}

/// The marker that starts a progress line of the setup script.
pub open spec fn marker() -> Seq<char> {
    "[bootstrap] step="@
}

/// The stage a step name reports.
pub open spec fn step_stage(step: Seq<char>) -> Option<ProvisionStage> {
    if step == "install_packages"@ {
        Some(ProvisionStage::InstallingPackages)
    } else if step == "configure_session"@ || step == "fix_xsessionrc"@ || step == "disable_wayland"@ {
        Some(ProvisionStage::ConfiguringSession)
    } else if step == "enable_service"@ {
        Some(ProvisionStage::StartingService)
    } else if step == "verify"@ {
        Some(ProvisionStage::Verifying)
    } else {
        None
    }
}

/// The first whitespace-separated word of `s` (empty when there is none).
pub open spec fn first_word(s: Seq<char>) -> Seq<char> {
    let t = crate::text::trim_start_spec(s);
    t.take(word_len(t) as int)
}

/// The length of the leading run of non-whitespace characters.
pub open spec fn word_len(s: Seq<char>) -> nat
    decreases s.len(),
{
    if s.len() == 0 || is_ws(s[0]) {
        0
    } else {
        1 + word_len(s.drop_first())
    }
}

/// The stage of a progress line: the trimmed line must start with the
/// marker, followed by a known step name as its first word. Any other line
/// (natural language, other markers) reports nothing.
pub open spec fn line_stage(line: Seq<char>) -> Option<ProvisionStage> {
    let t = trim_spec(line);
    if starts_with_spec(t, marker()) {
        let rest = t.skip(marker().len() as int);
        let w = first_word(rest);
        if w.len() > 0 {
            step_stage(w)
        } else {
            None
        }
    } else {
        None
    }
}

proof fn lemma_word_len_skip(s: Seq<char>, j: int)
    requires
        0 <= j <= s.len(),
        forall|k: int| 0 <= k < j ==> !is_ws(#[trigger] s[k]),
    ensures
        word_len(s) == j + word_len(s.skip(j)),
    decreases j,
{
    if j > 0 {
        lemma_word_len_skip(s.drop_first(), j - 1);
        assert(s.drop_first().skip(j - 1) =~= s.skip(j));
    } else {
        assert(s.skip(0) =~= s);
    }
}

fn step_stage_exec(step: &str) -> (r: Option<ProvisionStage>)
    ensures
        r == step_stage(step@),
{
    if str_eq(step, "install_packages") {
        Some(ProvisionStage::InstallingPackages)
    } else if str_eq(step, "configure_session") || str_eq(step, "fix_xsessionrc") || str_eq(step, "disable_wayland") {
        Some(ProvisionStage::ConfiguringSession)
    } else if str_eq(step, "enable_service") {
        Some(ProvisionStage::StartingService)
    } else if str_eq(step, "verify") {
        Some(ProvisionStage::Verifying)
    } else {
        None
    }
}

/// The progress event a line of the setup script reports, if it is a
/// progress marker for a known step.
pub fn parse_bootstrap_line(line: &str) -> (r: Option<ProvisionEvent>)
    ensures
        match line_stage(line@) {
            Some(stage) => r matches Some(ev) && ev.stage == stage && ev.message@ == stage_text(stage)
                && ev.detail is None,
            None => r is None,
        },
{
    let t = trim(line);
    let m = "[bootstrap] step=";
    proof {
        reveal_strlit("[bootstrap] step=");
    }
    if !starts_with(t.as_str(), m) {
        return None;
    }
    let cs = chars_of(t.as_str());
    let ml: usize = 17;
    assert(m@.len() == 17);
    let mut a = ml;
    while a < cs.len() && crate::text::char_is_ws(cs[a])
        invariant
            ml <= a <= cs@.len(),
            ml == 17,
            cs@ == t@,
            forall|k: int| ml <= k < a ==> is_ws(#[trigger] cs@[k]),
        decreases cs@.len() - a,
    {
        a = a + 1;
    }
    proof {
        let rest = t@.skip(ml as int);
        assert forall|k: int| 0 <= k < a - ml implies is_ws(#[trigger] rest[k]) by {
            assert(rest[k] == cs@[k + ml]);
        }
        crate::text::lemma_trim_start_skip(rest, a - ml);
        assert(rest.subrange(a - ml, rest.len() as int) =~= t@.skip(a as int));
        if a < cs.len() {
            assert(t@.skip(a as int)[0] == cs@[a as int]);
        }
        assert(crate::text::trim_start_spec(t@.skip(a as int)) == t@.skip(a as int));
        assert(rest == t@.skip(marker().len() as int));
    }
    let mut b = a;
    while b < cs.len() && !crate::text::char_is_ws(cs[b])
        invariant
            a <= b <= cs@.len(),
            cs@ == t@,
            forall|k: int| a <= k < b ==> !is_ws(#[trigger] cs@[k]),
        decreases cs@.len() - b,
    {
        b = b + 1;
    }
    proof {
        let s2 = t@.skip(a as int);
        assert forall|k: int| 0 <= k < b - a implies !is_ws(#[trigger] s2[k]) by {
            assert(s2[k] == cs@[k + a]);
        }
        lemma_word_len_skip(s2, b - a);
        if b < cs.len() {
            assert(s2.skip(b - a)[0] == cs@[b as int]);
        }
        assert(word_len(s2) == b - a);
        assert(s2.take(b - a) =~= cs@.subrange(a as int, b as int));
    }
    if b == a {
        return None;
    }
    let word = string_from_range(&cs, a, b);
    match step_stage_exec(word.as_str()) {
        Some(stage) => Some(stage_event(stage)),
        None => None,
    }
}

/// The event to emit for a progress line, and the last stage afterwards:
/// consecutive markers of the same stage (start and done) emit once.
pub fn next_progress(last: Option<ProvisionStage>, line: &str) -> (r: (Option<ProvisionStage>, Option<ProvisionEvent>))
    ensures
        match line_stage(line@) {
            Some(stage) => if last == Some(stage) {
                r.0 == last && r.1 is None
            } else {
                r.0 == Some(stage) && (r.1 matches Some(ev) && ev.stage == stage && ev.message@ == stage_text(stage))
            },
            None => r.0 == last && r.1 is None,
        },
{
    match parse_bootstrap_line(line) {
        Some(ev) => {
            let same = match last {
                Some(s) => s == ev.stage,
                None => false,
            };
            if same {
                (last, None)
            } else {
                (Some(ev.stage), Some(ev))
            }
        },
        None => (last, None),
    }
}

/// The verification after provisioning: a setup script that exited 0 does
/// not prove readiness, so only a report of a ready desktop passes; any
/// other state is a failed verification.
pub fn verify_outcome(report: RemoteEnvironmentReport) -> (r: Result<RemoteEnvironmentReport, ProvisionError>)
    ensures
        report.state == RemoteEnvironmentState::Ready ==> r == Ok::<RemoteEnvironmentReport, ProvisionError>(report),
        report.state != RemoteEnvironmentState::Ready ==> r matches Err(ProvisionError::VerificationFailed),
{
    if report.state == RemoteEnvironmentState::Ready {
        Ok(report)
    } else {
        Err(ProvisionError::VerificationFailed)
    }
}

} // verus!
