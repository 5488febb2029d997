//! Environment facts, their classification, and provisioning stages.

use vstd::prelude::*;
use crate::text::owned;

verus! {

/// The state of a device's remote desktop.
#[derive(Debug, Clone, Copy, PartialEq, Eq, Structural)]
pub enum RemoteEnvironmentState {
    /// Installed, configured and running.
    Ready,
    /// Some components installed, not all.
    Partial,
    /// All components present but the service or session is broken.
    Broken,
    /// Nothing installed yet.
    ProvisionRequired,
}

/// What the read-only environment check reports.
#[derive(Debug)]
pub struct EnvironmentFacts {
    pub xrdp_installed: bool,
    pub xrdp_version: String,
    pub xorgxrdp_installed: bool,
    pub xorgxrdp_version: String,
    pub xfce_installed: bool,
    pub xrdp_enabled: bool,
    pub xrdp_active: bool,
    pub xrdp_sesman_active: bool,
    pub port_3389_listening: bool,
    pub port_3350_listening: bool,
    /// Whether `xrdp` may read its TLS key (it belongs to `ssl-cert`).
    pub xrdp_in_ssl_cert_group: bool,
    pub session_configured: bool,
    pub xsessionrc_ok: bool,
}

/// Whether two fact sets say the same.
pub open spec fn same_facts(a: EnvironmentFacts, b: EnvironmentFacts) -> bool {
    &&& a.xrdp_installed == b.xrdp_installed
    &&& a.xrdp_version@ == b.xrdp_version@
    &&& a.xorgxrdp_installed == b.xorgxrdp_installed
    &&& a.xorgxrdp_version@ == b.xorgxrdp_version@
    &&& a.xfce_installed == b.xfce_installed
    &&& a.xrdp_enabled == b.xrdp_enabled
    &&& a.xrdp_active == b.xrdp_active
    &&& a.xrdp_sesman_active == b.xrdp_sesman_active
    &&& a.port_3389_listening == b.port_3389_listening
    &&& a.port_3350_listening == b.port_3350_listening
    &&& a.xrdp_in_ssl_cert_group == b.xrdp_in_ssl_cert_group
    &&& a.session_configured == b.session_configured
    &&& a.xsessionrc_ok == b.xsessionrc_ok
}

impl EnvironmentFacts {
    /// A copy that says the same.
    pub fn copy(&self) -> (r: Self)
        ensures
            same_facts(r, *self),
    {
        EnvironmentFacts {
            xrdp_installed: self.xrdp_installed,
            xrdp_version: owned(self.xrdp_version.as_str()),
            xorgxrdp_installed: self.xorgxrdp_installed,
            xorgxrdp_version: owned(self.xorgxrdp_version.as_str()),
            xfce_installed: self.xfce_installed,
            xrdp_enabled: self.xrdp_enabled,
            xrdp_active: self.xrdp_active,
            xrdp_sesman_active: self.xrdp_sesman_active,
            port_3389_listening: self.port_3389_listening,
            port_3350_listening: self.port_3350_listening,
            xrdp_in_ssl_cert_group: self.xrdp_in_ssl_cert_group,
            session_configured: self.session_configured,
            xsessionrc_ok: self.xsessionrc_ok,
        }
    }
}

impl Default for EnvironmentFacts {
    /// Nothing installed, nothing running, empty versions.
    fn default() -> (r: Self)
        ensures
            !r.xrdp_installed && !r.xorgxrdp_installed && !r.xfce_installed,
            !r.xrdp_enabled && !r.xrdp_active && !r.xrdp_sesman_active,
            !r.port_3389_listening && !r.port_3350_listening && !r.xrdp_in_ssl_cert_group,
            !r.session_configured && !r.xsessionrc_ok,
            r.xrdp_version@.len() == 0 && r.xorgxrdp_version@.len() == 0,
    {
        EnvironmentFacts {
            xrdp_installed: false,
            xrdp_version: String::new(),
            xorgxrdp_installed: false,
            xorgxrdp_version: String::new(),
            xfce_installed: false,
            xrdp_enabled: false,
            xrdp_active: false,
            xrdp_sesman_active: false,
            port_3389_listening: false,
            port_3350_listening: false,
            xrdp_in_ssl_cert_group: false,
            session_configured: false,
            xsessionrc_ok: false,
        }
    }
}

/// The classified environment: its state, the facts, and what is wrong.
#[derive(Debug)]
pub struct RemoteEnvironmentReport {
    pub state: RemoteEnvironmentState,
    pub facts: EnvironmentFacts,
    pub issues: Vec<String>,
}

/// `[s]` when `b`, else nothing.
pub open spec fn issue_if(b: bool, s: Seq<char>) -> Seq<Seq<char>> {
    if b {
        seq![s]
    } else {
        Seq::<Seq<char>>::empty()
    }
}

/// One message per failed fact, in a fixed order.
pub open spec fn issues_spec(f: EnvironmentFacts) -> Seq<Seq<char>> {
    issue_if(!f.xrdp_installed, "xrdp is not installed"@)
        + issue_if(!f.xorgxrdp_installed, "xorgxrdp is not installed"@)
        + issue_if(!f.xfce_installed, "xfce is not installed"@)
        + issue_if(!f.xrdp_enabled, "xrdp is not enabled (systemctl)"@)
        + issue_if(!f.xrdp_active, "xrdp service is not running"@)
        + issue_if(!f.xrdp_sesman_active, "xrdp-sesman service is not running"@)
        + issue_if(!f.port_3389_listening, "port 3389 is not listening"@)
        + issue_if(!f.port_3350_listening, "xrdp-sesman port 3350 is not listening"@)
        + issue_if(!f.xrdp_in_ssl_cert_group, "xrdp cannot read its TLS key (missing ssl-cert group membership)"@)
        + issue_if(!f.session_configured, "session is not configured (~/.xsession)"@)
        + issue_if(!f.xsessionrc_ok, ".xsessionrc has a shell syntax error"@)
}

/// Whether all three desktop components are installed.
pub open spec fn all_components(f: EnvironmentFacts) -> bool {
    f.xrdp_installed && f.xorgxrdp_installed && f.xfce_installed
}

/// Whether the service is enabled, running, listening and can read its key.
pub open spec fn service_ok(f: EnvironmentFacts) -> bool {
    f.xrdp_enabled && f.xrdp_active && f.xrdp_sesman_active && f.port_3389_listening && f.port_3350_listening
        && f.xrdp_in_ssl_cert_group
}

/// The state: ready when everything holds; provisioning required when no
/// component is installed; partial when some are; broken otherwise.
pub open spec fn state_spec(f: EnvironmentFacts) -> RemoteEnvironmentState {
    if all_components(f) && service_ok(f) && f.session_configured && f.xsessionrc_ok {
        RemoteEnvironmentState::Ready
    } else if !(f.xrdp_installed || f.xorgxrdp_installed || f.xfce_installed) {
        RemoteEnvironmentState::ProvisionRequired
    } else if !all_components(f) {
        RemoteEnvironmentState::Partial
    } else {
        RemoteEnvironmentState::Broken
    }
}

/// The texts of a list of strings.
pub open spec fn strings_view(v: Seq<String>) -> Seq<Seq<char>> {
    v.map_values(|s: String| s@)
}

fn push_issue(issues: &mut Vec<String>, b: bool, s: &str)
    ensures
        strings_view(final(issues)@) == strings_view(old(issues)@) + issue_if(b, s@),
{
    if b {
        issues.push(owned(s));
        assert(strings_view(issues@) =~= strings_view(old(issues)@) + issue_if(b, s@));
    } else {
        assert(strings_view(issues@) =~= strings_view(old(issues)@) + issue_if(b, s@));
    }
}

/// Classify environment facts into a state and the list of issues.
pub fn classify(facts: &EnvironmentFacts) -> (r: RemoteEnvironmentReport)
    ensures
        r.state == state_spec(*facts),
        same_facts(r.facts, *facts),
        strings_view(r.issues@) == issues_spec(*facts),
{
    let f = facts;
    let mut issues: Vec<String> = Vec::new();
    assert(strings_view(issues@) =~= Seq::<Seq<char>>::empty());
    push_issue(&mut issues, !f.xrdp_installed, "xrdp is not installed");
    push_issue(&mut issues, !f.xorgxrdp_installed, "xorgxrdp is not installed");
    push_issue(&mut issues, !f.xfce_installed, "xfce is not installed");
    push_issue(&mut issues, !f.xrdp_enabled, "xrdp is not enabled (systemctl)");
    push_issue(&mut issues, !f.xrdp_active, "xrdp service is not running");
    push_issue(&mut issues, !f.xrdp_sesman_active, "xrdp-sesman service is not running");
    push_issue(&mut issues, !f.port_3389_listening, "port 3389 is not listening");
    push_issue(&mut issues, !f.port_3350_listening, "xrdp-sesman port 3350 is not listening");
    push_issue(
        &mut issues,
        !f.xrdp_in_ssl_cert_group,
        "xrdp cannot read its TLS key (missing ssl-cert group membership)",
    );
    push_issue(&mut issues, !f.session_configured, "session is not configured (~/.xsession)");
    push_issue(&mut issues, !f.xsessionrc_ok, ".xsessionrc has a shell syntax error");
    assert(strings_view(issues@) =~= issues_spec(*facts));

    let any_installed = f.xrdp_installed || f.xorgxrdp_installed || f.xfce_installed;
    let all = f.xrdp_installed && f.xorgxrdp_installed && f.xfce_installed;
    let service = f.xrdp_enabled && f.xrdp_active && f.xrdp_sesman_active && f.port_3389_listening
        && f.port_3350_listening && f.xrdp_in_ssl_cert_group;
    let state = if all && service && f.session_configured && f.xsessionrc_ok {
        RemoteEnvironmentState::Ready
    } else if !any_installed {
        RemoteEnvironmentState::ProvisionRequired
    } else if !all {
        RemoteEnvironmentState::Partial
    } else {
        RemoteEnvironmentState::Broken
    };
    RemoteEnvironmentReport { state, facts: facts.copy(), issues }
}

/// An environment is ready exactly when no issue is reported.
pub proof fn ready_iff_no_issues(f: EnvironmentFacts)
    ensures
        (state_spec(f) == RemoteEnvironmentState::Ready) <==> issues_spec(f).len() == 0,
{
}

/// The state a classification reports, by what is installed and running:
/// ready exactly when every fact holds; provisioning required exactly when
/// none of xrdp, xorgxrdp and xfce is installed; partial exactly when some
/// but not all of them are installed; broken when all three are installed
/// but something else fails.
pub proof fn state_by_installed_components(f: EnvironmentFacts, r: RemoteEnvironmentReport)
    requires
        r.state == state_spec(f),
    ensures
        ({
            let some = f.xrdp_installed || f.xorgxrdp_installed || f.xfce_installed;
            let all = f.xrdp_installed && f.xorgxrdp_installed && f.xfce_installed;
            let everything = all && f.xrdp_enabled && f.xrdp_active && f.xrdp_sesman_active
                && f.port_3389_listening && f.port_3350_listening && f.xrdp_in_ssl_cert_group
                && f.session_configured && f.xsessionrc_ok;
            &&& (r.state == RemoteEnvironmentState::Ready) <==> everything
            &&& (r.state == RemoteEnvironmentState::ProvisionRequired) <==> !some
            &&& (r.state == RemoteEnvironmentState::Partial) <==> (some && !all)
            &&& (r.state == RemoteEnvironmentState::Broken) <==> (all && !everything)
        }),
{
}

/// 1 for a failed fact, 0 for one that holds.
pub open spec fn failed(b: bool) -> int {
    if b {
        0
    } else {
        1
    }
}

/// The number of failed facts among the eleven the check reports on.
pub open spec fn failed_count(f: EnvironmentFacts) -> int {
    failed(f.xrdp_installed) + failed(f.xorgxrdp_installed) + failed(f.xfce_installed) + failed(f.xrdp_enabled)
        + failed(f.xrdp_active) + failed(f.xrdp_sesman_active) + failed(f.port_3389_listening) + failed(
        f.port_3350_listening,
    ) + failed(f.xrdp_in_ssl_cert_group) + failed(f.session_configured) + failed(f.xsessionrc_ok)
}

/// One issue is reported per failed fact.
pub proof fn one_issue_per_failed_fact(f: EnvironmentFacts)
    ensures
        issues_spec(f).len() == failed_count(f),
{
}

/// The component versions never change the state or the issues.
pub proof fn versions_do_not_matter(f: EnvironmentFacts, g: EnvironmentFacts)
    requires
        f.xrdp_installed == g.xrdp_installed,
        f.xorgxrdp_installed == g.xorgxrdp_installed,
        f.xfce_installed == g.xfce_installed,
        f.xrdp_enabled == g.xrdp_enabled,
        f.xrdp_active == g.xrdp_active,
        f.xrdp_sesman_active == g.xrdp_sesman_active,
        f.port_3389_listening == g.port_3389_listening,
        f.port_3350_listening == g.port_3350_listening,
        f.xrdp_in_ssl_cert_group == g.xrdp_in_ssl_cert_group,
        f.session_configured == g.session_configured,
        f.xsessionrc_ok == g.xsessionrc_ok,
    ensures
        state_spec(f) == state_spec(g),
        issues_spec(f) == issues_spec(g),
{
}

/// The provisioning stages, streamed to the interface as they happen.
#[derive(Debug, Clone, Copy, PartialEq, Eq, Structural)]
pub enum ProvisionStage {
    CheckingEnvironment,
    AlreadyReady,
    ProvisionRequired,
    Preflight,
    Uploading,
    InstallingPackages,
    ConfiguringSession,
    StartingService,
    Verifying,
    Complete,
}

/// One provisioning progress event.
#[derive(Debug, Clone)]
pub struct ProvisionEvent {
    pub stage: ProvisionStage,
    pub message: String,
    pub detail: Option<String>,
}

/// Where preparing a device's remote desktop stands.
#[derive(Debug, Clone, Copy, PartialEq, Eq, Structural)]
pub enum PreparePhase {
    /// Nothing done yet.
    Start,
    /// The environment check has reported.
    Checked,
    /// Provisioning has finished.
    Provisioned,
    /// The check after provisioning has passed.
    Verified,
}

/// What preparing does next.
#[derive(Debug, Clone, Copy, PartialEq, Eq, Structural)]
pub enum PrepareAction {
    /// Run the read-only environment check.
    Check,
    /// Stop: the desktop was ready before anything was changed.
    FinishAlreadyReady,
    /// Run the provisioning script.
    Provision,
    /// Check the environment again and require it ready.
    Verify,
    /// Stop: the desktop is ready after provisioning.
    FinishProvisioned,
}

/// The stage to report and the next action, given the phase reached and,
/// once checked, the state the check reported: a ready desktop is left as
/// it is; any other state is provisioned and then verified.
pub fn prepare_next(phase: PreparePhase, env: Option<RemoteEnvironmentState>) -> (r: (ProvisionStage, PrepareAction))
    ensures
        r == (match phase {
            PreparePhase::Start => (ProvisionStage::CheckingEnvironment, PrepareAction::Check),
            PreparePhase::Checked => if env == Some(RemoteEnvironmentState::Ready) {
                (ProvisionStage::AlreadyReady, PrepareAction::FinishAlreadyReady)
            } else {
                (ProvisionStage::ProvisionRequired, PrepareAction::Provision)
            },
            PreparePhase::Provisioned => (ProvisionStage::Verifying, PrepareAction::Verify),
            PreparePhase::Verified => (ProvisionStage::Complete, PrepareAction::FinishProvisioned),
        }),
{
    match phase {
        PreparePhase::Start => (ProvisionStage::CheckingEnvironment, PrepareAction::Check),
        PreparePhase::Checked => match env {
            Some(RemoteEnvironmentState::Ready) => (ProvisionStage::AlreadyReady, PrepareAction::FinishAlreadyReady),
            _ => (ProvisionStage::ProvisionRequired, PrepareAction::Provision),
        },
        PreparePhase::Provisioned => (ProvisionStage::Verifying, PrepareAction::Verify),
        PreparePhase::Verified => (ProvisionStage::Complete, PrepareAction::FinishProvisioned),
    }
}

} // verus!
