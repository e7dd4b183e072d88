//! The report on everything that a profile needs to work.

use vstd::prelude::*;
use vstd::string::*;
use crate::failure::{Failure, outcome, refuse, refuse_about, refuse_naming, refused};
use crate::install::RemoteInstall;
use crate::lifecycle::{metadata_refusal, verify_remote_metadata};
use crate::probe::{
    Check, CheckView, check_views, is_supported_arch, is_supported_kernel, supported_arch,
    supported_kernel,
};
use crate::profile::{Profile, ProfileStatus, ProfileView};
use crate::ssh::RemoteFacts;
use crate::text::same_text;

verus! {

#[derive(Debug, Clone, Copy, PartialEq, Eq, Structural)]
pub enum DoctorStatus {
    Pass,
    Fail,
    Skip,
}

impl DoctorStatus {
    pub open spec fn name(&self) -> Seq<char> {
        match self {
            DoctorStatus::Pass => "pass"@,
            DoctorStatus::Fail => "fail"@,
            DoctorStatus::Skip => "skip"@,
        }
    }

    pub fn label(&self) -> (r: &'static str)
        ensures
            r@ == self.name(),
    {
        match self {
            DoctorStatus::Pass => "pass",
            DoctorStatus::Fail => "fail",
            DoctorStatus::Skip => "skip",
        }
    }
}

/// One line of the report.
#[derive(Debug)]
pub struct DoctorCheck {
    pub name: String,
    pub status: DoctorStatus,
    pub detail: String,
}

pub struct DoctorCheckView {
    pub name: Seq<char>,
    pub status: DoctorStatus,
    pub detail: Seq<char>,
}

impl View for DoctorCheck {
    type V = DoctorCheckView;

    open spec fn view(&self) -> DoctorCheckView {
        DoctorCheckView { name: self.name@, status: self.status, detail: self.detail@ }
    }
}

pub open spec fn doctor_views(checks: Seq<DoctorCheck>) -> Seq<DoctorCheckView> {
    checks.map_values(|c: DoctorCheck| c@)
}

/// A check that came to this.
pub open spec fn finding(name: Seq<char>, result: Result<Seq<char>, Seq<char>>) -> DoctorCheckView {
    match result {
        Ok(detail) => DoctorCheckView { name, status: DoctorStatus::Pass, detail },
        Err(detail) => DoctorCheckView { name, status: DoctorStatus::Fail, detail },
    }
}

/// A check that was left out.
pub open spec fn skipped(name: Seq<char>, detail: Seq<char>) -> DoctorCheckView {
    DoctorCheckView { name, status: DoctorStatus::Skip, detail }
}

impl DoctorCheck {
    pub fn from_result(name: &str, result: Result<String, Failure>) -> (r: DoctorCheck)
        ensures
            r@ == finding(name@, outcome(result)),
    {
        match result {
            Ok(detail) => DoctorCheck { name: name.to_owned(), status: DoctorStatus::Pass, detail },
            Err(e) => DoctorCheck {
                name: name.to_owned(),
                status: DoctorStatus::Fail,
                detail: e.message,
            },
        }
    }

    pub fn skip(name: &str, detail: &str) -> (r: DoctorCheck)
        ensures
            r@ == skipped(name@, detail@),
    {
        DoctorCheck {
            name: name.to_owned(),
            status: DoctorStatus::Skip,
            detail: detail.to_owned(),
        }
    }
}

/// What was found out about a profile on this machine.
#[derive(Debug)]
pub struct LocalFindings {
    pub bridge_running: bool,
    /// Whether the token could be read.
    pub token: Result<(), Failure>,
    pub codex_checks: Vec<Check>,
    pub current_version: Result<String, Failure>,
    /// Whether the SSH configuration is still the one that was recorded.
    pub ssh_unchanged: Result<bool, Failure>,
}

/// What was found out about a profile's host.
#[derive(Debug)]
pub struct RemoteFindings {
    pub connection: Result<(), Failure>,
    pub facts: Result<RemoteFacts, Failure>,
    pub install: Result<RemoteInstall, Failure>,
    /// Whether the executor is still the one that was installed.
    pub executor: Result<(), Failure>,
    pub alias: Result<(), Failure>,
    pub transport: Result<(), Failure>,
}

// ---------------------------------------------------------------------------
// This machine
// ---------------------------------------------------------------------------

pub open spec fn state_finding(profile: ProfileView) -> Result<Seq<char>, Seq<char>> {
    if profile.status == ProfileStatus::Ready {
        Ok("profile contract suite has passed"@)
    } else {
        Err(
            "status is "@ + profile.status.name()
                + "; remote artifacts and end-to-end contracts are incomplete"@,
        )
    }
}

fn state_check(profile: &Profile) -> (r: Result<String, Failure>)
    ensures
        outcome(r) == state_finding(profile@),
{
    if profile.status == ProfileStatus::Ready {
        Ok("profile contract suite has passed".to_owned())
    } else {
        Err(
            refuse_naming(
                "status is ",
                profile.status.label(),
                "; remote artifacts and end-to-end contracts are incomplete",
            ),
        )
    }
}

pub open spec fn bridge_finding(running: bool, name: Seq<char>) -> Result<Seq<char>, Seq<char>> {
    if running {
        Ok("background bridge is running"@)
    } else {
        Err("bridge is stopped; run 'cxs up "@ + name + "'"@)
    }
}

fn bridge_check(running: bool, name: &str) -> (r: Result<String, Failure>)
    ensures
        outcome(r) == bridge_finding(running, name@),
{
    if running {
        Ok("background bridge is running".to_owned())
    } else {
        Err(refuse_naming("bridge is stopped; run 'cxs up ", name, "'"))
    }
}

/// A result without a value, with a text for success.
pub open spec fn with_detail(result: Result<(), Failure>, detail: Seq<char>) -> Result<
    Seq<char>,
    Seq<char>,
> {
    match result {
        Ok(_) => Ok(detail),
        Err(e) => Err(e@),
    }
}

fn detailed(result: Result<(), Failure>, detail: &str) -> (r: Result<String, Failure>)
    ensures
        outcome(r) == with_detail(result, detail@),
{
    match result {
        Ok(_) => Ok(detail.to_owned()),
        Err(e) => Err(e),
    }
}

pub open spec fn version_match_finding(
    current: Result<Seq<char>, Seq<char>>,
    pinned: Seq<char>,
) -> Result<Seq<char>, Seq<char>> {
    match current {
        Ok(current) => if current == pinned {
            Ok("pinned version "@ + current)
        } else {
            Err("profile="@ + pinned + " current="@ + current)
        },
        Err(e) => Err(e),
    }
}

fn version_check(current: Result<String, Failure>, pinned: &str) -> (r: Result<String, Failure>)
    ensures
        outcome(r) == version_match_finding(outcome(current), pinned@),
{
    match current {
        Ok(current) => if same_text(&current, pinned) {
            let mut detail = "pinned version ".to_owned();
            detail.push_str(&current);
            Ok(detail)
        } else {
            let mut message = "profile=".to_owned();
            message.push_str(pinned);
            message.push_str(" current=");
            message.push_str(&current);
            Err(Failure { message })
        },
        Err(e) => Err(e),
    }
}

pub open spec fn ssh_finding(unchanged: Result<bool, Failure>) -> Result<Seq<char>, Seq<char>> {
    match unchanged {
        Ok(true) => Ok("resolved SSH configuration matches snapshot"@),
        Ok(false) => Err("source SSH configuration changed; recreate the profile"@),
        Err(e) => Err(e@),
    }
}

fn ssh_check(unchanged: Result<bool, Failure>) -> (r: Result<String, Failure>)
    ensures
        outcome(r) == ssh_finding(unchanged),
{
    match unchanged {
        Ok(true) => Ok("resolved SSH configuration matches snapshot".to_owned()),
        Ok(false) => Err(refuse("source SSH configuration changed; recreate the profile")),
        Err(e) => Err(e),
    }
}

/// A finding about the local Codex, as a line of the report.
pub open spec fn codex_line(check: CheckView) -> DoctorCheckView {
    DoctorCheckView {
        name: check.name,
        status: if check.passed {
            DoctorStatus::Pass
        } else {
            DoctorStatus::Fail
        },
        detail: check.detail,
    }
}

pub open spec fn local_lines(
    profile: ProfileView,
    name: Seq<char>,
    found: LocalFindings,
) -> Seq<DoctorCheckView> {
    seq![
        finding("profile-state"@, state_finding(profile)),
        finding("local-bridge"@, bridge_finding(found.bridge_running, name)),
        finding("profile-token"@, with_detail(found.token, "private profile token is valid"@)),
    ] + check_views(found.codex_checks@).map_values(|c: CheckView| codex_line(c)) + seq![
        finding(
            "version-match"@,
            version_match_finding(outcome(found.current_version), profile.codex_version),
        ),
        finding("ssh-config"@, ssh_finding(found.ssh_unchanged)),
    ]
}

// ---------------------------------------------------------------------------
// The host
// ---------------------------------------------------------------------------

pub open spec fn platform_finding(facts: Result<RemoteFacts, Failure>) -> Result<
    Seq<char>,
    Seq<char>,
> {
    match facts {
        Ok(facts) => if !is_supported_kernel(facts.kernel@) {
            Err("unsupported kernel "@ + facts.kernel@)
        } else if !is_supported_arch(facts.kernel@, facts.arch@) {
            Err("unsupported architecture "@ + facts.arch@)
        } else {
            Ok(facts.kernel@ + " "@ + facts.arch@ + " home="@ + facts.home@)
        },
        Err(e) => Err(e@),
    }
}

fn platform_check(facts: Result<RemoteFacts, Failure>) -> (r: Result<String, Failure>)
    ensures
        outcome(r) == platform_finding(facts),
{
    match facts {
        Ok(facts) => {
            if !supported_kernel(&facts.kernel) {
                return Err(refuse_about("unsupported kernel ", &facts.kernel));
            }
            if !supported_arch(&facts.kernel, &facts.arch) {
                return Err(refuse_about("unsupported architecture ", &facts.arch));
            }
            let mut detail = facts.kernel;
            detail.push_str(" ");
            detail.push_str(&facts.arch);
            detail.push_str(" home=");
            detail.push_str(&facts.home);
            Ok(detail)
        },
        Err(e) => Err(e),
    }
}

pub open spec fn install_finding(
    profile: ProfileView,
    install: Result<RemoteInstall, Failure>,
    executor: Result<(), Failure>,
) -> Result<Seq<char>, Seq<char>> {
    match install {
        Ok(remote) => match metadata_refusal(profile, remote) {
            Some(message) => Err(message),
            None => match executor {
                Ok(_) => Ok(
                    remote.release@ + " ("@ + remote.target@ + ", "@ + (
                    match remote.executor_source {
                        Some(source) => source.name(),
                        None => "legacy-package"@,
                    }) + ")"@,
                ),
                Err(e) => Err(e@),
            },
        },
        Err(e) => Err(e@),
    }
}

fn install_check(
    profile: &Profile,
    install: Result<RemoteInstall, Failure>,
    executor: Result<(), Failure>,
) -> (r: Result<String, Failure>)
    ensures
        outcome(r) == install_finding(profile@, install, executor),
{
    let remote = match install {
        Ok(remote) => remote,
        Err(e) => return Err(e),
    };
    match verify_remote_metadata(profile, &remote) {
        Ok(_) => {},
        Err(e) => return Err(e),
    }
    match executor {
        Ok(_) => {},
        Err(e) => return Err(e),
    }
    let source = match remote.executor_source {
        Some(source) => source.label(),
        None => "legacy-package".to_owned(),
    };
    let mut detail = remote.release;
    detail.push_str(" (");
    detail.push_str(&remote.target);
    detail.push_str(", ");
    detail.push_str(&source);
    detail.push_str(")");
    Ok(detail)
}

pub open spec fn remote_lines(profile: ProfileView, found: RemoteFindings) -> Seq<DoctorCheckView> {
    seq![
        finding("ssh-connection"@, with_detail(found.connection, "non-interactive SSH succeeded"@)),
        finding("remote-platform"@, platform_finding(found.facts)),
        finding("remote-install"@, install_finding(profile, found.install, found.executor)),
        finding(
            "ssh-agent-alias"@,
            with_detail(found.alias, "generated alias accepts ordinary SSH commands"@),
        ),
        finding(
            "execution-transport"@,
            with_detail(
                found.transport,
                "environment ready; remote filesystem and command execution passed"@,
            ),
        ),
    ]
}

pub open spec fn offline_lines() -> Seq<DoctorCheckView> {
    seq![
        skipped("ssh-connection"@, "offline mode"@),
        skipped("remote-platform"@, "offline mode"@),
        skipped("remote-install"@, "offline mode"@),
        skipped("ssh-agent-alias"@, "offline mode"@),
        skipped("execution-transport"@, "offline mode"@),
    ]
}

/// The lines about the host.
pub fn doctor_remote(profile: &Profile, found: Option<RemoteFindings>) -> (r: Vec<DoctorCheck>)
    ensures
        doctor_views(r@) == match found {
            Some(found) => remote_lines(profile@, found),
            None => offline_lines(),
        },
{
    let mut checks: Vec<DoctorCheck> = Vec::new();
    match found {
        Some(found) => {
            let ghost all = remote_lines(profile@, found);
            checks.push(
                DoctorCheck::from_result(
                    "ssh-connection",
                    detailed(found.connection, "non-interactive SSH succeeded"),
                ),
            );
            checks.push(DoctorCheck::from_result("remote-platform", platform_check(found.facts)));
            checks.push(
                DoctorCheck::from_result(
                    "remote-install",
                    install_check(profile, found.install, found.executor),
                ),
            );
            checks.push(
                DoctorCheck::from_result(
                    "ssh-agent-alias",
                    detailed(found.alias, "generated alias accepts ordinary SSH commands"),
                ),
            );
            checks.push(
                DoctorCheck::from_result(
                    "execution-transport",
                    detailed(
                        found.transport,
                        "environment ready; remote filesystem and command execution passed",
                    ),
                ),
            );
            assert(doctor_views(checks@) =~= all);
        },
        None => {
            checks.push(DoctorCheck::skip("ssh-connection", "offline mode"));
            checks.push(DoctorCheck::skip("remote-platform", "offline mode"));
            checks.push(DoctorCheck::skip("remote-install", "offline mode"));
            checks.push(DoctorCheck::skip("ssh-agent-alias", "offline mode"));
            checks.push(DoctorCheck::skip("execution-transport", "offline mode"));
            assert(doctor_views(checks@) =~= offline_lines());
        },
    }
    checks
}

// ---------------------------------------------------------------------------
// The report
// ---------------------------------------------------------------------------

#[derive(Debug)]
pub struct DoctorReport {
    pub profile: String,
    pub ready: bool,
    pub checks: Vec<DoctorCheck>,
}

/// Whether no check failed.
pub open spec fn nothing_failed(checks: Seq<DoctorCheckView>) -> bool {
    forall|i: int| 0 <= i < checks.len() ==> (#[trigger] checks[i]).status != DoctorStatus::Fail
}

/// Examines a profile; without findings about the host, offline.
pub fn doctor(
    profile: &Profile,
    name: &str,
    local: LocalFindings,
    remote: Option<RemoteFindings>,
) -> (r: DoctorReport)
    ensures
        r.profile@ == name@,
        doctor_views(r.checks@) == local_lines(profile@, name@, local) + match remote {
            Some(found) => remote_lines(profile@, found),
            None => offline_lines(),
        },
        r.ready == nothing_failed(doctor_views(r.checks@)),
{
    let ghost expected = local_lines(profile@, name@, local);
    let ghost codex = check_views(local.codex_checks@);
    let ghost lines = codex.map_values(|c: CheckView| codex_line(c));
    let mut checks: Vec<DoctorCheck> = Vec::new();
    checks.push(DoctorCheck::from_result("profile-state", state_check(profile)));
    checks.push(
        DoctorCheck::from_result("local-bridge", bridge_check(local.bridge_running, name)),
    );
    checks.push(
        DoctorCheck::from_result(
            "profile-token",
            detailed(local.token, "private profile token is valid"),
        ),
    );
    let ghost head = seq![
        finding("profile-state"@, state_finding(profile@)),
        finding("local-bridge"@, bridge_finding(local.bridge_running, name@)),
        finding("profile-token"@, with_detail(local.token, "private profile token is valid"@)),
    ];
    assert(doctor_views(checks@) =~= head + lines.take(0));
    let mut i: usize = 0;
    while i < local.codex_checks.len()
        invariant
            i <= local.codex_checks.len(),
            codex == check_views(local.codex_checks@),
            lines == codex.map_values(|c: CheckView| codex_line(c)),
            doctor_views(checks@) == head + lines.take(i as int),
        decreases local.codex_checks.len() - i,
    {
        let ghost before = checks@;
        let found = &local.codex_checks[i];
        let status = if found.passed {
            DoctorStatus::Pass
        } else {
            DoctorStatus::Fail
        };
        checks.push(
            DoctorCheck { name: found.name.clone(), status, detail: found.detail.clone() },
        );
        proof {
            assert(codex[i as int] == found@);
            assert(doctor_views(checks@) =~= doctor_views(before).push(codex_line(found@)));
            assert(head + lines.take(i as int + 1) =~= (head + lines.take(i as int)).push(
                lines[i as int],
            ));
        }
        i = i + 1;
    }
    assert(lines.take(i as int) =~= lines);
    let ghost before = checks@;
    checks.push(
        DoctorCheck::from_result(
            "version-match",
            version_check(local.current_version, &profile.codex_version),
        ),
    );
    checks.push(DoctorCheck::from_result("ssh-config", ssh_check(local.ssh_unchanged)));
    assert(doctor_views(checks@) =~= expected) by {
        assert(doctor_views(before) == head + lines);
        let tail = seq![
            finding(
                "version-match"@,
                version_match_finding(
                    outcome(local.current_version),
                    profile@.codex_version,
                ),
            ),
            finding("ssh-config"@, ssh_finding(local.ssh_unchanged)),
        ];
        assert(doctor_views(checks@) =~= doctor_views(before) + tail);
    }
    let mut more = doctor_remote(profile, remote);
    let ghost first = checks@;
    let ghost second = more@;
    checks.append(&mut more);
    assert(doctor_views(checks@) =~= doctor_views(first) + doctor_views(second));
    let mut ready = true;
    let mut i: usize = 0;
    while i < checks.len()
        invariant
            i <= checks.len(),
            ready == forall|j: int|
                0 <= j < i ==> (#[trigger] doctor_views(checks@)[j]).status != DoctorStatus::Fail,
        decreases checks.len() - i,
    {
        assert(doctor_views(checks@)[i as int] == checks@[i as int]@);
        if checks[i].status == DoctorStatus::Fail {
            ready = false;
        }
        i = i + 1;
    }
    DoctorReport { profile: name.to_owned(), ready, checks }
}

/// What the examination comes to.
pub fn require_ready(report: &DoctorReport) -> (r: Result<(), Failure>)
    ensures
        if report.ready {
            r is Ok
        } else {
            refused(r, "profile '"@ + report.profile@ + "' is not ready"@)
        },
{
    if report.ready {
        Ok(())
    } else {
        Err(refuse_naming("profile '", &report.profile, "' is not ready"))
    }
}

/// A profile that is not ready never passes the examination, online or not.
pub proof fn law_unready_profiles_fail(
    profile: ProfileView,
    name: Seq<char>,
    local: LocalFindings,
    rest: Seq<DoctorCheckView>,
)
    requires
        profile.status != ProfileStatus::Ready,
    ensures
        !nothing_failed(local_lines(profile, name, local) + rest),
{
    let all = local_lines(profile, name, local) + rest;
    assert(all[0] == finding("profile-state"@, state_finding(profile)));
    assert(all[0].status == DoctorStatus::Fail);
}

} // verus!
