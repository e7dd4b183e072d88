//! The life of a profile: added, installed, verified, rolled back.

use vstd::prelude::*;
use vstd::string::*;
use crate::failure::{Failure, refuse, refused};
use crate::install::{
    ExecutorArtifact, InstallPlan, InstallRecord, RemoteInstall, describes_release,
};
use crate::profile::{Profile, ProfileStatus, ProfileView, name_error, validate_profile_name};
use crate::text::{
    contains_text, number_in, occurs, optional_text, parse_number, same_text, trim, trimmed,
};

verus! {

// ---------------------------------------------------------------------------
// Adding
// ---------------------------------------------------------------------------

/// The name of a profile that is added: the one asked for, or the host's.
pub fn profile_name_for<'a>(host: &'a str, requested: Option<&'a str>) -> (r: Result<&'a str, Failure>)
    ensures
        ({
            let name = match requested {
                Some(name) => name@,
                None => host@,
            };
            match name_error(name) {
                Some(e) => refused(
                    r,
                    "'"@ + name
                        + "' cannot be used as a profile name; pass a safe name with --name: "@
                        + e.text(),
                ),
                None => r matches Ok(chosen) && chosen@ == name,
            }
        }),
{
    let name = match requested {
        Some(name) => name,
        None => host,
    };
    match validate_profile_name(name) {
        Ok(_) => Ok(name),
        Err(e) => {
            let mut message = "'".to_owned();
            message.push_str(name);
            message.push_str("' cannot be used as a profile name; pass a safe name with --name: ");
            message.push_str(e.message());
            Err(Failure { message })
        },
    }
}

/// Why a profile that is there already cannot be refreshed.
pub open spec fn refresh_refusal(
    profile: ProfileView,
    name: Seq<char>,
    host: Seq<char>,
    version: Seq<char>,
) -> Option<Seq<char>> {
    if profile.source_host != host {
        Some(
            "profile '"@ + name + "' already tracks SSH host '"@ + profile.source_host
                + "'; choose another --name or remove it first"@,
        )
    } else if profile.codex_version != version {
        Some(
            "profile '"@ + name + "' pins "@ + profile.codex_version + "; current local Codex is "@
                + version + "; run 'cxs update "@ + name + "'"@,
        )
    } else {
        None
    }
}

/// Whether adding a host again only refreshes its profile.
pub fn check_refresh(profile: &Profile, name: &str, host: &str, version: &str) -> (r: Result<
    (),
    Failure,
>)
    ensures
        match refresh_refusal(profile@, name@, host@, version@) {
            Some(message) => refused(r, message),
            None => r is Ok,
        },
{
    if !same_text(&profile.source_host, host) {
        let mut message = "profile '".to_owned();
        message.push_str(name);
        message.push_str("' already tracks SSH host '");
        message.push_str(&profile.source_host);
        message.push_str("'; choose another --name or remove it first");
        return Err(Failure { message });
    }
    if !same_text(&profile.codex_version, version) {
        let mut message = "profile '".to_owned();
        message.push_str(name);
        message.push_str("' pins ");
        message.push_str(&profile.codex_version);
        message.push_str("; current local Codex is ");
        message.push_str(version);
        message.push_str("; run 'cxs update ");
        message.push_str(name);
        message.push_str("'");
        return Err(Failure { message });
    }
    Ok(())
}

// ---------------------------------------------------------------------------
// Installing
// ---------------------------------------------------------------------------

/// The profile that an installation of this Codex is planned for.
pub fn candidate(profile: &Profile, codex_version: &str) -> (r: Profile)
    ensures
        r@ == (ProfileView { codex_version: codex_version@, ..profile@ }),
{
    let mut candidate = profile.copy();
    candidate.codex_version = codex_version.to_owned();
    candidate
}

/// The profile once an installation has succeeded, before it is verified.
pub open spec fn installed(profile: ProfileView, record: InstallRecord) -> ProfileView {
    ProfileView {
        status: ProfileStatus::Installed,
        installed_target: Some(record.target@),
        remote_home: Some(record.remote_home@),
        remote_release: Some(record.remote_release@),
        package_sha256: optional_text(record.package_sha256),
        shim_sha256: Some(record.shim_sha256@),
        executor_source: Some(record.executor_source.name()),
        executor_path: Some(record.executor_path@),
        ..profile
    }
}

pub fn record_install(profile: &mut Profile, record: InstallRecord)
    ensures
        final(profile)@ == installed(old(profile)@, record),
{
    profile.status = ProfileStatus::Installed;
    profile.executor_source = Some(record.executor_source.label());
    profile.installed_target = Some(record.target);
    profile.remote_home = Some(record.remote_home);
    profile.remote_release = Some(record.remote_release);
    profile.package_sha256 = record.package_sha256;
    profile.shim_sha256 = Some(record.shim_sha256);
    profile.executor_path = Some(record.executor_path);
}

/// The profile once the host has gone back to this release, before it is
/// verified.
pub open spec fn rolled_back(profile: ProfileView, remote: RemoteInstall) -> ProfileView {
    ProfileView {
        codex_version: remote.codex_version@,
        status: ProfileStatus::Installed,
        installed_target: Some(remote.target@),
        remote_release: Some(remote.release@),
        package_sha256: optional_text(remote.package_sha256),
        shim_sha256: Some(remote.shim_sha256@),
        executor_source: match remote.executor_source {
            Some(source) => Some(source.name()),
            None => None,
        },
        executor_path: optional_text(remote.executor_path),
        ..profile
    }
}

pub fn record_rollback(profile: &mut Profile, remote: RemoteInstall)
    ensures
        final(profile)@ == rolled_back(old(profile)@, remote),
{
    profile.codex_version = remote.codex_version;
    profile.installed_target = Some(remote.target);
    profile.remote_release = Some(remote.release);
    profile.package_sha256 = remote.package_sha256;
    profile.shim_sha256 = Some(remote.shim_sha256);
    profile.executor_source = match remote.executor_source {
        Some(source) => Some(source.label()),
        None => None,
    };
    profile.executor_path = remote.executor_path;
    profile.status = ProfileStatus::Installed;
}

/// The profile once the whole path to the host has been probed: ready where
/// the probe succeeded, and as it was where it did not.
pub open spec fn probed(profile: ProfileView, probe: Result<(), Failure>) -> ProfileView {
    match probe {
        Ok(_) => ProfileView { status: ProfileStatus::Ready, ..profile },
        Err(_) => profile,
    }
}

pub fn mark_ready(profile: &mut Profile, probe: &Result<(), Failure>)
    ensures
        final(profile)@ == probed(old(profile)@, *probe),
{
    match probe {
        Ok(_) => {
            profile.status = ProfileStatus::Ready;
        },
        Err(_) => {},
    }
}

/// The profile once its version has been held against that of the local Codex:
/// one that was ready for another version is broken.
pub open spec fn rechecked(profile: ProfileView, current: Seq<char>) -> ProfileView {
    if profile.status == ProfileStatus::Ready && current != profile.codex_version {
        ProfileView { status: ProfileStatus::Broken, ..profile }
    } else {
        profile
    }
}

/// Holds the version of a profile against that of the local Codex; true where
/// that changed the profile.
pub fn recheck(profile: &mut Profile, current: &str) -> (r: bool)
    ensures
        final(profile)@ == rechecked(old(profile)@, current@),
        r == (final(profile)@ != old(profile)@),
{
    if profile.status == ProfileStatus::Ready && !same_text(current, &profile.codex_version) {
        profile.status = ProfileStatus::Broken;
        true
    } else {
        false
    }
}

/// Whether the desktop client may use a profile.
pub fn usable_in_app(profile: &Profile) -> (r: bool)
    ensures
        r == (profile@.status == ProfileStatus::Ready),
{
    profile.status == ProfileStatus::Ready
}

/// How an installation that fails its verification is taken back.
#[derive(Debug, Clone, Copy, PartialEq, Eq, Structural)]
pub enum Recovery {
    /// It was the first one: take it away and restore the profile.
    Uninstall,
    /// Go back to the release before it.
    RollBack,
}

pub fn recovery_for(previous: &Profile) -> (r: Recovery)
    ensures
        r == if previous@.status == ProfileStatus::Prepared {
            Recovery::Uninstall
        } else {
            Recovery::RollBack
        },
{
    if previous.status == ProfileStatus::Prepared {
        Recovery::Uninstall
    } else {
        Recovery::RollBack
    }
}

/// Takes an installation that failed its verification back in the profile:
/// `rolled_back` is the release that the host went back to.
pub fn recover_failed_install(
    profile: &mut Profile,
    previous: &Profile,
    rolled_back: Option<RemoteInstall>,
) -> (r: &'static str)
    ensures
        match rolled_back {
            None => final(profile)@ == previous@ && r@
                == "removed the unverified first install and restored the prepared profile"@,
            Some(remote) => final(profile)@ == self::rolled_back(old(profile)@, remote) && r@
                == "rolled the remote host back to the previous verified release"@,
        },
{
    match rolled_back {
        None => {
            *profile = previous.copy();
            "removed the unverified first install and restored the prepared profile"
        },
        Some(remote) => {
            record_rollback(profile, remote);
            "rolled the remote host back to the previous verified release"
        },
    }
}

/// What the user reads when an installation fails its verification.
pub fn failed_install(error: &Failure, recovery: &Result<String, Failure>) -> (r: Failure)
    ensures
        r@ == match *recovery {
            Ok(detail) => "installed artifacts failed verification; "@ + detail@ + ": "@ + error@,
            Err(e) =>
                "installed artifacts failed verification, and automatic recovery also failed: "@
                + e@ + ": "@ + error@,
        },
{
    let mut message = match recovery {
        Ok(detail) => {
            let mut message = "installed artifacts failed verification; ".to_owned();
            message.push_str(detail);
            message
        },
        Err(e) => {
            let mut message =
                "installed artifacts failed verification, and automatic recovery also failed: ".to_owned();
            message.push_str(&e.message);
            message
        },
    };
    message.push_str(": ");
    message.push_str(&error.message);
    Failure { message }
}

/// What the user reads when a rollback fails its verification.
pub fn failed_rollback(error: &Failure, recovery: &Result<(), Failure>) -> (r: Failure)
    ensures
        r@ == match *recovery {
            Ok(_) => "rollback verification failed; restored the newer release"@ + ": "@ + error@,
            Err(e) =>
                "rollback verification failed and restoring the newer release also failed: "@ + e@
                + ": "@ + error@,
        },
{
    let mut message = match recovery {
        Ok(_) => "rollback verification failed; restored the newer release".to_owned(),
        Err(e) => {
            let mut message =
                "rollback verification failed and restoring the newer release also failed: ".to_owned();
            message.push_str(&e.message);
            message
        },
    };
    message.push_str(": ");
    message.push_str(&error.message);
    Failure { message }
}

// ---------------------------------------------------------------------------
// The bridge in the background
// ---------------------------------------------------------------------------

/// Why the bridge of a profile cannot start.
pub open spec fn up_refusal(profile: ProfileView, name: Seq<char>, current: Seq<char>) -> Option<
    Seq<char>,
> {
    if profile.status == ProfileStatus::Prepared {
        Some("profile '"@ + name + "' is not installed; run 'cxs install "@ + name + "' first"@)
    } else if current != profile.codex_version {
        Some(
            "Codex version mismatch: profile="@ + profile.codex_version + " current="@ + current,
        )
    } else {
        None
    }
}

pub fn check_up(profile: &Profile, name: &str, current: &str) -> (r: Result<(), Failure>)
    ensures
        match up_refusal(profile@, name@, current@) {
            Some(message) => refused(r, message),
            None => r is Ok,
        },
{
    if profile.status == ProfileStatus::Prepared {
        let mut message = "profile '".to_owned();
        message.push_str(name);
        message.push_str("' is not installed; run 'cxs install ");
        message.push_str(name);
        message.push_str("' first");
        return Err(Failure { message });
    }
    if !same_text(current, &profile.codex_version) {
        let mut message = "Codex version mismatch: profile=".to_owned();
        message.push_str(&profile.codex_version);
        message.push_str(" current=");
        message.push_str(current);
        return Err(Failure { message });
    }
    Ok(())
}

/// The process that a pid file names.
pub fn pid_in(contents: &str) -> (r: Result<u32, Failure>)
    ensures
        match number_in(trim(contents@), u32::MAX as nat) {
            Some(pid) => r == Ok::<u32, Failure>(pid as u32),
            None => refused(r, "bridge pid file is invalid"@),
        },
{
    match parse_number(&trimmed(contents), 0xffff_ffff) {
        Some(pid) => Ok(pid as u32),
        None => Err(refuse("bridge pid file is invalid")),
    }
}

/// Whether a command line is that of the bridge of this profile.
pub fn is_bridge_command(command: &str, name: &str) -> (r: bool)
    ensures
        r == (occurs(command@, "cxs"@) && occurs(command@, "bridge "@ + name@)),
{
    let mut wanted = "bridge ".to_owned();
    wanted.push_str(name);
    contains_text(command, "cxs") && contains_text(command, &wanted)
}

/// Whether the bridge runs: a live process that the pid file names, and that
/// is the bridge of this profile.
pub fn bridge_running(pid: Option<u32>, alive: bool, command: &str, name: &str) -> (r: bool)
    ensures
        r == (pid is Some && alive && occurs(command@, "cxs"@) && occurs(
            command@,
            "bridge "@ + name@,
        )),
{
    pid.is_some() && alive && is_bridge_command(command, name)
}

// ---------------------------------------------------------------------------
// The record on the host
// ---------------------------------------------------------------------------

/// In what the record on the host differs from the profile.
pub open spec fn metadata_refusal(profile: ProfileView, remote: RemoteInstall) -> Option<Seq<char>> {
    let source = match remote.executor_source {
        Some(source) => Some(source.name()),
        None => None,
    };
    if remote.profile@ != profile.name {
        Some("remote profile is "@ + remote.profile@ + ", expected "@ + profile.name)
    } else if remote.codex_version@ != profile.codex_version {
        Some("remote="@ + remote.codex_version@ + " local="@ + profile.codex_version)
    } else if profile.package_sha256 != optional_text(remote.package_sha256) {
        Some("remote Codex package digest does not match local state"@)
    } else if profile.shim_sha256 != Some(remote.shim_sha256@) {
        Some("remote shim digest does not match local state"@)
    } else if profile.executor_source is Some && source != profile.executor_source {
        Some("remote executor source does not match local state"@)
    } else if profile.executor_path is Some && optional_text(remote.executor_path)
        != profile.executor_path {
        Some("remote executor path does not match local state"@)
    } else {
        None
    }
}

fn same_optional(a: &Option<String>, b: &Option<String>) -> (r: bool)
    ensures
        r == (optional_text(*a) == optional_text(*b)),
{
    match (a, b) {
        (Some(a), Some(b)) => same_text(a, b),
        (None, None) => true,
        _ => false,
    }
}

pub fn verify_remote_metadata(profile: &Profile, remote: &RemoteInstall) -> (r: Result<(), Failure>)
    ensures
        match metadata_refusal(profile@, *remote) {
            Some(message) => refused(r, message),
            None => r is Ok,
        },
{
    if !same_text(&remote.profile, &profile.name) {
        let mut message = "remote profile is ".to_owned();
        message.push_str(&remote.profile);
        message.push_str(", expected ");
        message.push_str(&profile.name);
        return Err(Failure { message });
    }
    if !same_text(&remote.codex_version, &profile.codex_version) {
        let mut message = "remote=".to_owned();
        message.push_str(&remote.codex_version);
        message.push_str(" local=");
        message.push_str(&profile.codex_version);
        return Err(Failure { message });
    }
    if !same_optional(&profile.package_sha256, &remote.package_sha256) {
        return Err(refuse("remote Codex package digest does not match local state"));
    }
    match &profile.shim_sha256 {
        Some(digest) if same_text(digest, &remote.shim_sha256) => {},
        _ => return Err(refuse("remote shim digest does not match local state")),
    }
    let source = match remote.executor_source {
        Some(source) => Some(source.label()),
        None => None,
    };
    if profile.executor_source.is_some() && !same_optional(&source, &profile.executor_source) {
        return Err(refuse("remote executor source does not match local state"));
    }
    if profile.executor_path.is_some() && !same_optional(
        &remote.executor_path,
        &profile.executor_path,
    ) {
        return Err(refuse("remote executor path does not match local state"));
    }
    Ok(())
}

// ---------------------------------------------------------------------------
// Laws
// ---------------------------------------------------------------------------

/// The record that an installation leaves on the host agrees with what it
/// leaves in the profile.
pub proof fn law_install_records_agree(
    profile: Profile,
    plan: InstallPlan,
    artifact: ExecutorArtifact,
    shim_sha256: Seq<char>,
    config_json: Seq<char>,
    remote: RemoteInstall,
    record: InstallRecord,
)
    requires
        describes_release(remote, profile, plan, artifact, shim_sha256, config_json),
        optional_text(record.package_sha256) == (match artifact {
            ExecutorArtifact::Managed(transfer) => Some(transfer.sha256@),
            ExecutorArtifact::Existing(_) => None,
        }),
        record.shim_sha256@ == remote.shim_sha256@,
        record.executor_source == artifact.source(),
        record.executor_path@ == artifact.path(plan),
    ensures
        metadata_refusal(installed(profile@, record), remote) is None,
{
}

/// After a rollback the profile agrees with the release that the host went
/// back to.
pub proof fn law_rollback_records_agree(profile: ProfileView, remote: RemoteInstall)
    requires
        remote.profile@ == profile.name,
    ensures
        metadata_refusal(rolled_back(profile, remote), remote) is None,
{
}

/// A profile that was not ready becomes so by a probe that succeeds, and by
/// nothing else that happens to it.
pub proof fn law_ready_takes_a_probe(
    profile: ProfileView,
    record: InstallRecord,
    remote: RemoteInstall,
    probe: Result<(), Failure>,
    current: Seq<char>,
)
    requires
        profile.status != ProfileStatus::Ready,
    ensures
        probed(profile, probe).status == ProfileStatus::Ready <==> probe is Ok,
        installed(profile, record).status != ProfileStatus::Ready,
        rolled_back(profile, remote).status != ProfileStatus::Ready,
        rechecked(profile, current) == profile,
{
}

/// A ready profile is broken exactly when the local Codex has another version,
/// and its bridge cannot start then.
pub proof fn law_other_versions_break_profiles(
    profile: ProfileView,
    name: Seq<char>,
    current: Seq<char>,
)
    requires
        profile.status == ProfileStatus::Ready,
    ensures
        rechecked(profile, current).status == ProfileStatus::Broken <==> current
            != profile.codex_version,
        rechecked(profile, current).status == ProfileStatus::Broken ==> up_refusal(
            rechecked(profile, current),
            name,
            current,
        ) is Some,
{
}

/// Neither an installation nor a rollback makes a profile usable before it is
/// verified, and neither touches what the profile was added with.
pub proof fn law_unverified_profiles_are_not_ready(
    profile: ProfileView,
    record: InstallRecord,
    remote: RemoteInstall,
)
    ensures
        installed(profile, record).status != ProfileStatus::Ready,
        rolled_back(profile, remote).status != ProfileStatus::Ready,
        installed(profile, record).name == profile.name,
        rolled_back(profile, remote).name == profile.name,
        installed(profile, record).source_host == profile.source_host,
        rolled_back(profile, remote).source_host == profile.source_host,
        installed(profile, record).environment_id == profile.environment_id,
        rolled_back(profile, remote).environment_id == profile.environment_id,
{
}

} // verus!
