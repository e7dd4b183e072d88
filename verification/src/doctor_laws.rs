//! When a profile is ready, and what each finding about it comes to.

use vstd::prelude::*;
use crate::bridge::environment_status;
use crate::doctor::{
    DoctorCheckView, DoctorStatus, LocalFindings, RemoteFindings, finding, local_lines,
    nothing_failed, offline_lines, remote_lines,
};
use crate::failure::Failure;
use crate::install::{InstallRecord, RemoteInstall};
use crate::json::{JsonView, NumberView, field, json_text, nested, text_of};
use crate::lifecycle::{
    installed, metadata_refusal, probed, rechecked, refresh_refusal, rolled_back, up_refusal,
};
use crate::path_probe::{
    ProgressView, is_probe_output, probe_initialize, probe_read_directory, probe_requests,
    probe_run_command, progress_after,
};
use crate::probe::{
    CheckView, DESKTOP_CODEX, check_views, failed_check, has_property, has_variant,
    is_supported_arch, is_supported_kernel, schema_refusal, supports_stdio, variant_method,
};
use crate::profile::{ProfileStatus, ProfileView};
use crate::routing::host_request_methods;
use crate::text::{lines, occurs, optional_text};

verus! {

// ---------------------------------------------------------------------------
// The record on the host
// ---------------------------------------------------------------------------

/// The record on the host agrees with the profile exactly when it is of the
/// same profile and version, package and shim have the same digests, and the
/// executor is the same as far as the profile knows it.
pub proof fn law_when_records_agree(profile: ProfileView, remote: RemoteInstall)
    ensures
        metadata_refusal(profile, remote) is None <==> {
            &&& remote.profile@ == profile.name
            &&& remote.codex_version@ == profile.codex_version
            &&& optional_text(remote.package_sha256) == profile.package_sha256
            &&& profile.shim_sha256 == Some(remote.shim_sha256@)
            &&& profile.executor_source matches Some(source) ==> (
            remote.executor_source matches Some(known) && known.name() == source)
            &&& profile.executor_path matches Some(path) ==> optional_text(remote.executor_path)
                == Some(path)
        },
{
}

// ---------------------------------------------------------------------------
// The life of a profile
// ---------------------------------------------------------------------------

/// What an installation records: all about the host and the release, and
/// nothing about who the profile is.
pub proof fn law_what_an_installation_records(profile: ProfileView, record: InstallRecord)
    ensures
        ({
            let after = installed(profile, record);
            &&& after.status == ProfileStatus::Installed
            &&& after.installed_target == Some(record.target@)
            &&& after.remote_home == Some(record.remote_home@)
            &&& after.remote_release == Some(record.remote_release@)
            &&& after.package_sha256 == optional_text(record.package_sha256)
            &&& after.shim_sha256 == Some(record.shim_sha256@)
            &&& after.executor_source == Some(record.executor_source.name())
            &&& after.executor_path == Some(record.executor_path@)
            &&& keeps_identity(profile, after)
            &&& after.codex_version == profile.codex_version
        }),
{
}

/// Whether two states are of one profile: its names, its sockets, its ports,
/// its token and its directory are the same.
pub open spec fn keeps_identity(before: ProfileView, after: ProfileView) -> bool {
    &&& after.schema_version == before.schema_version
    &&& after.name == before.name
    &&& after.source_host == before.source_host
    &&& after.app_alias == before.app_alias
    &&& after.local_socket == before.local_socket
    &&& after.remote_socket == before.remote_socket
    &&& after.environment_id == before.environment_id
    &&& after.local_exec_port == before.local_exec_port
    &&& after.remote_exec_port == before.remote_exec_port
    &&& after.token_file == before.token_file
    &&& after.codex_home == before.codex_home
}

/// What going back records: the release that is current again, which has still
/// to be verified.
pub proof fn law_what_going_back_records(profile: ProfileView, remote: RemoteInstall)
    ensures
        ({
            let after = rolled_back(profile, remote);
            &&& after.status == ProfileStatus::Installed
            &&& after.codex_version == remote.codex_version@
            &&& after.installed_target == Some(remote.target@)
            &&& after.remote_home == profile.remote_home
            &&& after.remote_release == Some(remote.release@)
            &&& after.package_sha256 == optional_text(remote.package_sha256)
            &&& after.shim_sha256 == Some(remote.shim_sha256@)
            &&& remote.executor_source is None ==> after.executor_source is None
            &&& remote.executor_source matches Some(source) ==> after.executor_source == Some(
                source.name(),
            )
            &&& after.executor_path == optional_text(remote.executor_path)
            &&& keeps_identity(profile, after)
        }),
{
}

/// Only a probe that succeeds makes a profile ready, and that is all it
/// changes; only another version of Codex breaks one, and then only a ready one.
pub proof fn law_how_the_status_changes(
    profile: ProfileView,
    probe: Result<(), Failure>,
    current: Seq<char>,
)
    ensures
        probe is Ok ==> probed(profile, probe).status == ProfileStatus::Ready,
        probe is Err ==> probed(profile, probe) == profile,
        probed(profile, probe) == (ProfileView {
            status: probed(profile, probe).status,
            ..profile
        }),
        profile.status == ProfileStatus::Ready && current != profile.codex_version ==> rechecked(
            profile,
            current,
        ).status == ProfileStatus::Broken,
        profile.status != ProfileStatus::Ready || current == profile.codex_version ==> rechecked(
            profile,
            current,
        ) == profile,
        rechecked(profile, current) == (ProfileView {
            status: rechecked(profile, current).status,
            ..profile
        }),
{
}

/// A bridge starts where something is installed for the version of Codex that
/// is here; a profile is refreshed for the host that it tracks and the version
/// that it pins.
pub proof fn law_when_a_profile_can_be_used(
    profile: ProfileView,
    name: Seq<char>,
    host: Seq<char>,
    version: Seq<char>,
)
    ensures
        up_refusal(profile, name, version) is None <==> profile.status != ProfileStatus::Prepared
            && profile.codex_version == version,
        refresh_refusal(profile, name, host, version) is None <==> profile.source_host == host
            && profile.codex_version == version,
{
}

// ---------------------------------------------------------------------------
// The report
// ---------------------------------------------------------------------------

/// A check passes where it found what it looked for, and fails where it did not.
pub proof fn law_what_a_finding_comes_to(name: Seq<char>, result: Result<Seq<char>, Seq<char>>)
    ensures
        finding(name, result).name == name,
        result is Ok ==> finding(name, result).status == DoctorStatus::Pass,
        result is Err ==> finding(name, result).status == DoctorStatus::Fail,
        result matches Ok(detail) ==> finding(name, result).detail == detail,
        result matches Err(detail) ==> finding(name, result).detail == detail,
{
}

/// The checks of this machine and of the host, by name and in order.
pub proof fn law_which_checks_are_made(
    profile: ProfileView,
    name: Seq<char>,
    local: LocalFindings,
    remote: RemoteFindings,
)
    ensures
        ({
            let all = local_lines(profile, name, local);
            let n = local.codex_checks@.len() as int;
            &&& all.len() == 5 + n
            &&& all[0].name == "profile-state"@
            &&& all[1].name == "local-bridge"@
            &&& all[2].name == "profile-token"@
            &&& forall|i: int|
                0 <= i < n ==> #[trigger] all[3 + i].name == local.codex_checks@[i]@.name
            &&& all[3 + n].name == "version-match"@
            &&& all[4 + n].name == "ssh-config"@
        }),
        ({
            let all = remote_lines(profile, remote);
            let none = offline_lines();
            &&& all.len() == 5 && none.len() == 5
            &&& all[0].name == "ssh-connection"@ && none[0].name == "ssh-connection"@
            &&& all[1].name == "remote-platform"@ && none[1].name == "remote-platform"@
            &&& all[2].name == "remote-install"@ && none[2].name == "remote-install"@
            &&& all[3].name == "ssh-agent-alias"@ && none[3].name == "ssh-agent-alias"@
            &&& all[4].name == "execution-transport"@ && none[4].name == "execution-transport"@
            &&& forall|i: int| 0 <= i < 5 ==> (#[trigger] none[i]).status == DoctorStatus::Skip
        }),
{
}

/// Nothing failed on this machine exactly when the profile is ready, its bridge
/// runs, its token can be read, the local Codex passed its checks and is the
/// version that the profile pins, and the SSH configuration is unchanged.
pub proof fn law_when_this_machine_is_ready(
    profile: ProfileView,
    name: Seq<char>,
    local: LocalFindings,
)
    ensures
        nothing_failed(local_lines(profile, name, local)) <==> {
            &&& profile.status == ProfileStatus::Ready
            &&& local.bridge_running
            &&& local.token is Ok
            &&& forall|i: int|
                0 <= i < local.codex_checks@.len() ==> (#[trigger] local.codex_checks@[i]).passed
            &&& local.current_version matches Ok(version) && version@ == profile.codex_version
            &&& local.ssh_unchanged matches Ok(unchanged) && unchanged
        },
{
    let all = local_lines(profile, name, local);
    let checks = local.codex_checks@;
    let n = checks.len() as int;
    assert(all.len() == 5 + n);
    assert forall|i: int| 0 <= i < n implies (#[trigger] all[3 + i]).status
        == (if checks[i].passed {
        DoctorStatus::Pass
    } else {
        DoctorStatus::Fail
    }) by {
        assert(check_views(checks)[i] == checks[i]@);
    }
    if nothing_failed(all) {
        assert(all[0].status != DoctorStatus::Fail);
        assert(all[1].status != DoctorStatus::Fail);
        assert(all[2].status != DoctorStatus::Fail);
        assert(all[3 + n].status != DoctorStatus::Fail);
        assert(all[4 + n].status != DoctorStatus::Fail);
        assert forall|i: int| 0 <= i < n implies (#[trigger] checks[i]).passed by {
            assert(all[3 + i].status != DoctorStatus::Fail);
        }
    }
    if profile.status == ProfileStatus::Ready && local.bridge_running && local.token is Ok && (
    forall|i: int| 0 <= i < n ==> (#[trigger] checks[i]).passed) && (
    local.current_version matches Ok(version) && version@ == profile.codex_version) && (
    local.ssh_unchanged matches Ok(unchanged) && unchanged) {
        assert forall|i: int| 0 <= i < all.len() implies (#[trigger] all[i]).status
            != DoctorStatus::Fail by {
            if 3 <= i < 3 + n {
                assert(all[3 + (i - 3)].status == DoctorStatus::Pass);
            }
        }
    }
}

/// Nothing failed on the host exactly when it can be reached, is of a supported
/// kind, holds the installation that the profile records with its executor
/// unchanged, answers under its alias, and runs commands.
pub proof fn law_when_the_host_is_ready(profile: ProfileView, remote: RemoteFindings)
    ensures
        nothing_failed(remote_lines(profile, remote)) <==> {
            &&& remote.connection is Ok
            &&& remote.facts matches Ok(facts) && is_supported_kernel(facts.kernel@)
                && is_supported_arch(facts.kernel@, facts.arch@)
            &&& remote.install matches Ok(install) && metadata_refusal(profile, install) is None
            &&& remote.executor is Ok
            &&& remote.alias is Ok
            &&& remote.transport is Ok
        },
        nothing_failed(offline_lines()),
{
    let all = remote_lines(profile, remote);
    if nothing_failed(all) {
        assert(all[0].status != DoctorStatus::Fail);
        assert(all[1].status != DoctorStatus::Fail);
        assert(all[2].status != DoctorStatus::Fail);
        assert(all[3].status != DoctorStatus::Fail);
        assert(all[4].status != DoctorStatus::Fail);
    }
}

/// A report is ready exactly when none of its checks failed.
pub proof fn law_one_failure_is_enough(a: Seq<DoctorCheckView>, b: Seq<DoctorCheckView>)
    ensures
        nothing_failed(a + b) <==> nothing_failed(a) && nothing_failed(b),
        nothing_failed(Seq::empty()),
        a.len() > 0 && a[0].status == DoctorStatus::Fail ==> !nothing_failed(a),
{
    let all = a + b;
    if nothing_failed(all) {
        assert forall|i: int| 0 <= i < a.len() implies (#[trigger] a[i]).status
            != DoctorStatus::Fail by {
            assert(all[i] == a[i]);
        }
        assert forall|i: int| 0 <= i < b.len() implies (#[trigger] b[i]).status
            != DoctorStatus::Fail by {
            assert(all[a.len() + i] == b[i]);
        }
    }
}

/// The hosts that are supported, by the names that they have for themselves.
pub proof fn law_supported_hosts(kernel: Seq<char>, arch: Seq<char>)
    ensures
        is_supported_kernel(kernel) <==> kernel == "Linux"@ || kernel == "Darwin"@,
        is_supported_arch("Linux"@, arch) <==> arch == "x86_64"@ || arch == "aarch64"@,
        is_supported_arch("Darwin"@, arch) <==> arch == "arm64"@,
{
    reveal_strlit("Linux");
    reveal_strlit("Darwin");
    assert("Linux"@.len() == 5 && "Darwin"@.len() == 6);
}

// ---------------------------------------------------------------------------
// The local Codex
// ---------------------------------------------------------------------------

/// The Codex of the desktop application is where it installs itself.
pub proof fn law_where_codex_is()
    ensures
        DESKTOP_CODEX@ == "/Applications/ChatGPT.app/Contents/Resources/codex"@,
{
}

/// The Exec Server can be used where its help was printed and names all three.
pub proof fn law_what_the_exec_server_needs(succeeded: bool, help: Seq<char>)
    ensures
        supports_stdio(succeeded, help) <==> {
            &&& succeeded
            &&& occurs(help, "--listen"@)
            &&& occurs(help, "stdio"@)
            &&& occurs(help, "--exit-on-stdin-close"@)
        },
{
}

/// A variant of the requests is for the method that its schema names first.
pub proof fn law_which_method_a_variant_is_for(variant: JsonView, names: Seq<JsonView>)
    ensures
        (nested(variant, "properties"@, "method"@) matches Some(method) && field(method, "enum"@)
            == Some(JsonView::Array(names))) && names.len() > 0 ==> variant_method(variant)
            == text_of(Some(names[0])),
        (nested(variant, "properties"@, "method"@) matches Some(method) && (field(
            method,
            "enum"@,
        ) matches Some(JsonView::Object(_)))) ==> variant_method(variant) == text_of(
            nested(nested(variant, "properties"@, "method"@)->Some_0, "enum"@, "0"@),
        ),
        nested(variant, "properties"@, "method"@) is None ==> variant_method(variant) is None,
{
}

/// A schema is refused that lacks any one of the requests that Shuttle builds
/// on, or one of the three parameters: each of them is needed.
pub proof fn law_what_a_schema_needs(
    schema: JsonView,
    definitions: Map<Seq<char>, JsonView>,
    variants: Seq<JsonView>,
    method: Seq<char>,
)
    requires
        field(schema, "definitions"@) == Some(JsonView::Object(definitions)),
        field(schema, "oneOf"@) == Some(JsonView::Array(variants)),
        ({
            ||| method == "environment/add"@
            ||| method == "environment/status"@
            ||| method == "environment/info"@
            ||| method == "command/exec"@
            ||| method == "command/exec/resize"@
            ||| method == "command/exec/terminate"@
            ||| method == "command/exec/write"@
            ||| method == "fs/copy"@
            ||| method == "fs/createDirectory"@
            ||| method == "fs/getMetadata"@
            ||| method == "fs/readDirectory"@
            ||| method == "fs/readFile"@
            ||| method == "fs/remove"@
            ||| method == "fs/unwatch"@
            ||| method == "fs/watch"@
            ||| method == "fs/writeFile"@
            ||| method == "fuzzyFileSearch"@
            ||| method == "fuzzyFileSearch/sessionStart"@
            ||| method == "fuzzyFileSearch/sessionStop"@
            ||| method == "fuzzyFileSearch/sessionUpdate"@
            ||| method == "process/kill"@
            ||| method == "process/resizePty"@
            ||| method == "process/spawn"@
            ||| method == "process/writeStdin"@
        }),
    ensures
        schema_refusal(schema) is None ==> {
            &&& has_property(definitions, "EnvironmentAddParams"@, "execServerUrl"@)
            &&& has_property(definitions, "TurnEnvironmentParams"@, "environmentId"@)
            &&& has_property(definitions, "ThreadStartParams"@, "environments"@)
            &&& exists|i: int|
                0 <= i < variants.len() && variant_method(#[trigger] variants[i]) == Some(method)
        },
{
    let methods = host_request_methods();
    assert(methods[0] == "command/exec"@);
    assert(methods[1] == "command/exec/resize"@);
    assert(methods[2] == "command/exec/terminate"@);
    assert(methods[3] == "command/exec/write"@);
    assert(methods[4] == "fs/copy"@);
    assert(methods[5] == "fs/createDirectory"@);
    assert(methods[6] == "fs/getMetadata"@);
    assert(methods[7] == "fs/readDirectory"@);
    assert(methods[8] == "fs/readFile"@);
    assert(methods[9] == "fs/remove"@);
    assert(methods[10] == "fs/unwatch"@);
    assert(methods[11] == "fs/watch"@);
    assert(methods[12] == "fs/writeFile"@);
    assert(methods[13] == "fuzzyFileSearch"@);
    assert(methods[14] == "fuzzyFileSearch/sessionStart"@);
    assert(methods[15] == "fuzzyFileSearch/sessionStop"@);
    assert(methods[16] == "fuzzyFileSearch/sessionUpdate"@);
    assert(methods[17] == "process/kill"@);
    assert(methods[18] == "process/resizePty"@);
    assert(methods[19] == "process/spawn"@);
    assert(methods[20] == "process/writeStdin"@);
    if schema_refusal(schema) is None {
        assert(has_variant(variants, method));
    }
}

/// A schema is accepted that has all of them.
pub proof fn law_when_a_schema_is_accepted(
    schema: JsonView,
    definitions: Map<Seq<char>, JsonView>,
    variants: Seq<JsonView>,
)
    requires
        field(schema, "definitions"@) == Some(JsonView::Object(definitions)),
        field(schema, "oneOf"@) == Some(JsonView::Array(variants)),
        nested_property(definitions, "EnvironmentAddParams"@, "execServerUrl"@),
        nested_property(definitions, "TurnEnvironmentParams"@, "environmentId"@),
        nested_property(definitions, "ThreadStartParams"@, "environments"@),
        has_variant(variants, "environment/add"@),
        has_variant(variants, "environment/status"@),
        has_variant(variants, "environment/info"@),
        forall|i: int|
            0 <= i < host_request_methods().len() ==> has_variant(
                variants,
                #[trigger] host_request_methods()[i],
            ),
    ensures
        schema_refusal(schema) is None,
{
}

/// Whether an object of the schema has a property.
pub open spec fn nested_property(
    definitions: Map<Seq<char>, JsonView>,
    definition: Seq<char>,
    property: Seq<char>,
) -> bool {
    definitions.contains_key(definition) && nested(
        definitions[definition],
        "properties"@,
        property,
    ) is Some
}

/// The first check that failed stops what builds on it; where none failed,
/// nothing does.
pub proof fn law_the_first_failure_counts(
    passed: Seq<CheckView>,
    failed: CheckView,
    more: Seq<CheckView>,
)
    requires
        forall|i: int| 0 <= i < passed.len() ==> (#[trigger] passed[i]).passed,
        !failed.passed,
    ensures
        failed_check(passed) is None,
        failed_check(passed + seq![failed] + more) == Some(
            "local Codex compatibility check '"@ + failed.name + "' failed: "@ + failed.detail,
        ),
    decreases passed.len(),
{
    let all = passed + seq![failed] + more;
    if passed.len() == 0 {
        assert(all[0] == failed);
    } else {
        assert(all[0] == passed[0]);
        let rest = passed.skip(1);
        assert forall|i: int| 0 <= i < rest.len() implies (#[trigger] rest[i]).passed by {
            assert(rest[i] == passed[i + 1]);
        }
        assert(all.skip(1) =~= rest + seq![failed] + more);
        law_the_first_failure_counts(rest, failed, more);
    }
}

// ---------------------------------------------------------------------------
// The probe of the whole path
// ---------------------------------------------------------------------------

proof fn lemma_probe_names()
    ensures
        "id"@ != "method"@,
        "id"@ != "params"@,
        "method"@ != "params"@,
        "clientInfo"@ != "capabilities"@,
        "name"@ != "title"@,
        "name"@ != "version"@,
        "title"@ != "version"@,
        "command"@ != "cwd"@,
        "command"@ != "timeoutMs"@,
        "cwd"@ != "timeoutMs"@,
        "cxs/probe/status"@ != "cxs/probe/read-directory"@,
        "cxs/probe/status"@ != "cxs/probe/run-command"@,
        "cxs/probe/read-directory"@ != "cxs/probe/run-command"@,
{
    reveal_strlit("id");
    reveal_strlit("method");
    reveal_strlit("params");
    reveal_strlit("clientInfo");
    reveal_strlit("capabilities");
    reveal_strlit("name");
    reveal_strlit("title");
    reveal_strlit("version");
    reveal_strlit("command");
    reveal_strlit("cwd");
    reveal_strlit("timeoutMs");
    reveal_strlit("cxs/probe/status");
    reveal_strlit("cxs/probe/read-directory");
    reveal_strlit("cxs/probe/run-command");
    assert("id"@.len() == 2 && "method"@[0] == 'm' && "params"@[0] == 'p' && "method"@.len() == 6
        && "params"@.len() == 6);
    assert("clientInfo"@.len() == 10 && "capabilities"@.len() == 12);
    assert("name"@.len() == 4 && "title"@.len() == 5 && "version"@.len() == 7);
    assert("command"@.len() == 7 && "cwd"@.len() == 3 && "timeoutMs"@.len() == 9);
    assert("cxs/probe/status"@.len() == 16 && "cxs/probe/read-directory"@.len() == 24
        && "cxs/probe/run-command"@.len() == 21);
}

/// What the probe asks, in order: to initialize with the experimental API, the
/// state of the environment, the user's home and a command in it.
pub proof fn law_what_the_probe_asks(
    environment: Seq<char>,
    home: Seq<char>,
    version: Seq<char>,
)
    ensures
        ({
            let asked = probe_requests(environment, Some(home), version);
            let first = probe_initialize(version);
            let third = probe_read_directory(home);
            let fourth = probe_run_command(home);
            &&& asked == seq![
                json_text(first),
                json_text(environment_status("cxs/probe/status"@, environment)),
                json_text(third),
                json_text(fourth),
            ]
            &&& field(first, "id"@) == Some(JsonView::Text("cxs/probe/initialize"@))
            &&& field(first, "method"@) == Some(JsonView::Text("initialize"@))
            &&& nested(first, "params"@, "clientInfo"@) matches Some(client) && field(
                client,
                "name"@,
            ) == Some(JsonView::Text("cxs"@)) && field(client, "title"@) == Some(
                JsonView::Text("Codex Shuttle"@),
            ) && field(client, "version"@) == Some(JsonView::Text(version))
            &&& nested(first, "params"@, "capabilities"@) matches Some(capabilities) && field(
                capabilities,
                "experimentalApi"@,
            ) == Some(JsonView::Bool(true))
            &&& field(third, "id"@) == Some(JsonView::Text("cxs/probe/read-directory"@))
            &&& field(third, "method"@) == Some(JsonView::Text("fs/readDirectory"@))
            &&& nested(third, "params"@, "path"@) == Some(JsonView::Text(home))
            &&& field(fourth, "id"@) == Some(JsonView::Text("cxs/probe/run-command"@))
            &&& field(fourth, "method"@) == Some(JsonView::Text("command/exec"@))
            &&& nested(fourth, "params"@, "cwd"@) == Some(JsonView::Text(home))
            &&& nested(fourth, "params"@, "timeoutMs"@) == Some(
                JsonView::Number(NumberView::Integer(5_000)),
            )
            &&& nested(fourth, "params"@, "command"@) == Some(
                JsonView::Array(
                    seq![
                        JsonView::Text("/bin/sh"@),
                        JsonView::Text("-c"@),
                        JsonView::Text("printf 'cxs-probe-linux\\n'; pwd; uname -s; uname -m"@),
                    ],
                ),
            )
            &&& probe_requests(environment, None, version) == probe_requests(
                environment,
                Some("/"@),
                version,
            )
        }),
{
    lemma_probe_names();
}

/// What the probe's command has to print: its mark, the home, and the kernel
/// and the processor of a supported host.
pub proof fn law_what_the_command_prints(output: Seq<char>, home: Seq<char>)
    ensures
        is_probe_output(output, home) <==> {
            let found = lines(output);
            &&& found.contains("cxs-probe-linux"@)
            &&& found.contains(home)
            &&& {
                ||| found.contains("Linux"@) && found.contains("x86_64"@)
                ||| found.contains("Linux"@) && found.contains("aarch64"@)
                ||| found.contains("Darwin"@) && found.contains("arm64"@)
            }
        },
{
}

/// Each of the three replies counts once it says what it should, and fails the
/// probe where it does not; any other message changes nothing.
pub proof fn law_how_the_probe_goes_on(state: ProgressView, message: JsonView)
    ensures
        ({
            let id = text_of(field(message, "id"@));
            let next = progress_after(state, message);
            &&& id == Some("cxs/probe/status"@) ==> {
                &&& next is Ok <==> field(message, "error"@) is None && (text_of(
                    nested(message, "result"@, "status"@),
                ) == Some("ready"@) || text_of(field(message, "result"@)) == Some("ready"@))
                &&& next matches Ok(after) ==> after == (ProgressView {
                    status_ready: true,
                    ..state
                })
            }
            &&& id == Some("cxs/probe/read-directory"@) ==> {
                &&& next is Ok <==> field(message, "error"@) is None && (nested(
                    message,
                    "result"@,
                    "entries"@,
                ) matches Some(JsonView::Array(_)))
                &&& next matches Ok(after) ==> after == (ProgressView {
                    directory_ready: true,
                    ..state
                })
            }
            &&& id == Some("cxs/probe/run-command"@) ==> {
                &&& next is Ok <==> field(message, "error"@) is None && nested(
                    message,
                    "result"@,
                    "exitCode"@,
                ) == Some(JsonView::Number(NumberView::Integer(0))) && is_probe_output(
                    (match text_of(nested(message, "result"@, "stdout"@)) {
                        Some(output) => output,
                        None => Seq::empty(),
                    }),
                    state.remote_home,
                )
                &&& next matches Ok(after) ==> after == (ProgressView {
                    command_ready: true,
                    ..state
                })
            }
            &&& id != Some("cxs/probe/status"@) && id != Some("cxs/probe/read-directory"@) && id
                != Some("cxs/probe/run-command"@) ==> next == Ok::<ProgressView, Seq<char>>(state)
        }),
{
    lemma_probe_names();
}

} // verus!
