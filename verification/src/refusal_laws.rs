//! What the user is told when something is refused, and when.

use vstd::prelude::*;
use vstd::utf8::*;
use crate::archive::{
    EntryKind, IntakeView, is_archive_file, is_unsafe_path, path_refusal, path_steps, taken_in,
};
use crate::arguments::{argument_use, kept_arguments};
use crate::bridge::{
    internal_id, merged_initialize, merged_thread, object_field, rewritten, status_reply,
};
use crate::digest::{is_digest, manifest_digest};
use crate::doctor::{
    DoctorStatus, LocalFindings, RemoteFindings, local_lines, offline_lines, remote_lines,
};
use crate::entries::{value_bytes, value_of};
use crate::failure::Failure;
use crate::handshake::line_too_long;
use crate::install::{
    InstallOptions, RemoteInstall, digest_in, is_version, linux_target_of, plan_refusal,
    release_version, reusable_in, source_version, target_of,
};
use crate::json::{JsonView, field, json_text, nested, text_of};
use crate::jsonl::{JsonlView, line_client_turn, line_server_turn};
use crate::lifecycle::{metadata_refusal, refresh_refusal, up_refusal};
use crate::mux::{ChannelKind, identified};
use crate::path_probe::{command_fault, directory_fault, status_fault};
use crate::probe::{
    adapter_finding, check_views, schema_refusal, stdio_finding, supports_stdio, version_finding,
};
use crate::profile::{
    AppPaths, NameError, ProfileStatus, ProfileView, create_refusal, host_refusal, name_error,
    no_random_bytes, no_random_port, socket_refusal, token_in,
};
use crate::relay_model::{
    LookupView, RelayView, added_turn, deliver_turn, host_initialized_turn, initialized_turn,
    must_wait, recorded, status_turn,
};
use crate::sessions::{provider_of, session_meta};
use crate::shim::{agent_pid_in, signed_in};
use crate::ssh::{
    RemoteFacts, config_value, facts_in, first_of_key, has_control, host_block, inherited_values_of,
    parsed_ssh, source_values_of, stated_facts,
};
use crate::text::{decimal, lines, lower, optional_text, strip_start, trim, words};

verus! {

// ---------------------------------------------------------------------------
// Messages between client and App Servers
// ---------------------------------------------------------------------------

/// Why a message of the client is refused.
pub proof fn law_refusals_of_messages(
    message: JsonView,
    environment: Seq<char>,
    map: Map<Seq<char>, JsonView>,
    name: Seq<char>,
)
    ensures
        text_of(field(message, "method"@)) == Some("initialize"@) && field(message, "id"@) is None
            ==> rewritten(message, environment) == Err::<JsonView, Seq<char>>(
            "initialize request did not contain an id"@,
        ),
        text_of(field(message, "method"@)) == Some("thread/start"@) && (field(
            message,
            "params"@,
        ) matches Some(params) ==> params is Object || params is Null) && text_of(
            nested(message, "params"@, "cwd"@),
        ) is None ==> rewritten(message, environment) == Err::<JsonView, Seq<char>>(
            "thread/start must contain a remote cwd"@,
        ),
        map.contains_key(name) && !(map[name] is Object) && !(map[name] is Null) ==> object_field(
            map,
            name,
        ) == Err::<Map<Seq<char>, JsonView>, Seq<char>>(
            "App Server field '"@ + name + "' was not an object"@,
        ),
{
    reveal_strlit("initialize");
    reveal_strlit("thread/start");
    assert("initialize"@.len() == 10 && "thread/start"@.len() == 12);
}

/// Why replies cannot be merged.
pub proof fn law_refusals_of_replies(
    local: JsonView,
    host: JsonView,
    home: Option<Seq<char>>,
    error: JsonView,
)
    ensures
        field(host, "error"@) == Some(error) ==> merged_initialize(local, host, home) == Err::<
            JsonView,
            Seq<char>,
        >("remote Host App Server initialize failed: "@ + json_text(error)),
        field(host, "error"@) is None && !(field(local, "result"@) matches Some(
            JsonView::Object(_),
        )) ==> merged_initialize(local, host, home) == Err::<JsonView, Seq<char>>(
            "local App Server initialize response did not contain a result object"@,
        ),
        field(host, "error"@) is None && (field(local, "result"@) matches Some(
            JsonView::Object(_),
        )) && !(field(host, "result"@) matches Some(JsonView::Object(_))) ==> merged_initialize(
            local,
            host,
            home,
        ) == Err::<JsonView, Seq<char>>(
            "remote Host App Server initialize response did not contain a result object"@,
        ),
        field(local, "error"@) is None && field(host, "error"@) is None && !(field(
            local,
            "result"@,
        ) matches Some(JsonView::Object(_))) ==> merged_thread(local, host) == Err::<
            JsonView,
            Seq<char>,
        >("Mac thread/start response did not contain a result object"@),
        field(local, "error"@) is None && field(host, "error"@) is None && (field(
            local,
            "result"@,
        ) matches Some(JsonView::Object(_))) && !(field(host, "result"@) matches Some(
            JsonView::Object(_),
        )) ==> merged_thread(local, host) == Err::<JsonView, Seq<char>>(
            "Host thread/start response did not contain a result object"@,
        ),
        field(local, "error"@) == Some(error) ==> status_reply(local) == Err::<bool, Seq<char>>(
            "environment/status failed: "@ + json_text(error),
        ),
        field(local, "error"@) is None && text_of(nested(local, "result"@, "status"@)) is None
            ==> status_reply(local) == Err::<bool, Seq<char>>(
            "environment/status response did not contain result.status"@,
        ),
{
}

/// Why a relay stops.
pub proof fn law_why_relays_stop(state: RelayView, message: JsonView, error: JsonView, now: u64)
    ensures
        field(message, "error"@) == Some(error) ==> added_turn(state, message).outcome->Err_0
            == "environment/add failed: "@ + json_text(error),
        field(message, "error"@) == Some(error) ==> initialized_turn(state, message).outcome->Err_0
            == "app-server initialize failed: "@ + json_text(error),
        status_reply(message) == Ok::<bool, Seq<char>>(false) && state.status_attempts >= 200
            ==> status_turn(state, message, now).outcome->Err_0
            == "execution environment did not become ready within 10 seconds"@,
        field(message, "error"@) == Some(error) ==> host_initialized_turn(
            state,
            message,
        ).outcome->Err_0 == "remote Host App Server initialize failed: "@ + json_text(error),
        text_of(field(message, "method"@)) != Some("initialize"@) && must_wait(state)
            && deliver_turn(state, message, now).outcome is Err ==> deliver_turn(
            state,
            message,
            now,
        ).outcome->Err_0 == "client sent too much data before the remote host became ready"@,
        text_of(field(message, "method"@)) == Some("thread/start"@) && field(message, "id"@) is None
            && !must_wait(state) ==> deliver_turn(state, message, now).outcome->Err_0
            == "thread/start did not contain an id"@,
{
    reveal_strlit("initialize");
    reveal_strlit("thread/start");
    assert("initialize"@.len() == 10 && "thread/start"@.len() == 12);
}

/// Why a line of the client is refused while the environment is not ready.
pub proof fn law_why_lines_are_refused(state: JsonlView, message: JsonView)
    requires
        rewritten(message, state.environment) is Ok,
        line_client_turn(state, message).outcome is Err,
    ensures
        line_client_turn(state, message).outcome->Err_0
            == "client sent too much data before the execution environment became ready"@,
{
}

/// Why a relay of lines stops.
pub proof fn law_why_relays_of_lines_stop(
    state: JsonlView,
    message: JsonView,
    error: JsonView,
    id: Seq<char>,
)
    requires
        field(message, "id"@) == Some(JsonView::Text(id)),
    ensures
        field(message, "error"@) == Some(error) && id == "cxs/"@ + state.environment
            + "/environment-add"@ ==> line_server_turn(state, message).outcome->Err_0
            == "environment/add failed: "@ + json_text(error),
        field(message, "error"@) == Some(error) && id != "cxs/"@ + state.environment
            + "/environment-add"@ && id != "cxs/"@ + state.environment + "/environment-status"@
            && !state.environment_requested && state.initialize_id == Some(JsonView::Text(id))
            ==> line_server_turn(state, message).outcome->Err_0 == "app-server initialize failed: "@
            + json_text(error),
        status_reply(message) == Ok::<bool, Seq<char>>(false) && state.status_attempts >= 200 && id
            == "cxs/"@ + state.environment + "/environment-status"@ ==> line_server_turn(
            state,
            message,
        ).outcome->Err_0 == "execution environment did not become ready within 10 seconds"@,
{
    reveal_strlit("/");
    reveal_strlit("environment-add");
    reveal_strlit("/environment-add");
    reveal_strlit("environment-status");
    reveal_strlit("/environment-status");
    let a = "cxs/"@ + state.environment + "/environment-add"@;
    let b = "cxs/"@ + state.environment + "/environment-status"@;
    assert(internal_id(state.environment, "environment-add"@) =~= a);
    assert(internal_id(state.environment, "environment-status"@) =~= b);
    assert(a.len() + 3 == b.len());
}

/// Why an instruction file stops the relay.
pub proof fn law_refusals_of_instruction_files(
    lookup: LookupView,
    path: Seq<char>,
    bytes: Seq<u8>,
)
    ensures
        recorded(lookup, path, None) == Err::<LookupView, Seq<char>>(
            "Host App Server returned invalid base64 for "@ + path,
        ),
        bytes.len() > 262_144 ==> recorded(lookup, path, Some(bytes)) == Err::<
            LookupView,
            Seq<char>,
        >("remote instruction source is too large: "@ + path),
        bytes.len() <= 262_144 && value_bytes(lookup.instruction_contents)
            + bytes.len() > 524_288 ==> recorded(lookup, path, Some(bytes)) == Err::<
            LookupView,
            Seq<char>,
        >("remote instruction sources exceed the aggregate size limit"@),
        bytes.len() <= 262_144 && !(value_bytes(lookup.instruction_contents)
            + bytes.len() > 524_288) && !valid_utf8(bytes) ==> recorded(lookup, path, Some(bytes))
            == Err::<LookupView, Seq<char>>(
            "remote instruction source is not UTF-8: "@ + path,
        ),
{
}

// ---------------------------------------------------------------------------
// Profiles
// ---------------------------------------------------------------------------

/// Why a name, a host, a path or a token will not do.
pub proof fn law_refusals_of_profiles(
    name: Seq<char>,
    host: Seq<char>,
    path: Seq<char>,
    contents: Seq<char>,
)
    ensures
        NameError::InvalidLength.text() == "profile name must be 1-48 characters"@,
        NameError::InvalidStart.text() == "profile name must start with an ASCII letter or digit"@,
        NameError::InvalidCharacter.text()
            == "profile name may contain only ASCII letters, digits, '.', '_' and '-'"@,
        name.len() > 0 && encode_utf8(name).len() <= 48 && !('a' <= name[0] <= 'z' || 'A' <= name[0]
            <= 'Z' || '0' <= name[0] <= '9') ==> name_error(name) == Some(NameError::InvalidStart),
        host.len() == 0 || encode_utf8(host).len() > 255 ==> host_refusal(host) == Some(
            "SSH host alias must be 1-255 characters"@,
        ),
        host.len() > 0 && encode_utf8(host).len() <= 255 && host_refusal(host) is Some
            ==> host_refusal(host) == Some("SSH host alias contains unsafe characters"@),
        encode_utf8(path).len() > 100 ==> socket_refusal(path) == Some(
            "Unix socket path is too long ("@ + decimal(encode_utf8(path).len()) + " bytes): "@
                + path + ". Set XDG_STATE_HOME to a shorter path"@,
        ),
        !is_digest(trim(contents)) ==> token_in(contents) == Err::<Seq<char>, Seq<char>>(
            "profile token is malformed"@,
        ),
{
}

/// Why a profile is not created, refreshed or started.
pub proof fn law_refusals_of_a_profile(
    paths: AppPaths,
    profile: ProfileView,
    name: Seq<char>,
    host: Seq<char>,
    version: Seq<char>,
)
    ensures
        name_error(name) is None && host_refusal(host) is None ==> create_refusal(
            paths,
            name,
            host,
            true,
        ) == Some("profile '"@ + name + "' already exists"@),
        name_error(name) matches Some(e) ==> create_refusal(paths, name, host, false) == Some(
            e.text(),
        ),
        name_error(name) is None ==> (host_refusal(host) matches Some(message) ==> create_refusal(
            paths,
            name,
            host,
            false,
        ) == Some(message)),
        profile.source_host != host ==> refresh_refusal(profile, name, host, version) == Some(
            "profile '"@ + name + "' already tracks SSH host '"@ + profile.source_host
                + "'; choose another --name or remove it first"@,
        ),
        profile.source_host == host && profile.codex_version != version ==> refresh_refusal(
            profile,
            name,
            host,
            version,
        ) == Some(
            "profile '"@ + name + "' pins "@ + profile.codex_version + "; current local Codex is "@
                + version + "; run 'cxs update "@ + name + "'"@,
        ),
        profile.status == ProfileStatus::Prepared ==> up_refusal(profile, name, version) == Some(
            "profile '"@ + name + "' is not installed; run 'cxs install "@ + name + "' first"@,
        ),
        profile.status != ProfileStatus::Prepared && profile.codex_version != version
            ==> up_refusal(profile, name, version) == Some(
            "Codex version mismatch: profile="@ + profile.codex_version + " current="@ + version,
        ),
        no_random_bytes("could not obtain secure random bytes: "@ + name),
        no_random_port("could not obtain a random remote port: "@ + name),
{
    let a = "could not obtain secure random bytes: "@;
    let b = "could not obtain a random remote port: "@;
    assert((a + name).subrange(0, a.len() as int) =~= a);
    assert((b + name).subrange(0, b.len() as int) =~= b);
}

/// In what a record on the host differs from the profile.
pub proof fn law_refusals_of_records(profile: ProfileView, remote: RemoteInstall)
    ensures
        metadata_refusal(profile, remote) matches Some(message) ==> {
            ||| remote.profile@ != profile.name && message == "remote profile is "@
                + remote.profile@ + ", expected "@ + profile.name
            ||| remote.codex_version@ != profile.codex_version && message == "remote="@
                + remote.codex_version@ + " local="@ + profile.codex_version
            ||| optional_text(remote.package_sha256) != profile.package_sha256
                && message == "remote Codex package digest does not match local state"@
            ||| profile.shim_sha256 != Some(remote.shim_sha256@) && message
                == "remote shim digest does not match local state"@
            ||| profile.executor_source is Some && message
                == "remote executor source does not match local state"@
            ||| profile.executor_path is Some && message
                == "remote executor path does not match local state"@
        },
{
}

// ---------------------------------------------------------------------------
// The report
// ---------------------------------------------------------------------------

/// What the report says of each finding.
pub proof fn law_details_of_the_report(
    profile: ProfileView,
    name: Seq<char>,
    local: LocalFindings,
    remote: RemoteFindings,
)
    ensures
        ({
            let all = local_lines(profile, name, local);
            let n = local.codex_checks@.len() as int;
            &&& all[0].detail == (if profile.status == ProfileStatus::Ready {
                "profile contract suite has passed"@
            } else {
                "status is "@ + profile.status.name()
                    + "; remote artifacts and end-to-end contracts are incomplete"@
            })
            &&& all[1].detail == (if local.bridge_running {
                "background bridge is running"@
            } else {
                "bridge is stopped; run 'cxs up "@ + name + "'"@
            })
            &&& all[2].detail == (match local.token {
                Ok(_) => "private profile token is valid"@,
                Err(e) => e@,
            })
            &&& forall|i: int|
                0 <= i < n ==> #[trigger] all[3 + i].detail == local.codex_checks@[i]@.detail
            &&& all[3 + n].detail == (match local.current_version {
                Ok(current) => if current@ == profile.codex_version {
                    "pinned version "@ + current@
                } else {
                    "profile="@ + profile.codex_version + " current="@ + current@
                },
                Err(e) => e@,
            })
            &&& all[4 + n].detail == (match local.ssh_unchanged {
                Ok(true) => "resolved SSH configuration matches snapshot"@,
                Ok(false) => "source SSH configuration changed; recreate the profile"@,
                Err(e) => e@,
            })
        }),
        ({
            let all = remote_lines(profile, remote);
            &&& remote.connection is Ok ==> all[0].detail == "non-interactive SSH succeeded"@
            &&& remote.connection matches Err(e) ==> all[0].detail == e@
            &&& remote.facts matches Err(e) ==> all[1].detail == e@
            &&& (remote.facts matches Ok(facts) && all[1].status == DoctorStatus::Pass)
                ==> all[1].detail == remote.facts->Ok_0.kernel@ + " "@ + remote.facts->Ok_0.arch@
                + " home="@ + remote.facts->Ok_0.home@
            &&& (remote.facts matches Ok(facts) && facts.kernel@ != "Linux"@ && facts.kernel@
                != "Darwin"@) ==> all[1].detail == "unsupported kernel "@
                + remote.facts->Ok_0.kernel@
            &&& (remote.facts matches Ok(facts) && facts.kernel@ == "Darwin"@ && facts.arch@
                != "arm64"@) ==> all[1].detail == "unsupported architecture "@
                + remote.facts->Ok_0.arch@
            &&& (remote.facts matches Ok(facts) && facts.kernel@ == "Linux"@ && facts.arch@
                != "x86_64"@ && facts.arch@ != "aarch64"@) ==> all[1].detail
                == "unsupported architecture "@ + remote.facts->Ok_0.arch@
            &&& remote.install matches Err(e) ==> all[2].detail == e@
            &&& (remote.install matches Ok(install) && metadata_refusal(profile, install) is Some)
                ==> all[2].detail == metadata_refusal(profile, remote.install->Ok_0)->Some_0
            &&& (remote.install matches Ok(install) && metadata_refusal(profile, install) is None
                && remote.executor is Ok) ==> all[2].detail == remote.install->Ok_0.release@ + " ("@
                + remote.install->Ok_0.target@ + ", "@ + (
            match remote.install->Ok_0.executor_source {
                Some(source) => source.name(),
                None => "legacy-package"@,
            }) + ")"@
            &&& (remote.install matches Ok(install) && metadata_refusal(profile, install) is None
                && remote.executor is Err) ==> all[2].detail == remote.executor->Err_0@
            &&& remote.alias is Ok ==> all[3].detail
                == "generated alias accepts ordinary SSH commands"@
            &&& remote.alias matches Err(e) ==> all[3].detail == e@
            &&& remote.transport is Ok ==> all[4].detail
                == "environment ready; remote filesystem and command execution passed"@
            &&& remote.transport matches Err(e) ==> all[4].detail == e@
            &&& forall|i: int|
                0 <= i < 5 ==> (#[trigger] offline_lines()[i]).detail == "offline mode"@
        }),
        DoctorStatus::Pass.name() == "pass"@,
        DoctorStatus::Fail.name() == "fail"@,
        DoctorStatus::Skip.name() == "skip"@,
{
    reveal_strlit("Linux");
    reveal_strlit("Darwin");
    assert("Linux"@.len() == 5 && "Darwin"@.len() == 6);
    let all = local_lines(profile, name, local);
    let checks = local.codex_checks@;
    assert forall|i: int| 0 <= i < checks.len() implies #[trigger] all[3 + i].detail
        == checks[i]@.detail by {
        assert(check_views(checks)[i] == checks[i]@);
    }
}

/// What is said of the local Codex.
pub proof fn law_details_of_the_local_codex(
    version: Result<String, Failure>,
    help: Result<(bool, String), Failure>,
    schema: Result<(), Failure>,
    value: JsonView,
)
    ensures
        version_finding(version).name == "codex-version"@,
        stdio_finding(help).name == "exec-server-stdio"@,
        adapter_finding(schema).name == "app-exec-adapter"@,
        version_finding(version).passed <==> version is Ok,
        version matches Ok(text) ==> version_finding(version).detail == text@,
        version matches Err(e) ==> version_finding(version).detail == e@,
        stdio_finding(help).passed <==> (help matches Ok((succeeded, text)) && supports_stdio(
            succeeded,
            text@,
        )),
        stdio_finding(help).passed ==> stdio_finding(help).detail
            == "exec-server exposes stdio and exit-on-stdin-close"@,
        help is Ok && !stdio_finding(help).passed ==> stdio_finding(help).detail
            == "required experimental exec-server flags were not found"@,
        help matches Err(e) ==> stdio_finding(help).detail == e@,
        adapter_finding(schema).passed <==> schema is Ok,
        schema is Ok ==> adapter_finding(schema).detail
            == "execution-environment and remote host RPC contracts are present"@,
        schema matches Err(e) ==> adapter_finding(schema).detail == e@,
        !(field(value, "definitions"@) matches Some(JsonView::Object(_))) ==> schema_refusal(value)
            == Some("schema did not contain definitions"@),
        (field(value, "definitions"@) matches Some(JsonView::Object(_))) && !(field(
            value,
            "oneOf"@,
        ) matches Some(JsonView::Array(_))) ==> schema_refusal(value) == Some(
            "schema did not contain client request variants"@,
        ),
        (field(value, "definitions"@) matches Some(JsonView::Object(_))) && (field(
            value,
            "oneOf"@,
        ) matches Some(JsonView::Array(_))) && schema_refusal(value) is Some ==> schema_refusal(
            value,
        ) == Some("required execution-environment or remote host RPC contracts are missing"@),
{
}

/// Why the probe of the whole path fails.
pub proof fn law_details_of_the_probe(message: JsonView, home: Seq<char>, error: JsonView)
    ensures
        field(message, "error"@) == Some(error) ==> {
            &&& status_fault(message) == Some(
                "environment/status failed: "@ + json_text(error),
            )
            &&& directory_fault(message) == Some(
                "remote fs/readDirectory failed: "@ + json_text(error),
            )
            &&& command_fault(message, home) == Some(
                "remote command/exec failed: "@ + json_text(error),
            )
        },
        field(message, "error"@) is None && status_fault(message) is Some ==> status_fault(message)
            == Some(
            "remote execution environment is not ready: "@ + json_text(
                match field(message, "result"@) {
                    Some(result) => result,
                    None => JsonView::Null,
                },
            ),
        ),
        field(message, "error"@) is None && directory_fault(message) is Some ==> directory_fault(
            message,
        ) == Some("remote fs/readDirectory returned an invalid result: "@ + json_text(message)),
        field(message, "error"@) is None && command_fault(message, home) is Some ==> command_fault(
            message,
            home,
        ) == Some("remote command/exec returned an invalid result: "@ + json_text(message)),
{
}

// ---------------------------------------------------------------------------
// Installation
// ---------------------------------------------------------------------------

/// Why an installation is not planned, and what is wrong with what a host
/// printed.
pub proof fn law_refusals_of_installations(
    kernel: Seq<char>,
    arch: Seq<char>,
    output: Seq<char>,
    bytes: Seq<u8>,
    facts: RemoteFacts,
    options: InstallOptions,
)
    ensures
        kernel != "Linux"@ && kernel != "Darwin"@ ==> target_of(kernel, arch) == Err::<
            Seq<char>,
            Seq<char>,
        >("unsupported remote kernel "@ + kernel),
        (kernel == "Linux"@ || kernel == "Darwin"@) && target_of(kernel, arch) is Err ==> target_of(
            kernel,
            arch,
        ) == Err::<Seq<char>, Seq<char>>("unsupported remote architecture "@ + arch),
        kernel != "Linux"@ ==> linux_target_of(kernel, arch) == Err::<Seq<char>, Seq<char>>(
            "unsupported remote kernel "@ + kernel,
        ),
        words(output, true).len() == 0 ==> release_version(output) == Err::<Seq<char>, Seq<char>>(
            "Codex version output was empty"@,
        ),
        words(output, true).len() > 0 && !is_version(words(output, true).last())
            ==> release_version(output) == Err::<Seq<char>, Seq<char>>(
            "unsupported Codex version string '"@ + words(output, true).last() + "'"@,
        ),
        release_version(output) is Err ==> source_version(output) == release_version(output),
        target_of(facts.kernel@, facts.arch@) is Ok && source_version(output) is Ok && plan_refusal(
            output,
            facts,
            options,
        ) is Some ==> plan_refusal(output, facts, options) == Some(
            "runtime package, local download, and remote Codex are mutually exclusive"@,
        ),
        target_of(facts.kernel@, facts.arch@) matches Err(e) ==> plan_refusal(
            output,
            facts,
            options,
        ) == Some(e),
        target_of(facts.kernel@, facts.arch@) is Ok ==> (source_version(output) matches Err(e)
            ==> plan_refusal(output, facts, options) == Some(e)),
        !valid_utf8(bytes) ==> reusable_in(bytes) == Err::<
            (Seq<char>, Seq<char>, Seq<char>),
            Seq<char>,
        >("remote Codex reuse probe returned non-UTF-8 output"@),
        !valid_utf8(bytes) ==> digest_in(bytes) == Err::<Seq<char>, Seq<char>>(
            "remote runtime checksum output was not UTF-8"@,
        ),
        valid_utf8(bytes) && digest_in(bytes) is Err ==> digest_in(bytes) == Err::<
            Seq<char>,
            Seq<char>,
        >("invalid SHA-256 digest in manifest"@),
        valid_utf8(bytes) ==> {
            let found = lines(decode_utf8(bytes));
            &&& found.len() == 0 ==> reusable_in(bytes)->Err_0
                == "remote Codex probe omitted its path"@
            &&& found.len() == 1 ==> reusable_in(bytes)->Err_0
                == "remote Codex probe omitted its installed path"@
            &&& found.len() == 2 ==> reusable_in(bytes)->Err_0
                == "remote Codex probe omitted its checksum"@
            &&& found.len() > 2 && (found[0].len() == 0 || found[0][0] != '/' || found[1].len() == 0
                || found[1][0] != '/') ==> reusable_in(bytes)->Err_0
                == "remote Codex probe returned a non-absolute path"@
            &&& found.len() > 2 && found[0].len() > 0 && found[0][0] == '/' && found[1].len() > 0
                && found[1][0] == '/' && !is_digest(lower(found[2])) ==> reusable_in(bytes)->Err_0
                == "invalid SHA-256 digest in manifest"@
            &&& found.len() < 3 ==> reusable_in(bytes) is Err
        },
{
    reveal_strlit("Linux");
    reveal_strlit("Darwin");
    assert("Linux"@.len() == 5 && "Darwin"@.len() == 6);
}

/// Why a manifest gives no digest.
pub proof fn law_refusals_of_manifests(line: Seq<char>, rest: Seq<Seq<char>>, name: Seq<char>)
    ensures
        manifest_digest(Seq::empty(), name) == Err::<Seq<char>, Seq<char>>(
            "checksum manifest did not contain "@ + name,
        ),
        ({
            let fields = words(line, true);
            fields.len() >= 2 && strip_start(fields[1], '*') == name && !is_digest(fields[0])
                ==> manifest_digest(seq![line] + rest, name) == Err::<Seq<char>, Seq<char>>(
                "invalid SHA-256 digest in manifest"@,
            )
        }),
{
    let all = seq![line] + rest;
    assert(all[0] == line);
}

// ---------------------------------------------------------------------------
// SSH and sessions
// ---------------------------------------------------------------------------

/// Why what `ssh` says, or a host says, is refused, and why no block is
/// written.
pub proof fn law_refusals_of_ssh(
    host: Seq<char>,
    bytes: Seq<u8>,
    profile: ProfileView,
    values: Seq<(Seq<char>, Seq<Seq<char>>)>,
    inherited: Seq<(Seq<char>, Seq<Seq<char>>)>,
    value: Seq<char>,
)
    ensures
        host_refusal(host) matches Some(message) ==> source_values_of(host, bytes)->Err_0
            == message,
        host_refusal(host) is None && !valid_utf8(bytes) ==> source_values_of(host, bytes)->Err_0
            == "ssh -G returned non-UTF-8 output"@,
        !valid_utf8(bytes) ==> inherited_values_of(bytes)->Err_0
            == "ssh -G returned non-UTF-8 output"@,
        host_refusal(host) is None && valid_utf8(bytes) ==> match parsed_ssh(
            decode_utf8(bytes),
        ) {
            Err(e) => source_values_of(host, bytes)->Err_0 == e,
            Ok(found) => {
                &&& first_of_key(found, "hostname"@) is None ==> source_values_of(
                    host,
                    bytes,
                )->Err_0 == "ssh -G output did not include 'hostname'"@
                &&& first_of_key(found, "hostname"@) is Some && first_of_key(found, "user"@) is None
                    ==> source_values_of(host, bytes)->Err_0
                    == "ssh -G output did not include 'user'"@
                &&& first_of_key(found, "hostname"@) is Some && first_of_key(found, "user"@) is Some
                    && first_of_key(found, "port"@) is None ==> source_values_of(host, bytes)->Err_0
                    == "ssh -G output did not include 'port'"@
            },
        },
        profile.source_host != host ==> host_block(profile, host, values, inherited)->Err_0
            == "profile source host does not match its SSH snapshot"@,
        profile.source_host == host && first_of_key(values, "hostname"@) is None ==> host_block(
            profile,
            host,
            values,
            inherited,
        )->Err_0 == "SSH snapshot has no hostname"@,
        profile.source_host == host && first_of_key(values, "hostname"@) is Some && first_of_key(
            values,
            "user"@,
        ) is None ==> host_block(profile, host, values, inherited)->Err_0
            == "SSH snapshot has no user"@,
        profile.source_host == host && first_of_key(values, "hostname"@) is Some && first_of_key(
            values,
            "user"@,
        ) is Some && first_of_key(values, "port"@) is None ==> host_block(
            profile,
            host,
            values,
            inherited,
        )->Err_0 == "SSH snapshot has no port"@,
        has_control(value) ==> config_value(value) == Err::<Seq<char>, Seq<char>>(
            "SSH configuration value contains a forbidden control character"@,
        ),
        !valid_utf8(bytes) ==> facts_in(bytes)->Err_0
            == "remote prerequisite query returned non-UTF-8 output"@,
        valid_utf8(bytes) ==> {
            let all = lines(decode_utf8(bytes));
            let stated = stated_facts(all, all.len());
            let home = value_of(stated, "home"@);
            let kernel = value_of(stated, "kernel"@);
            let arch = value_of(stated, "arch"@);
            &&& home is None ==> facts_in(bytes)->Err_0 == "remote query did not return HOME"@
            &&& home is Some && kernel is None ==> facts_in(bytes)->Err_0
                == "remote query did not return uname -s"@
            &&& home is Some && kernel is Some && arch is None ==> facts_in(bytes)->Err_0
                == "remote query did not return uname -m"@
        },
{
}

/// Why a session or an archive is refused.
pub proof fn law_refusals_of_sessions(
    record: JsonView,
    encrypted: bool,
    asked: Seq<char>,
    config: Seq<char>,
    path: Seq<char>,
    intake: IntakeView,
    size: u64,
)
    ensures
        text_of(field(record, "type"@)) != Some("session_meta"@) ==> session_meta(
            record,
            encrypted,
        )->Err_0 == "first rollout record is not session_meta"@,
        text_of(field(record, "type"@)) == Some("session_meta"@) && !(field(
            record,
            "payload"@,
        ) matches Some(JsonView::Object(_))) ==> session_meta(record, encrypted)->Err_0
            == "session_meta has no payload object"@,
        text_of(field(record, "type"@)) == Some("session_meta"@) && (field(
            record,
            "payload"@,
        ) matches Some(JsonView::Object(_))) && session_meta(record, encrypted) is Err
            ==> session_meta(record, encrypted)->Err_0 == "session_meta has no thread id"@,
        provider_of(None, Some(None), config)->Err_0 == "could not parse "@ + config,
        provider_of(Some(asked), None, config) is Err ==> provider_of(
            Some(asked),
            None,
            config,
        )->Err_0 == "provider id contains unsafe characters"@,
        provider_of(None, Some(Some(Some(asked))), config) is Err ==> provider_of(
            None,
            Some(Some(Some(asked))),
            config,
        )->Err_0 == "provider id contains unsafe characters"@,
        is_unsafe_path(path) ==> path_refusal(path) == Some(
            "unsafe path in remote session archive: "@ + path,
        ),
        !is_unsafe_path(path) && path_steps(path).len() == 0 ==> path_refusal(path) == Some(
            "empty archive path"@,
        ),
        !is_unsafe_path(path) && path_steps(path).len() > 0 && path_steps(path)[0] != "sessions"@
            && path_steps(path)[0] != "archived_sessions"@ ==> path_refusal(path) == Some(
            "unexpected remote session path: "@ + path,
        ),
        !is_unsafe_path(path) && path_steps(path).len() > 0 && (path_steps(path)[0] == "sessions"@
            || path_steps(path)[0] == "archived_sessions"@) && !is_archive_file(
            path_steps(path).last(),
        ) ==> path_refusal(path) == Some(
            "unexpected file in remote session archive: "@ + path,
        ),
        taken_in(intake, EntryKind::Other, path, size)->Err_0
            == "remote session archive contains a non-regular entry"@,
        path_refusal(path) matches Some(message) ==> taken_in(
            intake,
            EntryKind::File,
            path,
            size,
        )->Err_0 == message,
        path_refusal(path) is None && size > 536_870_912 ==> taken_in(
            intake,
            EntryKind::File,
            path,
            size,
        )->Err_0 == "remote rollout "@ + path + " exceeds the 512 MiB limit"@,
        path_refusal(path) is None && size <= 536_870_912 && intake.total_bytes + size
            > 4_294_967_296 ==> taken_in(intake, EntryKind::File, path, size)->Err_0
            == "remote session archive exceeds the 4 GiB limit"@,
        path_refusal(path) is None && size <= 536_870_912 && !(intake.total_bytes + size
            > 4_294_967_296) && taken_in(intake, EntryKind::File, path, size) is Err ==> taken_in(
            intake,
            EntryKind::File,
            path,
            size,
        )->Err_0 == "remote session archive holds a file twice: "@ + path,
{
}

// ---------------------------------------------------------------------------
// Arguments and streams
// ---------------------------------------------------------------------------

/// Why an argument, an agent, a channel or a line is refused.
pub proof fn law_refusals_of_calls(
    argument: Seq<char>,
    rest: Seq<Seq<char>>,
    contents: Seq<char>,
    path: Seq<char>,
    header: Seq<u8>,
    maximum: nat,
)
    ensures
        argument_use(argument) is Refused ==> kept_arguments(seq![argument] + rest)->Err_0
            == "unsupported app-server argument '"@ + argument + "' from the remote client"@,
        argument_use(argument) is KeptWithValue ==> kept_arguments(seq![argument])->Err_0
            == "app-server argument '"@ + argument + "' did not include a value"@,
        argument_use(argument) is SkippedWithValue ==> kept_arguments(seq![argument])->Err_0
            == "app-server --listen did not include a value"@,
        signed_in(trim(contents)) is None ==> agent_pid_in(contents, path)->Err_0
            == "invalid active agent PID in "@ + path,
        (signed_in(trim(contents)) matches Some(pid) && 0 <= pid <= 1) ==> agent_pid_in(
            contents,
            path,
        )->Err_0 == "refusing to replace invalid cxs-agent PID "@ + decimal(
            signed_in(trim(contents))->Some_0 as nat,
        ),
        (signed_in(trim(contents)) matches Some(pid) && pid < 0) ==> agent_pid_in(
            contents,
            path,
        )->Err_0 == "refusing to replace invalid cxs-agent PID "@ + ("-"@ + decimal(
            (-signed_in(trim(contents))->Some_0) as nat,
        )),
        (signed_in(trim(contents)) matches Some(pid) && pid > 1) ==> agent_pid_in(contents, path)
            == Ok::<int, Seq<char>>(signed_in(trim(contents))->Some_0),
        header.len() == 5 && !(header[0] == 67 && header[1] == 88 && header[2] == 83 && header[3]
            == 50) ==> identified(header) == Err::<ChannelKind, Seq<char>>(
            "Yamux stream used an incompatible Shuttle protocol"@,
        ),
        header.len() == 5 && header[0] == 67 && header[1] == 88 && header[2] == 83 && header[3]
            == 50 && identified(header) is Err ==> identified(header) == Err::<
            ChannelKind,
            Seq<char>,
        >("unknown Yamux channel kind "@ + decimal(header[4] as nat)),
        line_too_long(maximum) == "JSONL message exceeded "@ + decimal(maximum) + " bytes"@,
{
    let one = seq![argument] + rest;
    assert(one[0] == argument);
    assert(seq![argument][0] == argument);
    if header.len() == 5 {
        let start = header.take(4);
        assert(start[0] == header[0] && start[1] == header[1] && start[2] == header[2] && start[3]
            == header[3]);
        if header[0] == 67 && header[1] == 88 && header[2] == 83 && header[3] == 50 {
            assert(start =~= seq![67u8, 88, 83, 50]);
        }
    }
}

} // verus!
