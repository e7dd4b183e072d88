//! The probe of the whole path: an App Server on the host, through the shim,
//! the agent, the bridge and the local App Server, back to the host's files
//! and processes.

use vstd::prelude::*;
use vstd::string::*;
use vstd::utf8::*;
use crate::bridge::{
    environment_status, environment_status_request, make_request, refuse_json, request,
};
use crate::failure::{Failure, refuse, refuse_about, refused};
use crate::json::{
    Json, JsonObject, JsonView, Number, NumberView, array_view, encode_json, field, json_text,
    lemma_array_view, nested, parse_json, parsed_json, text_of,
};
use crate::profile::Profile;
use crate::text::{lines, optional_text, same_text, split_lines, texts};

verus! {

/// Where the probe keeps its files on the host.
#[derive(Debug)]
pub struct ProbePaths {
    pub directory: String,
    pub socket: String,
    pub pid_file: String,
}

pub fn probe_paths(profile: &str) -> (r: ProbePaths)
    ensures
        r.directory@ == "/tmp/cxs-"@ + profile@ + "-probe"@,
        r.socket@ == r.directory@ + "/app.sock"@,
        r.pid_file@ == r.directory@ + "/app.pid"@,
{
    let mut directory = "/tmp/cxs-".to_owned();
    directory.push_str(profile);
    directory.push_str("-probe");
    let mut socket = directory.clone();
    socket.push_str("/app.sock");
    let mut pid_file = directory.clone();
    pid_file.push_str("/app.pid");
    ProbePaths { directory, socket, pid_file }
}

pub const BOOTSTRAP_1: &'static str = r#"mkdir -p "$HOME/.config/codex-shuttle" ""#;

pub const BOOTSTRAP_2: &'static str = r#""; chmod 700 ""#;

pub const BOOTSTRAP_3: &'static str = r#""; rm -f ""#;

pub const BOOTSTRAP_4: &'static str = r#"" ""#;

pub const BOOTSTRAP_5: &'static str = r#""; probe_token="cxs-probe-$$-$(date +%s)"; CXS_PROBE_TOKEN="$probe_token" CXS_CONTROL_SOCKET=""#;

pub const BOOTSTRAP_6: &'static str = r#"" nohup "$HOME/.local/bin/codex" -c features.code_mode_host=true app-server --listen unix:// >"$HOME/.config/codex-shuttle/probe-"#;

pub const BOOTSTRAP_7: &'static str = r#".log" 2>&1 </dev/null & probe_pid=$!; printf '%s %s\n' "$probe_pid" "$probe_token" >""#;

pub const BOOTSTRAP_8: &'static str = r#""; chmod 600 ""#;

pub const BOOTSTRAP_9: &'static str = r#""; probe_tries=0; while [ "$probe_tries" -lt 100 ]; do [ -S ""#;

pub const BOOTSTRAP_10: &'static str = r#"" ] && exit 0; kill -0 "$probe_pid" 2>/dev/null || break; probe_tries=$((probe_tries + 1)); sleep 0.1; done; cat "$HOME/.config/codex-shuttle/probe-"#;

pub const BOOTSTRAP_11: &'static str = r#".log" >&2; exit 1"#;

/// The command that starts an App Server for the probe on the host.
pub open spec fn bootstrap_command(paths: ProbePaths, profile: Seq<char>) -> Seq<char> {
    BOOTSTRAP_1@ + paths.directory@ + BOOTSTRAP_2@ + paths.directory@ + BOOTSTRAP_3@ + paths.socket@ + BOOTSTRAP_4@ + paths.pid_file@ + BOOTSTRAP_5@ + paths.socket@ + BOOTSTRAP_6@ + profile + BOOTSTRAP_7@ + paths.pid_file@ + BOOTSTRAP_8@ + paths.pid_file@ + BOOTSTRAP_9@ + paths.socket@ + BOOTSTRAP_10@ + profile + BOOTSTRAP_11@
}

pub fn render_bootstrap_command(paths: &ProbePaths, profile: &str) -> (r: String)
    ensures
        r@ == bootstrap_command(*paths, profile@),
{
    let mut command = BOOTSTRAP_1.to_owned();
    command.push_str(&paths.directory);
    command.push_str(BOOTSTRAP_2);
    command.push_str(&paths.directory);
    command.push_str(BOOTSTRAP_3);
    command.push_str(&paths.socket);
    command.push_str(BOOTSTRAP_4);
    command.push_str(&paths.pid_file);
    command.push_str(BOOTSTRAP_5);
    command.push_str(&paths.socket);
    command.push_str(BOOTSTRAP_6);
    command.push_str(profile);
    command.push_str(BOOTSTRAP_7);
    command.push_str(&paths.pid_file);
    command.push_str(BOOTSTRAP_8);
    command.push_str(&paths.pid_file);
    command.push_str(BOOTSTRAP_9);
    command.push_str(&paths.socket);
    command.push_str(BOOTSTRAP_10);
    command.push_str(profile);
    command.push_str(BOOTSTRAP_11);
    command
}

pub const PROXY_1: &'static str = r#"CXS_CONTROL_SOCKET=""#;

pub const PROXY_2: &'static str = r#"" "$HOME/.local/bin/codex" app-server proxy"#;

/// The command that connects to it.
pub open spec fn proxy_command(paths: ProbePaths) -> Seq<char> {
    PROXY_1@ + paths.socket@ + PROXY_2@
}

pub fn render_proxy_command(paths: &ProbePaths) -> (r: String)
    ensures
        r@ == proxy_command(*paths),
{
    let mut command = PROXY_1.to_owned();
    command.push_str(&paths.socket);
    command.push_str(PROXY_2);
    command
}

/// Whether the process of the probe carries its token: in `/proc` where the
/// host has that, and as `ps` shows it on macOS.
pub const OWNERSHIP: &'static str = r#"probe_environment() { if [ -r "/proc/$probe_pid/environ" ]; then tr '\000' '\n' <"/proc/$probe_pid/environ"; elif [ "$(uname -s)" = Darwin ]; then ps eww -p "$probe_pid" -o command= 2>/dev/null | tr ' ' '\n'; fi; }; probe_is_ours() { probe_environment | grep -Fqx "CXS_PROBE_TOKEN=$probe_token"; }; "#;

pub const CLEANUP_1: &'static str = r#"probe_pid=''; probe_token=''; if [ -f ""#;

pub const CLEANUP_2: &'static str = r#"" ]; then read -r probe_pid probe_token <""#;

pub const CLEANUP_3: &'static str = r#"" || true; fi; probe_owned=false; case "$probe_pid" in ''|*[!0-9]*) ;; *) case "$probe_token" in ''|*[!0-9A-Za-z_-]*) ;; *) if probe_is_ours; then probe_owned=true; fi ;; esac ;; esac; if [ "$probe_owned" = true ]; then kill -TERM "$probe_pid" 2>/dev/null || true; cleanup_tries=0; while kill -0 "$probe_pid" 2>/dev/null && [ "$cleanup_tries" -lt 20 ]; do cleanup_tries=$((cleanup_tries + 1)); sleep 0.1; done; if kill -0 "$probe_pid" 2>/dev/null && probe_is_ours; then kill -KILL "$probe_pid" 2>/dev/null || true; fi; fi; rm -f ""#;

pub const CLEANUP_4: &'static str = r#"" ""#;

pub const CLEANUP_5: &'static str = r#""; rmdir ""#;

pub const CLEANUP_6: &'static str = r#"" 2>/dev/null || true"#;

/// The command that stops it, if it is still the one that was started, and removes
/// its files.
pub open spec fn probe_cleanup_command(paths: ProbePaths) -> Seq<char> {
    OWNERSHIP@ + CLEANUP_1@ + paths.pid_file@ + CLEANUP_2@ + paths.pid_file@ + CLEANUP_3@ + paths.socket@ + CLEANUP_4@ + paths.pid_file@ + CLEANUP_5@ + paths.directory@ + CLEANUP_6@
}

pub fn render_probe_cleanup_command(paths: &ProbePaths) -> (r: String)
    ensures
        r@ == probe_cleanup_command(*paths),
{
    let mut command = OWNERSHIP.to_owned();
    command.push_str(CLEANUP_1);
    command.push_str(&paths.pid_file);
    command.push_str(CLEANUP_2);
    command.push_str(&paths.pid_file);
    command.push_str(CLEANUP_3);
    command.push_str(&paths.socket);
    command.push_str(CLEANUP_4);
    command.push_str(&paths.pid_file);
    command.push_str(CLEANUP_5);
    command.push_str(&paths.directory);
    command.push_str(CLEANUP_6);
    command
}

// ---------------------------------------------------------------------------
// Requests
// ---------------------------------------------------------------------------

/// The directory that the probe looks at: the user's home, as far as it is
/// known.
pub open spec fn probed_home(remote_home: Option<Seq<char>>) -> Seq<char> {
    match remote_home {
        Some(home) => home,
        None => "/"@,
    }
}

pub open spec fn probe_initialize(version: Seq<char>) -> JsonView {
    request(
        "cxs/probe/initialize"@,
        "initialize"@,
        Map::empty().insert(
            "clientInfo"@,
            JsonView::Object(
                Map::empty().insert("name"@, JsonView::Text("cxs"@)).insert(
                    "title"@,
                    JsonView::Text("Codex Shuttle"@),
                ).insert("version"@, JsonView::Text(version)),
            ),
        ).insert(
            "capabilities"@,
            JsonView::Object(Map::empty().insert("experimentalApi"@, JsonView::Bool(true))),
        ),
    )
}

pub open spec fn probe_read_directory(home: Seq<char>) -> JsonView {
    request(
        "cxs/probe/read-directory"@,
        "fs/readDirectory"@,
        Map::empty().insert("path"@, JsonView::Text(home)),
    )
}

pub open spec fn probe_run_command(home: Seq<char>) -> JsonView {
    request(
        "cxs/probe/run-command"@,
        "command/exec"@,
        Map::empty().insert(
            "command"@,
            JsonView::Array(
                seq![
                    JsonView::Text("/bin/sh"@),
                    JsonView::Text("-c"@),
                    JsonView::Text("printf 'cxs-probe-linux\\n'; pwd; uname -s; uname -m"@),
                ],
            ),
        ).insert("cwd"@, JsonView::Text(home)).insert(
            "timeoutMs"@,
            JsonView::Number(NumberView::Integer(5000)),
        ),
    )
}

/// The requests of the probe, in order.
pub open spec fn probe_requests(
    environment: Seq<char>,
    remote_home: Option<Seq<char>>,
    version: Seq<char>,
) -> Seq<Seq<char>> {
    seq![
        json_text(probe_initialize(version)),
        json_text(environment_status("cxs/probe/status"@, environment)),
        json_text(probe_read_directory(probed_home(remote_home))),
        json_text(probe_run_command(probed_home(remote_home))),
    ]
}

/// Writes the requests of the probe.
pub fn render_probe_requests(profile: &Profile, version: &str) -> (r: Vec<String>)
    ensures
        texts(r@) == probe_requests(
            profile.environment_id@,
            optional_text(profile.remote_home),
            version@,
        ),
{
    let home = match &profile.remote_home {
        Some(home) => home.as_str(),
        None => "/",
    };
    let mut client = JsonObject::new();
    client.insert("name", Json::text("cxs"));
    client.insert("title", Json::text("Codex Shuttle"));
    client.insert("version", Json::text(version));
    let mut capabilities = JsonObject::new();
    capabilities.insert("experimentalApi", Json::Bool(true));
    let mut params = JsonObject::new();
    params.insert("clientInfo", Json::Object(client));
    params.insert("capabilities", Json::Object(capabilities));
    let initialize = make_request("cxs/probe/initialize", "initialize", params);
    let status = environment_status_request("cxs/probe/status", profile);
    let mut params = JsonObject::new();
    params.insert("path", Json::text(home));
    let read_directory = make_request("cxs/probe/read-directory", "fs/readDirectory", params);
    let mut command: Vec<Json> = Vec::new();
    command.push(Json::text("/bin/sh"));
    command.push(Json::text("-c"));
    command.push(Json::text("printf 'cxs-probe-linux\\n'; pwd; uname -s; uname -m"));
    proof {
        lemma_array_view(command@);
        assert(array_view(command@) =~= seq![command@[0]@, command@[1]@, command@[2]@]);
    }
    let mut params = JsonObject::new();
    params.insert("command", Json::Array(command));
    params.insert("cwd", Json::text(home));
    params.insert("timeoutMs", Json::Number(Number::Unsigned(5000)));
    let run_command = make_request("cxs/probe/run-command", "command/exec", params);
    let mut r: Vec<String> = Vec::new();
    r.push(encode_json(&initialize));
    r.push(encode_json(&status));
    r.push(encode_json(&read_directory));
    r.push(encode_json(&run_command));
    assert(texts(r@) =~= probe_requests(
        profile.environment_id@,
        optional_text(profile.remote_home),
        version@,
    ));
    r
}

// ---------------------------------------------------------------------------
// Replies
// ---------------------------------------------------------------------------

/// Which parts of the path have been seen to work.
#[derive(Debug)]
pub struct ProbeProgress {
    pub remote_home: String,
    pub status_ready: bool,
    pub directory_ready: bool,
    pub command_ready: bool,
}

pub struct ProgressView {
    pub remote_home: Seq<char>,
    pub status_ready: bool,
    pub directory_ready: bool,
    pub command_ready: bool,
}

impl View for ProbeProgress {
    type V = ProgressView;

    open spec fn view(&self) -> ProgressView {
        ProgressView {
            remote_home: self.remote_home@,
            status_ready: self.status_ready,
            directory_ready: self.directory_ready,
            command_ready: self.command_ready,
        }
    }
}

pub open spec fn field_or_null(value: JsonView, name: Seq<char>) -> JsonView {
    match field(value, name) {
        Some(found) => found,
        None => JsonView::Null,
    }
}

/// Why a reply to environment/status shows that the path does not work.
pub open spec fn status_fault(message: JsonView) -> Option<Seq<char>> {
    match field(message, "error"@) {
        Some(error) => Some("environment/status failed: "@ + json_text(error)),
        None => if text_of(nested(message, "result"@, "status"@)) == Some("ready"@) || text_of(
            field(message, "result"@),
        ) == Some("ready"@) {
            None
        } else {
            Some(
                "remote execution environment is not ready: "@ + json_text(
                    field_or_null(message, "result"@),
                ),
            )
        },
    }
}

/// Why a reply to fs/readDirectory does.
pub open spec fn directory_fault(message: JsonView) -> Option<Seq<char>> {
    match field(message, "error"@) {
        Some(error) => Some("remote fs/readDirectory failed: "@ + json_text(error)),
        None => match nested(message, "result"@, "entries"@) {
            Some(JsonView::Array(_)) => None,
            _ => Some("remote fs/readDirectory returned an invalid result: "@ + json_text(message)),
        },
    }
}

/// Whether a command printed what the probe's command prints on a supported
/// host.
pub open spec fn is_probe_output(output: Seq<char>, home: Seq<char>) -> bool {
    &&& lines(output).contains("cxs-probe-linux"@)
    &&& lines(output).contains(home)
    &&& names_platform(lines(output))
}

/// Whether the kernel and the processor of a supported host stand among lines.
pub open spec fn names_platform(found: Seq<Seq<char>>) -> bool {
    ||| found.contains("Linux"@) && (found.contains("aarch64"@) || found.contains("x86_64"@))
    ||| found.contains("Darwin"@) && found.contains("arm64"@)
}

/// Why a reply to command/exec does.
pub open spec fn command_fault(message: JsonView, home: Seq<char>) -> Option<Seq<char>> {
    let output = match text_of(nested(message, "result"@, "stdout"@)) {
        Some(output) => output,
        None => Seq::empty(),
    };
    match field(message, "error"@) {
        Some(error) => Some("remote command/exec failed: "@ + json_text(error)),
        None => if nested(message, "result"@, "exitCode"@) == Some(
            JsonView::Number(NumberView::Integer(0)),
        ) && is_probe_output(output, home) {
            None
        } else {
            Some("remote command/exec returned an invalid result: "@ + json_text(message))
        },
    }
}

/// What a reply makes of the progress.
pub open spec fn progress_after(state: ProgressView, message: JsonView) -> Result<
    ProgressView,
    Seq<char>,
> {
    let id = text_of(field(message, "id"@));
    if id == Some("cxs/probe/status"@) {
        match status_fault(message) {
            Some(e) => Err(e),
            None => Ok(ProgressView { status_ready: true, ..state }),
        }
    } else if id == Some("cxs/probe/read-directory"@) {
        match directory_fault(message) {
            Some(e) => Err(e),
            None => Ok(ProgressView { directory_ready: true, ..state }),
        }
    } else if id == Some("cxs/probe/run-command"@) {
        match command_fault(message, state.remote_home) {
            Some(e) => Err(e),
            None => Ok(ProgressView { command_ready: true, ..state }),
        }
    } else {
        Ok(state)
    }
}

fn has_line(found: &Vec<String>, line: &str) -> (r: bool)
    ensures
        r == texts(found@).contains(line@),
{
    let mut i: usize = 0;
    while i < found.len()
        invariant
            i <= found.len(),
            forall|j: int| 0 <= j < i ==> texts(found@)[j] != line@,
        decreases found.len() - i,
    {
        if same_text(&found[i], line) {
            assert(texts(found@)[i as int] == line@);
            return true;
        }
        i = i + 1;
    }
    false
}

fn zero_exit(message: &Json) -> (r: bool)
    ensures
        r == (nested(message@, "result"@, "exitCode"@) == Some(
            JsonView::Number(NumberView::Integer(0)),
        )),
{
    match message.get_nested("result", "exitCode") {
        Some(Json::Number(Number::Unsigned(n))) => *n == 0,
        Some(Json::Number(Number::Signed(n))) => *n == 0,
        _ => false,
    }
}

impl ProbeProgress {
    pub fn new(profile: &Profile) -> (r: ProbeProgress)
        ensures
            r@ == (ProgressView {
                remote_home: probed_home(optional_text(profile.remote_home)),
                status_ready: false,
                directory_ready: false,
                command_ready: false,
            }),
    {
        let remote_home = match &profile.remote_home {
            Some(home) => home.clone(),
            None => "/".to_owned(),
        };
        ProbeProgress {
            remote_home,
            status_ready: false,
            directory_ready: false,
            command_ready: false,
        }
    }

    fn command_reply(&self, message: &Json) -> (r: Result<(), Failure>)
        ensures
            match command_fault(message@, self@.remote_home) {
                Some(e) => refused(r, e),
                None => r is Ok,
            },
    {
        match message.get("error") {
            Some(error) => return Err(refuse_json("remote command/exec failed: ", error)),
            None => {},
        }
        let output = match message.get_nested("result", "stdout") {
            Some(Json::Text(output)) => output.clone(),
            _ => String::new(),
        };
        let found = split_lines(&output);
        if zero_exit(message) && has_line(&found, "cxs-probe-linux") && has_line(
            &found,
            &self.remote_home,
        ) && (has_line(&found, "Linux") && (has_line(&found, "aarch64") || has_line(
            &found,
            "x86_64",
        )) || has_line(&found, "Darwin") && has_line(&found, "arm64")) {
            Ok(())
        } else {
            Err(refuse_json("remote command/exec returned an invalid result: ", message))
        }
    }

    /// Takes one reply; true once the whole path has been seen to work.
    pub fn on_message(&mut self, message: &Json) -> (r: Result<bool, Failure>)
        ensures
            match progress_after(old(self)@, message@) {
                Err(e) => refused(r, e) && final(self)@ == old(self)@,
                Ok(next) => final(self)@ == next && r == Ok::<bool, Failure>(
                    next.status_ready && next.directory_ready && next.command_ready,
                ),
            },
    {
        if message.field_is("id", "cxs/probe/status") {
            match message.get("error") {
                Some(error) => return Err(refuse_json("environment/status failed: ", error)),
                None => {},
            }
            let nested_ready = match message.get_nested("result", "status") {
                Some(Json::Text(status)) => same_text(status, "ready"),
                _ => false,
            };
            if !nested_ready && !message.field_is("result", "ready") {
                return match message.get("result") {
                    Some(result) => Err(
                        refuse_json("remote execution environment is not ready: ", result),
                    ),
                    None => Err(
                        refuse_json("remote execution environment is not ready: ", &Json::Null),
                    ),
                };
            }
            self.status_ready = true;
        } else if message.field_is("id", "cxs/probe/read-directory") {
            match message.get("error") {
                Some(error) => return Err(refuse_json("remote fs/readDirectory failed: ", error)),
                None => {},
            }
            match message.get_nested("result", "entries") {
                Some(Json::Array(_)) => {},
                _ => {
                    return Err(
                        refuse_json("remote fs/readDirectory returned an invalid result: ", message),
                    );
                },
            }
            self.directory_ready = true;
        } else if message.field_is("id", "cxs/probe/run-command") {
            match self.command_reply(message) {
                Ok(_) => {},
                Err(e) => return Err(e),
            }
            self.command_ready = true;
        }
        Ok(self.status_ready && self.directory_ready && self.command_ready)
    }

    /// Takes one text frame.
    pub fn on_text(&mut self, text: &str) -> (r: Result<bool, Failure>)
        ensures
            match parsed_json(encode_utf8(text@)) {
                None => refused(r, "the probe received invalid JSON"@) && final(self)@
                    == old(self)@,
                Some(message) => match progress_after(old(self)@, message) {
                    Err(e) => refused(r, e) && final(self)@ == old(self)@,
                    Ok(next) => final(self)@ == next && r == Ok::<bool, Failure>(
                        next.status_ready && next.directory_ready && next.command_ready,
                    ),
                },
            },
    {
        match parse_json(text.as_bytes()) {
            Some(message) => self.on_message(&message),
            None => Err(refuse("the probe received invalid JSON")),
        }
    }
}

/// What the probe and its cleanup come to.
pub fn probe_outcome(result: Result<(), Failure>, cleanup: Result<(), Failure>) -> (r: Result<
    (),
    Failure,
>)
    ensures
        match (result, cleanup) {
            (Ok(_), Ok(_)) => r is Ok,
            (Err(e), Ok(_)) => refused(r, e@),
            (Ok(_), Err(c)) => refused(r, "remote App Server probe cleanup failed: "@ + c@),
            (Err(e), Err(c)) => refused(
                r,
                e@ + "; remote App Server probe cleanup also failed: "@ + c@,
            ),
        },
{
    match (result, cleanup) {
        (Ok(_), Ok(_)) => Ok(()),
        (Err(e), Ok(_)) => Err(e),
        (Ok(_), Err(c)) => Err(refuse_about("remote App Server probe cleanup failed: ", &c.message)),
        (Err(e), Err(c)) => {
            let mut message = e.message;
            message.push_str("; remote App Server probe cleanup also failed: ");
            message.push_str(&c.message);
            Err(Failure { message })
        },
    }
}

} // verus!
