use codex_shuttle::failure::Failure;
use codex_shuttle::jsonl::JsonlRelay;
use codex_shuttle::profile::{Profile, ProfileStatus, PROFILE_SCHEMA_VERSION};
use codex_shuttle::relay::{pass_frame, Peer};
use codex_shuttle::relay_model::{request_route, Action, RequestRoute, WebsocketRelay};
use serde_json::Value;

fn profile() -> Profile {
    Profile {
        schema_version: PROFILE_SCHEMA_VERSION,
        name: "gpu".to_owned(),
        source_host: "gpu-server".to_owned(),
        app_alias: "cxs-gpu".to_owned(),
        status: ProfileStatus::Prepared,
        codex_version: "codex-cli 0.147.0".to_owned(),
        local_socket: "/tmp/cxs-test.sock".to_owned(),
        remote_socket: "/tmp/cxs-remote.sock".to_owned(),
        environment_id: "cxs-gpu".to_owned(),
        local_exec_port: 49_444,
        remote_exec_port: 49_445,
        token_file: "/tmp/cxs-token".to_owned(),
        codex_home: "/tmp/codex".to_owned(),
        installed_target: None,
        remote_home: None,
        remote_release: None,
        package_sha256: None,
        shim_sha256: None,
        executor_source: None,
        executor_path: None,
    }
}

fn value(text: &str) -> Value {
    serde_json::from_str(text).unwrap()
}

fn to_server(action: &Action) -> Value {
    match action {
        Action::ToServer(text) => value(text),
        other => panic!("unexpected {other:?}"),
    }
}

fn to_client(action: &Action) -> Value {
    match action {
        Action::ToClient(text) => value(text),
        other => panic!("unexpected {other:?}"),
    }
}

fn to_host(action: &Action) -> Value {
    match action {
        Action::ToHost(text) => value(text),
        other => panic!("unexpected {other:?}"),
    }
}

struct Relay(WebsocketRelay);

impl Relay {
    fn client(&mut self, text: &str, now: u64) -> Vec<Action> {
        let mut actions = Vec::new();
        self.0.on_client_text(text, now, &mut actions).unwrap();
        actions
    }

    fn server(&mut self, text: &str, now: u64) -> Vec<Action> {
        let mut actions = Vec::new();
        self.0.on_server_text(text, now, &mut actions).unwrap();
        actions
    }

    fn host(&mut self, text: &str, now: u64) -> Vec<Action> {
        let mut actions = Vec::new();
        self.0.on_host_line(text.as_bytes(), now, &mut actions).unwrap();
        actions
    }

    fn tick(&mut self, now: u64) -> Vec<Action> {
        let mut actions = Vec::new();
        self.0.on_tick(now, &mut actions).unwrap();
        actions
    }

    /// A relay whose client has initialized and whose environment is ready.
    fn ready() -> Relay {
        let mut relay = Relay(WebsocketRelay::new(profile()));
        relay.client(r#"{"id":1,"method":"initialize"}"#, 0);
        relay.server(r#"{"id":1,"result":{}}"#, 0);
        relay.host(r#"{"id":"cxs/cxs-gpu/host-initialize","result":{}}"#, 0);
        relay.server(r#"{"id":"cxs/cxs-gpu/environment-add","result":{}}"#, 0);
        relay.server(
            r#"{"id":"cxs/cxs-gpu/environment-status","result":{"status":"ready"}}"#,
            0,
        );
        relay
    }
}

fn message(result: Result<(), Failure>) -> String {
    result.unwrap_err().message
}

#[test]
fn registers_environment_before_forwarding_pipelined_thread_start() {
    let mut relay = JsonlRelay::new(profile());
    let mut actions = Vec::new();
    relay
        .on_client_line(
            br#"{"id":1,"method":"initialize","params":{"clientInfo":{"name":"app","version":"1"}}}"#,
            &mut actions,
        )
        .unwrap();
    relay
        .on_client_line(
            br#"{"id":2,"method":"thread/start","params":{"cwd":"/srv/project"}}"#,
            &mut actions,
        )
        .unwrap();
    assert_eq!(actions.len(), 1);
    let initialize = to_server(&actions[0]);
    assert_eq!(
        initialize.pointer("/params/capabilities/experimentalApi"),
        Some(&Value::Bool(true))
    );

    let mut actions = Vec::new();
    relay
        .on_server_line(br#"{"id":1,"result":{}}"#, &mut actions)
        .unwrap();
    assert_eq!(actions.len(), 2);
    assert!(matches!(actions[0], Action::PassToClient));
    let add = to_server(&actions[1]);
    assert_eq!(add["method"], "environment/add");
    assert_eq!(add["params"]["execServerUrl"], "ws://127.0.0.1:49444");
    assert_eq!(add["params"]["connectTimeoutMs"], 10_000);

    let mut actions = Vec::new();
    let reply = format!(r#"{{"id":{},"result":{{}}}}"#, add["id"]);
    relay.on_server_line(reply.as_bytes(), &mut actions).unwrap();
    assert_eq!(actions.len(), 1);
    let status = to_server(&actions[0]);
    assert_eq!(status["method"], "environment/status");

    let mut actions = Vec::new();
    let reply = format!(r#"{{"id":{},"result":{{"status":"ready"}}}}"#, status["id"]);
    relay.on_server_line(reply.as_bytes(), &mut actions).unwrap();
    assert_eq!(actions.len(), 1);
    let thread = to_server(&actions[0]);
    assert_eq!(thread["params"]["environments"][0]["environmentId"], "cxs-gpu");
}

#[test]
fn registers_environment_over_websocket_transport() {
    let mut relay = Relay(WebsocketRelay::new(profile()));
    let actions = relay.client(
        r#"{"id":1,"method":"initialize","params":{"clientInfo":{"name":"app","version":"1"}}}"#,
        0,
    );
    assert_eq!(actions.len(), 2);
    let host_initialize = to_host(&actions[0]);
    let initialize = to_server(&actions[1]);
    assert_eq!(
        initialize.pointer("/params/capabilities/experimentalApi"),
        Some(&Value::Bool(true))
    );
    assert_eq!(host_initialize["method"], "initialize");
    assert_eq!(
        host_initialize.pointer("/params/capabilities/experimentalApi"),
        Some(&Value::Bool(true))
    );
    let actions = relay.client(
        r#"{"id":2,"method":"environment/status","params":{"environmentId":"cxs-gpu"}}"#,
        1,
    );
    assert!(actions.is_empty());

    let reply = format!(
        r#"{{"id":{},"result":{{"userAgent":"codex/linux","codexHome":"/home/test/.codex","platformFamily":"unix","platformOs":"linux"}}}}"#,
        host_initialize["id"]
    );
    assert!(relay.host(&reply, 2).is_empty());
    let actions = relay.server(
        r#"{"id":1,"result":{"userAgent":"codex/macos","codexHome":"/Users/test/.codex","platformFamily":"unix","platformOs":"macos"}}"#,
        3,
    );
    assert_eq!(actions.len(), 2);
    let add = to_server(&actions[0]);
    assert_eq!(add["method"], "environment/add");
    let first = to_client(&actions[1]);
    assert_eq!(first["id"], 1);
    assert_eq!(first["result"]["platformOs"], "linux");
    assert_eq!(first["result"]["codexHome"], "/home/test/.codex");

    let actions = relay.server(&format!(r#"{{"id":{},"result":{{}}}}"#, add["id"]), 4);
    assert_eq!(actions.len(), 1);
    let internal_status = to_server(&actions[0]);
    assert_eq!(internal_status["method"], "environment/status");
    let actions = relay.server(
        &format!(
            r#"{{"id":{},"result":{{"status":"ready"}}}}"#,
            internal_status["id"]
        ),
        5,
    );
    assert_eq!(actions.len(), 1);
    assert_eq!(to_server(&actions[0])["id"], 2);
    let actions = relay.server(r#"{"id":2,"result":{"status":"ready"}}"#, 6);
    assert_eq!(actions.len(), 1);
    assert!(matches!(actions[0], Action::PassToClient));

    let actions = relay.client(
        r#"{"id":4,"method":"thread/start","params":{"cwd":"/home/test/project"}}"#,
        7,
    );
    assert_eq!(actions.len(), 1);
    let host_thread = to_host(&actions[0]);
    assert_eq!(host_thread["method"], "thread/start");
    assert_eq!(host_thread["params"]["ephemeral"], true);
    assert!(host_thread["params"].get("environments").is_none());
    let actions = relay.host(
        &format!(
            r#"{{"id":{},"result":{{"cwd":"/home/test/project","runtimeWorkspaceRoots":["/home/test/project"],"instructionSources":["/home/test/project/AGENTS.md"],"thread":{{"id":"host-shadow-thread","cwd":"/home/test/project","gitInfo":{{"branch":"main","sha":"abc","originUrl":null}}}}}}}}"#,
            host_thread["id"]
        ),
        8,
    );
    assert_eq!(actions.len(), 1);
    let instruction_read = to_host(&actions[0]);
    assert_eq!(instruction_read["method"], "fs/readFile");
    assert_eq!(
        instruction_read["params"]["path"],
        "/home/test/project/AGENTS.md"
    );
    let actions = relay.host(
        &format!(
            r#"{{"id":{},"result":{{"dataBase64":"QWx3YXlzIHJ1biByZW1vdGUgdGVzdHMu"}}}}"#,
            instruction_read["id"]
        ),
        9,
    );
    assert_eq!(actions.len(), 1);
    let local_thread = to_server(&actions[0]);
    assert_eq!(local_thread["id"], 4);
    assert_eq!(
        local_thread.pointer("/params/environments/0/environmentId"),
        Some(&Value::String("cxs-gpu".to_owned()))
    );
    assert_eq!(
        local_thread["params"]["developerInstructions"],
        "Instructions from /home/test/project/AGENTS.md:\nAlways run remote tests."
    );
    let actions = relay.server(
        r#"{"id":4,"result":{"cwd":"/home/test/project","instructionSources":[],"thread":{"id":"mac-thread","cwd":"/home/test/project","gitInfo":null}}}"#,
        10,
    );
    assert_eq!(actions.len(), 1);
    let thread_response = to_client(&actions[0]);
    assert_eq!(thread_response["result"]["thread"]["id"], "mac-thread");
    assert_eq!(thread_response["result"]["thread"]["gitInfo"]["branch"], "main");
    assert_eq!(
        thread_response["result"]["instructionSources"][0],
        "/home/test/project/AGENTS.md"
    );

    let actions = relay.client(
        r#"{"id":3,"method":"fs/readDirectory","params":{"path":"/home/test"}}"#,
        11,
    );
    assert_eq!(actions.len(), 1);
    assert_eq!(to_host(&actions[0])["method"], "fs/readDirectory");
    let actions = relay.host(
        r#"{"id":3,"result":{"entries":[{"fileName":"project","isDirectory":true,"isFile":false}]}}"#,
        12,
    );
    assert_eq!(actions.len(), 1);
    assert!(matches!(actions[0], Action::PassToClient));
}

#[test]
fn waiting_requests_keep_their_order() {
    let mut relay = Relay(WebsocketRelay::new(profile()));
    relay.client(r#"{"id":1,"method":"initialize"}"#, 0);
    assert!(relay.client(r#"{"id":2,"method":"model/list"}"#, 0).is_empty());
    assert!(relay.client(r#"{"id":3,"method":"fs/readFile"}"#, 0).is_empty());
    assert!(relay.client(r#"{"id":4,"method":"model/list"}"#, 0).is_empty());
    relay.server(r#"{"id":1,"result":{}}"#, 0);
    relay.server(r#"{"id":"cxs/cxs-gpu/environment-add","result":{}}"#, 0);
    let status = r#"{"id":"cxs/cxs-gpu/environment-status","result":{"status":"ready"}}"#;
    assert!(relay.server(status, 0).is_empty());
    let actions = relay.host(r#"{"id":"cxs/cxs-gpu/host-initialize","result":{}}"#, 0);
    assert_eq!(actions.len(), 4);
    assert_eq!(to_client(&actions[0])["id"], 1);
    assert_eq!(to_server(&actions[1])["id"], 2);
    assert_eq!(to_host(&actions[2])["id"], 3);
    assert_eq!(to_server(&actions[3])["id"], 4);
    assert_eq!(relay.0.queued_bytes, 0);
}

#[test]
fn the_status_is_asked_for_two_hundred_times_at_most() {
    let mut relay = Relay(WebsocketRelay::new(profile()));
    relay.client(r#"{"id":1,"method":"initialize"}"#, 0);
    relay.server(r#"{"id":1,"result":{}}"#, 0);
    relay.server(r#"{"id":"cxs/cxs-gpu/environment-add","result":{}}"#, 0);
    let waiting = r#"{"id":"cxs/cxs-gpu/environment-status","result":{"status":"starting"}}"#;
    for _ in 1..200 {
        let actions = relay.server(waiting, 0);
        assert_eq!(actions.len(), 2);
        assert!(matches!(actions[0], Action::Pause(50)));
        assert_eq!(to_server(&actions[1])["method"], "environment/status");
    }
    let mut actions = Vec::new();
    assert_eq!(
        message(relay.0.on_server_text(waiting, 0, &mut actions)),
        "execution environment did not become ready within 10 seconds"
    );
    assert!(actions.is_empty());
}

#[test]
fn replies_to_the_bridge_stay_hidden() {
    let mut relay = Relay::ready();
    assert!(relay
        .host(r#"{"id":"cxs/cxs-gpu/thread-metadata/9","result":{}}"#, 0)
        .is_empty());
    let actions = relay.server(
        r#"{"id":"cxs/cxs-gpu/environment-status","result":{"status":"ready"}}"#,
        0,
    );
    assert!(actions.is_empty());
}

#[test]
fn a_thread_starts_once_and_no_later_than_three_seconds() {
    let mut relay = Relay::ready();
    relay.client(r#"{"id":"t","method":"thread/start","params":{"cwd":"/w"}}"#, 1_000);
    assert!(relay.0.wants_tick());
    assert!(relay.tick(3_999).is_empty());
    let actions = relay.tick(4_000);
    assert_eq!(actions.len(), 1);
    assert_eq!(to_server(&actions[0])["id"], "t");
    assert!(!relay.0.wants_tick());
    assert!(relay.tick(9_000).is_empty());
    let late = r#"{"id":"cxs/cxs-gpu/thread-metadata/1","result":{"cwd":"/real"}}"#;
    assert!(relay.host(late, 9_001).is_empty());
    let actions = relay.server(r#"{"id":"t","result":{"cwd":"/w"}}"#, 9_002);
    assert_eq!(to_client(&actions[0])["result"]["cwd"], "/real");
}

#[test]
fn a_failed_lookup_starts_the_thread_at_once() {
    let mut relay = Relay::ready();
    relay.client(r#"{"id":5,"method":"thread/start","params":{"cwd":"/w"}}"#, 0);
    let actions = relay.host(r#"{"id":"cxs/cxs-gpu/thread-metadata/1","error":{}}"#, 1);
    assert_eq!(to_server(&actions[0])["id"], 5);
    let actions = relay.server(r#"{"id":5,"result":{"cwd":"/w"}}"#, 2);
    assert_eq!(to_client(&actions[0])["result"]["cwd"], "/w");
}

#[test]
fn instructions_join_those_of_the_client() {
    let mut relay = Relay::ready();
    relay.client(
        r#"{"id":5,"method":"thread/start","params":{"cwd":"/w","developerInstructions":"Mine."}}"#,
        0,
    );
    let actions = relay.host(
        r#"{"id":"cxs/cxs-gpu/thread-metadata/1","result":{"instructionSources":["/a",3,"/b"]}}"#,
        1,
    );
    assert_eq!(actions.len(), 2);
    assert_eq!(to_host(&actions[1])["params"]["path"], "/b");
    assert!(relay
        .host(
            r#"{"id":"cxs/cxs-gpu/thread-metadata/1/instruction/0","error":{}}"#,
            2
        )
        .is_empty());
    let actions = relay.host(
        r#"{"id":"cxs/cxs-gpu/thread-metadata/1/instruction/1","result":{"dataBase64":"Qg=="}}"#,
        3,
    );
    assert_eq!(
        to_server(&actions[0])["params"]["developerInstructions"],
        "Mine.\n\nInstructions from /b:\nB"
    );
}

#[test]
fn instruction_files_have_limits() {
    let reading = |data: &str| {
        let mut relay = Relay::ready();
        relay.client(r#"{"id":5,"method":"thread/start","params":{"cwd":"/w"}}"#, 0);
        relay.host(
            r#"{"id":"cxs/cxs-gpu/thread-metadata/1","result":{"instructionSources":["/a"]}}"#,
            1,
        );
        let mut actions = Vec::new();
        let line = format!(
            r#"{{"id":"cxs/cxs-gpu/thread-metadata/1/instruction/0","result":{{"dataBase64":"{data}"}}}}"#
        );
        relay.0.on_host_line(line.as_bytes(), 2, &mut actions)
    };
    reading(&"AAAA".repeat(87_381)).unwrap();
    assert_eq!(
        message(reading(&"AAAA".repeat(87_382))),
        "remote instruction source is too large: /a"
    );
    assert_eq!(
        message(reading("???")),
        "Host App Server returned invalid base64 for /a"
    );
    assert_eq!(
        message(reading("/w==")),
        "remote instruction source is not UTF-8: /a"
    );
}

#[test]
fn instruction_files_have_a_limit_together() {
    let mut relay = Relay::ready();
    relay.client(r#"{"id":5,"method":"thread/start","params":{"cwd":"/w"}}"#, 0);
    relay.host(
        r#"{"id":"cxs/cxs-gpu/thread-metadata/1","result":{"instructionSources":["/a","/b","/c"]}}"#,
        1,
    );
    let mut actions = Vec::new();
    let mut last = Ok(());
    for index in 0..3 {
        let line = format!(
            r#"{{"id":"cxs/cxs-gpu/thread-metadata/1/instruction/{index}","result":{{"dataBase64":"{}"}}}}"#,
            "YWFh".repeat(87_000)
        );
        last = relay.0.on_host_line(line.as_bytes(), 2, &mut actions);
        if last.is_err() {
            break;
        }
    }
    assert_eq!(
        message(last),
        "remote instruction sources exceed the aggregate size limit"
    );
}

#[test]
fn at_most_thirty_two_instruction_files_are_read() {
    let mut relay = Relay::ready();
    relay.client(r#"{"id":5,"method":"thread/start","params":{"cwd":"/w"}}"#, 0);
    let sources: Vec<String> = (0..40).map(|n| format!("\"/{n}\"")).collect();
    let line = format!(
        r#"{{"id":"cxs/cxs-gpu/thread-metadata/1","result":{{"instructionSources":[{}]}}}}"#,
        sources.join(",")
    );
    assert_eq!(relay.host(&line, 1).len(), 32);
}

#[test]
fn faults_end_the_relay() {
    let fresh = || {
        let mut relay = Relay(WebsocketRelay::new(profile()));
        relay.client(r#"{"id":1,"method":"initialize"}"#, 0);
        relay
    };
    let mut actions = Vec::new();
    assert_eq!(
        message(fresh().0.on_host_line(b"{", 0, &mut actions)),
        "remote Host App Server emitted invalid JSONL"
    );
    assert_eq!(
        message(fresh().0.on_server_text(r#"{"id":1,"error":"no"}"#, 0, &mut actions)),
        r#"app-server initialize failed: "no""#
    );
    assert_eq!(
        message(fresh().0.on_server_text(
            r#"{"id":"cxs/cxs-gpu/environment-add","error":"no"}"#,
            0,
            &mut actions
        )),
        r#"environment/add failed: "no""#
    );
    assert_eq!(
        message(fresh().0.on_host_line(
            br#"{"id":"cxs/cxs-gpu/host-initialize","error":"no"}"#,
            0,
            &mut actions
        )),
        r#"remote Host App Server initialize failed: "no""#
    );
    assert_eq!(
        message(Relay::ready().0.on_client_text(
            r#"{"method":"thread/start","params":{"cwd":"/w"}}"#,
            0,
            &mut actions
        )),
        "thread/start did not contain an id"
    );
    assert!(actions.is_empty());
}

#[test]
fn frames_without_a_message_pass() {
    let mut relay = Relay(WebsocketRelay::new(profile()));
    relay.client(r#"{"id":1,"method":"initialize"}"#, 0);
    let actions = relay.client("no json", 0);
    assert_eq!(actions.len(), 1);
    assert!(matches!(actions[0], Action::PassToServer));
    let actions = relay.server("{", 0);
    assert_eq!(actions.len(), 1);
    assert!(matches!(actions[0], Action::PassToClient));
    let mut actions = Vec::new();
    pass_frame(Peer::Client, &mut actions);
    pass_frame(Peer::Server, &mut actions);
    assert!(matches!(actions[0], Action::PassToServer));
    assert!(matches!(actions[1], Action::PassToClient));
    assert!(relay.0.queue.is_empty());
}

#[test]
fn threads_among_waiting_requests_keep_their_place() {
    let mut relay = Relay(WebsocketRelay::new(profile()));
    let actions = relay.client(r#"{"id":1,"method":"initialize"}"#, 0);
    assert_eq!(to_host(&actions[0])["id"], "cxs/cxs-gpu/host-initialize");
    assert_eq!(to_server(&actions[1])["id"], 1);
    relay.client(r#"{"id":2,"method":"thread/start","params":{"cwd":"/a"}}"#, 0);
    relay.client(r#"{"id":3,"method":"model/list"}"#, 0);
    relay.client(r#"{"id":4,"method":"thread/start","params":{"cwd":"/b"}}"#, 0);
    relay.client(r#"{"id":5,"method":"fs/watch"}"#, 0);
    relay.host(r#"{"id":"cxs/cxs-gpu/host-initialize","result":{"userAgent":"h"}}"#, 0);
    let actions = relay.server(r#"{"id":1,"result":{"userAgent":"l","x":1}}"#, 0);
    assert_eq!(to_server(&actions[0])["method"], "environment/add");
    assert_eq!(to_client(&actions[1])["result"], value(r#"{"userAgent":"h","x":1}"#));
    relay.server(r#"{"id":"cxs/cxs-gpu/environment-add","result":{}}"#, 0);
    let status = r#"{"id":"cxs/cxs-gpu/environment-status","result":{"status":"ready"}}"#;
    let actions = relay.server(status, 0);
    assert_eq!(actions.len(), 4);
    assert_eq!(to_host(&actions[0])["id"], "cxs/cxs-gpu/thread-metadata/1");
    assert_eq!(to_host(&actions[0])["params"]["cwd"], "/a");
    assert_eq!(to_server(&actions[1])["id"], 3);
    assert_eq!(to_host(&actions[2])["id"], "cxs/cxs-gpu/thread-metadata/2");
    assert_eq!(to_host(&actions[3])["id"], 5);
}

#[test]
fn a_refused_instruction_file_leaves_the_rest_alone() {
    let mut relay = Relay::ready();
    relay.client(r#"{"id":"t","method":"thread/start","params":{"cwd":"/w"}}"#, 0);
    relay.host(
        r#"{"id":"cxs/cxs-gpu/thread-metadata/1","result":{"instructionSources":["/a","/b"]}}"#,
        0,
    );
    let mut actions = Vec::new();
    let bad = br#"{"id":"cxs/cxs-gpu/thread-metadata/1/instruction/0","result":{"dataBase64":"*"}}"#;
    assert_eq!(
        message(relay.0.on_host_line(bad, 0, &mut actions)),
        "Host App Server returned invalid base64 for /a"
    );
    assert!(actions.is_empty());
    let lookup = &relay.0.lookups[0];
    assert!(!lookup.local_sent);
    assert!(lookup.instruction_contents.is_empty());
    assert_eq!(lookup.reads.get("cxs/cxs-gpu/thread-metadata/1/instruction/0"), None);
    assert_eq!(
        lookup.reads.get("cxs/cxs-gpu/thread-metadata/1/instruction/1"),
        Some("/b")
    );
}

#[test]
fn too_much_waiting_data_ends_the_relay() {
    let big = format!(r#"{{"id":9,"method":"x","params":"{}"}}"#, "a".repeat(12_000_000));
    let mut relay = Relay(WebsocketRelay::new(profile()));
    relay.client(r#"{"id":1,"method":"initialize"}"#, 0);
    relay.client(&big, 0);
    relay.client(&big, 0);
    let mut actions = Vec::new();
    assert_eq!(
        message(relay.0.on_client_text(&big, 0, &mut actions)),
        "client sent too much data before the remote host became ready"
    );
    let mut relay = JsonlRelay::new(profile());
    relay
        .on_client_line(br#"{"id":1,"method":"initialize"}"#, &mut actions)
        .unwrap();
    relay.on_client_line(big.as_bytes(), &mut actions).unwrap();
    relay.on_client_line(big.as_bytes(), &mut actions).unwrap();
    assert_eq!(
        message(relay.on_client_line(big.as_bytes(), &mut actions)),
        "client sent too much data before the execution environment became ready"
    );
}

#[test]
fn a_failed_initialize_still_reaches_the_line_client() {
    let mut relay = JsonlRelay::new(profile());
    let mut actions = Vec::new();
    relay
        .on_client_line(br#"{"id":1,"method":"initialize"}"#, &mut actions)
        .unwrap();
    let mut actions = Vec::new();
    assert_eq!(
        message(relay.on_server_line(br#"{"id":1,"error":"no"}"#, &mut actions)),
        r#"app-server initialize failed: "no""#
    );
    assert_eq!(actions.len(), 1);
    assert!(matches!(actions[0], Action::PassToClient));
    assert_eq!(
        message(relay.on_server_line(b"no", &mut actions)),
        "app-server emitted invalid JSONL"
    );
}

#[test]
fn routes_follow_the_owner_of_the_method() {
    assert_eq!(request_route(Some("thread/start")), RequestRoute::ThreadStart);
    assert_eq!(request_route(Some("command/exec")), RequestRoute::Host);
    assert_eq!(request_route(Some("turn/start")), RequestRoute::Local);
    assert_eq!(request_route(None), RequestRoute::Local);
}

#[test]
fn threads_start_nowhere_but_in_the_remote_environment() {
    let mut relay = Relay::ready();
    let start = r#"{"id":5,"method":"thread/start","params":{"cwd":"/w","environments":[{"environmentId":"local","cwd":"/"}]}}"#;
    let actions = relay.client(start, 0);
    assert_eq!(actions.len(), 1);
    let shadow = to_host(&actions[0]);
    assert_eq!(shadow["params"]["ephemeral"], true);
    assert!(shadow["params"].get("environments").is_none());
    let actions = relay.tick(3_000);
    assert_eq!(
        to_server(&actions[0])["params"]["environments"],
        value(r#"[{"environmentId":"cxs-gpu","cwd":"/w","runtimeWorkspaceRoots":["/w"]}]"#)
    );
    let turn = r#"{"id":6,"method":"turn/start","params":{"environments":[{"environmentId":"local","cwd":"/"}]}}"#;
    let actions = relay.client(turn, 3_001);
    assert!(to_server(&actions[0])["params"].get("environments").is_none());
}

#[test]
fn the_host_gets_no_requests_of_others() {
    let mut relay = Relay::ready();
    let actions = relay.client(r#"{"id":7,"method":"account/read"}"#, 0);
    assert_eq!(actions.len(), 1);
    assert_eq!(to_server(&actions[0])["id"], 7);
    let actions = relay.client(r#"{"id":8,"method":"process/spawn"}"#, 0);
    assert_eq!(actions.len(), 1);
    assert_eq!(to_host(&actions[0])["id"], 8);
}
