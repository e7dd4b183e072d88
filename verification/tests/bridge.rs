use codex_shuttle::arguments::{app_server_arguments, app_server_command};
use codex_shuttle::bridge::{
    environment_status_ready, host_message_allowed, merge_initialize_response,
    merge_thread_metadata, rewrite_client_message,
};
use codex_shuttle::handshake::{
    accept_shim, check_sendable, handshake_byte, last_line, take_line, validate_agent_handshake,
    validate_handshake,
};
use codex_shuttle::json::{encode_json, parse_json, Json, Number};
use codex_shuttle::profile::{
    AgentHandshake, Profile, ProfileStatus, ShimHandshake, ShimTransport, AGENT_MAGIC,
    AGENT_PROTOCOL_VERSION, PROFILE_SCHEMA_VERSION, SHIM_MAGIC, SHIM_PROTOCOL_VERSION,
};
use codex_shuttle::routing::{is_host_notification, is_host_request};

fn profile() -> Profile {
    Profile {
        schema_version: PROFILE_SCHEMA_VERSION,
        name: "gpu".to_owned(),
        source_host: "gpu-server".to_owned(),
        app_alias: "cxs-gpu".to_owned(),
        status: ProfileStatus::Prepared,
        codex_version: "codex-cli 0.147.0".to_owned(),
        local_socket: "/tmp/cxs-test.sock".to_owned(),
        remote_socket: "/tmp/cxs-remote.sock".to_owned(),
        environment_id: "cxs-gpu".to_owned(),
        local_exec_port: 49_444,
        remote_exec_port: 49_445,
        token_file: "/tmp/cxs-token".to_owned(),
        codex_home: "/tmp/codex".to_owned(),
        installed_target: None,
        remote_home: None,
        remote_release: None,
        package_sha256: None,
        shim_sha256: None,
        executor_source: None,
        executor_path: None,
    }
}

fn json(text: &str) -> Json {
    parse_json(text.as_bytes()).unwrap()
}

fn handshake() -> ShimHandshake {
    ShimHandshake {
        magic: SHIM_MAGIC.to_owned(),
        protocol_version: SHIM_PROTOCOL_VERSION,
        profile: "gpu".to_owned(),
        token: "a".repeat(64),
        app_server_args: Vec::new(),
        transport: ShimTransport::Jsonl,
    }
}

/// A handshake as it is sent.
fn write_handshake(handshake: &ShimHandshake) -> String {
    format!(
        r#"{{"magic":"{}","protocol_version":{},"profile":"{}","token":"{}","app_server_args":[],"transport":"jsonl"}}"#,
        handshake.magic, handshake.protocol_version, handshake.profile, handshake.token
    )
}

/// A handshake as it is read.
fn parse_handshake(bytes: &[u8]) -> ShimHandshake {
    let value: serde_json::Value = serde_json::from_slice(bytes).unwrap();
    let text = |name: &str| value[name].as_str().unwrap().to_owned();
    assert_eq!(text("transport"), "jsonl");
    ShimHandshake {
        magic: text("magic"),
        protocol_version: u32::try_from(value["protocol_version"].as_u64().unwrap()).unwrap(),
        profile: text("profile"),
        token: text("token"),
        app_server_args: value["app_server_args"]
            .as_array()
            .unwrap()
            .iter()
            .map(|argument| argument.as_str().unwrap().to_owned())
            .collect(),
        transport: ShimTransport::Jsonl,
    }
}

#[test]
fn enables_experimental_api_and_remote_thread_environment() {
    let profile = profile();
    let mut initialize_id = None;
    let initialize = rewrite_client_message(
        br#"{"id":1,"method":"initialize","params":{"clientInfo":{"name":"app","version":"1"}}}"#,
        &profile,
        &mut initialize_id,
    )
    .unwrap();
    let initialize: serde_json::Value = serde_json::from_slice(&initialize).unwrap();
    assert_eq!(
        initialize.pointer("/params/capabilities/experimentalApi"),
        Some(&serde_json::Value::Bool(true))
    );
    assert!(initialize_id.as_ref().unwrap().same(&Json::Number(Number::Unsigned(1))));

    let thread = rewrite_client_message(
        br#"{"id":2,"method":"thread/start","params":{"cwd":"/srv/project"}}"#,
        &profile,
        &mut initialize_id,
    )
    .unwrap();
    let thread: serde_json::Value = serde_json::from_slice(&thread).unwrap();
    assert_eq!(
        thread
            .pointer("/params/environments/0/environmentId")
            .and_then(serde_json::Value::as_str),
        Some("cxs-gpu")
    );
    assert_eq!(
        thread
            .pointer("/params/environments/0/cwd")
            .and_then(serde_json::Value::as_str),
        Some("/srv/project")
    );
}

#[test]
fn forwards_client_probe_ids_but_hides_internal_host_ids() {
    let profile = profile();
    assert!(host_message_allowed(
        &json(r#"{"id": "cxs/probe/read-directory", "result": {}}"#),
        &profile,
    ));
    assert!(!host_message_allowed(
        &json(r#"{"id": "cxs/cxs-gpu/host-initialize", "result": {}}"#),
        &profile,
    ));
    assert!(!host_message_allowed(
        &json(r#"{"id": "cxs/cxs-gpu/thread-metadata/7", "result": {}}"#),
        &profile,
    ));
}

#[test]
fn host_notifications_pass_and_others_do_not() {
    let profile = profile();
    assert!(host_message_allowed(&json(r#"{"method":"fs/changed"}"#), &profile));
    assert!(!host_message_allowed(&json(r#"{"method":"thread/started"}"#), &profile));
    assert!(host_message_allowed(&json(r#"{"id":7,"result":{}}"#), &profile));
    assert!(is_host_request("fs/readFile"));
    assert!(!is_host_request("fs/readFiles"));
    assert!(is_host_notification("process/exited"));
    assert!(!is_host_notification("process/spawn"));
}

#[test]
fn filters_transport_arguments_and_preserves_safe_options() {
    let arguments = vec![
        "--listen".to_owned(),
        "stdio://".to_owned(),
        "--analytics-default-enabled".to_owned(),
        "--enable".to_owned(),
        "example".to_owned(),
    ];
    assert_eq!(
        app_server_arguments(&arguments).unwrap(),
        [
            "app-server",
            "--analytics-default-enabled",
            "--enable",
            "example"
        ]
    );
    assert!(app_server_arguments(&vec!["proxy".to_owned()]).is_err());
}

#[test]
fn incomplete_and_unknown_arguments_are_refused() {
    let refuse = |arguments: &[&str]| {
        let arguments: Vec<String> = arguments.iter().map(|a| (*a).to_owned()).collect();
        app_server_arguments(&arguments).unwrap_err().message
    };
    assert_eq!(refuse(&["--listen"]), "app-server --listen did not include a value");
    assert_eq!(refuse(&["-c"]), "app-server argument '-c' did not include a value");
    assert_eq!(
        refuse(&["--ws-auth"]),
        "unsupported app-server argument '--ws-auth' from the remote client"
    );
    assert_eq!(
        refuse(&["--stdio", "help"]),
        "unsupported app-server argument 'help' from the remote client"
    );
}

#[test]
fn an_option_value_that_looks_like_a_transport_is_kept() {
    let arguments = vec![
        "--enable".to_owned(),
        "--listen".to_owned(),
        "--listen=unix://".to_owned(),
        "--config=a=b".to_owned(),
    ];
    let kept = app_server_arguments(&arguments).unwrap();
    assert_eq!(kept, ["app-server", "--enable", "--listen", "--config=a=b"]);
    let again: Vec<String> = kept[1..].to_vec();
    assert_eq!(app_server_arguments(&again).unwrap(), kept);
}

#[test]
fn the_app_server_gets_its_transport_from_the_bridge() {
    let forwarded = vec!["app-server".to_owned()];
    assert_eq!(
        app_server_command(&forwarded, None),
        [
            "app-server",
            "--stdio",
            "--enable",
            "deferred_executor",
            "--enable",
            "executor_capability_discovery"
        ]
    );
    assert_eq!(
        app_server_command(&forwarded, Some("unix:///tmp/a"))[1..3],
        ["--listen", "unix:///tmp/a"]
    );
}

#[test]
fn rewriting_refuses_what_it_cannot_bind() {
    let profile = profile();
    let mut id = None;
    let mut refuse = |text: &str| {
        rewrite_client_message(text.as_bytes(), &profile, &mut id)
            .unwrap_err()
            .message
    };
    assert_eq!(refuse("{"), "client sent invalid App Server JSONL");
    assert_eq!(
        refuse(r#"{"method":"initialize"}"#),
        "initialize request did not contain an id"
    );
    assert_eq!(
        refuse(r#"{"id":1,"method":"thread/start","params":{}}"#),
        "thread/start must contain a remote cwd"
    );
    assert_eq!(
        refuse(r#"{"id":1,"method":"turn/start","params":[1]}"#),
        "App Server field 'params' was not an object"
    );
    assert!(id.is_none());
}

#[test]
fn turns_without_a_directory_keep_the_threads_environment() {
    let profile = profile();
    let mut id = None;
    let turn = rewrite_client_message(
        br#"{"id":5,"method":"turn/start","params":{"environments":[],"input":[]}}"#,
        &profile,
        &mut id,
    )
    .unwrap();
    assert_eq!(
        String::from_utf8(turn).unwrap(),
        r#"{"id":5,"method":"turn/start","params":{"input":[]}}"#
    );
    let turn = rewrite_client_message(
        br#"{"id":5,"method":"turn/start","params":{"cwd":"/w"}}"#,
        &profile,
        &mut id,
    )
    .unwrap();
    let again = rewrite_client_message(&turn, &profile, &mut id).unwrap();
    assert_eq!(turn, again);
}

#[test]
fn messages_of_other_methods_pass_unchanged() {
    let profile = profile();
    let mut id = None;
    let text = r#"{"id":-3,"method":"model/list","params":{"a":[1.5,null,true,"x"]}}"#;
    let passed = rewrite_client_message(text.as_bytes(), &profile, &mut id).unwrap();
    assert_eq!(String::from_utf8(passed).unwrap(), text);
}

#[test]
fn reads_and_validates_handshake() {
    let sent = ShimHandshake {
        magic: SHIM_MAGIC.to_owned(),
        protocol_version: SHIM_PROTOCOL_VERSION,
        profile: "gpu".to_owned(),
        token: "a".repeat(64),
        app_server_args: Vec::new(),
        transport: ShimTransport::Jsonl,
    };
    let mut stream = write_handshake(&sent).into_bytes();
    stream.extend_from_slice(b"\nremaining");
    let mut read = Vec::new();
    let mut used = 0;
    for byte in &stream {
        used += 1;
        if handshake_byte(&mut read, *byte).unwrap() {
            break;
        }
    }
    let decoded = parse_handshake(&read);
    validate_handshake(&decoded, &profile(), &"a".repeat(64)).unwrap();
    assert_eq!(&stream[used..], b"remaining");
}

#[test]
fn handshakes_have_a_limit_that_shims_keep() {
    let longest = vec![b'x'; 8191];
    check_sendable(&longest).unwrap();
    let mut read = Vec::new();
    for byte in &longest {
        assert!(!handshake_byte(&mut read, *byte).unwrap());
    }
    assert!(handshake_byte(&mut read, b'\n').unwrap());
    assert_eq!(read, longest);
    let failure = check_sendable(&vec![b'x'; 8192]).unwrap_err();
    assert_eq!(
        failure.message,
        "app-server arguments are too large for the shim handshake"
    );
    let failure = handshake_byte(&mut read, b'x').unwrap_err();
    assert_eq!(failure.message, "shim handshake exceeded 8192 bytes");
}

#[test]
fn handshakes_of_strangers_are_refused() {
    let token = "a".repeat(64);
    let check = |h: &ShimHandshake| validate_handshake(h, &profile(), &token).unwrap_err().message;
    let mut other = handshake();
    other.protocol_version = 2;
    assert_eq!(check(&other), "shim protocol version mismatch");
    let mut other = handshake();
    other.profile = "cpu".to_owned();
    assert_eq!(check(&other), "shim requested the wrong profile");
    let mut other = handshake();
    other.token = "b".repeat(64);
    assert_eq!(check(&other), "shim authentication failed");
    let mut other = handshake();
    other.token = "a".repeat(63);
    assert_eq!(check(&other), "shim authentication failed");

    let mut agent = AgentHandshake {
        magic: AGENT_MAGIC.to_owned(),
        protocol_version: AGENT_PROTOCOL_VERSION,
        profile: "gpu".to_owned(),
        token: token.clone(),
    };
    validate_agent_handshake(&agent, &profile(), &token).unwrap();
    agent.token.push('a');
    assert_eq!(
        validate_agent_handshake(&agent, &profile(), &token).unwrap_err().message,
        "remote agent authentication failed"
    );
    agent.profile = "cpu".to_owned();
    assert_eq!(
        validate_agent_handshake(&agent, &profile(), &token).unwrap_err().message,
        "remote agent belongs to the wrong profile"
    );
    agent.magic = SHIM_MAGIC.to_owned();
    assert_eq!(
        validate_agent_handshake(&agent, &profile(), &token).unwrap_err().message,
        "remote agent protocol version mismatch"
    );
}

#[test]
fn an_accepted_shim_gets_its_command_line() {
    let mut hello = handshake();
    hello.app_server_args = vec!["--stdio".to_owned(), "--strict-config".to_owned()];
    assert_eq!(
        accept_shim(&hello, &profile(), &"a".repeat(64)).unwrap(),
        ["app-server", "--strict-config"]
    );
    hello.app_server_args = vec!["daemon".to_owned()];
    assert!(accept_shim(&hello, &profile(), &"a".repeat(64)).is_err());
}

#[test]
fn lines_do_not_depend_on_how_they_arrive() {
    let input = b"first\r\nsecond\nthird";
    for cut in 0..input.len() {
        let mut lines = Vec::new();
        let mut line = Vec::new();
        for piece in [&input[..cut], &input[cut..]] {
            let mut rest = piece;
            while !rest.is_empty() {
                let (taken, complete) = take_line(&mut line, rest, 16).unwrap();
                rest = &rest[taken..];
                if complete {
                    lines.push(std::mem::take(&mut line));
                }
            }
        }
        lines.extend(last_line(line));
        assert_eq!(lines, [b"first".to_vec(), b"second".to_vec(), b"third".to_vec()]);
    }
    assert_eq!(last_line(Vec::new()), None);
}

#[test]
fn lines_have_a_limit() {
    let mut line = b"abc".to_vec();
    assert_eq!(take_line(&mut line, b"d\n", 5).unwrap(), (2, true));
    let mut line = b"abc".to_vec();
    let failure = take_line(&mut line, b"de\n", 5).unwrap_err();
    assert_eq!(failure.message, "JSONL message exceeded 5 bytes");
    assert_eq!(line, b"abc");
}

#[test]
fn the_initialize_reply_names_the_remote_host() {
    let local = json(r#"{"id":1,"result":{"userAgent":"mac","codexHome":"/Users/x","extra":1}}"#);
    let host = json(r#"{"id":"h","result":{"userAgent":"linux","platformOs":"linux","other":2}}"#);
    let merged = merge_initialize_response(local, &host, &Some("/home/x//".to_owned())).unwrap();
    assert_eq!(
        encode_json(&merged),
        r#"{"id":1,"result":{"codexHome":"/home/x/.codex","extra":1,"platformOs":"linux","userAgent":"linux"}}"#
    );
    let refuse = |local: &str, host: &str| {
        merge_initialize_response(json(local), &json(host), &None)
            .err()
            .map(|failure| failure.message)
    };
    assert_eq!(
        refuse("{}", r#"{"error":{"code":1}}"#).unwrap(),
        r#"remote Host App Server initialize failed: {"code":1}"#
    );
    assert_eq!(
        refuse("{}", r#"{"result":{}}"#).unwrap(),
        "local App Server initialize response did not contain a result object"
    );
    assert_eq!(
        refuse(r#"{"result":{}}"#, "{}").unwrap(),
        "remote Host App Server initialize response did not contain a result object"
    );
}

#[test]
fn the_local_thread_keeps_its_identity() {
    let local = json(
        r#"{"id":4,"result":{"cwd":"/l","model":"m","thread":{"id":"mac","cwd":"/l","gitInfo":null}}}"#,
    );
    let host = json(
        r#"{"id":"s","result":{"cwd":"/h","model":"x","thread":{"id":"shadow","cwd":"/h","gitInfo":{"sha":"a"}}}}"#,
    );
    let merged = merge_thread_metadata(local, &host).unwrap();
    assert_eq!(
        encode_json(&merged),
        r#"{"id":4,"result":{"cwd":"/h","model":"m","thread":{"cwd":"/h","gitInfo":{"sha":"a"},"id":"mac"}}}"#
    );
    let failed = json(r#"{"id":4,"error":{"code":2}}"#);
    assert_eq!(
        encode_json(&merge_thread_metadata(failed, &host).unwrap()),
        r#"{"error":{"code":2},"id":4}"#
    );
    assert_eq!(
        merge_thread_metadata(json("{}"), &host).err().unwrap().message,
        "Mac thread/start response did not contain a result object"
    );
    assert_eq!(
        merge_thread_metadata(json(r#"{"result":{}}"#), &json("{}")).err().unwrap().message,
        "Host thread/start response did not contain a result object"
    );
}

#[test]
fn the_environment_status_is_read() {
    assert!(environment_status_ready(&json(r#"{"result":{"status":"ready"}}"#)).unwrap());
    assert!(!environment_status_ready(&json(r#"{"result":{"status":"starting"}}"#)).unwrap());
    assert_eq!(
        environment_status_ready(&json(r#"{"error":"x"}"#)).unwrap_err().message,
        r#"environment/status failed: "x""#
    );
    assert_eq!(
        environment_status_ready(&json(r#"{"result":"ready"}"#)).unwrap_err().message,
        "environment/status response did not contain result.status"
    );
}
