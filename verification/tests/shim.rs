use codex_shuttle::failure::Failure;
use codex_shuttle::mux::{
    bridge_accepts, identify_inbound, stream_header, ChannelKind, Role,
};
use codex_shuttle::profile::ShimTransport;
use codex_shuttle::runtime::feature_overrides;
use codex_shuttle::shim::{
    active_agent_pid, agent_hello, choose_control_socket, delegate_or_reject, delegation_outcome, exec_server_command,
    find_unix_socket_inode, has_ended, host_app_server_command, ignore_not_found,
    incoming_channel, is_agent_command_line, is_other_agent, normal_disconnect,
    requests_unix_listener, shim_action, shim_hello, state_has_ended, validate_agent_arguments,
    validate_agent_process, ChannelTarget, ControlClients, ControlSocket, IoFailure, ShimAction,
};

fn strings(values: &[&str]) -> Vec<String> {
    values.iter().map(|value| (*value).to_owned()).collect()
}

#[test]
fn detects_desktop_unix_listener_invocations() {
    assert!(requests_unix_listener(&vec![
        "--listen".to_owned(),
        "unix://".to_owned()
    ]));
    assert!(requests_unix_listener(&vec![
        "--listen=unix:///tmp/app.sock".to_owned()
    ]));
    assert!(!requests_unix_listener(&vec![
        "--listen".to_owned(),
        "stdio://".to_owned()
    ]));
}

#[test]
fn invocations_of_the_shim() {
    let act = |values: &[&str]| shim_action(&strings(values));
    assert!(matches!(act(&["__cxs-agent"]), ShimAction::Agent(false)));
    assert!(matches!(act(&["__cxs-agent", "--replace"]), ShimAction::Agent(true)));
    assert!(matches!(act(&["__cxs-agent", "x"]), ShimAction::Delegate));
    assert!(matches!(act(&["--version"]), ShimAction::Version));
    assert!(matches!(act(&["-V"]), ShimAction::Version));
    assert!(matches!(act(&[]), ShimAction::Delegate));
    assert!(matches!(act(&["app-server", "proxy", "x"]), ShimAction::Proxy));
    match act(&["-c", "a=b", "app-server", "--listen", "unix://"]) {
        ShimAction::Serve(options) => {
            assert_eq!(options, ["-c", "a=b", "--listen", "unix://"]);
        }
        other => panic!("unexpected {other:?}"),
    }
    match act(&["--listen=unix://", "app-server", "app-server"]) {
        ShimAction::Relay(options) => assert_eq!(options, ["--listen=unix://", "app-server"]),
        other => panic!("unexpected {other:?}"),
    }
}

#[test]
fn other_commands_go_to_the_managed_codex() {
    let handed = delegate_or_reject("/r/current/bin/codex", &strings(&["exec", "-m", "x"]));
    assert_eq!(handed.program, "/r/current/bin/codex");
    assert_eq!(handed.arguments, ["exec", "-m", "x"]);
    delegation_outcome("/c", &Ok((true, "exit status: 0".to_owned()))).unwrap();
    assert_eq!(
        delegation_outcome("/c", &Ok((false, "exit status: 2".to_owned()))).unwrap_err().message,
        "delegated Codex command exited with exit status: 2"
    );
    let missing = Failure {
        message: "not found".to_owned(),
    };
    assert_eq!(
        delegation_outcome("/c", &Err(missing)).unwrap_err().message,
        "could not delegate to /c: not found"
    );
}

#[test]
fn the_control_socket_is_chosen() {
    let configured = Some("/s".to_owned());
    assert!(matches!(choose_control_socket(true, &configured), ControlSocket::Environment));
    assert!(matches!(
        choose_control_socket(false, &configured),
        ControlSocket::Configured(path) if path == "/s"
    ));
    assert!(matches!(choose_control_socket(false, &None), ControlSocket::BesideAgent));
}

#[test]
fn processes_are_looked_at_with_ps() {
    validate_agent_arguments(7, true, "/x/cxs-shim __cxs-agent --replace\n").unwrap();
    for (found, arguments) in [(true, "/x/cxs-shim"), (true, "x__cxs-agent"), (false, "__cxs-agent")] {
        assert_eq!(
            validate_agent_arguments(7, found, arguments).unwrap_err().message,
            "refusing to replace PID 7 because it is not cxs-agent"
        );
    }
    assert!(state_has_ended("  Z+\n"));
    assert!(!state_has_ended("S+\n"));
    assert!(!state_has_ended(""));
}

#[test]
fn introductions_carry_the_token() {
    let hello = shim_hello("gpu", " tok\n", strings(&["a"]), ShimTransport::WebSocket);
    assert_eq!(hello.magic, "CXS1");
    assert_eq!(hello.token, "tok");
    assert_eq!(hello.app_server_args, ["a"]);
    assert_eq!(hello.transport, ShimTransport::WebSocket);
    let hello = agent_hello("gpu", "tok\n");
    assert_eq!((hello.magic.as_str(), hello.token.as_str()), ("CXS-AGENT1", "tok"));
    assert_eq!(ShimTransport::default(), ShimTransport::Jsonl);
}

#[test]
fn the_control_socket_counts_its_clients() {
    let mut clients = ControlClients::new();
    assert!(clients.is_idle());
    clients.disconnected();
    clients.connected();
    clients.connected();
    clients.disconnected();
    assert!(!clients.is_idle());
    clients.disconnected();
    assert!(clients.is_idle());
}

#[test]
fn peers_may_go_away() {
    assert!(normal_disconnect(IoFailure::BrokenPipe));
    assert!(normal_disconnect(IoFailure::UnexpectedEof));
    assert!(!normal_disconnect(IoFailure::NotFound));
    assert!(!normal_disconnect(IoFailure::Other));
    assert_eq!(ignore_not_found(IoFailure::NotFound), Ok(()));
    assert_eq!(ignore_not_found(IoFailure::Other), Err(IoFailure::Other));
}

#[test]
fn channels_are_identified_by_their_headers() {
    for kind in [ChannelKind::App, ChannelKind::Exec, ChannelKind::Host] {
        let header = stream_header(kind);
        assert_eq!(&header[..4], b"CXS2");
        assert_eq!(identify_inbound(&header).unwrap(), kind);
    }
    assert_eq!(
        identify_inbound(b"CXS1\x01").unwrap_err().message,
        "Yamux stream used an incompatible Shuttle protocol"
    );
    assert_eq!(
        identify_inbound(b"CXS2\x04").unwrap_err().message,
        "unknown Yamux channel kind 4"
    );
    bridge_accepts(ChannelKind::App).unwrap();
    assert_eq!(
        bridge_accepts(ChannelKind::Exec).unwrap_err().message,
        "remote Shuttle agent opened an unsupported Exec channel"
    );
    assert_eq!(incoming_channel(ChannelKind::Exec).unwrap(), ChannelTarget::ExecServer);
    assert_eq!(incoming_channel(ChannelKind::Host).unwrap(), ChannelTarget::HostAppServer);
    assert_eq!(
        incoming_channel(ChannelKind::App).unwrap_err().message,
        "Mac opened an unsupported App channel"
    );
    assert!(Role::Bridge.is_client());
    assert!(!Role::Agent.is_client());
}

#[test]
fn servers_of_the_agent() {
    assert_eq!(
        exec_server_command(&strings(&["exec-server"]), 49_445),
        ["exec-server", "--listen", "ws://127.0.0.1:49445"]
    );
    assert_eq!(host_app_server_command()[..2], ["app-server", "--stdio"]);
    assert_eq!(
        feature_overrides(strings(&["a=1"]), &strings(&["x"]), &strings(&["y", "z"])),
        ["a=1", "features.x=true", "features.y=false", "features.z=false"]
    );
}

#[test]
fn the_process_of_an_agent_is_recognized() {
    assert!(is_agent_command_line(b"/bin/cxs-shim\0__cxs-agent\0--replace\0"));
    assert!(is_agent_command_line(b"__cxs-agent"));
    assert!(!is_agent_command_line(b"x__cxs-agent\0"));
    assert!(!is_agent_command_line(b"__cxs-agents\0"));
    assert!(!is_agent_command_line(b""));
    validate_agent_process(7, b"__cxs-agent\060\0").unwrap();
    assert_eq!(
        validate_agent_process(7, b"sleep\060\0").unwrap_err().message,
        "refusing to replace PID 7 because it is not cxs-agent"
    );
    assert!(is_other_agent(7, 8, 1000, 1000, b"__cxs-agent\0"));
    assert!(!is_other_agent(8, 8, 1000, 1000, b"__cxs-agent\0"));
    assert!(!is_other_agent(7, 8, 1000, 0, b"__cxs-agent\0"));
    assert!(!is_other_agent(1, 8, 0, 0, b"__cxs-agent\0"));
}

#[test]
fn pid_files_of_agents() {
    assert_eq!(active_agent_pid("2147483647\n", "/p").unwrap(), i32::MAX);
    for bad in ["", "2147483648", "-2147483649", "+-5", "-+5", "a"] {
        assert_eq!(
            active_agent_pid(bad, "/p").unwrap_err().message,
            "invalid active agent PID in /p"
        );
    }
    assert_eq!(
        active_agent_pid("1", "/p").unwrap_err().message,
        "refusing to replace invalid cxs-agent PID 1"
    );
    assert_eq!(
        active_agent_pid("-2147483648", "/p").unwrap_err().message,
        "refusing to replace invalid cxs-agent PID -2147483648"
    );
}

#[test]
fn processes_that_have_ended() {
    assert!(has_ended("12 (a) b) Z 1 2"));
    assert!(!has_ended("12 (Z) S 1 2"));
    assert!(!has_ended("12 () Z) S 1"));
    assert!(!has_ended(""));
    assert!(!has_ended(") "));
}

#[test]
fn sockets_are_found_in_the_table() {
    let table = "Num RefCount Protocol Flags Type St Inode Path\n\
        0: 00000002 00000000 00010000 0001 01 11111 /run/other.sock\n\
        1: 00000002 00000000 00010000 0001 01 22222\n\
        2: 00000002 00000000 00010000 0001 01 33333 /run/agent.sock\n";
    assert_eq!(
        find_unix_socket_inode(table, "/run/agent.sock").as_deref(),
        Some("33333")
    );
    assert_eq!(find_unix_socket_inode(table, "/run/none.sock"), None);
    assert_eq!(find_unix_socket_inode(table, "Path"), None);
    assert_eq!(find_unix_socket_inode("", "x"), None);
}
