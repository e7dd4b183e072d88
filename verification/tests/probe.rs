use codex_shuttle::failure::Failure;
use codex_shuttle::path_probe::{
    probe_outcome, probe_paths, render_bootstrap_command, render_probe_cleanup_command,
    render_probe_requests, render_proxy_command, ProbeProgress,
};
use codex_shuttle::probe::{
    check_schema_file, codex_version, desktop_codex_path, local_codex_checks, mark, remote_report,
    require_checks, CodexFindings,
};
use codex_shuttle::profile::{Profile, ProfileStatus, PROFILE_SCHEMA_VERSION};
use codex_shuttle::routing::host_request_list;
use codex_shuttle::ssh::RemoteFacts;

fn failure(message: &str) -> Failure {
    Failure {
        message: message.to_owned(),
    }
}

fn profile() -> Profile {
    Profile {
        schema_version: PROFILE_SCHEMA_VERSION,
        name: "gpu".to_owned(),
        source_host: "gpu-server".to_owned(),
        app_alias: "cxs-gpu".to_owned(),
        status: ProfileStatus::Installed,
        codex_version: "codex-cli 0.147.0".to_owned(),
        local_socket: "/tmp/cxs-test.sock".to_owned(),
        remote_socket: "/tmp/cxs-remote.sock".to_owned(),
        environment_id: "cxs-gpu".to_owned(),
        local_exec_port: 49_444,
        remote_exec_port: 49_445,
        token_file: "/tmp/cxs-token".to_owned(),
        codex_home: "/tmp/codex".to_owned(),
        installed_target: None,
        remote_home: Some("/home/dev".to_owned()),
        remote_release: None,
        package_sha256: None,
        shim_sha256: None,
        executor_source: None,
        executor_path: None,
    }
}

#[test]
fn missing_codex_is_a_failed_check() {
    let checks = local_codex_checks(
        Err(failure("could not run /definitely/missing/codex --version")),
        None,
    );
    assert_eq!(checks.len(), 1);
    assert!(!checks[0].passed);
}

#[test]
fn a_codex_is_checked_for_what_is_needed() {
    let findings = |help: &str, schema| CodexFindings {
        exec_server_help: Ok((true, help.to_owned())),
        schema,
    };
    let good = "--listen <URL> stdio --exit-on-stdin-close";
    let checks = local_codex_checks(Ok("codex-cli 1".to_owned()), Some(findings(good, Ok(()))));
    assert_eq!(checks.len(), 3);
    assert!(checks.iter().all(|check| check.passed));
    require_checks(&checks).unwrap();
    let checks = local_codex_checks(
        Ok("codex-cli 1".to_owned()),
        Some(findings("--listen stdio", Err(failure("gone")))),
    );
    assert!(!checks[1].passed);
    assert_eq!(checks[2].detail, "gone");
    assert_eq!(
        require_checks(&checks).unwrap_err().message,
        "local Codex compatibility check 'exec-server-stdio' failed: required experimental exec-server flags were not found"
    );
    assert_eq!(codex_version(b" codex-cli 1\n").unwrap(), "codex-cli 1");
    assert_eq!(
        codex_version(b"\xff").unwrap_err().message,
        "Codex version output was not UTF-8"
    );
    assert_eq!((mark(true), mark(false)), ("PASS", "FAIL"));
}

fn schema(methods: &[&str], property: &str) -> String {
    let variants: Vec<String> = methods
        .iter()
        .map(|method| format!(r#"{{"properties":{{"method":{{"enum":["{method}"]}}}}}}"#))
        .collect();
    format!(
        r#"{{"definitions":{{"EnvironmentAddParams":{{"properties":{{"{property}":{{}}}}}},"TurnEnvironmentParams":{{"properties":{{"environmentId":{{}}}}}},"ThreadStartParams":{{"properties":{{"environments":{{}}}}}}}},"oneOf":[{}]}}"#,
        variants.join(",")
    )
}

#[test]
fn schemas_are_held_against_the_routes() {
    let mut methods = host_request_list();
    methods.extend(["environment/add", "environment/status", "environment/info"]);
    check_schema_file(schema(&methods, "execServerUrl").as_bytes()).unwrap();
    let refuse = |text: &str| check_schema_file(text.as_bytes()).unwrap_err().message;
    let missing = "required execution-environment or remote host RPC contracts are missing";
    for left_out in 0..methods.len() {
        let mut some = methods.clone();
        some.remove(left_out);
        assert_eq!(refuse(&schema(&some, "execServerUrl")), missing);
    }
    assert_eq!(refuse(&schema(&methods, "other")), missing);
    assert_eq!(refuse("{}"), "schema did not contain definitions");
    assert_eq!(
        refuse(r#"{"definitions":{}}"#),
        "schema did not contain client request variants"
    );
    assert_eq!(refuse("{"), "could not parse the App Server schema");
}

#[test]
fn the_desktop_brings_its_codex() {
    assert_eq!(
        desktop_codex_path(None),
        "/Applications/ChatGPT.app/Contents/Resources/codex"
    );
    assert_eq!(desktop_codex_path(Some("/c")), "/c");
}

#[test]
fn hosts_are_reported() {
    let facts = RemoteFacts {
        home: "/h".to_owned(),
        kernel: "Linux".to_owned(),
        arch: "arm64".to_owned(),
    };
    let report = remote_report("x", &Ok(facts));
    assert_eq!(report.name, "ssh:x");
    assert!(!report.passed);
    assert_eq!(report.detail, "kernel=Linux arch=arm64 home=/h");
    assert_eq!(remote_report("x", &Err(failure("no"))).detail, "no");
    for (kernel, arch, passed) in [
        ("Linux", "x86_64", true),
        ("Linux", "aarch64", true),
        ("Darwin", "arm64", true),
        ("Darwin", "x86_64", false),
        ("FreeBSD", "x86_64", false),
    ] {
        let facts = RemoteFacts {
            home: "/h".to_owned(),
            kernel: kernel.to_owned(),
            arch: arch.to_owned(),
        };
        assert_eq!(remote_report("x", &Ok(facts)).passed, passed);
    }
}

#[test]
fn the_probe_asks_for_the_whole_path() {
    let requests = render_probe_requests(&profile(), "0.1.0");
    let parsed: Vec<serde_json::Value> = requests
        .iter()
        .map(|text| serde_json::from_str(text).unwrap())
        .collect();
    assert_eq!(parsed[0]["params"]["clientInfo"]["version"], "0.1.0");
    assert_eq!(parsed[1]["method"], "environment/status");
    assert_eq!(parsed[1]["params"]["environmentId"], "cxs-gpu");
    assert_eq!(parsed[2]["params"]["path"], "/home/dev");
    assert_eq!(parsed[3]["params"]["command"][2], "printf 'cxs-probe-linux\\n'; pwd; uname -s; uname -m");
    assert_eq!(parsed[3]["params"]["timeoutMs"], 5000);
}

#[test]
fn the_probe_is_done_when_all_replies_are_good() {
    let mut progress = ProbeProgress::new(&profile());
    assert!(!progress.on_text(r#"{"method":"noise"}"#).unwrap());
    assert!(!progress
        .on_text(r#"{"id":"cxs/probe/status","result":"ready"}"#)
        .unwrap());
    assert!(!progress
        .on_text(r#"{"id":"cxs/probe/read-directory","result":{"entries":[]}}"#)
        .unwrap());
    assert!(progress
        .on_text(r#"{"id":"cxs/probe/run-command","result":{"exitCode":0,"stdout":"cxs-probe-linux\n/home/dev\nLinux\nx86_64\n"}}"#)
        .unwrap());
}

#[test]
fn the_probe_succeeds_on_apple_silicon() {
    let mut progress = ProbeProgress::new(&profile());
    progress
        .on_text(r#"{"id":"cxs/probe/run-command","result":{"exitCode":0,"stdout":"cxs-probe-linux\n/home/dev\nDarwin\narm64\n"}}"#)
        .unwrap();
    assert!(progress.command_ready);
}

#[test]
fn the_probe_finds_faults() {
    let refuse = |text: &str| {
        ProbeProgress::new(&profile())
            .on_text(text)
            .unwrap_err()
            .message
    };
    assert_eq!(
        refuse(r#"{"id":"cxs/probe/status"}"#),
        "remote execution environment is not ready: null"
    );
    assert_eq!(
        refuse(r#"{"id":"cxs/probe/status","error":1}"#),
        "environment/status failed: 1"
    );
    assert_eq!(
        refuse(r#"{"id":"cxs/probe/read-directory","error":1}"#),
        "remote fs/readDirectory failed: 1"
    );
    assert_eq!(
        refuse(r#"{"id":"cxs/probe/read-directory","result":{"entries":{}}}"#),
        r#"remote fs/readDirectory returned an invalid result: {"id":"cxs/probe/read-directory","result":{"entries":{}}}"#
    );
    assert_eq!(
        refuse(r#"{"id":"cxs/probe/run-command","error":1}"#),
        "remote command/exec failed: 1"
    );
    for result in [
        r#"{"exitCode":1,"stdout":"cxs-probe-linux\n/home/dev\nLinux\nx86_64\n"}"#,
        r#"{"exitCode":0,"stdout":"cxs-probe-linux\n/home\nLinux\nx86_64\n"}"#,
        r#"{"exitCode":0,"stdout":"cxs-probe-linux\n/home/dev\nLinux\nriscv\n"}"#,
        r#"{"exitCode":0,"stdout":"cxs-probe-linux\n/home/dev\nDarwin\nx86_64\n"}"#,
        r#"{"exitCode":0}"#,
    ] {
        assert!(refuse(&format!(r#"{{"id":"cxs/probe/run-command","result":{result}}}"#))
            .starts_with("remote command/exec returned an invalid result: "));
    }
    assert_eq!(refuse("{"), "the probe received invalid JSON");
}

#[test]
fn the_probe_cleans_up() {
    let paths = probe_paths("gpu");
    assert_eq!(paths.socket, "/tmp/cxs-gpu-probe/app.sock");
    assert_eq!(paths.pid_file, "/tmp/cxs-gpu-probe/app.pid");
    let start = render_bootstrap_command(&paths, "gpu");
    assert!(start.contains("CXS_CONTROL_SOCKET=\"/tmp/cxs-gpu-probe/app.sock\" nohup"));
    assert!(start.ends_with("cat \"$HOME/.config/codex-shuttle/probe-gpu.log\" >&2; exit 1"));
    assert_eq!(
        render_proxy_command(&paths),
        "CXS_CONTROL_SOCKET=\"/tmp/cxs-gpu-probe/app.sock\" \"$HOME/.local/bin/codex\" app-server proxy"
    );
    assert!(render_probe_cleanup_command(&paths)
        .ends_with("rm -f \"/tmp/cxs-gpu-probe/app.sock\" \"/tmp/cxs-gpu-probe/app.pid\"; rmdir \"/tmp/cxs-gpu-probe\" 2>/dev/null || true"));
    probe_outcome(Ok(()), Ok(())).unwrap();
    assert_eq!(probe_outcome(Err(failure("a")), Ok(())).unwrap_err().message, "a");
    assert_eq!(
        probe_outcome(Ok(()), Err(failure("b"))).unwrap_err().message,
        "remote App Server probe cleanup failed: b"
    );
    assert_eq!(
        probe_outcome(Err(failure("a")), Err(failure("b"))).unwrap_err().message,
        "a; remote App Server probe cleanup also failed: b"
    );
}
