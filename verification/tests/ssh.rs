use codex_shuttle::profile::{Profile, ProfileStatus, PROFILE_SCHEMA_VERSION};
use codex_shuttle::ssh::{
    directive_name, ensure_managed_include, inherited_probe_arguments, parse_ssh_g, quote_value,
    remote_facts, render_host, rewrite_managed_config, source_values, SshSnapshot, SshValues,
};

fn profile() -> Profile {
    Profile {
        schema_version: PROFILE_SCHEMA_VERSION,
        name: "gpu".to_owned(),
        source_host: "gpu-server".to_owned(),
        app_alias: "cxs-gpu".to_owned(),
        status: ProfileStatus::Prepared,
        codex_version: "codex-cli 0.147.0".to_owned(),
        local_socket: "/tmp/local bridge.sock".to_owned(),
        remote_socket: "/tmp/cxs-remote.sock".to_owned(),
        environment_id: "cxs-gpu".to_owned(),
        local_exec_port: 49_444,
        remote_exec_port: 49_445,
        token_file: "/tmp/token".to_owned(),
        codex_home: "/tmp/codex".to_owned(),
        installed_target: None,
        remote_home: None,
        remote_release: None,
        package_sha256: None,
        shim_sha256: None,
        executor_source: None,
        executor_path: None,
    }
}

fn with_connection(mut values: SshValues) -> SshValues {
    values.insert("hostname".to_owned(), vec!["example.com".to_owned()]);
    values.insert("user".to_owned(), vec!["dev".to_owned()]);
    values.insert("port".to_owned(), vec!["22".to_owned()]);
    values
}

#[test]
fn parses_repeated_ssh_values() {
    let parsed =
        parse_ssh_g("hostname example.com\nidentityfile ~/.ssh/a\nidentityfile ~/.ssh/b\n").unwrap();
    assert_eq!(parsed.get("identityfile").unwrap().len(), 2);
}

#[test]
fn renders_managed_host() {
    let snapshot = SshSnapshot {
        source_host: "gpu-server".to_owned(),
        values: parse_ssh_g(
            "hostname example.com\nuser dev\nport 22\nidentityfile ~/.ssh/id_ed25519\nproxycommand none\nuserknownhostsfile ~/.ssh/known_hosts ~/.ssh/known_hosts2\nipqos ef cs0\n",
        )
        .unwrap(),
        inherited_values: SshValues::new(),
    };
    let rendered = render_host(&profile(), &snapshot).unwrap();
    assert!(rendered.contains("Host cxs-gpu"));
    assert!(!rendered.contains("RemoteForward"));
    assert!(!rendered.contains("LocalForward"));
    assert!(!rendered.contains("ProxyCommand none"));
    assert!(rendered.contains("UserKnownHostsFile ~/.ssh/known_hosts ~/.ssh/known_hosts2"));
    assert!(rendered.contains("IPQoS ef cs0"));
}

#[test]
fn omits_values_inherited_by_the_generated_alias() {
    let common = parse_ssh_g(
        "identityfile ~/.ssh/id_rsa\nidentityfile ~/.ssh/id_ed25519\ncontrolmaster auto\nserveraliveinterval 60\n",
    )
    .unwrap();
    let snapshot = SshSnapshot {
        source_host: "gpu-server".to_owned(),
        values: with_connection(common.copy()),
        inherited_values: common,
    };

    let rendered = render_host(&profile(), &snapshot).unwrap();
    assert!(!rendered.contains("IdentityFile"));
    assert!(!rendered.contains("ControlMaster"));
    assert!(!rendered.contains("ServerAliveInterval"));
    assert!(rendered.contains("HostName example.com"));
}

#[test]
fn keeps_only_explicit_identity_files() {
    let inherited =
        parse_ssh_g("identityfile ~/.ssh/id_rsa\nidentityfile ~/.ssh/id_ed25519\n").unwrap();
    let mut values = inherited.copy();
    let mut files = values
        .get("identityfile")
        .expect("identity files exist")
        .clone();
    files.insert(0, "~/.ssh/work_key".to_owned());
    values.insert("identityfile".to_owned(), files);
    let snapshot = SshSnapshot {
        source_host: "gpu-server".to_owned(),
        values: with_connection(values),
        inherited_values: inherited,
    };

    let rendered = render_host(&profile(), &snapshot).unwrap();
    assert!(rendered.contains("IdentityFile ~/.ssh/work_key"));
    assert!(!rendered.contains("IdentityFile ~/.ssh/id_rsa"));
    assert!(!rendered.contains("IdentityFile ~/.ssh/id_ed25519"));
}

#[test]
fn omits_an_inherited_control_path_with_the_same_expansion() {
    let inherited = parse_ssh_g("controlpath /tmp/probe-hash\n").unwrap();
    let snapshot = SshSnapshot {
        source_host: "gpu-server".to_owned(),
        values: with_connection(inherited.copy()),
        inherited_values: inherited,
    };

    let rendered = render_host(&profile(), &snapshot).unwrap();
    assert!(!rendered.contains("ControlPath"));
}

#[test]
fn retains_a_source_specific_control_path() {
    let inherited = parse_ssh_g("controlpath /tmp/inherited-hash\n").unwrap();
    let mut values = inherited.copy();
    values.insert(
        "controlpath".to_owned(),
        vec!["/tmp/source-specific".to_owned()],
    );
    let snapshot = SshSnapshot {
        source_host: "gpu-server".to_owned(),
        values: with_connection(values),
        inherited_values: inherited,
    };

    let rendered = render_host(&profile(), &snapshot).unwrap();
    assert!(rendered.contains("ControlPath /tmp/source-specific"));
}

#[test]
fn the_whole_block_is_as_expected() {
    let snapshot = SshSnapshot {
        source_host: "gpu-server".to_owned(),
        values: parse_ssh_g(
            "host x\nHostName a#b\nuser my user\nport 22\nproxyjump none\nproxycommand ssh -W \"%h:%p\" gw\nforwardagent yes\n",
        )
        .unwrap(),
        inherited_values: SshValues::new(),
    };
    assert_eq!(
        render_host(&profile(), &snapshot).unwrap(),
        "# profile=gpu source=gpu-server status=prepared\nHost cxs-gpu\n  HostName \"a#b\"\n  User \"my user\"\n  Port 22\n  ForwardAgent yes\n  ProxyCommand ssh -W \"%h:%p\" gw\n  RequestTTY no\n"
    );
    let mut other = profile();
    other.source_host = "cpu-server".to_owned();
    assert_eq!(
        render_host(&other, &snapshot).unwrap_err().message,
        "profile source host does not match its SSH snapshot"
    );
    let empty = SshSnapshot {
        source_host: "gpu-server".to_owned(),
        values: SshValues::new(),
        inherited_values: SshValues::new(),
    };
    assert_eq!(
        render_host(&profile(), &empty).unwrap_err().message,
        "SSH snapshot has no hostname"
    );
    assert_eq!(
        rewrite_managed_config(&vec![(profile(), snapshot)]).unwrap(),
        "# Managed by Codex Shuttle. Manual edits will be replaced.\n\n# profile=gpu source=gpu-server status=prepared\nHost cxs-gpu\n  HostName \"a#b\"\n  User \"my user\"\n  Port 22\n  ForwardAgent yes\n  ProxyCommand ssh -W \"%h:%p\" gw\n  RequestTTY no\n\n"
    );
    assert!(rewrite_managed_config(&vec![(profile(), empty)]).is_err());
}

#[test]
fn values_with_control_characters_are_refused() {
    let mut values = with_connection(SshValues::new());
    values.insert("controlpath".to_owned(), vec!["a\0b".to_owned()]);
    let snapshot = SshSnapshot {
        source_host: "gpu-server".to_owned(),
        values,
        inherited_values: SshValues::new(),
    };
    let expected = "SSH configuration value contains a forbidden control character";
    assert_eq!(render_host(&profile(), &snapshot).unwrap_err().message, expected);
    assert_eq!(quote_value("a\nb").unwrap_err().message, expected);
    assert_eq!(parse_ssh_g("user a\rb\n").unwrap_err().message, expected);
    assert_eq!(parse_ssh_g("\nuser a\nport\n").unwrap_err().message, "malformed ssh -G line 3");
}

#[test]
fn values_are_quoted_where_needed() {
    assert_eq!(quote_value("plain/%h~").unwrap(), "plain/%h~");
    assert_eq!(quote_value("a b\"c\\d").unwrap(), "\"a b\\\"c\\\\d\"");
    assert_eq!(quote_value("").unwrap(), "");
    assert_eq!(directive_name("ipqos"), "IPQoS");
    assert_eq!(directive_name("identityfile"), "IdentityFile");
}

#[test]
fn snapshots_are_resolved_from_two_outputs() {
    let source = b"hostname example.com\nuser dev\nport 2222\nproxyjump gw\n";
    let values = source_values("gpu-server", source).unwrap();
    assert_eq!(
        inherited_probe_arguments(&values).unwrap(),
        [
            "-G",
            "-o",
            "HostName=example.com",
            "-o",
            "User=dev",
            "-o",
            "Port=2222",
            "-o",
            "ProxyJump=gw",
            "cxs-inherited-probe.invalid"
        ]
    );
    let snapshot = SshSnapshot::resolve("gpu-server", source, b"user dev\n").unwrap();
    assert_eq!(snapshot.value("port"), Some("2222"));
    assert_eq!(snapshot.value("nothing"), None);
    let file = snapshot.save("/p");
    assert_eq!(file.path, "/p/ssh-snapshot.json");
    assert_eq!(file.source_host, snapshot.source_host);
    assert_eq!(file.values, snapshot.values.entries);
    assert!(SshSnapshot::load(file).same(&snapshot));
    let reordered = SshSnapshot::resolve(
        "gpu-server",
        b"proxyjump gw\nport 2222\nuser dev\nhostname example.com\n",
        b"user dev\n",
    )
    .unwrap();
    assert!(snapshot.same(&reordered));
    let changed = SshSnapshot::resolve("gpu-server", source, b"user root\n").unwrap();
    assert!(!snapshot.same(&changed));
    let refuse = |host: &str, output: &[u8]| {
        SshSnapshot::resolve(host, output, b"").unwrap_err().message
    };
    assert_eq!(
        refuse("gpu-server", b"hostname a\nuser b\n"),
        "ssh -G output did not include 'port'"
    );
    assert_eq!(
        refuse("gpu-server", b"hostname a\nport 1\n"),
        "ssh -G output did not include 'user'"
    );
    assert_eq!(
        refuse("gpu-server", b""),
        "ssh -G output did not include 'hostname'"
    );
    assert_eq!(refuse("gpu-server", b"\xff"), "ssh -G returned non-UTF-8 output");
    assert_eq!(refuse("-x", source), "SSH host alias contains unsafe characters");
}

#[test]
fn the_managed_file_is_named_once() {
    let updated = ensure_managed_include("Host a\n").unwrap();
    assert_eq!(updated, "Include ~/.ssh/codex-shuttle.conf\n\nHost a\n");
    assert_eq!(ensure_managed_include(&updated), None);
    assert_eq!(
        ensure_managed_include("Host a\n  Include ~/.ssh/codex-shuttle.conf \r\n"),
        None
    );
}

#[test]
fn hosts_tell_about_themselves() {
    let facts = remote_facts(b"home=/root\nkernel=Linux\nnoise\narch=x86_64\nhome=/home/x=y\n").unwrap();
    assert_eq!(facts.home, "/home/x=y");
    assert_eq!(facts.kernel, "Linux");
    assert_eq!(facts.arch, "x86_64");
    let refuse = |output: &[u8]| remote_facts(output).unwrap_err().message;
    assert_eq!(refuse(b""), "remote query did not return HOME");
    assert_eq!(refuse(b"home=/"), "remote query did not return uname -s");
    assert_eq!(refuse(b"home=/\nkernel=L"), "remote query did not return uname -m");
    assert_eq!(refuse(b"\xff"), "remote prerequisite query returned non-UTF-8 output");
}
