use codex_shuttle::doctor::{doctor, require_ready, DoctorStatus, LocalFindings, RemoteFindings};
use codex_shuttle::failure::Failure;
use codex_shuttle::install::{ExecutorSource, InstallRecord, RemoteInstall};
use codex_shuttle::lifecycle::{
    bridge_running, candidate, check_refresh, check_up, failed_install, failed_rollback,
    is_bridge_command, mark_ready, pid_in, profile_name_for, recheck, record_install, record_rollback,
    recover_failed_install, recovery_for, usable_in_app, verify_remote_metadata, Recovery,
};
use codex_shuttle::probe::Check;
use codex_shuttle::profile::{
    high_port, id_of, join, port_of, sort_profiles, validate_host_alias, validate_profile_name,
    AppPaths, NameError, Profile, ProfileStatus, ProfileStore,
};
use codex_shuttle::ssh::RemoteFacts;

fn failure(message: &str) -> Failure {
    Failure {
        message: message.to_owned(),
    }
}

fn store(root: &str) -> ProfileStore {
    ProfileStore::new(AppPaths {
        state_root: join(root, "state"),
        ssh_config: join(root, "ssh/config"),
        managed_ssh_config: join(root, "ssh/codex-shuttle.conf"),
        default_codex_home: join(root, "codex"),
    })
}

fn prepared(name: &str) -> Profile {
    store("/t")
        .create_prepared(name, "gpu-server", "codex-cli 0.147.0", false, 4000)
        .unwrap()
        .0
}

fn remote_install() -> RemoteInstall {
    RemoteInstall {
        layout_version: 3,
        profile: "gpu".to_owned(),
        codex_version: "codex-cli 0.146.0".to_owned(),
        runtime_version: None,
        target: "aarch64-unknown-linux-musl".to_owned(),
        package_sha256: Some("p".to_owned()),
        shim_sha256: "s".to_owned(),
        release: "r".to_owned(),
        executor_source: Some(ExecutorSource::ManagedRuntime),
        executor_path: Some("/x".to_owned()),
        executor_sha256: None,
    }
}

fn record() -> InstallRecord {
    InstallRecord {
        target: "t".to_owned(),
        remote_home: "/home/x".to_owned(),
        remote_release: "r".to_owned(),
        package_sha256: None,
        shim_sha256: "s".to_owned(),
        executor_source: ExecutorSource::RemoteExisting,
        executor_path: "/usr/bin/codex".to_owned(),
    }
}

#[test]
fn validates_profile_names() {
    assert_eq!(validate_profile_name("gpu-1"), Ok(()));
    assert_eq!(validate_profile_name("_gpu"), Err(NameError::InvalidStart));
    assert_eq!(
        validate_profile_name("gpu/server"),
        Err(NameError::InvalidCharacter)
    );
}

#[test]
fn names_have_a_length_in_bytes() {
    assert_eq!(validate_profile_name(""), Err(NameError::InvalidLength));
    assert_eq!(validate_profile_name(&"a".repeat(48)), Ok(()));
    assert_eq!(validate_profile_name(&"a".repeat(49)), Err(NameError::InvalidLength));
    assert_eq!(validate_profile_name(&"é".repeat(25)), Err(NameError::InvalidLength));
    assert_eq!(validate_profile_name("é"), Err(NameError::InvalidStart));
    assert_eq!(
        NameError::InvalidLength.message(),
        "profile name must be 1-48 characters"
    );
}

#[test]
fn host_aliases_are_safe_on_a_command_line() {
    validate_host_alias("user@host:22").unwrap();
    assert!(validate_host_alias(&"h".repeat(255)).is_ok());
    assert_eq!(
        validate_host_alias(&"h".repeat(256)).unwrap_err().message,
        "SSH host alias must be 1-255 characters"
    );
    for bad in ["-oProxyCommand=x", "a b", "a\tb", "a\0b", "a\nb"] {
        assert_eq!(
            validate_host_alias(bad).unwrap_err().message,
            "SSH host alias contains unsafe characters"
        );
    }
}

#[test]
fn creates_and_accepts_a_prepared_profile() {
    let store = store("/t");
    let (created, token) = store
        .create_prepared("gpu", "gpu-server", "codex-cli 0.147.0", false, 4000)
        .unwrap();
    assert_eq!(created.status, ProfileStatus::Prepared);
    assert_eq!(store.read_token(&format!("{token}\n")).unwrap().len(), 64);
    assert_eq!(created.app_alias, "cxs-gpu");
    assert_eq!(created.environment_id, "cxs-gpu");
    assert_eq!(created.local_socket, "/t/state/profiles/gpu/bridge.sock");
    assert_eq!(created.token_file, "/t/state/profiles/gpu/bridge.token");
    assert_eq!(created.codex_home, "/t/codex");
    assert_eq!(created.remote_socket.len(), "/tmp/cxs-.sock".len() + 24);
    assert!((30_000..60_000).contains(&created.remote_exec_port));
    let copy = created.copy();
    assert_eq!(store.accept_loaded("gpu", copy).unwrap(), created);
    let (other, other_token) = store
        .create_prepared("gpu", "gpu-server", "codex-cli 0.147.0", false, 4000)
        .unwrap();
    assert_ne!(token, other_token);
    assert_ne!(created.remote_socket, other.remote_socket);
}

#[test]
fn profiles_that_cannot_be_created_or_loaded() {
    let refuse = |root: &str, name: &str, exists: bool| {
        store(root)
            .create_prepared(name, "h", "v", exists, 1)
            .unwrap_err()
            .message
    };
    assert_eq!(refuse("/t", "gpu", true), "profile 'gpu' already exists");
    assert_eq!(refuse("/t", "", false), "profile name must be 1-48 characters");
    let long = format!("/{}", "x".repeat(67));
    assert_eq!(
        refuse(&long, "gpu12", false),
        format!("Unix socket path is too long (101 bytes): {long}/state/profiles/gpu12/bridge.sock. Set XDG_STATE_HOME to a shorter path")
    );
    assert!(store(&long).create_prepared("gpu1", "h", "v", false, 1).is_ok());
    let mut profile = prepared("gpu");
    assert_eq!(
        store("/t").accept_loaded("cpu", profile.copy()).unwrap_err().message,
        "profile file name does not match its directory"
    );
    profile.schema_version = 2;
    assert_eq!(
        store("/t").accept_loaded("gpu", profile).unwrap_err().message,
        "profile 'gpu' uses unsupported schema version 2"
    );
    assert_eq!(
        store("/t").read_token("abc").unwrap_err().message,
        "profile token is malformed"
    );
}

#[test]
fn paths_of_the_local_side() {
    let paths = AppPaths::under("/home/x", None);
    assert_eq!(paths.state_root, "/home/x/.local/state/codex-shuttle");
    assert_eq!(paths.ssh_config, "/home/x/.ssh/config");
    assert_eq!(paths.managed_ssh_config, "/home/x/.ssh/codex-shuttle.conf");
    assert_eq!(paths.default_codex_home, "/home/x/.codex");
    let paths = AppPaths::under("/home/x", Some("/state/"));
    assert_eq!(paths.state_root, "/state/codex-shuttle");
    assert_eq!(paths.profile_dir("gpu"), "/state/codex-shuttle/profiles/gpu");
    assert_eq!(paths.bridge_pid("gpu"), "/state/codex-shuttle/profiles/gpu/bridge.pid");
    assert_eq!(paths.bridge_log("gpu"), "/state/codex-shuttle/profiles/gpu/bridge.log");
    assert_eq!(join("", "a"), "a");
    assert_eq!(join("a", "/b"), "/b");
    let store = ProfileStore::new(paths);
    assert_eq!(store.lock_file("gpu").unwrap(), "/state/codex-shuttle/locks/gpu.lock");
    assert_eq!(
        store.profile_file("gpu").unwrap(),
        "/state/codex-shuttle/profiles/gpu/profile.json"
    );
    assert!(store.profile_file("../gpu").is_err());
    assert_eq!(store.paths().ssh_config, "/home/x/.ssh/config");
}

#[test]
fn what_was_drawn_makes_ids_and_ports() {
    assert_eq!(id_of(Ok(vec![0, 171, 255])).unwrap(), "00abff");
    assert_eq!(
        id_of(Err("no source".to_owned())).unwrap_err().message,
        "could not obtain secure random bytes: no source"
    );
    assert_eq!(port_of(Ok(vec![255, 255])).unwrap(), 35_535);
    assert_eq!(
        port_of(Err("no source".to_owned())).unwrap_err().message,
        "could not obtain a random remote port: no source"
    );
}

#[test]
fn random_ports_are_high() {
    assert_eq!(high_port(0, 0), 30_000);
    assert_eq!(high_port(0xff, 0xff), 30_000 + 65_535 % 30_000);
    assert_eq!(high_port(0x75, 0x2f), 59_999);
}

#[test]
fn profiles_are_listed_by_name() {
    let names: Vec<String> = sort_profiles(vec![
        prepared("b"),
        prepared("a.b"),
        prepared("a"),
        prepared("B"),
        prepared("a-b"),
    ])
    .into_iter()
    .map(|profile| profile.name)
    .collect();
    assert_eq!(names, ["B", "a", "a-b", "a.b", "b"]);
}

#[test]
fn adding_a_host_again_only_refreshes_it() {
    let profile = prepared("gpu");
    check_refresh(&profile, "gpu", "gpu-server", "codex-cli 0.147.0").unwrap();
    assert_eq!(
        check_refresh(&profile, "gpu", "other", "codex-cli 0.147.0").unwrap_err().message,
        "profile 'gpu' already tracks SSH host 'gpu-server'; choose another --name or remove it first"
    );
    assert_eq!(
        check_refresh(&profile, "gpu", "gpu-server", "codex-cli 1").unwrap_err().message,
        "profile 'gpu' pins codex-cli 0.147.0; current local Codex is codex-cli 1; run 'cxs update gpu'"
    );
    assert_eq!(profile_name_for("host", None).unwrap(), "host");
    assert_eq!(profile_name_for("h@st", Some("x")).unwrap(), "x");
    assert_eq!(
        profile_name_for("h@st", None).unwrap_err().message,
        "'h@st' cannot be used as a profile name; pass a safe name with --name: profile name may contain only ASCII letters, digits, '.', '_' and '-'"
    );
}

#[test]
fn an_installation_is_recorded_and_verified() {
    let mut profile = candidate(&prepared("gpu"), "codex-cli 0.146.0");
    assert_eq!(profile.codex_version, "codex-cli 0.146.0");
    record_install(&mut profile, record());
    assert_eq!(profile.status, ProfileStatus::Installed);
    assert_eq!(profile.executor_source.as_deref(), Some("remote-existing"));
    assert!(!usable_in_app(&profile));
    let mut remote = remote_install();
    remote.package_sha256 = None;
    remote.executor_source = Some(ExecutorSource::RemoteExisting);
    remote.executor_path = Some("/usr/bin/codex".to_owned());
    verify_remote_metadata(&profile, &remote).unwrap();
    mark_ready(&mut profile, &Err(failure("closed")));
    assert!(!usable_in_app(&profile));
    mark_ready(&mut profile, &Ok(()));
    assert!(usable_in_app(&profile));
    assert!(!recheck(&mut profile, "codex-cli 0.146.0"));
    assert!(usable_in_app(&profile));
    assert!(recheck(&mut profile, "codex-cli 0.147.0"));
    assert_eq!(profile.status, ProfileStatus::Broken);
    assert!(!usable_in_app(&profile));
    assert!(!recheck(&mut profile, "codex-cli 0.147.0"));
}

#[test]
fn differences_on_the_host_are_found() {
    let mut profile = prepared("gpu");
    record_rollback(&mut profile, remote_install());
    verify_remote_metadata(&profile, &remote_install()).unwrap();
    let refuse = |change: fn(&mut RemoteInstall)| {
        let mut remote = remote_install();
        change(&mut remote);
        verify_remote_metadata(&profile, &remote).unwrap_err().message
    };
    assert_eq!(
        refuse(|r| r.profile = "cpu".to_owned()),
        "remote profile is cpu, expected gpu"
    );
    assert_eq!(
        refuse(|r| r.codex_version = "v".to_owned()),
        "remote=v local=codex-cli 0.146.0"
    );
    assert_eq!(
        refuse(|r| r.package_sha256 = None),
        "remote Codex package digest does not match local state"
    );
    assert_eq!(
        refuse(|r| r.shim_sha256 = "t".to_owned()),
        "remote shim digest does not match local state"
    );
    assert_eq!(
        refuse(|r| r.executor_source = None),
        "remote executor source does not match local state"
    );
    assert_eq!(
        refuse(|r| r.executor_path = None),
        "remote executor path does not match local state"
    );
}

#[test]
fn failed_installations_are_taken_back() {
    let previous = prepared("gpu");
    assert_eq!(recovery_for(&previous), Recovery::Uninstall);
    let mut profile = previous.copy();
    record_install(&mut profile, record());
    let mut first = profile.copy();
    assert_eq!(
        recover_failed_install(&mut first, &previous, None),
        "removed the unverified first install and restored the prepared profile"
    );
    assert_eq!(first, previous);
    assert_eq!(recovery_for(&profile), Recovery::RollBack);
    let before = profile.copy();
    let detail = recover_failed_install(&mut profile, &before, Some(remote_install()));
    assert_eq!(
        detail,
        "rolled the remote host back to the previous verified release"
    );
    assert_eq!(profile.remote_release.as_deref(), Some("r"));
    assert_eq!(profile.codex_version, "codex-cli 0.146.0");
    assert_eq!(
        failed_install(&failure("probe"), &Ok(detail.to_owned())).message,
        "installed artifacts failed verification; rolled the remote host back to the previous verified release: probe"
    );
    assert_eq!(
        failed_install(&failure("probe"), &Err(failure("ssh"))).message,
        "installed artifacts failed verification, and automatic recovery also failed: ssh: probe"
    );
    assert_eq!(
        failed_rollback(&failure("probe"), &Ok(())).message,
        "rollback verification failed; restored the newer release: probe"
    );
    assert_eq!(
        failed_rollback(&failure("probe"), &Err(failure("ssh"))).message,
        "rollback verification failed and restoring the newer release also failed: ssh: probe"
    );
}

#[test]
fn the_bridge_starts_for_installed_profiles() {
    let mut profile = prepared("gpu");
    assert_eq!(
        check_up(&profile, "gpu", "codex-cli 0.147.0").unwrap_err().message,
        "profile 'gpu' is not installed; run 'cxs install gpu' first"
    );
    profile.status = ProfileStatus::Broken;
    check_up(&profile, "gpu", "codex-cli 0.147.0").unwrap();
    assert_eq!(
        check_up(&profile, "gpu", "codex-cli 1").unwrap_err().message,
        "Codex version mismatch: profile=codex-cli 0.147.0 current=codex-cli 1"
    );
    assert_eq!(pid_in(" 4294967295\n").unwrap(), u32::MAX);
    assert_eq!(pid_in("+7").unwrap(), 7);
    for bad in ["", "4294967296", "-1", "1 2", "0x1"] {
        assert_eq!(pid_in(bad).unwrap_err().message, "bridge pid file is invalid");
    }
    assert!(is_bridge_command("/usr/bin/cxs bridge gpu", "gpu"));
    assert!(!is_bridge_command("/usr/bin/cxs bridge cpu", "gpu"));
    assert!(!is_bridge_command("bridge gpu", "gpu"));
    assert!(bridge_running(Some(7), true, "cxs bridge gpu", "gpu"));
    assert!(!bridge_running(Some(7), false, "cxs bridge gpu", "gpu"));
    assert!(!bridge_running(None, true, "cxs bridge gpu", "gpu"));
}

fn local() -> LocalFindings {
    LocalFindings {
        bridge_running: true,
        token: Ok(()),
        codex_checks: vec![Check {
            name: "codex-version".to_owned(),
            passed: true,
            detail: "codex-cli 0.147.0".to_owned(),
        }],
        current_version: Ok("codex-cli 0.147.0".to_owned()),
        ssh_unchanged: Ok(true),
    }
}

#[test]
fn the_doctor_reports_everything() {
    let mut profile = prepared("gpu");
    mark_ready(&mut profile, &Ok(()));
    let report = doctor(&profile, "gpu", local(), None);
    assert!(report.ready);
    require_ready(&report).unwrap();
    let names: Vec<&str> = report.checks.iter().map(|c| c.name.as_str()).collect();
    assert_eq!(
        names,
        [
            "profile-state",
            "local-bridge",
            "profile-token",
            "codex-version",
            "version-match",
            "ssh-config",
            "ssh-connection",
            "remote-platform",
            "remote-install",
            "ssh-agent-alias",
            "execution-transport"
        ]
    );
    assert_eq!(report.checks[10].status, DoctorStatus::Skip);
    assert_eq!(report.checks[4].detail, "pinned version codex-cli 0.147.0");

    let mut remote = remote_install();
    remote.codex_version = "codex-cli 0.147.0".to_owned();
    let mut installed = profile.copy();
    record_rollback(&mut installed, remote);
    mark_ready(&mut installed, &Ok(()));
    let mut remote = remote_install();
    remote.codex_version = "codex-cli 0.147.0".to_owned();
    let report = doctor(
        &installed,
        "gpu",
        local(),
        Some(RemoteFindings {
            connection: Ok(()),
            facts: Ok(RemoteFacts {
                home: "/home/x".to_owned(),
                kernel: "Linux".to_owned(),
                arch: "x86_64".to_owned(),
            }),
            install: Ok(remote),
            executor: Ok(()),
            alias: Ok(()),
            transport: Err(failure("closed")),
        }),
    );
    assert_eq!(report.checks[7].detail, "Linux x86_64 home=/home/x");
    assert_eq!(
        report.checks[8].detail,
        "r (aarch64-unknown-linux-musl, managed-runtime)"
    );
    assert_eq!(report.checks[10].status, DoctorStatus::Fail);
    assert_eq!(report.checks[10].detail, "closed");
    assert!(!report.ready);
    assert_eq!(
        require_ready(&report).unwrap_err().message,
        "profile 'gpu' is not ready"
    );
}

#[test]
fn the_doctor_finds_what_is_wrong_here() {
    let profile = prepared("gpu");
    let findings = LocalFindings {
        bridge_running: false,
        token: Err(failure("no token")),
        codex_checks: vec![Check {
            name: "codex-version".to_owned(),
            passed: false,
            detail: "missing".to_owned(),
        }],
        current_version: Ok("codex-cli 1".to_owned()),
        ssh_unchanged: Ok(false),
    };
    let report = doctor(&profile, "gpu", findings, None);
    let details: Vec<&str> = report.checks[..6].iter().map(|c| c.detail.as_str()).collect();
    assert_eq!(
        details,
        [
            "status is prepared; remote artifacts and end-to-end contracts are incomplete",
            "bridge is stopped; run 'cxs up gpu'",
            "no token",
            "missing",
            "profile=codex-cli 0.147.0 current=codex-cli 1",
            "source SSH configuration changed; recreate the profile"
        ]
    );
    assert!(report.checks[..6].iter().all(|c| c.status == DoctorStatus::Fail));
    assert_eq!(report.checks[0].status.label(), "fail");
}
