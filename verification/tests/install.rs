use codex_shuttle::digest::{checksum_from_file, sha256_bytes, validate_sha256, verify_sha256};
use codex_shuttle::failure::Failure;
use codex_shuttle::install::{
    codex_release_version, codex_source_version, combine_transfers, describe_release,
    install_record, judge_reuse_probe, legacy_layout_version, linux_target,
    parse_reusable_executor, plan_install, release_asset_url, remote_digest, remote_target,
    script_parts, shim_config, shuttle_release_tag, validate_remote_path, ExecutorArtifact,
    ExecutorSource, InstallOptions, PackageChoice, PackageTransfer, ReusableExecutor,
};
use codex_shuttle::profile::{Profile, ProfileStatus, PROFILE_SCHEMA_VERSION};
use codex_shuttle::scripts::{
    command_outcome, render_cleanup_command, render_contents_script, render_download_script,
    render_install_script,
    render_remote_executor_probe_script, rollback, ssh_arguments, uninstall, upload_command,
    verify_executor, InstallScript,
};
use codex_shuttle::shell::shell_quote;
use codex_shuttle::ssh::RemoteFacts;

fn profile() -> Profile {
    Profile {
        schema_version: PROFILE_SCHEMA_VERSION,
        name: "gpu".to_owned(),
        source_host: "gpu-server".to_owned(),
        app_alias: "cxs-gpu".to_owned(),
        status: ProfileStatus::Prepared,
        codex_version: "codex-cli 0.147.0-alpha.6.5".to_owned(),
        local_socket: "/tmp/cxs-test.sock".to_owned(),
        remote_socket: "/tmp/cxs-remote.sock".to_owned(),
        environment_id: "cxs-gpu".to_owned(),
        local_exec_port: 49_444,
        remote_exec_port: 49_445,
        token_file: "/tmp/cxs-token".to_owned(),
        codex_home: "/tmp/codex".to_owned(),
        installed_target: None,
        remote_home: None,
        remote_release: None,
        package_sha256: None,
        shim_sha256: None,
        executor_source: None,
        executor_path: None,
    }
}

fn facts() -> RemoteFacts {
    RemoteFacts {
        home: "/home/dev".to_owned(),
        kernel: "Linux".to_owned(),
        arch: "aarch64".to_owned(),
    }
}

#[test]
fn parses_and_rejects_codex_versions() {
    assert_eq!(
        codex_release_version("codex-cli 0.147.0").unwrap(),
        "0.147.0"
    );
    assert_eq!(
        codex_source_version("codex-cli 0.147.0-alpha.6.5").unwrap(),
        "0.147.0"
    );
    assert!(codex_release_version("codex-cli ../../bad").is_err());
}

#[test]
fn version_output_has_to_name_a_version() {
    assert_eq!(
        codex_release_version(" \n").unwrap_err().message,
        "Codex version output was empty"
    );
    assert_eq!(
        codex_release_version("codex-cli 1_2").unwrap_err().message,
        "unsupported Codex version string '1_2'"
    );
    assert!(codex_release_version(&"1".repeat(80)).is_ok());
    assert!(codex_release_version(&"1".repeat(81)).is_err());
    assert_eq!(codex_release_version("a\u{a0}b").unwrap_err().message,
        "unsupported Codex version string 'a\u{a0}b'");
}

#[test]
fn maps_supported_linux_targets() {
    let facts = RemoteFacts {
        home: "/home/dev".to_owned(),
        kernel: "Linux".to_owned(),
        arch: "aarch64".to_owned(),
    };
    assert_eq!(linux_target(&facts).unwrap(), "aarch64-unknown-linux-musl");
}

#[test]
fn other_hosts_are_refused() {
    let mut other = facts();
    other.arch = "amd64".to_owned();
    assert_eq!(linux_target(&other).unwrap(), "x86_64-unknown-linux-musl");
    other.arch = "riscv64".to_owned();
    assert_eq!(
        linux_target(&other).unwrap_err().message,
        "unsupported remote architecture riscv64"
    );
    other.kernel = "FreeBSD".to_owned();
    assert_eq!(
        linux_target(&other).unwrap_err().message,
        "unsupported remote kernel FreeBSD"
    );
    assert_eq!(
        remote_target(&other).unwrap_err().message,
        "unsupported remote kernel FreeBSD"
    );
}

#[test]
fn macs_are_hosts_on_apple_silicon_alone() {
    let mut mac = facts();
    mac.kernel = "Darwin".to_owned();
    mac.arch = "arm64".to_owned();
    assert_eq!(remote_target(&mac).unwrap(), "aarch64-apple-darwin");
    let plan = plan_install(&profile(), &mac, &InstallOptions::default(), "v1").unwrap();
    assert_eq!(plan.runtime_name, "codex-package-aarch64-apple-darwin.tar.gz");
    assert_eq!(plan.shim_name, "cxs-shim-aarch64-apple-darwin");
    mac.arch = "x86_64".to_owned();
    assert_eq!(
        plan_install(&profile(), &mac, &InstallOptions::default(), "v1").unwrap_err().message,
        "unsupported remote architecture x86_64"
    );
}

#[test]
fn quotes_shell_values() {
    assert_eq!(shell_quote("a'b"), "'a'\"'\"'b'");
}

#[test]
fn quoted_values_hold_anything() {
    assert_eq!(shell_quote(""), "''");
    assert_eq!(shell_quote("$HOME `x` \\ \n"), "'$HOME `x` \\ \n'");
}

#[test]
fn binds_assets_to_one_release_tag() {
    assert_eq!(
        release_asset_url(
            "https://example.invalid/releases/download/",
            "v0.1.0-codex.0.147.0",
            "SHA256SUMS"
        ),
        "https://example.invalid/releases/download/v0.1.0-codex.0.147.0/SHA256SUMS"
    );
}

#[test]
fn releases_are_tagged_by_version() {
    assert_eq!(shuttle_release_tag(None, "0.1.0"), "v0.1.0");
    assert_eq!(shuttle_release_tag(Some("tag"), "0.1.0"), "tag");
    assert_eq!(legacy_layout_version(), 1);
}

#[test]
fn reads_checksum_manifest() {
    let contents = format!("{}  artifact\n", "a".repeat(64));
    assert_eq!(checksum_from_file(&contents, "artifact").unwrap(), "a".repeat(64));
}

#[test]
fn checksum_manifests_are_read_line_by_line() {
    let contents = format!(
        "\nshort\nbad  other\n{} *artifact\n{}  artifact\n",
        "AB".repeat(32),
        "c".repeat(64)
    );
    assert_eq!(checksum_from_file(&contents, "artifact").unwrap(), "ab".repeat(32));
    assert_eq!(
        checksum_from_file(&contents, "other").unwrap_err().message,
        "invalid SHA-256 digest in manifest"
    );
    assert_eq!(
        checksum_from_file(&contents, "none").unwrap_err().message,
        "checksum manifest did not contain none"
    );
}

#[test]
fn digests_are_those_of_sha256() {
    let empty = "e3b0c44298fc1c149afbf4c8996fb92427ae41e4649b934ca495991b7852b855";
    assert_eq!(sha256_bytes(b""), empty);
    validate_sha256(empty).unwrap();
    assert!(validate_sha256(&empty[1..]).is_err());
    assert!(validate_sha256(&"g".repeat(64)).is_err());
    verify_sha256("/p", b"", &empty.to_ascii_uppercase()).unwrap();
    assert_eq!(
        verify_sha256("/p", b"", "00").unwrap_err().message,
        format!("SHA-256 mismatch for /p: expected 00, got {empty}")
    );
}

#[test]
fn installations_are_planned() {
    let plan = plan_install(&profile(), &facts(), &InstallOptions::default(), "v1").unwrap();
    assert_eq!(plan.target, "aarch64-unknown-linux-musl");
    assert_eq!(plan.version, "0.147.0");
    assert_eq!(plan.root, "/home/dev/.local/lib/codex-shuttle");
    assert!(matches!(plan.package, PackageChoice::RemoteDownload));
    assert_eq!(
        plan.runtime_url,
        "https://github.com/openai/codex/releases/download/rust-v0.147.0/codex-package-aarch64-unknown-linux-musl.tar.gz"
    );
    assert_eq!(
        plan.manifest_url,
        "https://github.com/openai/codex/releases/download/rust-v0.147.0/codex-package_SHA256SUMS"
    );
    assert_eq!(plan.executor, "bin/codex");
    assert_eq!(plan.shim_name, "cxs-shim-aarch64-unknown-linux-musl");
    assert_eq!(plan.remote_package, "/tmp/cxs-gpu-codex.tar.gz");
    assert_eq!(plan.remote_package_partial, "/tmp/cxs-gpu-codex.tar.gz.partial");
    assert_eq!(plan.remote_shim, "/tmp/cxs-gpu-shim");
    assert_eq!(
        plan.shim_manifest_url,
        "https://github.com/pengzhendong/codex-shuttle/releases/download/v1/SHA256SUMS"
    );

    let mut options = InstallOptions::default();
    options.local_download = true;
    let plan = plan_install(&profile(), &facts(), &options, "v1").unwrap();
    assert!(matches!(plan.package, PackageChoice::LocalDownload));
    options.remote_codex = Some("/usr/bin/codex".to_owned());
    assert_eq!(
        plan_install(&profile(), &facts(), &options, "v1").unwrap_err().message,
        "runtime package, local download, and remote Codex are mutually exclusive"
    );
    options.local_download = false;
    let plan = plan_install(&profile(), &facts(), &options, "v1").unwrap();
    assert!(matches!(plan.package, PackageChoice::Existing(p) if p == "/usr/bin/codex"));
    options.remote_codex = None;
    options.runtime_package = Some("/p.tar.gz".to_owned());
    let plan = plan_install(&profile(), &facts(), &options, "v1").unwrap();
    assert!(matches!(&plan.package, PackageChoice::Upload(p) if p == "/p.tar.gz"));
    assert_eq!(plan.executor, "bin/cxs-runtime");
}

fn package() -> PackageTransfer {
    PackageTransfer {
        sha256: "cd".repeat(32),
        executor_sha256: "ef".repeat(32),
    }
}

#[test]
fn releases_are_named_and_recorded() {
    let plan = plan_install(&profile(), &facts(), &InstallOptions::default(), "v1").unwrap();
    let shim = "ab".repeat(32);
    let artifact = ExecutorArtifact::Managed(package());
    let config = shim_config(&profile(), &plan, &artifact, &shim);
    assert_eq!(
        config.control_socket,
        "/home/dev/.local/lib/codex-shuttle/profiles/gpu/app-abababababab.sock"
    );
    assert_eq!(
        config.exec_server,
        "/home/dev/.local/lib/codex-shuttle/current/bin/codex"
    );
    assert_eq!(config.exec_server_args.len(), 9);
    assert_eq!(config.exec_server_port, 49_445);
    let install = describe_release(&profile(), &plan, &artifact, &shim, "");
    assert_eq!(install.release, "codex-0.147.0-r3-cdcdcdcd-abababab-e3b0c442");
    assert_eq!(install.layout_version, 3);
    assert_eq!(install.runtime_version.as_deref(), Some("codex-cli 0.147.0"));
    assert_eq!(install.executor_source, Some(ExecutorSource::ManagedRuntime));
    assert_eq!(install.package_sha256, Some("cd".repeat(32)));
    assert_eq!(install.executor_sha256, Some("ef".repeat(32)));
    let parts = script_parts(&profile(), "tok", &plan, &artifact, &install, "{}", "[]");
    assert_eq!(parts.package.as_deref(), Some("/tmp/cxs-gpu-codex.tar.gz"));
    assert_eq!(parts.executor_sha256, Some("ef".repeat(32)));
    assert_eq!(parts.executor_version, "codex-cli 0.147.0");
    let record = install_record(&facts(), &plan, &artifact, &install);
    assert_eq!(record.package_sha256, Some("cd".repeat(32)));
    assert_eq!(record.remote_home, "/home/dev");

    let artifact = ExecutorArtifact::Existing(ReusableExecutor {
        probe_path: "/usr/bin/codex".to_owned(),
        installed_path: "/opt/codex".to_owned(),
        sha256: "12".repeat(32),
    });
    let install = describe_release(&profile(), &plan, &artifact, &shim, "");
    assert_eq!(install.release, "codex-0.147.0-r3-12121212-abababab-e3b0c442");
    assert_eq!(install.runtime_version, None);
    assert_eq!(install.executor_path.as_deref(), Some("/opt/codex"));
    assert_eq!(install.executor_sha256, Some("12".repeat(32)));
    let parts = script_parts(&profile(), "tok", &plan, &artifact, &install, "{}", "[]");
    assert_eq!(parts.package, None);
    assert_eq!(parts.executor_sha256, None);
    assert_eq!(parts.executor_probe, "/usr/bin/codex");
    assert_eq!(parts.executor_version, "codex-cli 0.147.0-alpha.6.5");
}

#[test]
fn an_existing_codex_is_judged() {
    validate_remote_path("/usr/bin/codex").unwrap();
    for bad in ["codex", "", "/a\nb", "/a\0", "/a\rb"] {
        assert!(validate_remote_path(bad).is_err());
    }
    let output = format!("/usr/bin/codex\n/opt/codex\n{}\n", "AB".repeat(32));
    let found = judge_reuse_probe("/c", Some(0), output.as_bytes(), "").unwrap();
    assert_eq!(found.probe_path, "/usr/bin/codex");
    assert_eq!(found.installed_path, "/opt/codex");
    assert_eq!(found.sha256, "ab".repeat(32));
    assert_eq!(
        judge_reuse_probe("/c", Some(42), b"", "").unwrap_err().message,
        "remote Codex at /c is missing, has the wrong version, or lacks exec-server"
    );
    assert_eq!(
        judge_reuse_probe("/c", None, b"", " killed\n").unwrap_err().message,
        "remote Codex reuse probe failed: killed"
    );
    let refuse = |output: &[u8]| parse_reusable_executor(output).unwrap_err().message;
    assert_eq!(refuse(b""), "remote Codex probe omitted its path");
    assert_eq!(refuse(b"/a\n"), "remote Codex probe omitted its installed path");
    assert_eq!(refuse(b"/a\n/b\n"), "remote Codex probe omitted its checksum");
    assert_eq!(refuse(b"a\n/b\nc"), "remote Codex probe returned a non-absolute path");
    assert_eq!(refuse(b"/a\n/b\nc"), "invalid SHA-256 digest in manifest");
    assert_eq!(refuse(b"\xff"), "remote Codex reuse probe returned non-UTF-8 output");
}

#[test]
fn transfers_are_combined() {
    let failure = |message: &str| Failure {
        message: message.to_owned(),
    };
    assert_eq!(combine_transfers(Ok(package()), Ok(())).unwrap(), package());
    assert_eq!(
        combine_transfers(Err(failure("p")), Ok(())).unwrap_err().message,
        "Codex package transfer failed: p"
    );
    assert_eq!(
        combine_transfers(Ok(package()), Err(failure("s"))).unwrap_err().message,
        "shim upload failed; the verified Codex package was retained for retry: s"
    );
    assert_eq!(
        combine_transfers(Err(failure("p")), Err(failure("s"))).unwrap_err().message,
        "Codex package transfer and shim upload both failed; shim error: s: p"
    );
    assert_eq!(
        remote_digest(format!(" {}\n", "EF".repeat(32)).as_bytes()).unwrap(),
        "ef".repeat(32)
    );
    assert!(remote_digest(b"none").is_err());
    assert_eq!(
        remote_digest(b"\xff").unwrap_err().message,
        "remote runtime checksum output was not UTF-8"
    );
}

#[test]
fn the_installer_script_holds_its_parts() {
    let mut parts = InstallScript {
        profile: "gpu".to_owned(),
        token: "tok".to_owned(),
        executor_version: "codex-cli 0.147.0".to_owned(),
        root: "/r".to_owned(),
        release_name: "codex-0.147.0-reuse".to_owned(),
        package: None,
        executor_sha256: None,
        executor_probe: "/probe".to_owned(),
        executor_installed: "/installed".to_owned(),
        shim: "/shim".to_owned(),
        config_json: "{\"profile\":\"gpu\"}".to_owned(),
        metadata_json: "{\"layout\":3}".to_owned(),
    };
    let script = render_install_script(&parts);
    assert!(script.starts_with("digest_of() {"));
    assert!(script.contains("\nset -eu\numask 077\nprofile='gpu'\ntoken='tok'\nexpected_version='codex-cli 0.147.0'\nroot='/r'\nrelease=\"$root/releases/codex-0.147.0-reuse\"\nstage=\"$root/.stage-codex-0.147.0-reuse\"\nexecutor_installed='/installed'\nshim='/shim'\n"));
    assert!(script.contains("\nexecutor_probe='/probe'\ntest -x \"$executor_probe\""));
    assert!(script.contains("<<'CXS_CONFIG'\n{\"profile\":\"gpu\"}\nCXS_CONFIG\n"));
    assert!(script.contains("<<'CXS_METADATA'\n{\"layout\":3}\nCXS_METADATA\n"));
    assert!(script.contains("case \"${SHELL:-/bin/sh}\" in\n"));
    assert!(script.ends_with("\"$HOME/.local/bin/codex\" --version\n"));
    parts.package = Some("/pkg".to_owned());
    let script = render_install_script(&parts);
    assert!(script.contains("package='/pkg'\ntar -xzf \"$package\" -C \"$stage\"\nexecutor_name=${executor_installed##*/}\nexecutor_probe=\"$stage/bin/$executor_name\"\n"));
    assert!(script.contains("test -x \"$stage/bin/codex-code-mode-host\" ||"));
    assert!(script.contains("test -x \"$stage/codex-path/rg\" ||"));
    assert!(script.contains("test -x \"$stage/codex-resources/bwrap\" ||"));
    assert!(!script.contains("checksum mismatch"));
    parts.executor_sha256 = Some("ef".repeat(32));
    let script = render_install_script(&parts);
    assert!(script.contains("test \"$(digest_of \"$executor_probe\")\" = 'efef"));
    assert!(!script.contains("/probe"));
}

#[test]
fn remote_scripts_name_their_host() {
    let plan = plan_install(&profile(), &facts(), &InstallOptions::default(), "v1").unwrap();
    let artifact = ExecutorArtifact::Managed(package());
    let mut install = describe_release(&profile(), &plan, &artifact, &"ab".repeat(32), "");
    let check = verify_executor(&profile(), &install);
    assert_eq!(check.host, "gpu-server");
    assert!(check.script.contains("executor='/home/dev/.local/lib/codex-shuttle/current/bin/codex'\nexpected_version='codex-cli 0.147.0'\n"));
    assert!(check.script.contains("actual=$(digest_of \"$executor\")\ntest \"$actual\" = 'efef"));
    install.executor_path = None;
    install.runtime_version = None;
    install.executor_sha256 = Some("12".repeat(32));
    let check = verify_executor(&profile(), &install);
    assert!(check.script.contains("executor=\"$HOME\"/'.local/lib/codex-shuttle/releases/codex-0.147.0-r3-cdcdcdcd-abababab-e3b0c442/bin/codex'\n"));
    assert!(check.script.contains("actual=$(digest_of \"$executor\")\ntest \"$actual\" = '1212"));
    install.executor_sha256 = None;
    assert!(!verify_executor(&profile(), &install).script.contains("actual="));
    install.executor_path = Some("$HOME/$HOME/x".to_owned());
    assert!(verify_executor(&profile(), &install).script.contains("executor=\"$HOME\"/'x'\n"));

    let gone = uninstall(&profile(), false);
    assert_eq!(gone.host, "gpu-server");
    assert!(gone.script.contains("expected='gpu'\n"));
    assert!(gone.script.contains("\nif test 0 = 1; then\n"));
    assert!(uninstall(&profile(), true).script.contains("\nif test 1 = 1; then\n"));
    assert!(gone.script.contains("awk 'BEGIN { skip=0 } $0 == \"# >>> Codex Shuttle >>>\" { skip=1; next }"));
    assert!(rollback(&profile()).script.contains("ln -sfn \"$new_current\" \"$current\"\n"));
}

#[test]
fn remote_commands_quote_their_paths() {
    assert_eq!(upload_command("/tmp/a b"), "umask 077; cat > '/tmp/a b'");
    assert_eq!(
        render_cleanup_command(&vec!["/a".to_owned(), "/b".to_owned()]),
        "set -eu; unlink '/a' 2>/dev/null || true; unlink '/b' 2>/dev/null || true;"
    );
    let script = render_download_script("/d", "https://m", "pkg", "https://u");
    assert!(script.contains("destination='/d'\n"));
    assert!(script.contains("--output \"$manifest\" 'https://m'\nexpected=$(awk -v wanted='pkg' '$2 == wanted || $2 == \"*\" wanted { print $1; exit }' \"$manifest\")\n"));
    assert!(script.contains("--output \"$temporary\" 'https://u'\n"));
    let contents = render_contents_script("/p k", "bin/codex");
    assert!(contents.contains("package='/p k'\nexecutor='bin/codex'\n"));
    assert!(contents.ends_with("digest_of \"$work/$executor\"\n"));
    let probe = render_remote_executor_probe_script("/r", "codex-cli 1", "/c");
    assert!(probe.contains("else shasum -a 256 \"$1\"; fi | awk '{print $1}'; }\nset -eu\nroot='/r'\nexpected='codex-cli 1'\ncandidate='/c'\n"));
    assert_eq!(
        ssh_arguments("h", "true", true),
        ["-T", "-o", "BatchMode=yes", "-o", "ConnectTimeout=10", "h", "true"]
    );
    assert_eq!(
        ssh_arguments("h", "sh -s", false),
        ["-T", "-o", "BatchMode=yes", "h", "sh -s"]
    );
}

#[test]
fn failed_commands_say_what_they_said() {
    assert!(command_outcome(true, "ssh", "a warning").is_ok());
    assert_eq!(
        command_outcome(false, "ssh", "\n no route \n").unwrap_err().message,
        "ssh failed: no route"
    );
}
