use codex_shuttle::archive::{
    is_empty_archive, is_local_rollout, sessions_command, sort_paths, steps_of,
    validate_rollout_path, ArchiveIntake, EntryKind,
};
use codex_shuttle::sessions::{
    backup_copies, check_columns, collect_repair_changes, count_rewrites, inspect_and_rewrite,
    needs_rewrite, plan_sync, repair_report, resolve_provider, resolve_state_db, restore_copies,
    select_statement, state_home, update_statement, validate_host, validate_provider, ImportDecision, Importer,
    RolloutMeta, RolloutRecord, StateHome, SyncOptions, ThreadRow,
};

fn rollout(id: &str, provider: &str, cwd: &str) -> Vec<u8> {
    format!(
        "{{\"timestamp\":\"2026-01-01T00:00:00Z\",\"type\":\"session_meta\",\"payload\":{{\"id\":\"{id}\",\"cwd\":\"{cwd}\",\"model_provider\":\"{provider}\"}}}}\n{{\"type\":\"event_msg\",\"payload\":{{\"type\":\"user_message\"}}}}\n"
    )
    .into_bytes()
}

fn meta(id: &str, provider: Option<&str>, cwd: Option<&str>) -> RolloutMeta {
    RolloutMeta {
        id: id.to_owned(),
        cwd: cwd.map(str::to_owned),
        provider: provider.map(str::to_owned),
        encrypted: false,
    }
}

#[test]
fn rewrites_only_session_meta_provider() {
    let input = rollout("thread-1", "old", "/srv/project");
    let (meta, output) = inspect_and_rewrite(&input, Some("openai")).unwrap();
    assert_eq!(meta.id, "thread-1");
    assert_eq!(meta.provider.as_deref(), Some("old"));
    assert!(String::from_utf8(output)
        .unwrap()
        .contains("\"model_provider\":\"openai\""));
}

#[test]
fn what_follows_the_first_record_stays() {
    let input = rollout("thread-1", "old", "/srv/project");
    let (_, output) = inspect_and_rewrite(&input, Some("openai")).unwrap();
    let tail = |bytes: &[u8]| {
        let end = bytes.iter().position(|byte| *byte == b'\n').unwrap();
        bytes[end..].to_vec()
    };
    assert_eq!(tail(&output), tail(&input));
    let (again, twice) = inspect_and_rewrite(&output, Some("openai")).unwrap();
    assert_eq!(twice, output);
    assert_eq!(again.provider.as_deref(), Some("openai"));
    assert_eq!(again.cwd.as_deref(), Some("/srv/project"));
    let line = b"{\"type\":\"session_meta\",\"payload\":{\"id\":\"x\"}}\r\nrest encrypted_content";
    let (meta, output) = inspect_and_rewrite(line, None).unwrap();
    assert!(meta.encrypted);
    assert_eq!(meta.cwd, None);
    assert_eq!(
        output,
        b"{\"payload\":{\"id\":\"x\"},\"type\":\"session_meta\"}\nrest encrypted_content"
    );
}

#[test]
fn files_that_are_no_sessions_are_refused() {
    let refuse = |text: &str| inspect_and_rewrite(text.as_bytes(), None).unwrap_err().message;
    assert_eq!(refuse(""), "invalid session_meta JSON");
    assert_eq!(refuse("{}\n"), "first rollout record is not session_meta");
    assert_eq!(
        refuse("{\"type\":\"session_meta\"}"),
        "session_meta has no payload object"
    );
    assert_eq!(
        refuse("{\"type\":\"session_meta\",\"payload\":{\"id\":\"\"}}"),
        "session_meta has no thread id"
    );
}

#[test]
fn rejects_archive_traversal() {
    assert!(validate_rollout_path("../sessions/rollout-x.jsonl").is_err());
    assert!(validate_rollout_path("sessions/rollout-x.jsonl").is_ok());
}

#[test]
fn archive_paths_lead_into_the_session_directories() {
    for good in [
        "archived_sessions/rollout-1.JSONL",
        "sessions/2026/./01//rollout-a.b.jsonl",
    ] {
        validate_rollout_path(good).unwrap();
    }
    let refuse = |path: &str| validate_rollout_path(path).unwrap_err().message;
    for unsafe_path in ["/sessions/rollout-x.jsonl", "./sessions/rollout-x.jsonl", "sessions/../rollout-x.jsonl", "."] {
        assert_eq!(
            refuse(unsafe_path),
            format!("unsafe path in remote session archive: {unsafe_path}")
        );
    }
    assert_eq!(refuse(""), "empty archive path");
    assert_eq!(
        refuse("other/rollout-x.jsonl"),
        "unexpected remote session path: other/rollout-x.jsonl"
    );
    for other in ["sessions/x.jsonl", "sessions/rollout-x.json", "sessions/rollout-jsonl"] {
        assert_eq!(
            refuse(other),
            format!("unexpected file in remote session archive: {other}")
        );
    }
    assert_eq!(steps_of("a//./b/"), ["a", "b"]);
    assert!(is_local_rollout("rollout-1.jsonl"));
    assert!(!is_local_rollout("rollout-1.JSONL"));
}

#[test]
fn archives_have_limits() {
    let mut intake = ArchiveIntake::new();
    assert!(!intake.take(EntryKind::Directory, "sessions", 0).unwrap());
    assert_eq!(
        intake.take(EntryKind::Other, "sessions/rollout-l.jsonl", 0).unwrap_err().message,
        "remote session archive contains a non-regular entry"
    );
    let half = 512 * 1024 * 1024;
    assert_eq!(
        intake.take(EntryKind::File, "sessions/rollout-0.jsonl", half + 1).unwrap_err().message,
        "remote rollout sessions/rollout-0.jsonl exceeds the 512 MiB limit"
    );
    for n in 0..8 {
        let path = format!("sessions/rollout-{n}.jsonl");
        assert!(intake.take(EntryKind::File, &path, half).unwrap());
    }
    assert_eq!(
        intake.take(EntryKind::File, "sessions/rollout-9.jsonl", 1).unwrap_err().message,
        "remote session archive exceeds the 4 GiB limit"
    );
    assert!(intake.take(EntryKind::File, "sessions/rollout-9.jsonl", 0).unwrap());
    assert_eq!(intake.files.len(), 9);
    for again in ["sessions/rollout-9.jsonl", "sessions//rollout-9.jsonl", "sessions/./rollout-9.jsonl"] {
        assert_eq!(
            intake.take(EntryKind::File, again, 0).unwrap_err().message,
            format!("remote session archive holds a file twice: {again}")
        );
    }
    assert!(intake.take(EntryKind::File, "archived_sessions/rollout-9.jsonl", 0).unwrap());
    assert!(is_empty_archive(b"CXS0"));
    assert!(!is_empty_archive(b"CXS1"));
}

#[test]
fn paths_are_ordered_step_by_step() {
    let sorted = sort_paths(vec![
        "sessions-b/x".to_owned(),
        "sessions/z".to_owned(),
        "archived/x".to_owned(),
        "sessions/a".to_owned(),
    ]);
    assert_eq!(sorted, ["archived/x", "sessions/a", "sessions/z", "sessions-b/x"]);
}

#[test]
fn hosts_send_their_sessions() {
    let command = sessions_command(None);
    assert!(command.starts_with("set -eu; root=$HOME/.codex; if ! cd \"$root\""));
    assert!(sessions_command(Some("/a b")).starts_with("set -eu; root='/a b'; "));
    assert!(command.ends_with("then printf CXS0; else tar -cf - \"$@\"; fi"));
    let options = SyncOptions {
        host: "h",
        remote_codex_home: None,
        local_codex_home: "/l",
        provider: None,
    };
    let plan = plan_sync(&options, None).unwrap();
    assert_eq!(plan.provider, "openai");
    assert_eq!(plan.command, command);
    assert_eq!(
        plan_sync(&options, Some("= broken")).unwrap_err().message,
        "could not parse /l/config.toml"
    );
    let mut other = options.clone();
    other.host = "-h";
    assert_eq!(plan_sync(&other, None).unwrap_err().message, "unsafe SSH host alias");
    assert!(validate_host("").is_err());
}

#[test]
fn the_provider_comes_from_the_configuration() {
    let config = "model_provider = \"azure\"\nsqlite_home = \"/db\"\n[model_providers.x]\na = 1\n";
    assert_eq!(resolve_provider(None, Some(config), "c").unwrap(), "azure");
    assert_eq!(resolve_provider(Some("mine"), Some(config), "c").unwrap(), "mine");
    assert_eq!(resolve_provider(None, Some("model_provider = 3\n"), "c").unwrap(), "openai");
    assert_eq!(
        resolve_provider(None, Some("model_provider = \"a b\"\n"), "c").unwrap_err().message,
        "provider id contains unsafe characters"
    );
    assert_eq!(
        resolve_provider(None, Some("x"), "c").unwrap_err().message,
        "could not parse c"
    );
    assert!(validate_provider("a.b_c-1").is_ok());
    assert!(validate_provider("").is_err());
    assert_eq!(resolve_state_db("/h", Some(config), Some("/e")).unwrap(), "/db/state_5.sqlite");
    assert_eq!(resolve_state_db("/h", Some(""), Some("/e")).unwrap(), "/e/state_5.sqlite");
    assert_eq!(resolve_state_db("/h", None, None).unwrap(), "/h/state_5.sqlite");
    assert!(resolve_state_db("/h", Some("x"), None).is_err());
}

#[test]
fn import_deduplicates_by_id_and_does_not_overwrite_paths() {
    let existing = rollout("thread-existing", "openai", "/local");
    let (local, _) = inspect_and_rewrite(&existing, None).unwrap();
    let duplicate = rollout("thread-existing", "remote", "/server/old");
    let imported = rollout("thread-imported", "remote", "/server/new");
    let mut importer = Importer::new(vec![local.id], 2, "openai");
    let (meta, _) = inspect_and_rewrite(&duplicate, Some("openai")).unwrap();
    assert_eq!(importer.consider(&meta, false), ImportDecision::Duplicate);
    let (meta, updated) = inspect_and_rewrite(&imported, Some("openai")).unwrap();
    assert_eq!(importer.consider(&meta, false), ImportDecision::Install);
    let report = importer.report;
    assert_eq!(report.imported, 1);
    assert_eq!(report.duplicates, 1);
    let imported_text = String::from_utf8(updated).unwrap();
    assert!(imported_text.contains("\"model_provider\":\"openai\""));
    assert!(String::from_utf8(existing).unwrap().contains("\"cwd\":\"/local\""));
}

#[test]
fn imports_add_up() {
    let mut importer = Importer::new(Vec::new(), 4, "openai");
    let mut first = meta("a", None, None);
    first.encrypted = true;
    assert_eq!(importer.consider(&first, true), ImportDecision::Conflict);
    assert_eq!(importer.consider(&first, false), ImportDecision::Duplicate);
    assert_eq!(importer.consider(&meta("b", None, None), false), ImportDecision::Install);
    assert_eq!(importer.consider(&meta("b", None, None), true), ImportDecision::Duplicate);
    let report = importer.report;
    assert_eq!(
        (report.imported, report.duplicates, report.conflicts, report.encrypted),
        (1, 2, 1, 2)
    );
    assert_eq!(report.remote_files, 4);
}

#[test]
fn sessions_are_aligned_where_they_differ() {
    let record = |id: &str, provider: Option<&str>, cwd: Option<&str>| RolloutRecord {
        path: format!("/h/{id}"),
        relative_path: id.to_owned(),
        meta: meta(id, provider, cwd),
        updated: Vec::new(),
    };
    let row = |provider: &str, cwd: Option<&str>| {
        Some(ThreadRow {
            provider: provider.to_owned(),
            cwd: cwd.map(str::to_owned),
        })
    };
    let records = vec![
        record("file", Some("old"), None),
        record("same", Some("openai"), Some("/w")),
        record("row", Some("openai"), None),
        record("cwd", Some("openai"), Some("/w")),
        record("none", None, None),
        record("free", Some("openai"), Some("/w")),
        record("gone", Some("openai"), Some("/w")),
    ];
    let rows = vec![
        row("openai", None),
        row("openai", Some("/w")),
        row("old", Some("/w")),
        row("openai", Some("/x")),
        None,
        row("openai", None),
        None,
    ];
    let changes = collect_repair_changes(records, &rows, "openai");
    let names: Vec<&str> = changes.iter().map(|c| c.relative_path.as_str()).collect();
    assert_eq!(names, ["file", "row", "cwd", "none"]);
    assert_eq!(count_rewrites(&changes, "openai"), 2);
    let report = repair_report(7, 1, "openai".to_owned(), &changes, 3, "/b".to_owned());
    assert_eq!(report.scanned, 7);
    assert_eq!(report.rollout_files_updated, 2);
    assert_eq!(report.sqlite_rows_updated, 3);
    assert_eq!(report.backup_dir.as_deref(), Some("/b"));
    let report = repair_report(7, 1, "openai".to_owned(), &Vec::new(), 3, "/b".to_owned());
    assert_eq!(report.rollout_files_updated, 0);
    assert_eq!(report.sqlite_rows_updated, 0);
    assert_eq!(report.backup_dir, None);
    let saved = backup_copies("/h", "/b", &changes);
    assert_eq!(saved.len(), 4);
    assert_eq!(saved[1].from, "/h/row");
    assert_eq!(saved[1].to, "/b/rollouts/row");
    let back = restore_copies(&saved);
    assert_eq!(back[1].from, "/b/rollouts/row");
    assert_eq!(back[1].to, "/h/row");
    assert!(!needs_rewrite(&changes[1].meta, "openai"));
}

#[test]
fn a_second_repair_finds_nothing() {
    let records = |provider: &str| {
        ["a", "b"]
            .iter()
            .map(|id| RolloutRecord {
                path: format!("/h/{id}"),
                relative_path: (*id).to_owned(),
                meta: meta(id, Some(provider), Some("/w")),
                updated: Vec::new(),
            })
            .collect::<Vec<_>>()
    };
    let row = |provider: &str, cwd: &str| ThreadRow {
        provider: provider.to_owned(),
        cwd: Some(cwd.to_owned()),
    };
    let rows = vec![Some(row("old", "/x")), None];
    assert_eq!(collect_repair_changes(records("old"), &rows, "openai").len(), 2);
    let rows = vec![Some(row("openai", "/w")), None];
    assert!(collect_repair_changes(records("openai"), &rows, "openai").is_empty());
}

#[test]
fn the_database_has_to_know_providers() {
    let columns = |names: &[&str]| names.iter().map(|n| (*n).to_owned()).collect::<Vec<_>>();
    assert!(check_columns(&columns(&["id", "model_provider", "cwd"])).unwrap());
    assert!(!check_columns(&columns(&["id", "model_provider"])).unwrap());
    assert_eq!(
        check_columns(&columns(&["id"])).unwrap_err().message,
        "Codex threads table has no model_provider column"
    );
    assert_eq!(
        check_columns(&columns(&[])).unwrap_err().message,
        "Codex state DB has no threads table"
    );
    assert_eq!(
        select_statement(true),
        "SELECT model_provider, cwd FROM threads WHERE id = ?1"
    );
    assert_eq!(
        update_statement(true),
        "UPDATE threads SET model_provider = ?1, cwd = COALESCE(?2, cwd) WHERE id = ?3"
    );
    assert_eq!(
        update_statement(false),
        "UPDATE threads SET model_provider = ?1 WHERE id = ?2"
    );
}

#[test]
fn the_configuration_comes_before_the_environment() {
    assert!(matches!(
        state_home(Some("sqlite_home = \"/db\"\n"), true).unwrap(),
        StateHome::Configured(home) if home == "/db"
    ));
    assert!(matches!(state_home(Some(""), true).unwrap(), StateHome::Environment));
    assert!(matches!(state_home(None, true).unwrap(), StateHome::Environment));
    assert!(matches!(state_home(None, false).unwrap(), StateHome::CodexHome));
    assert_eq!(
        state_home(Some("="), true).unwrap_err().message,
        "could not parse the Codex configuration"
    );
}
