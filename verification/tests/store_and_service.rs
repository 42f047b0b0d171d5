use oc::cli::RequestedAction;
use oc::commands::{
    auto_attach_outcome, error_chain_text, interactive_attach_failure_status, is_attach_failure,
    AutoAttachResult,
};
use oc::config::RuntimeConfig;
use oc::list_output::{render_json, render_table, rows_from_entries, SessionListRow};
use oc::opencode_db::{
    is_missing_session_table_error, is_unavailable_error, parse_proc_start_ticks,
    process_lookup_for_table, process_lookup_on_open_error, process_lookup_on_row_error,
    process_session_table_from_query, process_start_ticks_match, root_ids_on_open_error,
    root_ids_on_prepare_error, root_ids_on_query_error, root_session_ids_matching, root_walk_step,
    row_decision, OpenCodeDb, ProcessSessionLookup, ProcessSessionRowLookup,
    ProcessSessionTableLookup, RootSessionIdLookup, RootWalk, RowDecision, SqliteCode,
    SqliteErrorKind,
};
use oc::service::{
    captured_session_id, check_movable, check_restartable, find_saved_sessions_in_directory,
    import_outcome, launch_opencode_args, new_root_session_ids, parse_legacy_alias_line,
    parse_legacy_aliases, single_directory_match, single_id, ImportOutcome, MigrationReport,
    ServiceError, SessionLaunch, SessionService,
};
use oc::session::{NewSessionAlias, SavedSession, SessionListEntry, SessionStatus};
use oc::storage::{
    deserialize_opencode_args, import_decision, next_session_id, serialize_opencode_args,
    ImportDecision, StorageError,
};
use oc::tmux::Tmux;

fn strings(items: &[&str]) -> Vec<String> {
    items.iter().map(|s| String::from(*s)).collect()
}

fn saved(id: i64, name: &str, directory: &str, session_id: Option<&str>) -> SavedSession {
    SavedSession {
        id,
        name: String::from(name),
        directory: String::from(directory),
        opencode_session_id: session_id.map(String::from),
        opencode_args: Vec::new(),
    }
}

fn busy() -> SqliteErrorKind {
    SqliteErrorKind::Failure {
        code: SqliteCode::DatabaseBusy,
        message: None,
    }
}

fn missing_table() -> SqliteErrorKind {
    SqliteErrorKind::Failure {
        code: SqliteCode::Other,
        message: Some(String::from("no such table: session")),
    }
}

#[test]
fn session_ids_are_dense_and_fill_the_first_gap() {
    assert_eq!(next_session_id(&vec![]), 1);
    assert_eq!(next_session_id(&vec![1, 2, 3]), 4);
    assert_eq!(next_session_id(&vec![3, 1]), 2);
    assert_eq!(next_session_id(&vec![2, 3]), 1);
    assert_eq!(next_session_id(&vec![6, 1, 2, 5]), 3);
}

#[test]
fn imported_aliases_are_inserted_skipped_or_refused() {
    let alias = NewSessionAlias::new(
        String::from("dc"),
        String::from("/tmp/dc"),
        strings(&["--x"]),
    )
    .unwrap();
    let mut existing = saved(1, "dc", "/tmp/dc/", None);
    existing.opencode_args = strings(&["--x"]);
    assert_eq!(import_decision(None, &alias), ImportDecision::Insert);
    assert_eq!(
        import_decision(Some(&existing), &alias),
        ImportDecision::Unchanged
    );
    existing.opencode_args = Vec::new();
    assert_eq!(
        import_decision(Some(&existing), &alias),
        ImportDecision::Conflict
    );
    assert_eq!(import_outcome(ImportDecision::Insert), ImportOutcome::Imported);
    assert_eq!(import_outcome(ImportDecision::Unchanged), ImportOutcome::Skipped);
    assert_eq!(import_outcome(ImportDecision::Conflict), ImportOutcome::Conflict);
}

#[test]
fn opencode_arguments_round_trip_through_json() {
    let args = strings(&["extra", "--flag"]);
    let json = serialize_opencode_args(&args).unwrap();
    assert_eq!(json, r#"["extra","--flag"]"#);
    assert_eq!(deserialize_opencode_args(&json).unwrap(), args);
    assert_eq!(serialize_opencode_args(&Vec::new()).unwrap(), "[]");
    let awkward = strings(&["a\"b", "c\\d", "tab\tline\nend\r", "\u{1}\u{b}\u{1f}\u{7f}", "é"]);
    let json = serialize_opencode_args(&awkward).unwrap();
    assert_eq!(
        json,
        r#"["a\"b","c\\d","tab\tline\nend\r","\u0001\u000b\u001f"#.to_string() + "\u{7f}\",\"é\"]"
    );
    assert_eq!(deserialize_opencode_args(&json).unwrap(), awkward);
    let error = deserialize_opencode_args("not json").unwrap_err();
    assert_eq!(
        error.message(),
        "failed to deserialize OpenCode args from stored JSON: not json"
    );
}

#[test]
fn storage_error_texts() {
    assert_eq!(
        StorageError::AliasExists(String::from("dc")).message(),
        "Session alias 'dc' already exists"
    );
    assert_eq!(
        StorageError::AliasNotFound(String::from("dc")).message(),
        "Session alias 'dc' not found"
    );
    assert_eq!(StorageError::SessionNotFound(7).message(), "Session 7 not found");
    assert_eq!(
        StorageError::ConflictingImport(String::from("dc")).message(),
        "Session alias 'dc' already exists with different values"
    );
}

#[test]
fn launch_arguments_resume_the_captured_session() {
    let mut s = saved(1, "dc", "/tmp/dc", Some("ses_1"));
    s.opencode_args = strings(&["-m", "x"]);
    assert_eq!(
        launch_opencode_args(&s),
        strings(&["--session", "ses_1", "-m", "x"])
    );
    let plain = saved(2, "p", "/tmp/p", None);
    assert_eq!(launch_opencode_args(&plain), Vec::<String>::new());
    let launch = SessionLaunch::for_saved_session(&Tmux::new(String::from("oc-")), &s);
    assert_eq!(launch.session_name, "dc");
    assert_eq!(launch.tmux_session_name, "oc-dc");
    assert_eq!(launch.directory, "/tmp/dc");
    assert_eq!(launch.opencode_args, strings(&["--session", "ses_1", "-m", "x"]));
}

#[test]
fn restart_and_move_preconditions() {
    assert_eq!(check_restartable(&saved(1, "dc", "/tmp", Some("s"))), Ok(()));
    let error = check_restartable(&saved(1, "dc", "/tmp", None)).unwrap_err();
    assert_eq!(
        error.message(),
        "Session 'dc' cannot be restarted because it has no saved OpenCode session ID"
    );
    assert_eq!(check_movable(&saved(1, "dc", "/tmp", None), false), Ok(()));
    assert_eq!(
        check_movable(&saved(1, "dc", "/tmp", None), true)
            .unwrap_err()
            .message(),
        "Session 'dc' must be stopped before moving its directory"
    );
}

#[test]
fn legacy_alias_lines() {
    let alias = parse_legacy_alias_line("dc\t/tmp/dc").unwrap();
    assert_eq!(alias.name, "dc");
    assert_eq!(alias.directory, "/tmp/dc");
    assert!(alias.opencode_args.is_empty());
    let error = parse_legacy_alias_line("dc").unwrap_err();
    assert_eq!(error, ServiceError::LegacyLineWithoutTab(String::from("dc")));
    assert_eq!(
        error.message(),
        "Legacy alias line must contain a tab separator: dc"
    );
    assert!(matches!(
        parse_legacy_alias_line("123\t/tmp"),
        Err(ServiceError::LegacyAlias(_))
    ));
    let aliases = parse_legacy_aliases("a\t/x\n\n   \nb\t/y\n").unwrap();
    assert_eq!(aliases.len(), 2);
    assert_eq!(aliases[1].name, "b");
    assert_eq!(aliases[1].directory, "/y");
    assert!(parse_legacy_aliases("a\t/x\nbroken\n").is_err());
}

fn migrate_into(store: &mut Vec<SavedSession>, aliases: &[NewSessionAlias]) -> MigrationReport {
    let mut report = MigrationReport::new();
    for alias in aliases {
        let existing = store.iter().find(|s| s.name == alias.name).cloned();
        let decision = import_decision(existing.as_ref(), alias);
        if decision == ImportDecision::Insert {
            let id = store.len() as i64 + 1;
            store.push(SavedSession {
                id,
                name: alias.name.clone(),
                directory: alias.directory.clone(),
                opencode_session_id: alias.opencode_session_id.clone(),
                opencode_args: alias.opencode_args.clone(),
            });
        }
        report.record(alias.name.clone(), import_outcome(decision));
    }
    report
}

#[test]
fn migrating_twice_changes_nothing_more() {
    let aliases = vec![
        NewSessionAlias::new(String::from("two"), String::from("/tmp/two"), Vec::new()).unwrap(),
        NewSessionAlias::new(String::from("kept"), String::from("/tmp/kept/"), strings(&["--x"])).unwrap(),
        NewSessionAlias::new(String::from("clash"), String::from("/tmp/other"), Vec::new()).unwrap(),
        NewSessionAlias::new(String::from("two"), String::from("/tmp/elsewhere"), Vec::new()).unwrap(),
    ];
    let mut kept = saved(1, "kept", "/tmp/kept", None);
    kept.opencode_args = strings(&["--x"]);
    let mut store = vec![kept, saved(2, "clash", "/tmp/clash", None)];
    let before = store.clone();
    let first = migrate_into(&mut store, &aliases);
    assert_eq!((first.imported, first.skipped), (1, 1));
    assert_eq!(first.conflicts, strings(&["clash", "two"]));
    assert_eq!(&store[..2], &before[..]);
    let after_first = store.clone();
    let second = migrate_into(&mut store, &aliases);
    assert_eq!(second.imported, 0);
    assert_eq!(second.skipped, first.imported + first.skipped);
    assert_eq!(second.conflicts, first.conflicts);
    assert_eq!(store, after_first);
}

#[test]
fn migration_report_counts_and_lines() {
    let mut report = MigrationReport::new();
    report.record(String::from("a"), ImportOutcome::Imported);
    report.record(String::from("b"), ImportOutcome::Skipped);
    report.record(String::from("c"), ImportOutcome::Conflict);
    report.record(String::from("d"), ImportOutcome::Imported);
    assert_eq!(report.imported, 2);
    assert_eq!(report.skipped, 1);
    assert_eq!(report.conflicts, strings(&["c"]));
    assert_eq!(
        report.summary_lines(),
        strings(&["imported 2 skipped 1 conflicts 1", "conflict c"])
    );
}

#[test]
fn captured_session_is_the_single_new_root() {
    let before = strings(&["a"]);
    assert_eq!(new_root_session_ids(&before, &strings(&["b", "a", "c"])), strings(&["b", "c"]));
    assert_eq!(
        captured_session_id(&before, &strings(&["a", "b"])),
        Some(String::from("b"))
    );
    assert_eq!(captured_session_id(&before, &strings(&["a", "b", "c"])), None);
    assert_eq!(captured_session_id(&before, &strings(&["a"])), None);
    assert_eq!(single_id(&strings(&["x"])), Some(String::from("x")));
    assert_eq!(single_id(&strings(&["x", "y"])), None);
}

#[test]
fn sessions_in_a_directory() {
    let sessions = vec![
        saved(1, "a", "/work/p", None),
        saved(2, "b", "/other", None),
        saved(3, "c", "/work/p/", None),
    ];
    let found = find_saved_sessions_in_directory(sessions, "/work/p");
    assert_eq!(found.iter().map(|s| s.id).collect::<Vec<_>>(), vec![1, 3]);
    assert_eq!(single_directory_match(found), None);
    let one = single_directory_match(vec![saved(4, "d", "/d", None)]);
    assert_eq!(one.map(|s| s.id), Some(4));
}

#[test]
fn service_holds_its_settings() {
    let config =
        RuntimeConfig::from_environment(Some(String::from("/h")), None, None, None, None).unwrap();
    let service = SessionService::new(config.clone());
    assert_eq!(service.config(), &config);
    assert_eq!(service.tmux().managed_session_prefix(), "oc-");
    assert_eq!(
        service.opencode_db().path(),
        "/h/.local/share/opencode/opencode.db"
    );
}

#[test]
fn attach_failures_fall_back_to_the_dashboard() {
    let chain = strings(&["failed to attach to session 'dc'", "tmux exited"]);
    assert_eq!(
        error_chain_text(&chain),
        "failed to attach to session 'dc': tmux exited"
    );
    assert!(is_attach_failure(&chain));
    assert_eq!(
        interactive_attach_failure_status(
            &RequestedAction::AttachTarget {
                target: String::from("dc")
            },
            &chain
        ),
        Some(String::from(
            "Attach failed for dc: failed to attach to session 'dc': tmux exited"
        ))
    );
    assert_eq!(
        interactive_attach_failure_status(
            &RequestedAction::Move {
                target: String::from("dc"),
                new_dir: String::from("/x")
            },
            &chain
        ),
        Some(String::from(
            "Attach failed for dc: failed to attach to session 'dc': tmux exited"
        ))
    );
    assert_eq!(
        interactive_attach_failure_status(
            &RequestedAction::Rm {
                target: String::from("dc")
            },
            &chain
        ),
        None
    );
    let other = strings(&["failed to launch session 'dc'"]);
    assert_eq!(
        interactive_attach_failure_status(
            &RequestedAction::AttachTarget {
                target: String::from("dc")
            },
            &other
        ),
        None
    );
    assert_eq!(auto_attach_outcome("dc", Ok(())), Ok(AutoAttachResult::Attached));
    assert_eq!(
        auto_attach_outcome("dc", Err(chain.clone())),
        Ok(AutoAttachResult::FallbackToDashboard(Some(String::from(
            "Auto-attach failed for dc: failed to attach to session 'dc': tmux exited"
        ))))
    );
    assert_eq!(auto_attach_outcome("dc", Err(other.clone())), Err(other));
}

#[test]
fn root_sessions_of_a_directory_are_listed_once() {
    let rows = vec![
        (String::from("s1"), String::from("/work/p")),
        (String::from("s2"), String::from("/work/p/")),
        (String::from("s3"), String::from("/other")),
        (String::from("s1"), String::from("/work/p")),
        (String::from("s4"), String::from("p")),
    ];
    let ids = root_session_ids_matching(&rows, "/work/p", None, Some("/work"));
    assert_eq!(ids, strings(&["s1", "s2", "s4"]));
    assert_eq!(OpenCodeDb::new(String::from("/db")).path(), "/db");
}

#[test]
fn database_failures_are_told_apart() {
    assert!(is_unavailable_error(&busy()));
    assert!(!is_unavailable_error(&SqliteErrorKind::Other));
    assert!(is_missing_session_table_error(&missing_table()));
    assert_eq!(root_ids_on_open_error(&busy()), Some(RootSessionIdLookup::Unavailable));
    assert_eq!(root_ids_on_open_error(&SqliteErrorKind::Other), None);
    assert_eq!(
        root_ids_on_prepare_error(&missing_table()),
        Some(RootSessionIdLookup::Available(Vec::new()))
    );
    assert_eq!(root_ids_on_query_error(&missing_table()), None);
    assert_eq!(
        process_lookup_on_open_error(&busy()),
        Some(ProcessSessionLookup::Unavailable)
    );
    assert_eq!(
        process_session_table_from_query(&Ok(())),
        Some(ProcessSessionTableLookup::Available)
    );
    assert_eq!(
        process_session_table_from_query(&Err(SqliteErrorKind::QueryReturnedNoRows)),
        Some(ProcessSessionTableLookup::Missing)
    );
    assert_eq!(
        process_lookup_for_table(ProcessSessionTableLookup::Missing),
        Some(ProcessSessionLookup::Available(
            ProcessSessionRowLookup::TableMissing
        ))
    );
    assert_eq!(process_lookup_for_table(ProcessSessionTableLookup::Available), None);
    assert_eq!(
        process_lookup_on_row_error(&SqliteErrorKind::QueryReturnedNoRows),
        Some(ProcessSessionLookup::Available(
            ProcessSessionRowLookup::RowMissing
        ))
    );
}

#[test]
fn process_rows_and_root_walk() {
    let stat = "42 (opencode) S 1 2 3 4 5 6 7 8 9 10 11 12 13 14 15 16 17 18 987654 20";
    assert_eq!(parse_proc_start_ticks(stat), Some(987654));
    assert_eq!(parse_proc_start_ticks("1 2 3"), None);
    assert!(process_start_ticks_match(Some(stat), 987654));
    assert!(!process_start_ticks_match(None, 987654));
    assert_eq!(
        row_decision(false, Some(String::from("s"))),
        RowDecision::Settled(ProcessSessionRowLookup::Stale)
    );
    assert_eq!(
        row_decision(true, None),
        RowDecision::Settled(ProcessSessionRowLookup::SessionIdMissing)
    );
    assert_eq!(
        row_decision(true, Some(String::from("s"))),
        RowDecision::ResolveRoot(String::from("s"))
    );
    assert_eq!(
        root_walk_step("g", "g", true, Ok(Some(String::from("c")))),
        RootWalk::Next(String::from("c"))
    );
    assert_eq!(
        root_walk_step("g", "root", false, Ok(None)),
        RootWalk::Resolved(String::from("root"))
    );
    assert_eq!(
        root_walk_step("g", "g", true, Err(SqliteErrorKind::QueryReturnedNoRows)),
        RootWalk::Resolved(String::from("g"))
    );
    assert_eq!(
        root_walk_step("g", "c", false, Err(SqliteErrorKind::QueryReturnedNoRows)),
        RootWalk::Broken(String::from("c"))
    );
    assert_eq!(
        root_walk_step("g", "c", false, Err(missing_table())),
        RootWalk::Resolved(String::from("g"))
    );
    assert_eq!(
        root_walk_step("g", "c", false, Err(busy())),
        RootWalk::Failed(busy())
    );
}

fn entry(id: i64, name: &str, directory: &str, session_id: Option<&str>, status: SessionStatus) -> SessionListEntry {
    SessionListEntry {
        saved_session: saved(id, name, directory, session_id),
        status,
        runtime: None,
    }
}

#[test]
fn session_list_as_json() {
    assert_eq!(render_json(&Vec::new()), "[]\n");
    let rows = rows_from_entries(vec![
        entry(1, "alpha", "/tmp/alpha", None, SessionStatus::Saved),
        entry(12, "be\"ta", "/tmp/b", Some("ses_beta"), SessionStatus::RunningAttached),
    ]);
    let expected = [
        "[",
        "  {",
        "    \"directory\": \"/tmp/alpha\",",
        "    \"id\": 1,",
        "    \"name\": \"alpha\",",
        "    \"session_id\": null,",
        "    \"status\": \"saved\"",
        "  },",
        "  {",
        "    \"directory\": \"/tmp/b\",",
        "    \"id\": 12,",
        "    \"name\": \"be\\\"ta\",",
        "    \"session_id\": \"ses_beta\",",
        "    \"status\": \"attached\"",
        "  }",
        "]",
    ];
    assert_eq!(render_json(&rows), format!("{}\n", expected.join("\n")));
}

#[test]
fn session_list_table_is_aligned() {
    let rows = rows_from_entries(vec![
        entry(1, "alpha", "/tmp/alpha", None, SessionStatus::Saved),
        entry(12, "beta", "/tmp/b", Some("ses_beta"), SessionStatus::RunningAttached),
    ]);
    assert_eq!(
        rows[1],
        SessionListRow {
            name: String::from("beta"),
            status: String::from("attached"),
            directory: String::from("/tmp/b"),
            session_id: Some(String::from("ses_beta")),
            saved_id: 12,
        }
    );
    let line = |a: &str, b: &str, c: &str, d: &str, e: &str| {
        format!("{a:<13}  {b:<8}  {c:<10}  {d:<10}  {e:>2}")
    };
    let expected = format!(
        "{}\n{}\n{}\n{}\n",
        line("NAME", "STATUS", "DIRECTORY", "SESSION ID", "ID"),
        line("alpha", "saved", "/tmp/alpha", "(none)", "1"),
        line("beta", "attached", "/tmp/b", "ses_beta", "12"),
        "2 sessions: 1 attached, 0 detached, 1 saved"
    );
    assert_eq!(render_table(&rows), expected);
}

#[test]
fn empty_session_list_table() {
    let line = |a: &str, b: &str, c: &str, d: &str, e: &str| {
        format!("{a:<13}  {b:<6}  {c:<9}  {d:<10}  {e:>2}")
    };
    let expected = format!(
        "{}\n{}\n{}\n",
        line("NAME", "STATUS", "DIRECTORY", "SESSION ID", "ID"),
        line("(no sessions)", "-", "-", "-", "-"),
        "0 sessions: 0 attached, 0 detached, 0 saved"
    );
    assert_eq!(render_table(&Vec::new()), expected);
}
