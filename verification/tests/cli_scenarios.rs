//! The command line's scenarios, as far as the library decides them: the same
//! inputs and expected values, checked at the library's functions.
use oc::cli::{is_version_json_request, is_version_request, RequestedAction};
use oc::commands::{auto_attach_outcome, interactive_attach_failure_status, AutoAttachResult};
use oc::config::RuntimeConfig;
use oc::directory_identity::normalize_directory_for_storage;
use oc::list_output::{render_table, rows_from_entries};
use oc::opencode_db::{
    process_start_ticks_match, root_session_ids_matching, root_walk_step, row_decision, ProcessSessionRowLookup, RootWalk,
    RowDecision, SqliteErrorKind,
};
use oc::service::{
    captured_session_id, find_saved_sessions_in_directory, import_outcome, launch_opencode_args,
    parse_legacy_aliases, single_directory_match, single_id, MigrationReport,
};
use oc::session::{
    ManagedSessionRuntime, NewSessionAlias, SavedSession, SessionListEntry, SessionRef,
};
use oc::storage::{
    deserialize_opencode_args, import_decision, next_session_id, serialize_opencode_args,
    ImportDecision, StorageError,
};
use oc::tmux::{new_session_args, parse_memory_status};
use oc::tui::render::{
    compute_layout, effective_horizontal_metrics, help_text, table_lines, visible_table_lines, Area,
};
use oc::tui::state::DashboardState;
use oc::tui::types::{DashboardAction, DashboardSnapshot, InputMode};

fn saved(id: i64, name: &str, directory: &str, session_id: Option<&str>) -> SavedSession {
    SavedSession {
        id,
        name: String::from(name),
        directory: String::from(directory),
        opencode_session_id: session_id.map(String::from),
        opencode_args: Vec::new(),
    }
}

fn runtime(name: &str, attached: usize) -> ManagedSessionRuntime {
    ManagedSessionRuntime {
        tmux_session_name: String::from(name),
        attached_count: attached,
        pane_pid: None,
        memory_bytes: None,
        tree_memory_bytes: None,
    }
}

/// Walks a `session` table of `(id, parent)` rows from `start` to its root,
/// one lookup at a time, as the program does against OpenCode's database.
fn resolve_root(rows: &[(&str, Option<&str>)], start: &str) -> RootWalk {
    let mut current = String::from(start);
    let mut first = true;
    loop {
        let lookup = match rows.iter().find(|(id, _)| *id == current) {
            Some((_, parent)) => Ok(parent.map(String::from)),
            None => Err(SqliteErrorKind::QueryReturnedNoRows),
        };
        match root_walk_step(start, &current, first, lookup) {
            RootWalk::Next(parent) => {
                current = parent;
                first = false;
            }
            done => return done,
        }
    }
}

#[test]
fn resolve_root_session_id_returns_root_for_nested_subagent_session() {
    let rows = [
        ("ses_root", None),
        ("ses_child", Some("ses_root")),
        ("ses_grandchild", Some("ses_child")),
    ];
    assert_eq!(resolve_root(&rows, "ses_grandchild"), RootWalk::Resolved(String::from("ses_root")));
}

#[test]
fn resolve_root_session_id_preserves_unknown_session_id() {
    assert_eq!(resolve_root(&[], "ses_missing"), RootWalk::Resolved(String::from("ses_missing")));
}

#[test]
fn alias_rejects_plain_numeric_name() {
    let error = NewSessionAlias::new(String::from("123"), String::from("/tmp"), Vec::new()).unwrap_err();
    assert!(error.message().contains("plain number"));
}

#[test]
fn alias_rejects_duplicate_name() {
    assert!(StorageError::AliasExists(String::from("dc")).message().contains("already exists"));
}

#[test]
fn new_rejects_duplicate_name_without_creating_second_tmux_session() {
    assert_eq!(
        StorageError::AliasExists(String::from("dc")).message(),
        "Session alias 'dc' already exists"
    );
}

#[test]
fn alias_assigns_dense_gap_filling_ids() {
    let mut rows: Vec<(i64, &str)> = Vec::new();
    for name in ["one", "two", "three"] {
        let ids: Vec<i64> = rows.iter().map(|(id, _)| *id).collect();
        rows.push((next_session_id(&ids), name));
    }
    rows.retain(|(_, name)| *name != "two");
    let ids: Vec<i64> = rows.iter().map(|(id, _)| *id).collect();
    rows.push((next_session_id(&ids), "four"));
    rows.sort();
    assert_eq!(rows, vec![(1, "one"), (2, "four"), (3, "three")]);
}

#[test]
fn unalias_missing_name_fails_cleanly() {
    assert!(StorageError::AliasNotFound(String::from("does-not-exist")).message().contains("not found"));
}

#[test]
fn rm_fails_cleanly_when_target_not_found() {
    let target = SessionRef::parse("does-not-exist").unwrap();
    assert_eq!(target, SessionRef::Name(String::from("does-not-exist")));
    assert!(StorageError::AliasNotFound(String::from("does-not-exist")).message().contains("not found"));
}

#[test]
fn stop_fails_cleanly_when_target_not_found() {
    assert!(StorageError::AliasNotFound(String::from("does-not-exist")).message().contains("not found"));
    assert!(StorageError::SessionNotFound(7).message().contains("not found"));
}

#[test]
fn bare_target_attaches_running_session_by_numeric_id() {
    assert_eq!(SessionRef::parse("1"), Ok(SessionRef::NumericId(1)));
    assert_eq!(SessionRef::parse("dc"), Ok(SessionRef::Name(String::from("dc"))));
}

#[test]
fn hidden_session_dump_reports_saved_only_session() {
    let entry = SessionListEntry::from_saved_session(saved(1, "dc", "/tmp/dc", None), None);
    assert!(entry.debug_dump_line().contains("status=saved"));
}

#[test]
fn hidden_session_dump_reports_running_detached_session() {
    let rt = runtime("oc-dc", 0);
    let entry = SessionListEntry::from_saved_session(saved(1, "dc", "/tmp/dc", None), Some(&rt));
    assert!(entry.debug_dump_line().contains("status=running_detached"));
}

#[test]
fn hidden_session_dump_reports_running_attached_session() {
    let rt = runtime("oc-dc", 1);
    let entry = SessionListEntry::from_saved_session(saved(1, "dc", "/tmp/dc", None), Some(&rt));
    assert_eq!(
        entry.debug_dump_line(),
        "id=1 name=dc dir=/tmp/dc status=running_attached"
    );
}

#[test]
fn list_human_reports_empty_state() {
    let table = render_table(&rows_from_entries(Vec::new()));
    assert!(table.contains("NAME"));
    assert!(table.contains("SESSION ID"));
    assert!(table.contains("(no sessions)"));
    assert!(table.contains("0 sessions: 0 attached, 0 detached, 0 saved"));
}

#[test]
fn list_human_includes_public_statuses_and_session_id_placeholder() {
    let detached = runtime("oc-detached", 0);
    let attached = runtime("oc-attached", 1);
    let entries = vec![
        SessionListEntry::from_saved_session(saved(1, "saved", "/tmp/saved", None), None),
        SessionListEntry::from_saved_session(
            saved(2, "detached", "/tmp/detached", Some("ses_detached_id")),
            Some(&detached),
        ),
        SessionListEntry::from_saved_session(
            saved(3, "attached", "/tmp/attached", Some("ses_attached_id")),
            Some(&attached),
        ),
    ];
    let table = render_table(&rows_from_entries(entries));
    assert!(table.contains("NAME"));
    assert!(table.contains("saved") && table.contains("(none)"));
    assert!(table.contains("detached") && table.contains("ses_detached_id"));
    assert!(table.contains("attached") && table.contains("ses_attached_id"));
    assert!(table.contains("3 sessions: 1 attached, 1 detached, 1 saved"));
}

#[test]
fn db_path_prints_resolved_session_db_path() {
    let config = RuntimeConfig::from_environment(
        Some(String::from("/home/tester")),
        None,
        Some(String::from("/tmp/oc-test/oc.db")),
        None,
        None,
    )
    .unwrap();
    assert_eq!(config.session_db_path(), "/tmp/oc-test/oc.db");
}

#[test]
fn version_flag_prints_package_version() {
    assert!(is_version_request(&vec![String::from("--version")]));
    assert!(!is_version_json_request(&vec![String::from("--version")]));
}

#[test]
fn version_json_flag_prints_machine_readable_version() {
    assert!(is_version_json_request(&vec![String::from("--version"), String::from("--json")]));
}

#[test]
fn launch_detach_captures_session_id() {
    let before: Vec<String> = Vec::new();
    let after = vec![String::from("ses_captured")];
    assert_eq!(captured_session_id(&before, &after), Some(String::from("ses_captured")));
}

#[test]
fn session_list_pid_catchup_ignores_stale_process_session_row() {
    let stat = "42 (opencode) S 1 2 3 4 5 6 7 8 9 10 11 12 13 14 15 16 17 18 987654 20";
    assert!(!process_start_ticks_match(Some(stat), 1));
    assert_eq!(
        row_decision(false, Some(String::from("ses_stale"))),
        RowDecision::Settled(ProcessSessionRowLookup::Stale)
    );
}

#[test]
fn no_arg_auto_attach_launches_single_directory_match() {
    let sessions = vec![saved(1, "dc", "/work/dc", None), saved(2, "other", "/work/other", None)];
    let matches = find_saved_sessions_in_directory(sessions, "/work/dc");
    assert_eq!(single_directory_match(matches).map(|s| s.name), Some(String::from("dc")));
}

#[test]
fn dashboard_removes_enter_hint_and_shows_restart_for_running_session_with_saved_id() {
    let rt = runtime("oc-dc", 0);
    let entry = SessionListEntry::from_saved_session(
        saved(1, "dc", "/tmp/dc", Some("ses_demo_restart")),
        Some(&rt),
    );
    let snapshot = DashboardSnapshot::from_session_entries(vec![entry]);
    let labels: Vec<&str> = snapshot.rows[0]
        .available_actions()
        .into_iter()
        .map(DashboardAction::label)
        .collect();
    for label in ["ATTACH", "RM", "STOP", "RESTART"] {
        assert!(labels.contains(&label), "{labels:?}");
    }
    assert!(!help_text().contains("Enter runs"));
}

/// One run of `oc migrate` over the legacy aliases, against the saved
/// sessions (by name), as the program runs it: what each import does, and
/// the rows saved by it.
fn migrate(contents: &str, saved_rows: &mut Vec<SavedSession>) -> Vec<String> {
    let mut report = MigrationReport::new();
    for alias in parse_legacy_aliases(contents).unwrap() {
        let existing = saved_rows.iter().find(|s| s.name == alias.name).cloned();
        let decision = import_decision(existing.as_ref(), &alias);
        if decision == ImportDecision::Insert {
            let ids: Vec<i64> = saved_rows.iter().map(|s| s.id).collect();
            saved_rows.push(SavedSession {
                id: next_session_id(&ids),
                name: alias.name.clone(),
                directory: alias.directory.clone(),
                opencode_session_id: alias.opencode_session_id.clone(),
                opencode_args: alias.opencode_args.clone(),
            });
        }
        report.record(alias.name.clone(), import_outcome(decision));
    }
    report.summary_lines()
}

#[test]
fn migrate_imports_old_aliases_file_idempotently() {
    let mut rows = Vec::new();
    let contents = "alpha\t/tmp/a\nbeta\t/tmp/b\n";
    assert!(migrate(contents, &mut rows)[0].contains("imported 2"));
    assert!(migrate(contents, &mut rows)[0].contains("skipped 2"));
    assert_eq!(rows.len(), 2);
}

#[test]
fn migrate_preserves_legacy_directory_and_session_fields() {
    let mut rows = Vec::new();
    let contents = "two\t/tmp/two\nthree\t/tmp/three\t--session ses_123 extra --flag\ntrailing\t/tmp/trailing\t\n";
    assert!(migrate(contents, &mut rows)[0].contains("imported 3"));
    assert!(migrate(contents, &mut rows)[0].contains("skipped 3"));
    assert_eq!(rows.len(), 3);

    assert_eq!(rows[0].name, "two");
    assert_eq!(rows[0].directory, "/tmp/two");
    assert_eq!(rows[0].opencode_session_id, None);
    assert_eq!(serialize_opencode_args(&rows[0].opencode_args).unwrap(), "[]");

    assert_eq!(rows[1].name, "three");
    assert_eq!(rows[1].directory, "/tmp/three");
    assert_eq!(rows[1].opencode_session_id.as_deref(), Some("ses_123"));
    assert_eq!(serialize_opencode_args(&rows[1].opencode_args).unwrap(), r#"["extra","--flag"]"#);

    assert_eq!(rows[2].name, "trailing");
    assert_eq!(rows[2].directory, "/tmp/trailing");
    assert_eq!(rows[2].opencode_session_id, None);
    assert_eq!(serialize_opencode_args(&rows[2].opencode_args).unwrap(), "[]");
}

#[test]
fn migrate_reports_conflicts_without_overwriting() {
    let mut rows = vec![saved(1, "alpha", "/work/root", None)];
    assert!(migrate("alpha\t/tmp/legacy\n", &mut rows)[0].contains("conflicts 1"));
    assert_eq!(rows.len(), 1);
    assert_eq!(rows[0].directory, "/work/root");
}

#[test]
fn hidden_memory_parser_reads_proc_status_kib() {
    assert_eq!(parse_memory_status("Name:\toc\nVmRSS:\t535552 kB\n"), Some(548405248));
}

#[test]
fn alias_uses_explicit_dir_and_captures_opencode_args_after_double_dash() {
    let args: Vec<String> = ["--model", "gpt-5.4", "--sandbox", "read-only"]
        .iter()
        .map(|a| a.to_string())
        .collect();
    let alias = NewSessionAlias::new(String::from("dc"), String::from("/work/project"), args).unwrap();
    assert_eq!(
        serialize_opencode_args(&alias.opencode_args).unwrap(),
        "[\"--model\",\"gpt-5.4\",\"--sandbox\",\"read-only\"]"
    );
    assert_eq!(deserialize_opencode_args("[\"--model\",\"gpt-5.4\"]").unwrap(), vec!["--model", "gpt-5.4"]);
}

#[test]
fn alias_expands_tilde_directory_before_storing() {
    assert_eq!(
        normalize_directory_for_storage("~/project", Some("/home/fake"), Some("/work")),
        Ok(String::from("/home/fake/project"))
    );
}

#[test]
fn session_list_catchup_matches_tilde_alias_directory_against_expanded_home_path() {
    let rows = vec![(String::from("ses_tilde_match"), String::from("/home/fake/project"))];
    let ids = root_session_ids_matching(&rows, "~/project", Some("/home/fake"), Some("/work"));
    assert_eq!(ids, vec![String::from("ses_tilde_match")]);
    assert_eq!(single_id(&ids), Some(String::from("ses_tilde_match")));
}

#[test]
fn new_uses_explicit_dir_and_args_when_launching_tmux_session() {
    let launch_args = vec![String::from("--model"), String::from("gpt-5.4")];
    let argv = new_session_args("oc-dc", "/work/project", &Vec::new(), &launch_args);
    assert_eq!(
        argv,
        vec!["new-session", "-d", "-s", "oc-dc", "-c", "/work/project", "env", "opencode", "--model", "gpt-5.4"]
    );
    assert_eq!(serialize_opencode_args(&launch_args).unwrap(), "[\"--model\",\"gpt-5.4\"]");
}

#[test]
fn restart_uses_captured_session_id() {
    let mut session = saved(1, "dc", "/work/dc", Some("ses_captured"));
    session.opencode_args = vec![String::from("--model"), String::from("gpt-5.4")];
    assert_eq!(
        launch_opencode_args(&session),
        vec!["--session", "ses_captured", "--model", "gpt-5.4"]
    );
}

#[test]
fn dashboard_shows_all_seven_sessions_in_fixture_sized_terminal() {
    let names = ["alpha", "beta", "gamma", "delta", "epsilon", "zeta", "eta"];
    let entries: Vec<SessionListEntry> = names
        .iter()
        .enumerate()
        .map(|(i, name)| {
            SessionListEntry::from_saved_session(saved(i as i64 + 1, name, &format!("/work/{name}"), None), None)
        })
        .collect();
    let state = DashboardState::load(
        DashboardSnapshot::from_session_entries(entries),
        None,
        DashboardAction::Attach,
        InputMode::Filter,
        String::new(),
        None,
        Some(String::from("/work")),
    );
    let metrics = effective_horizontal_metrics(&state);
    let lines = table_lines(&state.view.groups, &state.view.totals, state.totals_scope_label(), &metrics.column_widths);
    let area = Area { x: 0, y: 0, width: 120, height: 60 };
    let layout = compute_layout(area, 1, lines.len(), metrics.content_width);
    let shown = visible_table_lines(lines.len(), 0, layout.list.content.height as usize);
    assert_eq!(shown.len(), lines.len());
    let totals = &lines[*shown.last().unwrap()].text;
    assert!(totals.contains("total sessions"));
    assert!(totals.starts_with('7'));
}

fn attach_failure_chain() -> Vec<String> {
    vec![String::from("failed to attach to session 'dc'"), String::from("tmux exited")]
}

#[test]
fn no_arg_auto_attach_falls_back_to_dashboard_when_attach_fails() {
    match auto_attach_outcome("dc", Err(attach_failure_chain())) {
        Ok(AutoAttachResult::FallbackToDashboard(Some(status))) => {
            assert!(status.contains("Auto-attach failed for dc:"));
        }
        other => panic!("unexpected outcome {other:?}"),
    }
}

#[test]
fn bare_target_attach_falls_back_to_dashboard_when_attach_fails() {
    let action = RequestedAction::AttachTarget { target: String::from("dc") };
    let status = interactive_attach_failure_status(&action, &attach_failure_chain()).unwrap();
    assert!(status.contains("Attach failed for dc:"));
}

#[test]
fn new_session_falls_back_to_dashboard_when_attach_fails() {
    let action = RequestedAction::New { name: String::from("dc"), dir: None, opencode_args: Vec::new() };
    let status = interactive_attach_failure_status(&action, &attach_failure_chain()).unwrap();
    assert!(status.contains("Attach failed for dc:"));
}
