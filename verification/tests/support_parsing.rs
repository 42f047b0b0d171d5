use oc::config::{ConfigError, RuntimeConfig};
use oc::directory_identity::{
    directories_match, expand_home_directory, is_home_directory, normalize_directory_for_match,
    normalize_directory_for_storage, DirectoryError,
};
use oc::session::{ManagedSessionRuntime, NewSessionAlias, SavedSession, SessionError, SessionRef};
use oc::tmux::{
    attach_session_args, command_failure_message, display_pane_args, environment_assignment,
    exact_pane_target, exact_session_target, has_session_args, is_tmux_missing_session_error,
    is_tmux_server_unavailable_error, kill_session_args, list_sessions_args, new_session_args,
    parse_managed_session_line, parse_managed_sessions, parse_memory_status, parse_pane_pid,
    parse_process_parent_pid, process_tree_pids, send_keys_args, tree_memory_total, vmrss_kib,
    Tmux, TmuxError,
};

fn strings(items: &[&str]) -> Vec<String> {
    items.iter().map(|s| String::from(*s)).collect()
}

#[test]
fn config_defaults_live_under_home() {
    let config =
        RuntimeConfig::from_environment(Some(String::from("/home/u")), None, None, None, None)
            .unwrap();
    assert_eq!(config.legacy_aliases_path(), "/home/u/.config/oc/aliases");
    assert_eq!(config.session_db_path(), "/home/u/.config/oc/oc.db");
    assert_eq!(config.tmux_prefix(), "oc-");
    assert_eq!(
        config.opencode_db_path(),
        "/home/u/.local/share/opencode/opencode.db"
    );
}

#[test]
fn config_variables_override_defaults() {
    let config = RuntimeConfig::from_environment(
        Some(String::from("/home/u/")),
        Some(String::from("/tmp/aliases")),
        Some(String::from("/tmp/oc.db")),
        Some(String::from("test-")),
        None,
    )
    .unwrap();
    assert_eq!(config.legacy_aliases_path(), "/tmp/aliases");
    assert_eq!(config.session_db_path(), "/tmp/oc.db");
    assert_eq!(config.tmux_prefix(), "test-");
    assert_eq!(
        config.opencode_db_path(),
        "/home/u/.local/share/opencode/opencode.db"
    );
    assert_eq!(
        config.debug_dump_lines(),
        strings(&[
            "legacy_aliases_file=/tmp/aliases",
            "aliases_file=/tmp/oc.db",
            "tmux_prefix=test-",
            "opencode_db=/home/u/.local/share/opencode/opencode.db",
        ])
    );
}

#[test]
fn config_requires_home() {
    let error = RuntimeConfig::from_environment(
        None,
        Some(String::from("/a")),
        Some(String::from("/b")),
        Some(String::from("p-")),
        Some(String::from("/c")),
    )
    .unwrap_err();
    assert_eq!(error, ConfigError::HomeNotSet);
    assert_eq!(
        error.message(),
        "HOME must be set so oc can resolve default paths"
    );
}

#[test]
fn home_directory_expansion() {
    assert_eq!(expand_home_directory("~", Some("/home/u")), "/home/u");
    assert_eq!(expand_home_directory("~/work", Some("/home/u")), "/home/u/work");
    assert_eq!(expand_home_directory("~/work", None), "~/work");
    assert_eq!(expand_home_directory("~user", Some("/home/u")), "~user");
    assert_eq!(expand_home_directory("/abs", Some("/home/u")), "/abs");
}

#[test]
fn storage_directories_are_absolute() {
    assert_eq!(
        normalize_directory_for_storage("rel/dir", None, Some("/cwd")),
        Ok(String::from("/cwd/rel/dir"))
    );
    assert_eq!(
        normalize_directory_for_storage("~/p", Some("/home/u"), None),
        Ok(String::from("/home/u/p"))
    );
    let error = normalize_directory_for_storage("rel", None, None).unwrap_err();
    assert_eq!(error, DirectoryError::CurrentDirectoryUnavailable);
    assert_eq!(error.message(), "failed to determine current working directory");
    assert_eq!(normalize_directory_for_match("rel", None, None), "rel");
}

#[test]
fn directories_compare_as_paths() {
    assert!(directories_match("/a/b/", "/a/b", None, None));
    assert!(directories_match("b", "/a/b", None, Some("/a")));
    assert!(!directories_match("/a/b", "/a/c", None, None));
    assert!(is_home_directory("~", Some("/home/u"), None));
    assert!(!is_home_directory("/home/u", None, None));
}

#[test]
fn directory_matching_is_symmetric_and_reflexive() {
    let pairs = [
        ("/a/b/", "/a/b"),
        ("b", "/a/b"),
        ("~/p", "/home/u/p"),
        ("/a/b", "/a/c"),
        ("~", "/home/u"),
    ];
    for (left, right) in pairs {
        assert_eq!(
            directories_match(left, right, Some("/home/u"), Some("/a")),
            directories_match(right, left, Some("/home/u"), Some("/a"))
        );
        assert!(directories_match(left, left, Some("/home/u"), Some("/a")));
    }
    assert!(directories_match("~/p", "/home/u/p", Some("/home/u"), None));
    assert!(directories_match("/home/u", "~", Some("/home/u"), None));
}

#[test]
fn session_references_and_names() {
    assert_eq!(SessionRef::parse("12").unwrap(), SessionRef::NumericId(12));
    assert_eq!(
        SessionRef::parse("dc").unwrap(),
        SessionRef::Name(String::from("dc"))
    );
    let error = SessionRef::parse("0").unwrap_err();
    assert_eq!(error.message(), "Session ID '0' must be a positive integer");
    let error = NewSessionAlias::new(String::from("42"), String::from("/tmp"), Vec::new())
        .unwrap_err();
    assert_eq!(error, SessionError::NumericName(String::from("42")));
    let saved = SavedSession {
        id: 3,
        name: String::from("dc"),
        directory: String::from("/tmp/dc"),
        opencode_session_id: None,
        opencode_args: Vec::new(),
    };
    assert_eq!(saved.managed_tmux_session_name("oc-"), "oc-dc");
}

#[test]
fn tmux_names_and_targets() {
    let tmux = Tmux::new(String::from("oc-"));
    assert_eq!(tmux.managed_session_name("dc"), "oc-dc");
    assert_eq!(tmux.managed_session_prefix(), "oc-");
    assert_eq!(exact_session_target("oc-dc"), "=oc-dc");
    assert_eq!(exact_pane_target("oc-dc"), "=oc-dc:");
}

#[test]
fn tmux_argument_lists() {
    assert_eq!(
        new_session_args(
            "oc-dc",
            "/tmp/dc",
            &strings(&["A=1"]),
            &strings(&["--session", "ses_1"])
        ),
        strings(&[
            "new-session",
            "-d",
            "-s",
            "oc-dc",
            "-c",
            "/tmp/dc",
            "env",
            "A=1",
            "opencode",
            "--session",
            "ses_1"
        ])
    );
    assert_eq!(environment_assignment("HOME", "/h"), "HOME=/h");
    assert_eq!(
        attach_session_args("oc-dc"),
        strings(&["attach-session", "-t", "=oc-dc"])
    );
    assert_eq!(
        has_session_args("oc-dc"),
        strings(&["has-session", "-t", "=oc-dc"])
    );
    assert_eq!(
        kill_session_args("oc-dc"),
        strings(&["kill-session", "-t", "=oc-dc"])
    );
    assert_eq!(
        send_keys_args("oc-dc", &strings(&["C-c"])),
        strings(&["send-keys", "-t", "=oc-dc:", "C-c"])
    );
    assert_eq!(
        display_pane_args("oc-dc", "#{pane_pid}"),
        strings(&["display-message", "-p", "-t", "=oc-dc:", "#{pane_pid}"])
    );
    assert_eq!(
        list_sessions_args(),
        strings(&[
            "list-sessions",
            "-F",
            "#{session_name}\t#{session_attached}"
        ])
    );
    assert_eq!(
        command_failure_message("kill tmux session 'x'", "out", "err"),
        "failed to kill tmux session 'x'\nstdout:\nout\nstderr:\nerr"
    );
}

#[test]
fn managed_session_lines() {
    assert_eq!(
        parse_managed_session_line("oc-dc\t1", "oc-"),
        Some(ManagedSessionRuntime {
            tmux_session_name: String::from("oc-dc"),
            attached_count: 1,
            pane_pid: None,
            memory_bytes: None,
            tree_memory_bytes: None,
        })
    );
    assert_eq!(parse_managed_session_line("other\t1", "oc-"), None);
    assert_eq!(parse_managed_session_line("oc-dc", "oc-"), None);
    assert_eq!(parse_managed_session_line("oc-dc\tx", "oc-"), None);
    let listed = parse_managed_sessions("oc-a\t0\nfoo\t1\noc-b\t2\n", "oc-");
    assert_eq!(listed.len(), 2);
    assert_eq!(listed[0].tmux_session_name, "oc-a");
    assert_eq!(listed[0].attached_count, 0);
    assert_eq!(listed[1].tmux_session_name, "oc-b");
    assert_eq!(listed[1].attached_count, 2);
    let tmux = Tmux::new(String::from("oc-"));
    assert_eq!(tmux.managed_sessions_from_listing("oc-a\t3\n").len(), 1);
}

#[test]
fn pane_pid_and_memory_parsing() {
    assert_eq!(parse_pane_pid(" 1234\n"), Some(1234));
    assert_eq!(parse_pane_pid("x"), None);
    let status = "Name:\topencode\nVmPeak:\t 9 kB\nVmRSS:\t  2048 kB\nVmRSS:\t 1 kB\n";
    assert_eq!(vmrss_kib(status), Some(2048));
    assert_eq!(parse_memory_status(status), Some(2048 * 1024));
    assert_eq!(parse_memory_status("Name:\tx\n"), None);
    assert_eq!(parse_memory_status("VmRSS:\n"), None);
}

#[test]
fn process_parent_pid_follows_the_last_parenthesis() {
    assert_eq!(
        parse_process_parent_pid("123 (my (weird) proc) S 45 46 47"),
        Some(45)
    );
    assert_eq!(parse_process_parent_pid("123 (proc) S"), None);
    assert_eq!(parse_process_parent_pid("no parenthesis"), None);
}

#[test]
fn process_tree_collects_descendants_once() {
    let edges = vec![(2, 1), (3, 2), (4, 9), (5, 3), (3, 1), (1, 7)];
    let mut pids = process_tree_pids(1, &edges);
    pids.sort();
    assert_eq!(pids, vec![2, 3, 5]);
    assert_eq!(process_tree_pids(8, &edges), Vec::<u32>::new());
    assert_eq!(tree_memory_total(10, &vec![1, 2]), 13);
}

#[test]
fn tmux_error_texts() {
    assert!(is_tmux_server_unavailable_error("no server running on /tmp/tmux-0/default"));
    assert!(is_tmux_server_unavailable_error(
        "error connecting to /tmp/x (No such file or directory)"
    ));
    assert!(is_tmux_server_unavailable_error("server exited unexpectedly"));
    assert!(!is_tmux_server_unavailable_error("error connecting to /tmp/x"));
    assert!(is_tmux_missing_session_error("can't find session: oc-dc"));
    assert!(!is_tmux_missing_session_error("duplicate session"));
    assert_eq!(
        TmuxError::NotRunning(String::from("dc")).message(),
        "Session 'dc' is not running in tmux"
    );
    assert_eq!(
        TmuxError::NestedAttach.message(),
        "tmux attach requires running oc from outside tmux"
    );
}
