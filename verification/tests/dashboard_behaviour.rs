use oc::cli::RequestedAction;
use oc::session::{ManagedSessionRuntime, SavedSession, SessionListEntry, SessionStatus};
use oc::session_list::merge_saved_and_runtime_sessions_with_prefix;
use oc::tui::format::ColumnWidths;
use oc::tui::input::{map_key_event, InputIntent, Key, Modifiers};
use oc::tui::render::{
    action_button_geometry, actions_content_width, centered_text, clamp_outer_width,
    compute_layout, cursor_offset, frozen_dashboard_metrics, frozen_list_content_height,
    help_text, inner_area, layout_from_parts, layout_sizes, panel_heights, selected_body_line_index, session_list_content_height,
    should_show_cursor, summary_text, summary_totals, Area, ButtonGeometry, DashboardMetrics,
    HorizontalMetrics,
};
use oc::tui::state::{DashboardState, EnterOutcome, KeyOutcome, RestartReport};
use oc::tui::types::{DashboardAction, DashboardGroup, DashboardSnapshot, InputMode};

fn saved(id: i64, name: &str, directory: &str, session_id: Option<&str>) -> SavedSession {
    SavedSession {
        id,
        name: String::from(name),
        directory: String::from(directory),
        opencode_session_id: session_id.map(String::from),
        opencode_args: Vec::new(),
    }
}

fn entry(id: i64, name: &str, status: SessionStatus, session_id: Option<&str>) -> SessionListEntry {
    SessionListEntry {
        saved_session: saved(id, name, &format!("/tmp/{name}"), session_id),
        status,
        runtime: None,
    }
}

fn runtime(name: &str, attached: usize) -> ManagedSessionRuntime {
    ManagedSessionRuntime {
        tmux_session_name: String::from(name),
        attached_count: attached,
        pane_pid: None,
        memory_bytes: None,
        tree_memory_bytes: None,
    }
}

fn snapshot() -> DashboardSnapshot {
    DashboardSnapshot::from_session_entries(vec![
        entry(1, "alpha", SessionStatus::Saved, None),
        entry(2, "beta", SessionStatus::RunningDetached, Some("ses_beta")),
        entry(3, "gamma", SessionStatus::RunningAttached, Some("ses_gamma")),
    ])
}

fn load(text: &str, mode: InputMode) -> DashboardState {
    DashboardState::load(
        snapshot(),
        None,
        DashboardAction::Attach,
        mode,
        String::from(text),
        None,
        None,
    )
}

#[test]
fn merged_list_orders_by_status_then_newest_id() {
    let entries = merge_saved_and_runtime_sessions_with_prefix(
        vec![
            saved(1, "a", "/a", None),
            saved(2, "b", "/b", None),
            saved(3, "c", "/c", None),
            saved(4, "d", "/d", None),
        ],
        vec![runtime("oc-b", 0), runtime("oc-c", 2), runtime("other-d", 1)],
        "oc-",
    );
    let order: Vec<(i64, SessionStatus)> = entries
        .iter()
        .map(|e| (e.saved_session.id, e.status))
        .collect();
    assert_eq!(
        order,
        vec![
            (3, SessionStatus::RunningAttached),
            (2, SessionStatus::RunningDetached),
            (4, SessionStatus::Saved),
            (1, SessionStatus::Saved),
        ]
    );
}

#[test]
fn keys_map_to_intents() {
    assert_eq!(
        map_key_event(Key::Char('c'), Modifiers::Control, false),
        InputIntent::ClearInput
    );
    assert_eq!(
        map_key_event(Key::Char('d'), Modifiers::Control, true),
        InputIntent::Quit
    );
    assert_eq!(
        map_key_event(Key::Char('x'), Modifiers::Control, false),
        InputIntent::Ignore
    );
    assert_eq!(
        map_key_event(Key::Char(' '), Modifiers::Empty, false),
        InputIntent::EnterCommandMode
    );
    assert_eq!(
        map_key_event(Key::Char(' '), Modifiers::Empty, true),
        InputIntent::InsertChar(' ')
    );
    assert_eq!(
        map_key_event(Key::Char('A'), Modifiers::Shift, false),
        InputIntent::InsertChar('A')
    );
    assert_eq!(
        map_key_event(Key::Char('a'), Modifiers::Other, false),
        InputIntent::Ignore
    );
    assert_eq!(map_key_event(Key::Esc, Modifiers::Empty, false), InputIntent::Quit);
    assert_eq!(map_key_event(Key::Up, Modifiers::Empty, false), InputIntent::MoveUp);
    assert_eq!(map_key_event(Key::Right, Modifiers::Shift, false), InputIntent::CycleRight);
    assert_eq!(map_key_event(Key::Enter, Modifiers::Empty, false), InputIntent::Submit);
    assert_eq!(map_key_event(Key::Other, Modifiers::Empty, false), InputIntent::Ignore);
}

#[test]
fn metrics_expand_to_fit_both() {
    let a = HorizontalMetrics {
        column_widths: ColumnWidths { id: 2, name: 9, status: 8, memory: 7 },
        content_width: 50,
    };
    let b = HorizontalMetrics {
        column_widths: ColumnWidths { id: 3, name: 4, status: 8, memory: 9 },
        content_width: 45,
    };
    let e = a.expanded_with(b);
    assert_eq!(e.column_widths, ColumnWidths { id: 3, name: 9, status: 8, memory: 9 });
    assert_eq!(e.content_width, 50);
    assert_eq!(b.expanded_with(a), e);
    assert_eq!(a.expanded_with(a), a);
    let da = DashboardMetrics { horizontal: a, list_content_height: 10 };
    let db = DashboardMetrics { horizontal: b, list_content_height: 12 };
    let de = da.expanded_with(db);
    assert_eq!(de.horizontal, e);
    assert_eq!(de.list_content_height, 12);
}

#[test]
fn list_heights() {
    assert_eq!(session_list_content_height(5), 8);
    assert_eq!(frozen_list_content_height(5), 12);
    assert_eq!(frozen_list_content_height(65530), u16::MAX);
}

#[test]
fn action_bar_geometry() {
    assert_eq!(action_button_geometry(4, 38), ButtonGeometry { width: 8, spacing: 2 });
    assert_eq!(action_button_geometry(4, 10), ButtonGeometry { width: 8, spacing: 2 });
    assert_eq!(action_button_geometry(4, 50), ButtonGeometry { width: 11, spacing: 2 });
    assert_eq!(action_button_geometry(0, 7), ButtonGeometry { width: 7, spacing: 2 });
    assert_eq!(actions_content_width(), 38);
    assert_eq!(centered_text("Stop", 8), "  Stop  ");
    assert_eq!(centered_text("Attach", 9), " Attach  ");
    assert_eq!(centered_text("Restart", 3), "Restart");
}

#[test]
fn summary_and_help_texts() {
    assert_eq!(summary_text(1, 2, 3), "Attached 1  Detached 2  Saved 3");
    assert!(help_text().starts_with("↑↓ select"));
    assert_eq!(cursor_offset(InputMode::Filter, "abc"), Some(11));
    assert_eq!(cursor_offset(InputMode::Command, ""), Some(9));
    assert!(should_show_cursor(InputMode::Command, ""));
    assert!(!should_show_cursor(InputMode::Filter, ""));
    assert!(should_show_cursor(InputMode::Filter, "x"));
}

#[test]
fn frozen_metrics_cover_all_rows() {
    let snap = snapshot();
    let totals = summary_totals(&snap);
    assert_eq!(totals.filtered_sessions, 3);
    assert_eq!(totals.filtered_running, 2);
    assert_eq!(totals.filtered_memory_bytes, 0);
    let metrics = frozen_dashboard_metrics(&snap);
    assert_eq!(metrics.list_content_height, 10);
    assert_eq!(
        metrics.horizontal.column_widths,
        ColumnWidths { id: 2, name: 14, status: 8, memory: 7 }
    );
    assert!(metrics.horizontal.content_width >= 40);
}

#[test]
fn body_line_of_selected_row_counts_titles() {
    let snap = snapshot();
    let groups = vec![
        DashboardGroup { title: Some(String::from("name")), sessions: vec![snap.rows[0].clone()] },
        DashboardGroup {
            title: Some(String::from("directory")),
            sessions: vec![snap.rows[1].clone(), snap.rows[2].clone()],
        },
    ];
    assert_eq!(selected_body_line_index(&groups, 0), 1);
    assert_eq!(selected_body_line_index(&groups, 1), 3);
    assert_eq!(selected_body_line_index(&groups, 2), 4);
    assert_eq!(selected_body_line_index(&groups, 7), 0);
}

#[test]
fn layout_sizes_fit_the_terminal() {
    let sizes = layout_sizes(100, 50, 1, 5, 60);
    assert_eq!(sizes.input_content_height, 1);
    assert_eq!(sizes.list_content_height, 5);
    assert_eq!(sizes.outer_height, 23);
    assert_eq!(sizes.outer_width, 66);
    let small = layout_sizes(30, 10, 3, 40, 60);
    assert_eq!(small.input_content_height, 2);
    assert_eq!(small.list_content_height, 3);
    assert_eq!(small.outer_height, 10);
    assert_eq!(small.outer_width, 28);
    assert_eq!(clamp_outer_width(10, 0), 0);
    assert_eq!(clamp_outer_width(10, 100), 40);
    assert_eq!(
        inner_area(Area { x: 1, y: 1, width: 10, height: 4 }, 2, 1),
        Area { x: 3, y: 2, width: 6, height: 2 }
    );
    assert_eq!(
        inner_area(Area { x: 1, y: 1, width: 3, height: 4 }, 2, 1),
        Area { x: 0, y: 0, width: 0, height: 0 }
    );
}

#[test]
fn layout_stacks_panels_in_the_container() {
    let area = Area { x: 0, y: 0, width: 100, height: 50 };
    let layout = compute_layout(area, 1, 5, 60);
    assert_eq!(layout.container.top_edge.height, 1);
    assert_eq!(layout.input.content.height, 1);
    assert_eq!(layout.summary.content.height, 1);
    assert_eq!(layout.list.content.height, 5);
    assert_eq!(layout.actions.content.height, 3);
    assert_eq!(layout.help.content.height, 1);
    assert!(layout.input.top_edge.y < layout.summary.top_edge.y);
    assert!(layout.list.top_edge.y < layout.actions.top_edge.y);
}

#[test]
fn layout_is_built_from_the_container_and_panel_rows() {
    let sizes = layout_sizes(100, 50, 1, 5, 60);
    assert_eq!(panel_heights(&sizes), vec![3, 3, 7, 5, 3]);
    let outer = Area { x: 10, y: 2, width: 70, height: 30 };
    let rows = vec![
        Area { x: 12, y: 3, width: 66, height: 3 },
        Area { x: 12, y: 6, width: 66, height: 3 },
        Area { x: 12, y: 9, width: 66, height: 7 },
        Area { x: 12, y: 16, width: 66, height: 5 },
        Area { x: 12, y: 21, width: 66, height: 3 },
    ];
    let layout = layout_from_parts(outer, &rows);
    assert_eq!(layout.container.content, Area { x: 12, y: 3, width: 66, height: 28 });
    assert_eq!(layout.container.top_edge, Area { x: 10, y: 2, width: 70, height: 1 });
    assert_eq!(layout.container.bottom_edge, Area { x: 10, y: 31, width: 70, height: 1 });
    assert_eq!(layout.list.content, Area { x: 13, y: 10, width: 64, height: 5 });
    assert_eq!(layout.help.content, Area { x: 13, y: 22, width: 64, height: 1 });

    let computed = compute_layout(Area { x: 0, y: 0, width: 100, height: 50 }, 1, 5, 60);
    for panel in [computed.input, computed.summary, computed.list, computed.actions, computed.help] {
        assert_eq!(panel.top_edge.x, computed.container.content.x);
        assert_eq!(panel.top_edge.width, computed.container.content.width);
    }
    // The container is the size the sizes call for, centred in the terminal.
    let outer = computed.container.top_edge;
    assert_eq!((outer.x, outer.width), (17, sizes.outer_width));
    assert_eq!(sizes.outer_width, 66);
    let outer_height = computed.container.bottom_edge.y + 1 - outer.y;
    assert_eq!(outer_height, sizes.outer_height);
    assert!((outer.y as i32 - (50 - outer.y as i32 - outer_height as i32)).abs() <= 1);
    // The panels lie end to end from the top of the container's content.
    assert_eq!(computed.input.top_edge.y, computed.container.content.y);
    let panels = [computed.input, computed.summary, computed.list, computed.actions, computed.help];
    for (panel, height) in panels.iter().zip(panel_heights(&sizes)) {
        assert_eq!(panel.bottom_edge.y + 1 - panel.top_edge.y, height);
    }
    for pair in panels.windows(2) {
        assert_eq!(pair[1].top_edge.y, pair[0].bottom_edge.y + 1);
    }
}

#[test]
fn refresh_keeps_the_selected_session_and_action() {
    let mut state = load("", InputMode::Filter);
    state.move_selection_down();
    let chosen = state.selected_row().map(|r| r.session_id);
    state.cycle_action(1);
    let action = state.selected_action;
    state.refresh(DashboardSnapshot::from_session_entries(vec![
        entry(4, "delta", SessionStatus::Saved, None),
        entry(1, "alpha", SessionStatus::Saved, None),
        entry(2, "beta", SessionStatus::RunningDetached, Some("ses_beta")),
        entry(3, "gamma", SessionStatus::RunningAttached, Some("ses_gamma")),
    ]));
    assert_eq!(state.selected_row().map(|r| r.session_id), chosen);
    assert_eq!(state.selected_action, action);
    state.refresh(DashboardSnapshot::from_session_entries(vec![entry(
        9,
        "omega",
        SessionStatus::Saved,
        None,
    )]));
    assert_eq!(state.selected_row().map(|r| r.session_id), Some(9));
    // A saved session cannot be stopped: the next action it supports is taken.
    assert_eq!(state.selected_action, DashboardAction::Remove);
}

#[test]
fn backspace_after_entering_command_mode_returns_to_the_filter() {
    let mut state = load("al", InputMode::Filter);
    state.enter_command_mode();
    assert_eq!(state.input_mode, InputMode::Command);
    assert_eq!(state.input_text, "al ");
    state.handle_backspace();
    assert_eq!(state.input_mode, InputMode::Filter);
    assert_eq!(state.input_text, "al");
}

#[test]
fn typing_filters_and_escape_clears_then_quits() {
    let mut state = load("", InputMode::Filter);
    assert_eq!(state.view.sessions().len(), 3);
    state.insert_char('b');
    state.insert_char('e');
    assert_eq!(state.input_text, "be");
    assert_eq!(state.view.sessions().len(), 1);
    assert_eq!(state.selected_row().map(|r| r.session_id), Some(2));
    assert!(matches!(state.handle_quit(), KeyOutcome::Continue));
    assert_eq!(state.input_text, "");
    assert_eq!(state.view.sessions().len(), 3);
    assert!(matches!(state.handle_quit(), KeyOutcome::Exit));
}

#[test]
fn selection_moves_and_actions_cycle() {
    let mut state = load("", InputMode::Filter);
    assert_eq!(state.selected_index, 0);
    state.move_selection_up();
    assert_eq!(state.selected_index, 0);
    state.move_selection_down();
    state.move_selection_down();
    state.move_selection_down();
    assert_eq!(state.selected_index, 2);
    let row = state.selected_row().unwrap().session_id;
    assert_eq!(state.selected_session().map(|s| s.0), Some(row));
    state.move_selection_up();
    assert_eq!(state.selected_row().map(|r| r.session_id), Some(2));
    state.cycle_action(1);
    assert_eq!(state.selected_action, DashboardAction::Stop);
    state.cycle_action(-2);
    assert_eq!(state.selected_action, DashboardAction::Restart);
}

#[test]
fn enter_runs_commands_and_actions() {
    let mut state = load("new dc", InputMode::Command);
    match state.execute_enter() {
        EnterOutcome::Interactive(RequestedAction::New { name, .. }) => assert_eq!(name, "dc"),
        other => panic!("unexpected {other:?}"),
    }
    assert_eq!(state.input_mode, InputMode::Filter);
    assert_eq!(state.input_text, "");

    let mut state = load("rm dc", InputMode::Command);
    match state.execute_enter() {
        EnterOutcome::Run(RequestedAction::Rm { target }) => assert_eq!(target, "dc"),
        other => panic!("unexpected {other:?}"),
    }

    let mut state = load("wat", InputMode::Command);
    assert!(matches!(state.execute_enter(), EnterOutcome::Nothing));
    assert_eq!(state.status_message.as_deref(), Some("Unknown command: wat"));

    let mut state = load("", InputMode::Filter);
    let name = state.selected_row().unwrap().name.clone();
    match state.execute_enter() {
        EnterOutcome::Interactive(RequestedAction::AttachTarget { target }) => {
            assert_eq!(target, name)
        }
        other => panic!("unexpected {other:?}"),
    }
}

#[test]
fn restarts_run_one_at_a_time() {
    let mut state = load("", InputMode::Filter);
    assert!(state.begin_restart(String::from("beta")));
    assert_eq!(state.status_message.as_deref(), Some("Restarting session beta..."));
    assert!(!state.begin_restart(String::from("gamma")));
    assert_eq!(state.status_message.as_deref(), Some("Restart already in progress"));
    state.finish_restart(RestartReport::Failed(vec![String::from("failed to restart"), String::from("boom")]));
    assert_eq!(
        state.status_message.as_deref(),
        Some("Restart failed for beta: failed to restart: boom")
    );
    assert!(state.pending_restart.is_none());
    assert!(state.begin_restart(String::from("gamma")));
    state.finish_restart(RestartReport::Succeeded);
    assert_eq!(state.status_message.as_deref(), Some("Restarted session gamma"));
    assert!(state.begin_restart(String::from("alpha")));
    state.finish_restart(RestartReport::Disconnected);
    assert_eq!(
        state.status_message.as_deref(),
        Some("Restart failed for alpha: worker disconnected")
    );
}

#[test]
fn typing_a_filter_selects_the_top_result_even_when_the_old_row_is_shown() {
    let snapshot = DashboardSnapshot::from_session_entries(vec![
        entry(1, "alpha", SessionStatus::Saved, None),
        entry(12, "beta", SessionStatus::Saved, None),
        entry(2, "1-match", SessionStatus::Saved, None),
    ]);
    let mut state = DashboardState::load(
        snapshot.clone(),
        None,
        DashboardAction::Attach,
        InputMode::Filter,
        String::new(),
        None,
        None,
    );
    state.move_selection_down();
    assert_eq!(state.selected_row().map(|r| r.session_id), Some(2));

    state.insert_char('1');
    assert_eq!(state.view.sessions().len(), 3);
    assert_eq!(state.selected_index, 0);
    assert_eq!(state.selected_row().map(|r| r.session_id), Some(1));
    match state.execute_enter() {
        EnterOutcome::Interactive(RequestedAction::AttachTarget { target }) => assert_eq!(target, "alpha"),
        other => panic!("unexpected {other:?}"),
    }

    // Arrows still override the top result, and a refresh keeps the choice.
    state.move_selection_down();
    assert_eq!(state.selected_index, 1);
    state.refresh(snapshot);
    assert_eq!(state.selected_index, 1);
}
