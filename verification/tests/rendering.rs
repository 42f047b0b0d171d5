use oc::session::{SavedSession, SessionListEntry, SessionStatus};
use oc::tui::format::{clip_text_to_width, display_width, fit_runs, format_column_row};
use oc::tui::render::{
    dashboard_metrics, effective_horizontal_metrics, expansion_candidate_metrics,
    frozen_dashboard_metrics, horizontal_metrics, prompt, session_content_width, table_lines,
    unfiltered_horizontal_metrics, visible_table_lines, TableLineKind,
};
use oc::tui::state::DashboardState;
use oc::tui::theme::{choose_theme_seed, default_palette_seed, PaletteSeed, RgbColor, ThemeMode};
use oc::tui::types::{ActionState, DashboardAction, DashboardSnapshot, InputMode};

fn entry(id: i64, name: &str, status: SessionStatus, session_id: Option<&str>) -> SessionListEntry {
    SessionListEntry {
        saved_session: SavedSession {
            id,
            name: String::from(name),
            directory: format!("/tmp/{name}"),
            opencode_session_id: session_id.map(String::from),
            opencode_args: Vec::new(),
        },
        status,
        runtime: None,
    }
}

fn state() -> DashboardState {
    DashboardState::load(
        DashboardSnapshot::from_session_entries(vec![
            entry(1, "alpha", SessionStatus::Saved, None),
            entry(2, "beta", SessionStatus::RunningDetached, Some("ses_beta")),
            entry(3, "gamma", SessionStatus::RunningAttached, Some("ses_gamma")),
        ]),
        None,
        DashboardAction::Attach,
        InputMode::Filter,
        String::new(),
        None,
        None,
    )
}

#[test]
fn clipping_keeps_what_fits() {
    assert_eq!(clip_text_to_width("hello", 3), "hel");
    assert_eq!(clip_text_to_width("hello", 10), "hello");
    assert_eq!(clip_text_to_width("hello", 0), "");
    assert_eq!(clip_text_to_width("a\tb", 2), "a\tb");
    assert_eq!(clip_text_to_width("日本", 3), "日");
    assert_eq!(clip_text_to_width("日本", 1), "");
}

#[test]
fn runs_fill_the_width_in_order() {
    let runs = vec![String::from("filter> "), String::from("abc")];
    let (kept, texts, fill) = fit_runs(&runs, 20);
    assert_eq!(kept, vec![0, 1]);
    assert_eq!(texts, vec!["filter> ", "abc"]);
    assert_eq!(fill, 9);

    let (kept, texts, fill) = fit_runs(&runs, 10);
    assert_eq!(kept, vec![0, 1]);
    assert_eq!(texts, vec!["filter> ", "ab"]);
    assert_eq!(fill, 0);

    let runs = vec![String::new(), String::from("xy"), String::from("z")];
    let (kept, texts, fill) = fit_runs(&runs, 2);
    assert_eq!(kept, vec![1]);
    assert_eq!(texts, vec!["xy"]);
    assert_eq!(fill, 0);
}

#[test]
fn table_window_keeps_header_and_totals() {
    assert_eq!(visible_table_lines(5, 0, 10), vec![0, 1, 2, 3, 4]);
    assert_eq!(visible_table_lines(10, 0, 6), vec![0, 1, 2, 3, 8, 9]);
    assert_eq!(visible_table_lines(10, 5, 6), vec![0, 5, 6, 7, 8, 9]);
    assert_eq!(visible_table_lines(10, 2, 6), vec![0, 3, 4, 5, 8, 9]);
    assert_eq!(visible_table_lines(10, 4, 2), vec![0, 8, 9]);
}

#[test]
fn table_lines_list_header_rows_and_totals() {
    let state = state();
    let metrics = frozen_dashboard_metrics(&state.snapshot);
    let widths = metrics.horizontal.column_widths;
    let lines = table_lines(&state.view.groups, &state.view.totals, state.totals_scope_label(), &widths);
    assert_eq!(lines[0].kind, TableLineKind::Header);
    assert_eq!(
        lines[0].text,
        format_column_row("ID", "NAME", "STATUS", "MEMORY", "DIRECTORY", &widths)
    );
    let sessions: Vec<usize> = lines
        .iter()
        .filter_map(|line| match line.kind {
            TableLineKind::Session(position) => Some(position),
            _ => None,
        })
        .collect();
    assert_eq!(sessions, vec![0, 1, 2]);
    let n = lines.len();
    assert_eq!(lines[n - 2].kind, TableLineKind::Blank);
    assert_eq!(lines[n - 2].text, "");
    assert_eq!(lines[n - 1].kind, TableLineKind::Totals);
    assert!(lines[n - 1].text.starts_with('3'));
    assert!(lines[n - 1].text.contains("total sessions"));
}

#[test]
fn action_bar_follows_the_selected_row() {
    let state = state();
    let selected = state.selected_row().unwrap().clone();
    let states = state.action_states();
    assert_eq!(states.len(), 4);
    assert_eq!(states[0], ActionState { action: DashboardAction::Attach, enabled: true, selected: true });
    assert_eq!(states[2], ActionState { action: DashboardAction::Remove, enabled: true, selected: false });
    let running = selected.status != SessionStatus::Saved;
    assert_eq!(states[1].enabled, running);
    assert!(!states[1].selected);
}

#[test]
fn prompts_name_the_mode() {
    assert_eq!(prompt(InputMode::Filter), "filter> ");
    assert_eq!(prompt(InputMode::Command), "command> ");
}

#[test]
fn theme_seed_prefers_override_then_terminal() {
    let light = PaletteSeed {
        foreground: RgbColor { r: 0, g: 0, b: 0 },
        background: RgbColor { r: 255, g: 255, b: 255 },
        mode: ThemeMode::Light,
    };
    let dark = default_palette_seed(ThemeMode::Dark);
    assert_eq!(choose_theme_seed(None, None, None), (ThemeMode::Dark, dark));
    assert_eq!(choose_theme_seed(Some(ThemeMode::Dark), Some(light), None), (ThemeMode::Dark, light));
    assert_eq!(choose_theme_seed(None, None, Some(light)), (ThemeMode::Light, light));
    assert_eq!(
        choose_theme_seed(Some(ThemeMode::Light), None, None),
        (ThemeMode::Light, default_palette_seed(ThemeMode::Light))
    );
    assert_eq!(choose_theme_seed(None, Some(dark), Some(light)), (ThemeMode::Dark, dark));
}

fn filtered(text: &str) -> DashboardState {
    DashboardState::load(
        DashboardSnapshot::from_session_entries(vec![
            entry(1, "alpha", SessionStatus::Saved, None),
            entry(2, "beta", SessionStatus::RunningDetached, Some("ses_beta")),
            entry(3, "a-much-longer-session-name-than-the-others", SessionStatus::RunningAttached, Some("ses_gamma")),
        ]),
        None,
        DashboardAction::Attach,
        InputMode::Filter,
        String::from(text),
        None,
        None,
    )
}

#[test]
fn session_width_is_the_widest_table_line() {
    let state = filtered("");
    let widths = horizontal_metrics(&state).column_widths;
    let lines = table_lines(&state.view.groups, &state.view.totals, state.totals_scope_label(), &widths);
    let widest = lines.iter().map(|line| display_width(&line.text) as u16).max().unwrap();
    assert_eq!(session_content_width(&state, &widths), widest);
}

#[test]
fn metrics_follow_what_is_shown() {
    let all = filtered("");
    let narrowed = filtered("beta");
    assert_eq!(narrowed.view.sessions().len(), 1);
    let wide = horizontal_metrics(&all);
    let narrow = horizontal_metrics(&narrowed);
    assert!(narrow.column_widths.name < wide.column_widths.name);
    assert_eq!(wide.column_widths.name, "a-much-longer-session-name-than-the-others".len());
    assert_eq!(narrow.column_widths.name, "total sessions".len());
    assert!(narrow.content_width >= 40);
    assert_eq!(expansion_candidate_metrics(&narrowed), narrow);
    assert_eq!(dashboard_metrics(&narrowed).list_content_height, 4);
    assert_eq!(dashboard_metrics(&all).list_content_height, 6);
}

#[test]
fn drawn_metrics_never_shrink_below_all_rows() {
    let narrowed = filtered("beta");
    let frozen = unfiltered_horizontal_metrics(&narrowed.snapshot);
    let effective = effective_horizontal_metrics(&narrowed);
    assert_eq!(effective, frozen.expanded_with(horizontal_metrics(&narrowed)));
    assert_eq!(effective.column_widths.name, frozen.column_widths.name);
    assert!(effective.content_width >= frozen.content_width);
    assert_eq!(
        frozen_dashboard_metrics(&narrowed.snapshot).horizontal,
        unfiltered_horizontal_metrics(&narrowed.snapshot)
    );
}

#[test]
fn filtering_locks_the_layout_until_cleared() {
    let mut state = filtered("");
    assert_eq!(state.layout_lock, None);
    let wide = effective_horizontal_metrics(&state);
    let long_name = "a-much-longer-session-name-than-the-others".len();
    assert_eq!(wide.column_widths.name, long_name);

    for c in "beta".chars() {
        state.insert_char(c);
    }
    assert_eq!(state.view.sessions().len(), 1);
    let locked = effective_horizontal_metrics(&state);
    assert_eq!(state.layout_lock, Some(locked));
    assert_eq!(locked.column_widths.name, long_name);
    assert!(locked.content_width >= wide.content_width);

    // The long session goes away in the background: the lock keeps its width.
    state.refresh(DashboardSnapshot::from_session_entries(vec![
        entry(1, "alpha", SessionStatus::Saved, None),
        entry(2, "beta", SessionStatus::RunningDetached, Some("ses_beta")),
    ]));
    assert_eq!(effective_horizontal_metrics(&state), locked);

    // Clearing the filter drops the lock and measures afresh.
    state.clear_input();
    assert_eq!(state.layout_lock, None);
    let fresh = effective_horizontal_metrics(&state);
    assert_eq!(fresh.column_widths.name, "total sessions".len());
}
