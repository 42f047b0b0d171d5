use oc::session::{
    NewSessionAlias, SavedSession, SessionError, SessionListEntry, SessionRef, SessionStatus,
};
use oc::text::{split_char, split_whitespace, trim};
use oc::tui::filter::build_view;
use oc::tui::selection::cycle_action_for_row;
use oc::tui::theme::{
    ansi_index_rgb, default_palette_seed, palette_seed_from_colorfgbg, parse_colorfgbg_indices,
    theme_mode_from_override, PaletteSeed, RgbColor, ThemeMode,
};
use oc::tui::types::{DashboardAction, DashboardSnapshot, InputMode};

fn entry(id: i64, name: &str, status: SessionStatus, session_id: Option<&str>) -> SessionListEntry {
    SessionListEntry {
        saved_session: SavedSession {
            id,
            name: String::from(name),
            directory: format!("/tmp/{name}"),
            opencode_session_id: session_id.map(String::from),
            opencode_args: Vec::new(),
        },
        status,
        runtime: None,
    }
}

#[test]
fn theme_override_ignores_case() {
    assert_eq!(theme_mode_from_override(Some("Light")), Some(ThemeMode::Light));
    assert_eq!(theme_mode_from_override(Some("DARK")), Some(ThemeMode::Dark));
    assert_eq!(theme_mode_from_override(Some("auto")), None);
    assert_eq!(theme_mode_from_override(None), None);
}

#[test]
fn colorfgbg_takes_the_last_two_numbers() {
    assert_eq!(split_char("15;default;0", ';'), vec!["15", "default", "0"]);
    assert_eq!(split_char("", ';'), vec![""]);
    assert_eq!(parse_colorfgbg_indices("15;0"), Some((15, 0)));
    assert_eq!(parse_colorfgbg_indices("12;default;7;15"), Some((7, 15)));
    assert_eq!(parse_colorfgbg_indices("7"), None);
    assert_eq!(parse_colorfgbg_indices("300;1"), None);
    assert_eq!(
        palette_seed_from_colorfgbg("15;0"),
        Some(PaletteSeed {
            foreground: RgbColor { r: 0xff, g: 0xff, b: 0xff },
            background: RgbColor { r: 0, g: 0, b: 0 },
            mode: ThemeMode::Dark,
        })
    );
    assert_eq!(palette_seed_from_colorfgbg("0;15").map(|s| s.mode), Some(ThemeMode::Light));
    assert_eq!(palette_seed_from_colorfgbg("0;8").map(|s| s.mode), Some(ThemeMode::Dark));
    assert_eq!(ansi_index_rgb(12), RgbColor { r: 0x5c, g: 0x5c, b: 0xff });
    assert_eq!(ansi_index_rgb(200), RgbColor { r: 0xff, g: 0xff, b: 0xff });
}

#[test]
fn default_palettes() {
    let light = default_palette_seed(ThemeMode::Light);
    assert_eq!(light.background, RgbColor { r: 0xf7, g: 0xf4, b: 0xf3 });
    let dark = default_palette_seed(ThemeMode::Dark);
    assert_eq!(dark.foreground, RgbColor { r: 0xe8, g: 0xe6, b: 0xe3 });
    assert_eq!(dark.mode, ThemeMode::Dark);
}

#[test]
fn filtering_ignores_ascii_case() {
    let snapshot = DashboardSnapshot::from_session_entries(vec![
        entry(1, "Dc-Main", SessionStatus::Saved, None),
        entry(2, "other", SessionStatus::Saved, Some("ses_DC")),
    ]);
    let upper = build_view(&snapshot, "DC", InputMode::Filter, None);
    let lower = build_view(&snapshot, "dc", InputMode::Filter, None);
    assert_eq!(upper, lower);
    assert_eq!(upper.groups.len(), 2);
}

#[test]
fn filter_shows_each_match_once() {
    let snapshot = DashboardSnapshot::from_session_entries(vec![
        entry(1, "one", SessionStatus::Saved, Some("ses_one")),
        entry(11, "x", SessionStatus::Saved, None),
        entry(2, "two", SessionStatus::Saved, None),
    ]);
    let view = build_view(&snapshot, "1", InputMode::Filter, None);
    let mut ids: Vec<i64> = view.sessions().iter().map(|r| r.session_id).collect();
    ids.sort();
    assert_eq!(ids, vec![1, 11]);
}

#[test]
fn cycling_right_then_left_returns() {
    let snapshot = DashboardSnapshot::from_session_entries(vec![
        entry(1, "run", SessionStatus::RunningDetached, None),
    ]);
    let row = &snapshot.rows[0];
    for action in [DashboardAction::Attach, DashboardAction::Stop, DashboardAction::Remove] {
        let right = cycle_action_for_row(row, action, 1);
        assert_eq!(cycle_action_for_row(row, right, -1), action);
        let left = cycle_action_for_row(row, action, -1);
        assert_eq!(cycle_action_for_row(row, left, 1), action);
    }
    assert_eq!(cycle_action_for_row(row, DashboardAction::Remove, 1), DashboardAction::Attach);
}

#[test]
fn numeric_targets_are_never_names() {
    for target in ["3", "+12", "0042"] {
        assert!(matches!(SessionRef::parse(target), Ok(SessionRef::NumericId(_))));
        assert_eq!(
            NewSessionAlias::new(String::from(target), String::from("/tmp"), Vec::new()),
            Err(SessionError::NumericName(String::from(target)))
        );
    }
    assert_eq!(SessionRef::parse("dc"), Ok(SessionRef::Name(String::from("dc"))));
}

#[test]
fn unicode_whitespace_separates_words() {
    assert_eq!(
        split_whitespace("new\u{3000}dc\u{85}\t/tmp\u{2009}x"),
        vec![String::from("new"), String::from("dc"), String::from("/tmp"), String::from("x")]
    );
    assert_eq!(split_whitespace("a\u{200b}b"), vec![String::from("a\u{200b}b")]);
    assert_eq!(trim("\u{a0} dc \u{202f}"), "dc");
    assert_eq!(split_whitespace("new dc"), vec![String::from("new"), String::from("dc")]);
}
