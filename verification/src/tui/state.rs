//! The dashboard's input state and how keys change it: the text typed, the
//! mode, the rows shown, the selected row and the selected action.
use vstd::prelude::*;

use crate::text::{append_str, char_count, chars_of, copy_opt_string, copy_str, push_char, string_of};

use super::command::{format_command_error, parse_command, CommandParseError};
use super::filter::{
    build_view, filtered_groups_spec, is_active_filter, is_active_filter_spec, summary_for_view,
    summary_for_view_spec, totals_scope_label, totals_scope_label_spec, totals_spec,
    unfiltered_groups_spec,
};
use super::selection::{
    cycle_action_for_row, cycle_action_spec, default_identity_spec, lemma_available_contains, default_selected_identity,
    index_for_selected_identity, position_of_id, preferred_action_for_row, preferred_action_spec,
    selected_identity_at, SelectedSession,
};
use super::types::{
    available_actions_spec, display_order_spec, rows_memory, supports_action, view_rows,
    ActionState, DashboardAction, DashboardRow, DashboardSnapshot, DashboardSummary, DashboardView,
    InputMode,
};
use crate::cli::RequestedAction;
use crate::commands::{chain_text, error_chain_text};
use crate::text::{concat2, concat3, string_views};
use super::command::{parse_command_spec, result_matches, ParsedCommand};
use super::render::{
    expanded_horizontal, horizontal_fits_within, horizontal_metrics, horizontal_metrics_spec,
    unfiltered_horizontal_metrics, unfiltered_horizontal_spec, HorizontalMetrics,
};

verus! {

/// The dashboard's state apart from the terminal: what is shown, what is
/// selected, and what has been typed.
pub struct DashboardState {
    pub snapshot: DashboardSnapshot,
    pub view: DashboardView,
    pub selected_index: usize,
    pub selected_action: DashboardAction,
    pub input_mode: InputMode,
    pub input_text: String,
    pub status_message: Option<String>,
    pub current_directory: Option<String>,
    pub selected_identity: Option<SelectedSession>,
    /// The session whose restart runs in the background, if any.
    pub pending_restart: Option<String>,
    /// While a filter is active, the horizontal measures that the layout is
    /// locked to: those over all rows when the filter began, widened as the
    /// rows shown need.
    pub layout_lock: Option<HorizontalMetrics>,
}

/// Whether a layout lock only grew: when there was one before and is one
/// after, the earlier fits within the later.
pub open spec fn lock_grows(before: Option<HorizontalMetrics>, after: Option<HorizontalMetrics>) -> bool {
    match (before, after) {
        (Some(l), Some(m)) => horizontal_fits_within(l, m),
        _ => true,
    }
}

/// The lock that a state holds once its view is rebuilt, given the lock it
/// held: none without an active filter; otherwise the earlier lock (or, when
/// the filter has just begun, the measures over all rows) widened to what is
/// shown.
pub open spec fn next_lock_spec(previous: Option<HorizontalMetrics>, state: DashboardState) -> Option<
    HorizontalMetrics,
> {
    if is_active_filter_spec(state.input_mode, state.input_text@) {
        Some(
            expanded_horizontal(
                match previous {
                    Some(l) => l,
                    None => unfiltered_horizontal_spec(state.snapshot),
                },
                horizontal_metrics_spec(state),
            ),
        )
    } else {
        None
    }
}

/// What Enter asks of the loop that runs the dashboard.
#[derive(Debug)]
pub enum EnterOutcome {
    /// Nothing more to do.
    Nothing,
    /// Leave the dashboard's screen, run this command in the terminal (it
    /// attaches), then load the dashboard again.
    Interactive(RequestedAction),
    /// Run this command, then load the dashboard again.
    Run(RequestedAction),
    /// Stop the session with this name, then refresh.
    Stop(String),
    /// Remove the session with this name, then refresh.
    Remove(String),
    /// Restart the session with this name in the background.
    RestartStarted(String),
}

/// How a background restart ended.
#[derive(Debug, Clone, PartialEq, Eq)]
pub enum RestartReport {
    /// The session restarted.
    Succeeded,
    /// The restart failed with this error chain.
    Failed(Vec<String>),
    /// The worker went away without a result.
    Disconnected,
}

/// The status line for a finished restart of `target`.
pub open spec fn restart_status_spec(target: Seq<char>, report: RestartReport) -> Seq<char> {
    match report {
        RestartReport::Succeeded => "Restarted session "@ + target,
        RestartReport::Failed(chain) => "Restart failed for "@ + target + ": "@ + chain_text(
            string_views(chain@),
        ),
        RestartReport::Disconnected => "Restart failed for "@ + target + ": worker disconnected"@,
    }
}

/// The input text once command mode is entered: followed by a space unless it
/// already ends with one.
pub open spec fn command_mode_text(text: Seq<char>) -> Seq<char> {
    if text.len() > 0 && text.last() == ' ' {
        text
    } else {
        text.push(' ')
    }
}

/// The mode after a deletion leaves `remaining`: command mode falls back to
/// filter mode once no space is left.
pub open spec fn mode_after_backspace(mode: InputMode, remaining: Seq<char>) -> InputMode {
    if mode == InputMode::Command && !remaining.contains(' ') {
        InputMode::Filter
    } else {
        mode
    }
}

/// Deleting right after entering command mode undoes it: for filter text
/// without a space (typing a space enters command mode, so filter text has
/// none), the deletion removes the added space and returns to filter mode.
pub proof fn law_backspace_leaves_command_mode(text: Seq<char>)
    requires
        !text.contains(' '),
    ensures
        command_mode_text(text).len() > 0,
        command_mode_text(text).drop_last() == text,
        mode_after_backspace(InputMode::Command, command_mode_text(text).drop_last())
            == InputMode::Filter,
{
    assert(command_mode_text(text) == text.push(' '));
    assert(text.push(' ').drop_last() =~= text);
}

/// Whether a command leaves the dashboard's screen to attach.
pub open spec fn is_interactive_command(a: RequestedAction) -> bool {
    a is New || a is Move
}

/// The commands typed in the dashboard that change a session's place or
/// create one, `new` and `mv`, leave its screen to attach; `rm`, `stop` and
/// `restart` run in place.
pub proof fn law_new_and_move_leave_to_attach(a: RequestedAction)
    ensures
        a is New ==> is_interactive_command(a),
        a is Move ==> is_interactive_command(a),
        a is Rm || a is Stop || a is Restart ==> !is_interactive_command(a),
{
}

/// What a key asks of the loop that runs the dashboard.
pub enum KeyOutcome {
    /// Keep running.
    Continue,
    /// Leave the dashboard.
    Exit,
}

/// Whether the view shows what the filter text, mode and current directory
/// call for, with totals over the rows shown.
pub open spec fn view_matches(
    snapshot: DashboardSnapshot,
    view: DashboardView,
    text: Seq<char>,
    mode: InputMode,
    current_directory: Option<Seq<char>>,
) -> bool {
    &&& is_active_filter_spec(mode, text) ==> filtered_groups_spec(view.groups@, snapshot.rows@, text)
    &&& !is_active_filter_spec(mode, text) ==> unfiltered_groups_spec(
        view.groups@,
        snapshot.rows@,
        current_directory,
    )
    &&& view.totals == totals_spec(snapshot.summary, view_rows(view.groups@))
}

/// The view of an optional string.
pub open spec fn opt_view(s: Option<String>) -> Option<Seq<char>> {
    match s {
        Some(d) => Some(d@),
        None => None,
    }
}

/// Whether the session `identity` names is among `rows`.
pub open spec fn identity_shown(rows: Seq<DashboardRow>, identity: Option<SelectedSession>) -> bool {
    match identity {
        Some(SelectedSession(id)) => position_of_id(rows, id).is_some(),
        None => false,
    }
}

impl DashboardState {
    /// The rows shown.
    pub open spec fn rows(self) -> Seq<DashboardRow> {
        view_rows(self.view.groups@)
    }

    /// The selected session, if any.
    pub open spec fn identity(self) -> Option<SelectedSession> {
        self.selected_identity
    }

    /// The state's invariant: the view shows what the input calls for; the
    /// selected position is that of the selected session (the top, with
    /// nothing selected, when no row is shown); the selected action can be
    /// taken on the selected row; the layout is locked exactly while a filter
    /// is active, to measures that fit what is shown; and the memory of all
    /// rows fits in a `u64`, their running count in a `usize`.
    pub open spec fn wf(self) -> bool {
        &&& rows_memory(self.snapshot.rows@) <= u64::MAX
        &&& self.snapshot.summary.attached + self.snapshot.summary.detached <= usize::MAX
        &&& self.layout_lock.is_some() == is_active_filter_spec(self.input_mode, self.input_text@)
        &&& self.layout_lock matches Some(l) ==> horizontal_fits_within(horizontal_metrics_spec(self), l)
        &&& view_matches(
            self.snapshot,
            self.view,
            self.input_text@,
            self.input_mode,
            opt_view(self.current_directory),
        )
        &&& self.rows().len() == 0 ==> self.selected_index == 0 && self.identity().is_none()
        &&& self.rows().len() > 0 ==> {
            &&& self.selected_index < self.rows().len()
            &&& self.identity() == Some(SelectedSession(self.rows()[self.selected_index as int].session_id))
            &&& supports_action(self.rows()[self.selected_index as int], self.selected_action)
        }
    }

    /// A state for a snapshot: the view for the input, the given session
    /// selected when it is shown (else the default), and the given action kept
    /// when the selected row supports it.
    pub fn load(
        snapshot: DashboardSnapshot,
        selected_identity: Option<SelectedSession>,
        preferred_action: DashboardAction,
        input_mode: InputMode,
        input_text: String,
        status_message: Option<String>,
        current_directory: Option<String>,
    ) -> (state: Self)
        requires
            rows_memory(snapshot.rows@) <= u64::MAX,
            snapshot.summary.attached + snapshot.summary.detached <= usize::MAX,
        ensures
            state.wf(),
            state.layout_lock == next_lock_spec(None, state),
            state.snapshot == snapshot,
            state.input_mode == input_mode,
            state.input_text == input_text,
            state.status_message == status_message,
            state.current_directory == current_directory,
            state.pending_restart.is_none(),
            state.rows().len() > 0 ==> state.selected_action == preferred_action_spec(
                state.rows()[state.selected_index as int],
                preferred_action,
            ),
            identity_shown(state.rows(), selected_identity) ==> state.identity() == selected_identity,
            !identity_shown(state.rows(), selected_identity) && state.rows().len() > 0
                ==> state.identity() == default_identity_spec(
                state.rows(),
                opt_view(current_directory),
            ),
    {
        let view = build_view(
            &snapshot,
            input_text.as_str(),
            input_mode,
            copy_opt_string(&current_directory),
        );
        let mut state = DashboardState {
            snapshot,
            view,
            selected_index: 0,
            selected_action: preferred_action,
            input_mode,
            input_text,
            status_message,
            current_directory,
            selected_identity,
            pending_restart: None,
            layout_lock: None,
        };
        state.reconcile_selection(false);
        state.reconcile_selected_action();
        state.update_layout_lock();
        state
    }

    /// Replaces the snapshot with a fresh one and rebuilds the view, keeping
    /// the selected session when it is still shown (else selecting the
    /// default), and the selected action where the selected row supports it.
    pub fn refresh(&mut self, snapshot: DashboardSnapshot)
        requires
            old(self).wf(),
            rows_memory(snapshot.rows@) <= u64::MAX,
            snapshot.summary.attached + snapshot.summary.detached <= usize::MAX,
        ensures
            final(self).wf(),
            final(self).layout_lock == next_lock_spec(old(self).layout_lock, *final(self)),
            lock_grows(old(self).layout_lock, final(self).layout_lock),
            final(self).snapshot == snapshot,
            final(self).input_text == old(self).input_text,
            final(self).input_mode == old(self).input_mode,
            final(self).status_message == old(self).status_message,
            final(self).current_directory == old(self).current_directory,
            identity_shown(final(self).rows(), old(self).identity()) ==> final(self).identity()
                == old(self).identity(),
            !identity_shown(final(self).rows(), old(self).identity()) && final(self).rows().len() > 0
                ==> final(self).identity() == default_identity_spec(
                final(self).rows(),
                opt_view(final(self).current_directory),
            ),
            final(self).rows().len() > 0 ==> final(self).selected_action == preferred_action_spec(
                final(self).rows()[final(self).selected_index as int],
                old(self).selected_action,
            ),
    {
        self.snapshot = snapshot;
        self.rebuild_view(false);
    }

    /// The selected row, if any.
    pub fn selected_row(&self) -> (r: Option<&DashboardRow>)
        requires
            self.wf(),
        ensures
            match r {
                Some(row) => self.rows().len() > 0 && *row == self.rows()[self.selected_index as int],
                None => self.rows().len() == 0,
            },
    {
        let rows = self.view.sessions();
        if self.selected_index < rows.len() {
            Some(rows[self.selected_index])
        } else {
            None
        }
    }

    /// The selected session, if any.
    pub fn selected_session(&self) -> (r: Option<SelectedSession>)
        ensures
            r == self.identity(),
    {
        self.selected_identity
    }

    /// Moves the selection one row up, unless it is at the top; the selected
    /// action moves on to one that the new row supports.
    pub fn move_selection_up(&mut self)
        requires
            old(self).wf(),
        ensures
            final(self).wf(),
            lock_grows(old(self).layout_lock, final(self).layout_lock),
            final(self).selected_index == (if old(self).selected_index > 0 {
                old(self).selected_index - 1
            } else {
                old(self).selected_index as int
            }),
            final(self).rows().len() > 0 ==> final(self).selected_action == preferred_action_spec(
                final(self).rows()[final(self).selected_index as int],
                old(self).selected_action,
            ),
            final(self).rows() == old(self).rows(),
            final(self).input_text == old(self).input_text,
            final(self).input_mode == old(self).input_mode,
    {
        if self.selected_index > 0 {
            self.selected_index = self.selected_index - 1;
            self.select_position_identity();
            self.reconcile_selected_action();
        }
    }

    /// Moves the selection one row down, unless it is at the bottom; the
    /// selected action moves on to one that the new row supports.
    pub fn move_selection_down(&mut self)
        requires
            old(self).wf(),
        ensures
            final(self).wf(),
            lock_grows(old(self).layout_lock, final(self).layout_lock),
            final(self).selected_index == (if old(self).selected_index + 1 < old(self).rows().len() {
                old(self).selected_index + 1
            } else {
                old(self).selected_index as int
            }),
            final(self).rows().len() > 0 ==> final(self).selected_action == preferred_action_spec(
                final(self).rows()[final(self).selected_index as int],
                old(self).selected_action,
            ),
            final(self).rows() == old(self).rows(),
            final(self).input_text == old(self).input_text,
            final(self).input_mode == old(self).input_mode,
    {
        let count = self.view.sessions().len();
        if self.selected_index + 1 < count {
            self.selected_index = self.selected_index + 1;
            self.select_position_identity();
            self.reconcile_selected_action();
        }
    }

    /// Moves the selected action `delta` steps through those that the
    /// selected row supports, wrapping.
    pub fn cycle_action(&mut self, delta: isize)
        requires
            old(self).wf(),
        ensures
            final(self).wf(),
            lock_grows(old(self).layout_lock, final(self).layout_lock),
            old(self).rows().len() > 0 ==> final(self).selected_action == cycle_action_spec(
                old(self).rows()[old(self).selected_index as int],
                old(self).selected_action,
                delta as int,
            ),
            old(self).rows().len() == 0 ==> final(self).selected_action == old(
                self,
            ).selected_action,
            final(self).selected_index == old(self).selected_index,
            final(self).rows() == old(self).rows(),
            final(self).input_text == old(self).input_text,
            final(self).input_mode == old(self).input_mode,
    {
        let next = match self.selected_row() {
            Some(row) => {
                let next = cycle_action_for_row(row, self.selected_action, delta);
                proof {
                    lemma_cycle_supported(*row, self.selected_action, delta as int);
                }
                next
            },
            None => self.selected_action,
        };
        self.selected_action = next;
    }

    /// Switches to command mode; the typed text carries over, followed by a
    /// space unless it already ends with one.
    pub fn enter_command_mode(&mut self)
        requires
            old(self).wf(),
        ensures
            final(self).wf(),
            lock_grows(old(self).layout_lock, final(self).layout_lock),
            final(self).input_mode == InputMode::Command,
            final(self).input_text@ == command_mode_text(old(self).input_text@),
    {
        self.input_mode = InputMode::Command;
        let cs = chars_of(self.input_text.as_str());
        if !(cs.len() > 0 && cs[cs.len() - 1] == ' ') {
            push_char(&mut self.input_text, ' ');
        }
        self.rebuild_view(true);
    }

    /// Types a character; in filter mode the view follows the new text and the
    /// top result is selected, so that Enter acts on it.
    pub fn insert_char(&mut self, c: char)
        requires
            old(self).wf(),
        ensures
            final(self).wf(),
            lock_grows(old(self).layout_lock, final(self).layout_lock),
            final(self).input_text@ == old(self).input_text@.push(c),
            final(self).input_mode == old(self).input_mode,
            final(self).status_message.is_none(),
            old(self).input_mode == InputMode::Filter && final(self).rows().len() > 0
                ==> final(self).selected_index == 0,
    {
        push_char(&mut self.input_text, c);
        self.status_message = None;
        self.rebuild_view(true);
    }

    /// Deletes the last typed character. In command mode, deleting the last
    /// space returns to filter mode.
    pub fn handle_backspace(&mut self)
        requires
            old(self).wf(),
        ensures
            final(self).wf(),
            lock_grows(old(self).layout_lock, final(self).layout_lock),
            old(self).input_text@.len() == 0 ==> final(self).input_text == old(self).input_text
                && final(self).input_mode == old(self).input_mode,
            old(self).input_text@.len() > 0 ==> {
                &&& final(self).input_text@ == old(self).input_text@.drop_last()
                &&& final(self).input_mode == mode_after_backspace(
                    old(self).input_mode,
                    final(self).input_text@,
                )
            },
            old(self).input_text@.len() > 0 && final(self).input_mode == InputMode::Filter
                && final(self).input_text@.len() > 0 && final(self).rows().len() > 0
                ==> final(self).selected_index == 0,
    {
        let cs = chars_of(self.input_text.as_str());
        if cs.len() == 0 {
            return;
        }
        let mut kept = cs;
        kept.pop();
        let mut has_space = false;
        let mut i: usize = 0;
        while i < kept.len()
            invariant
                i <= kept.len(),
                has_space == exists|j: int| 0 <= j < i && kept@[j] == ' ',
            decreases kept.len() - i,
        {
            if kept[i] == ' ' {
                has_space = true;
            }
            i = i + 1;
        }
        self.input_text = string_of(&kept);
        proof {
            assert(self.input_text@ =~= old(self).input_text@.drop_last());
            if has_space {
                let j = choose|j: int| 0 <= j < kept.len() && kept@[j] == ' ';
                assert(self.input_text@[j] == ' ');
            }
        }
        if self.input_mode == InputMode::Command && !has_space {
            self.input_mode = InputMode::Filter;
        }
        self.rebuild_view(true);
    }

    /// Empties the input and returns to filter mode.
    pub fn clear_input(&mut self)
        requires
            old(self).wf(),
        ensures
            final(self).wf(),
            lock_grows(old(self).layout_lock, final(self).layout_lock),
            final(self).input_text@.len() == 0,
            final(self).input_mode == InputMode::Filter,
            final(self).status_message.is_none(),
            final(self).snapshot == old(self).snapshot,
    {
        self.input_text = String::new();
        self.input_mode = InputMode::Filter;
        self.status_message = None;
        self.rebuild_view(true);
    }

    /// Escape: leaves the dashboard when nothing is typed, and otherwise
    /// clears the input and stays.
    pub fn handle_quit(&mut self) -> (r: KeyOutcome)
        requires
            old(self).wf(),
        ensures
            final(self).wf(),
            lock_grows(old(self).layout_lock, final(self).layout_lock),
            old(self).input_text@.len() == 0 ==> r is Exit,
            old(self).input_text@.len() > 0 ==> r is Continue && final(self).input_text@.len() == 0
                && final(self).input_mode == InputMode::Filter,
    {
        if self.input_text.as_str().is_empty() {
            return KeyOutcome::Exit;
        }
        self.clear_input();
        KeyOutcome::Continue
    }

    /// Enter: in command mode the typed command is parsed (a refused command
    /// leaves its message in the status line; `new` and `mv` clear the input
    /// and leave to attach; other commands are run); otherwise the selected
    /// action applies to the selected row (attach leaves to attach, restart
    /// starts in the background).
    pub fn execute_enter(&mut self) -> (r: EnterOutcome)
        requires
            old(self).wf(),
        ensures
            final(self).wf(),
            lock_grows(old(self).layout_lock, final(self).layout_lock),
            old(self).input_mode == InputMode::Command ==> match r {
                EnterOutcome::Interactive(a) => {
                    &&& result_matches(Ok(a), parse_command_spec(old(self).input_text@))
                    &&& is_interactive_command(a)
                    &&& final(self).input_mode == InputMode::Filter
                    &&& final(self).input_text@.len() == 0
                    &&& final(self).status_message.is_none()
                },
                EnterOutcome::Run(a) => result_matches(
                    Ok(a),
                    parse_command_spec(old(self).input_text@),
                ) && !is_interactive_command(a),
                EnterOutcome::Nothing => final(self).status_message is Some && !(parse_command_spec(
                    old(self).input_text@,
                ) is New || parse_command_spec(old(self).input_text@) is Rm || parse_command_spec(
                    old(self).input_text@,
                ) is Stop || parse_command_spec(old(self).input_text@) is Restart
                    || parse_command_spec(old(self).input_text@) is Move),
                _ => false,
            },
            old(self).input_mode == InputMode::Command && (parse_command_spec(old(self).input_text@) is New
                || parse_command_spec(old(self).input_text@) is Move) ==> r is Interactive
                && final(self).input_mode == InputMode::Filter && final(self).input_text@.len() == 0,
            old(self).input_mode == InputMode::Command && (parse_command_spec(old(self).input_text@) is Rm
                || parse_command_spec(old(self).input_text@) is Stop || parse_command_spec(
                old(self).input_text@,
            ) is Restart) ==> r is Run,
            r is Run ==> *final(self) == *old(self),
            old(self).input_mode == InputMode::Filter && old(self).rows().len() == 0 ==> r is Nothing,
            old(self).input_mode == InputMode::Filter && old(self).rows().len() > 0 ==> {
                let target = old(self).rows()[old(self).selected_index as int].name;
                match old(self).selected_action {
                    DashboardAction::Attach => (r matches EnterOutcome::Interactive(
                        RequestedAction::AttachTarget { target: t },
                    ) && t == target),
                    DashboardAction::Stop => r == EnterOutcome::Stop(target),
                    DashboardAction::Remove => r == EnterOutcome::Remove(target),
                    DashboardAction::Restart => if old(self).pending_restart.is_some() {
                        r is Nothing
                    } else {
                        r == EnterOutcome::RestartStarted(target) && final(self).pending_restart
                            == Some(target)
                    },
                }
            },
    {
        if self.input_mode == InputMode::Command {
            let parsed = parse_command(self.input_text.as_str());
            match parsed {
                Ok(command) => {
                    let interactive = match &command {
                        RequestedAction::New { .. } => true,
                        RequestedAction::Move { .. } => true,
                        _ => false,
                    };
                    if interactive {
                        self.input_mode = InputMode::Filter;
                        self.input_text = String::new();
                        self.status_message = None;
                        self.rebuild_view(true);
                        return EnterOutcome::Interactive(command);
                    }
                    return EnterOutcome::Run(command);
                },
                Err(error) => {
                    self.status_message = Some(format_command_error(error));
                    return EnterOutcome::Nothing;
                },
            }
        }
        let target = match self.selected_row() {
            Some(row) => row.name.clone(),
            None => return EnterOutcome::Nothing,
        };
        match self.selected_action {
            DashboardAction::Attach => EnterOutcome::Interactive(
                RequestedAction::AttachTarget { target },
            ),
            DashboardAction::Stop => EnterOutcome::Stop(target),
            DashboardAction::Remove => EnterOutcome::Remove(target),
            DashboardAction::Restart => {
                let t = target.clone();
                if self.begin_restart(target) {
                    EnterOutcome::RestartStarted(t)
                } else {
                    EnterOutcome::Nothing
                }
            },
        }
    }

    /// Starts restarting `target` unless a restart is under way, and says so
    /// in the status line.
    pub fn begin_restart(&mut self, target: String) -> (started: bool)
        requires
            old(self).wf(),
        ensures
            final(self).wf(),
            lock_grows(old(self).layout_lock, final(self).layout_lock),
            started == old(self).pending_restart.is_none(),
            started ==> final(self).pending_restart == Some(target),
            started ==> (final(self).status_message matches Some(m) && m@ == "Restarting session "@
                + target@ + "..."@),
            !started ==> final(self).pending_restart == old(self).pending_restart,
            !started ==> (final(self).status_message matches Some(m) && m@
                == "Restart already in progress"@),
            final(self).rows() == old(self).rows(),
            final(self).selected_index == old(self).selected_index,
            final(self).selected_action == old(self).selected_action,
            final(self).input_text == old(self).input_text,
            final(self).input_mode == old(self).input_mode,
    {
        if self.pending_restart.is_some() {
            self.status_message = Some(crate::text::copy_str("Restart already in progress"));
            return false;
        }
        self.status_message = Some(concat3("Restarting session ", target.as_str(), "..."));
        self.pending_restart = Some(target);
        true
    }

    /// Records how the background restart ended in the status line.
    pub fn finish_restart(&mut self, report: RestartReport)
        requires
            old(self).wf(),
            old(self).pending_restart.is_some(),
        ensures
            final(self).wf(),
            lock_grows(old(self).layout_lock, final(self).layout_lock),
            final(self).pending_restart.is_none(),
            (final(self).status_message matches Some(m) && m@ == restart_status_spec(
                old(self).pending_restart.unwrap()@,
                report,
            )),
            final(self).rows() == old(self).rows(),
            final(self).input_text == old(self).input_text,
            final(self).input_mode == old(self).input_mode,
    {
        let target = match self.pending_restart.take() {
            Some(t) => t,
            None => return,
        };
        let message = match report {
            RestartReport::Succeeded => concat2("Restarted session ", target.as_str()),
            RestartReport::Failed(chain) => {
                let mut m = concat3("Restart failed for ", target.as_str(), ": ");
                let t = error_chain_text(&chain);
                crate::text::append_str(&mut m, t.as_str());
                m
            },
            RestartReport::Disconnected => concat3(
                "Restart failed for ",
                target.as_str(),
                ": worker disconnected",
            ),
        };
        self.status_message = Some(message);
    }

    /// The actions that the selected row supports, in display order; none
    /// without a selected row.
    pub fn available_actions(&self) -> (r: Vec<DashboardAction>)
        requires
            self.wf(),
        ensures
            self.rows().len() > 0 ==> r@ == available_actions_spec(
                self.rows()[self.selected_index as int],
            ),
            self.rows().len() == 0 ==> r@.len() == 0,
    {
        match self.selected_row() {
            Some(row) => row.available_actions(),
            None => Vec::new(),
        }
    }

    /// The action bar: every action in display order, enabled when the
    /// selected row supports it, and selected when it is enabled and chosen.
    pub fn action_states(&self) -> (r: Vec<ActionState>)
        requires
            self.wf(),
        ensures
            r@.len() == display_order_spec().len(),
            forall|i: int|
                0 <= i < r@.len() ==> {
                    let a = display_order_spec()[i];
                    let enabled = self.rows().len() > 0 && supports_action(
                        self.rows()[self.selected_index as int],
                        a,
                    );
                    #[trigger] r@[i] == ActionState {
                        action: a,
                        enabled,
                        selected: enabled && self.selected_action == a,
                    }
                },
    {
        let order = DashboardAction::display_order();
        let row = self.selected_row();
        let mut r: Vec<ActionState> = Vec::new();
        let mut i: usize = 0;
        while i < order.len()
            invariant
                i <= order.len(),
                order@ == display_order_spec(),
                r@.len() == i,
                match row {
                    Some(x) => self.rows().len() > 0 && *x == self.rows()[self.selected_index as int],
                    None => self.rows().len() == 0,
                },
                forall|j: int|
                    0 <= j < i ==> {
                        let a = display_order_spec()[j];
                        let enabled = self.rows().len() > 0 && supports_action(
                            self.rows()[self.selected_index as int],
                            a,
                        );
                        #[trigger] r@[j] == ActionState {
                            action: a,
                            enabled,
                            selected: enabled && self.selected_action == a,
                        }
                    },
            decreases order.len() - i,
        {
            let a = order[i];
            let enabled = match row {
                Some(x) => x.supports_action(a),
                None => false,
            };
            let selected = enabled && self.selected_action == a;
            r.push(ActionState { action: a, enabled, selected });
            i = i + 1;
        }
        r
    }

    /// The counts that the summary header shows.
    pub fn summary(&self) -> (r: DashboardSummary)
        ensures
            r == summary_for_view_spec(
                self.snapshot.summary,
                self.rows(),
                self.input_mode,
                self.input_text@,
            ),
    {
        summary_for_view(&self.snapshot.summary, &self.view, self.input_mode, self.input_text.as_str())
    }

    /// What the totals count.
    pub fn totals_scope_label(&self) -> (r: &'static str)
        ensures
            r@ == totals_scope_label_spec(self.input_mode, self.input_text@),
    {
        totals_scope_label(self.input_mode, self.input_text.as_str())
    }

    fn select_position_identity(&mut self)
        requires
            old(self).selected_index < old(self).rows().len(),
            rows_memory(old(self).snapshot.rows@) <= u64::MAX,
            view_matches(
                old(self).snapshot,
                old(self).view,
                old(self).input_text@,
                old(self).input_mode,
                opt_view(old(self).current_directory),
            ),
        ensures
            final(self).identity() == Some(
                SelectedSession(final(self).rows()[final(self).selected_index as int].session_id),
            ),
            final(self).selected_index == old(self).selected_index,
            final(self).view == old(self).view,
            final(self).snapshot == old(self).snapshot,
            final(self).selected_action == old(self).selected_action,
            final(self).input_text == old(self).input_text,
            final(self).input_mode == old(self).input_mode,
            final(self).status_message == old(self).status_message,
            final(self).current_directory == old(self).current_directory,
            final(self).pending_restart == old(self).pending_restart,
            final(self).layout_lock == old(self).layout_lock,
    {
        self.selected_identity = selected_identity_at(&self.view, self.selected_index);
    }

    fn reconcile_selected_action(&mut self)
        requires
            old(self).rows().len() > 0 ==> old(self).selected_index < old(self).rows().len(),
        ensures
            old(self).rows().len() > 0 ==> final(self).selected_action == preferred_action_spec(
                old(self).rows()[old(self).selected_index as int],
                old(self).selected_action,
            ) && supports_action(
                old(self).rows()[old(self).selected_index as int],
                final(self).selected_action,
            ),
            old(self).rows().len() == 0 ==> final(self).selected_action == old(self).selected_action,
            final(self).selected_index == old(self).selected_index,
            final(self).view == old(self).view,
            final(self).snapshot == old(self).snapshot,
            final(self).identity() == old(self).identity(),
            final(self).input_text == old(self).input_text,
            final(self).input_mode == old(self).input_mode,
            final(self).status_message == old(self).status_message,
            final(self).current_directory == old(self).current_directory,
            final(self).pending_restart == old(self).pending_restart,
            final(self).layout_lock == old(self).layout_lock,
    {
        let rows = self.view.sessions();
        if self.selected_index < rows.len() {
            self.selected_action = preferred_action_for_row(rows[self.selected_index], self.selected_action);
        }
    }

    /// Makes the selected position that of the selected session: after an edit
    /// of an active filter the top row, whatever was selected; otherwise the
    /// selected session where it is shown, else the default. Reports whether
    /// the selection jumped to the top.
    fn reconcile_selection(&mut self, filter_text_changed: bool) -> (snapped: bool)
        ensures
            final(self).rows().len() == 0 ==> final(self).selected_index == 0
                && final(self).identity().is_none(),
            final(self).rows().len() > 0 ==> {
                &&& final(self).selected_index < final(self).rows().len()
                &&& final(self).identity() == Some(
                    SelectedSession(final(self).rows()[final(self).selected_index as int].session_id),
                )
                &&& position_of_id(
                    final(self).rows(),
                    final(self).rows()[final(self).selected_index as int].session_id,
                ) == Some(final(self).selected_index as nat)
            },
            is_active_filter_spec(old(self).input_mode, old(self).input_text@) && filter_text_changed
                && final(self).rows().len() > 0 ==> final(self).selected_index == 0
                && final(self).identity() == Some(SelectedSession(final(self).rows()[0].session_id)),
            !(is_active_filter_spec(old(self).input_mode, old(self).input_text@) && filter_text_changed)
                && (match old(self).identity() {
                Some(SelectedSession(id)) => position_of_id(old(self).rows(), id).is_some(),
                None => false,
            }) ==> final(self).identity() == old(self).identity(),
            !(is_active_filter_spec(old(self).input_mode, old(self).input_text@) && filter_text_changed)
                && !(match old(self).identity() {
                Some(SelectedSession(id)) => position_of_id(old(self).rows(), id).is_some(),
                None => false,
            }) && final(self).rows().len() > 0 ==> final(self).identity() == default_identity_spec(
                final(self).rows(),
                opt_view(old(self).current_directory),
            ),
            final(self).view == old(self).view,
            final(self).snapshot == old(self).snapshot,
            final(self).selected_action == old(self).selected_action,
            final(self).input_text == old(self).input_text,
            final(self).input_mode == old(self).input_mode,
            final(self).status_message == old(self).status_message,
            final(self).current_directory == old(self).current_directory,
            final(self).pending_restart == old(self).pending_restart,
            final(self).layout_lock == old(self).layout_lock,
    {
        let count = self.view.sessions().len();
        if count == 0 {
            self.selected_index = 0;
            self.selected_identity = None;
            return true;
        }
        if is_active_filter(self.input_mode, self.input_text.as_str()) && filter_text_changed {
            self.selected_identity = selected_identity_at(&self.view, 0);
            self.selected_index = 0;
            proof {
                assert(position_of_id(self.rows(), self.rows()[0].session_id) == Some(0nat));
            }
            return true;
        }
        if let Some(index) = index_for_selected_identity(&self.view, self.selected_identity) {
            self.selected_index = index;
            proof {
                lemma_position_found(self.rows(), self.identity().unwrap().0);
            }
            return false;
        }
        let identity = {
            let cwd = match &self.current_directory {
                Some(d) => Some(d.as_str()),
                None => None,
            };
            match default_selected_identity(&self.view, cwd) {
                Some(s) => Some(s),
                None => selected_identity_at(&self.view, 0),
            }
        };
        proof {
            lemma_default_identity_shown(self.rows(), opt_view(self.current_directory));
        }
        self.selected_identity = identity;
        let index = index_for_selected_identity(&self.view, self.selected_identity);
        proof {
            lemma_position_found(self.rows(), self.identity().unwrap().0);
        }
        self.selected_index = match index {
            Some(i) => i,
            None => 0,
        };
        false
    }

    /// Rebuilds the view for the current input and reconciles the selection
    /// and the selected action.
    fn rebuild_view(&mut self, filter_text_changed: bool)
        requires
            rows_memory(old(self).snapshot.rows@) <= u64::MAX,
            old(self).snapshot.summary.attached + old(self).snapshot.summary.detached <= usize::MAX,
        ensures
            final(self).wf(),
            final(self).layout_lock == next_lock_spec(old(self).layout_lock, *final(self)),
            lock_grows(old(self).layout_lock, final(self).layout_lock),
            is_active_filter_spec(final(self).input_mode, final(self).input_text@) && filter_text_changed
                && final(self).rows().len() > 0 ==> final(self).selected_index == 0,
            !filter_text_changed && identity_shown(final(self).rows(), old(self).identity())
                ==> final(self).identity() == old(self).identity(),
            !filter_text_changed && !identity_shown(final(self).rows(), old(self).identity())
                && final(self).rows().len() > 0 ==> final(self).identity() == default_identity_spec(
                final(self).rows(),
                opt_view(final(self).current_directory),
            ),
            final(self).rows().len() > 0 ==> final(self).selected_action == preferred_action_spec(
                final(self).rows()[final(self).selected_index as int],
                old(self).selected_action,
            ),
            final(self).snapshot == old(self).snapshot,
            final(self).input_text == old(self).input_text,
            final(self).input_mode == old(self).input_mode,
            final(self).status_message == old(self).status_message,
            final(self).current_directory == old(self).current_directory,
            final(self).pending_restart == old(self).pending_restart,
    {
        self.view = build_view(
            &self.snapshot,
            self.input_text.as_str(),
            self.input_mode,
            copy_opt_string(&self.current_directory),
        );
        self.reconcile_selection(filter_text_changed);
        self.reconcile_selected_action();
        self.update_layout_lock();
    }

    /// Sets the layout lock for the view: none without an active filter,
    /// otherwise the lock held (or the measures over all rows) widened to what
    /// is shown.
    fn update_layout_lock(&mut self)
        requires
            rows_memory(old(self).snapshot.rows@) <= u64::MAX,
            old(self).snapshot.summary.attached + old(self).snapshot.summary.detached <= usize::MAX,
        ensures
            final(self).layout_lock == next_lock_spec(old(self).layout_lock, *old(self)),
            *final(self) == (DashboardState { layout_lock: final(self).layout_lock, ..*old(self) }),
    {
        if is_active_filter(self.input_mode, self.input_text.as_str()) {
            let shown = horizontal_metrics(&*self);
            let base = match self.layout_lock {
                Some(l) => l,
                None => unfiltered_horizontal_metrics(&self.snapshot),
            };
            self.layout_lock = Some(base.expanded_with(shown));
        } else {
            self.layout_lock = None;
        }
    }
}

proof fn lemma_cycle_supported(row: DashboardRow, current: DashboardAction, delta: int)
    ensures
        supports_action(row, cycle_action_spec(row, current, delta)),
{
    let actions = available_actions_spec(row);
    let o = super::types::display_order_spec();
    let p = |a: DashboardAction| supports_action(row, a);
    o.filter_lemma(p);
    let kept = preferred_action_spec(row, current);
    assert(supports_action(row, kept)) by {
        reveal_with_fuel(Seq::filter, 5);
        assert(o[0] == DashboardAction::Attach);
    }
    lemma_available_contains(row, kept);
    let idx = super::selection::position_of_action(actions, kept);
    let k = (idx + delta) % (actions.len() as int);
    assert(0 <= k < actions.len());
    assert(p(actions[k]));
}

proof fn lemma_position_found(rows: Seq<DashboardRow>, id: i64)
    requires
        position_of_id(rows, id).is_some(),
    ensures
        ({
            let k = position_of_id(rows, id).unwrap();
            &&& k < rows.len()
            &&& rows[k as int].session_id == id
        }),
    decreases rows.len(),
{
    if rows[0].session_id != id {
        lemma_position_found(rows.drop_first(), id);
    }
}

proof fn lemma_default_identity_shown(rows: Seq<DashboardRow>, cwd: Option<Seq<char>>)
    requires
        rows.len() > 0,
    ensures
        default_identity_spec(rows, cwd).is_some(),
        position_of_id(rows, default_identity_spec(rows, cwd).unwrap().0).is_some(),
        position_of_id(rows, rows[0].session_id) == Some(0nat),
{
    match cwd {
        Some(d) => {
            lemma_position_in_directory_bound(rows, d);
            match super::selection::position_in_directory(rows, d) {
                Some(k) => {
                    lemma_position_exists(rows, rows[k as int].session_id, k as int);
                },
                None => {},
            }
        },
        None => {},
    }
}

proof fn lemma_position_in_directory_bound(rows: Seq<DashboardRow>, d: Seq<char>)
    ensures
        match super::selection::position_in_directory(rows, d) {
            Some(k) => k < rows.len(),
            None => true,
        },
    decreases rows.len(),
{
    if rows.len() > 0 && !crate::paths::path_eq_spec(rows[0].full_directory@, d) {
        lemma_position_in_directory_bound(rows.drop_first(), d);
    }
}

proof fn lemma_position_exists(rows: Seq<DashboardRow>, id: i64, k: int)
    requires
        0 <= k < rows.len(),
        rows[k].session_id == id,
    ensures
        position_of_id(rows, id).is_some(),
    decreases k,
{
    if k > 0 && rows[0].session_id != id {
        lemma_position_exists(rows.drop_first(), id, k - 1);
    }
}

} // verus!
