//! The dashboard's data: rows, groups of rows, counts, actions and modes.
use vstd::prelude::*;

use crate::session::{SessionListEntry, SessionStatus};
use crate::session_list::{status_rank, status_rank_exec};
use crate::text::copy_opt_string;

use super::format::{abbreviate_directory, abbreviate_directory_spec, format_memory, format_memory_spec};

verus! {

/// The rows of the dashboard taken from the session list, with the counts of
/// each status.
#[derive(Debug, Clone, PartialEq, Eq)]
pub struct DashboardSnapshot {
    pub rows: Vec<DashboardRow>,
    pub summary: DashboardSummary,
}

/// What the dashboard shows: the groups of rows, and the totals of the rows
/// shown.
#[derive(Debug, Clone, PartialEq, Eq)]
pub struct DashboardView {
    pub groups: Vec<DashboardGroup>,
    pub totals: DashboardSummary,
}

/// Rows shown together, under a title when the filter grouped them.
#[derive(Debug, Clone, PartialEq, Eq)]
pub struct DashboardGroup {
    pub title: Option<String>,
    pub sessions: Vec<DashboardRow>,
}

/// Counts of sessions by status, and the totals of the rows shown.
#[derive(Debug, Clone, Copy, PartialEq, Eq)]
pub struct DashboardSummary {
    pub attached: usize,
    pub detached: usize,
    pub saved: usize,
    pub filtered_sessions: usize,
    pub filtered_running: usize,
    pub filtered_memory_bytes: u64,
}

/// One session as the dashboard shows it.
#[derive(Debug, Clone, PartialEq, Eq)]
pub struct DashboardRow {
    pub session_id: i64,
    pub name: String,
    pub directory: String,
    pub full_directory: String,
    pub opencode_session_id: Option<String>,
    pub memory_bytes: Option<u64>,
    pub status: SessionStatus,
}

/// What Enter does to the selected session.
#[derive(Debug, Clone, Copy, PartialEq, Eq, Structural)]
pub enum DashboardAction {
    Attach,
    Stop,
    Remove,
    Restart,
}

/// An action as the action bar shows it.
#[derive(Debug, Clone, Copy, PartialEq, Eq)]
pub struct ActionState {
    pub action: DashboardAction,
    pub enabled: bool,
    pub selected: bool,
}

/// A position in the terminal.
#[derive(Debug, Clone, Copy, PartialEq, Eq)]
pub struct CursorPosition {
    pub x: u16,
    pub y: u16,
}

/// Whether typed text filters the list or forms a command.
#[derive(Debug, Clone, Copy, PartialEq, Eq, Structural)]
pub enum InputMode {
    Filter,
    Command,
}

/// The actions in the order in which the action bar lists them.
pub open spec fn display_order_spec() -> Seq<DashboardAction> {
    seq![
        DashboardAction::Attach,
        DashboardAction::Stop,
        DashboardAction::Remove,
        DashboardAction::Restart,
    ]
}

/// Whether a session with this status runs in tmux.
pub open spec fn is_running_status(status: SessionStatus) -> bool {
    status != SessionStatus::Saved
}

/// Whether an action can be taken on a row: attach and remove always, stop
/// when the session runs, restart when it runs and has a saved OpenCode
/// session ID.
pub open spec fn supports_action(row: DashboardRow, action: DashboardAction) -> bool {
    match action {
        DashboardAction::Attach => true,
        DashboardAction::Remove => true,
        DashboardAction::Stop => is_running_status(row.status),
        DashboardAction::Restart => is_running_status(row.status)
            && row.opencode_session_id.is_some(),
    }
}

/// The actions that can be taken on a row, in display order.
pub open spec fn available_actions_spec(row: DashboardRow) -> Seq<DashboardAction> {
    display_order_spec().filter(|a: DashboardAction| supports_action(row, a))
}

/// The label of a status in the dashboard.
pub open spec fn status_label_spec(status: SessionStatus) -> Seq<char> {
    match status {
        SessionStatus::RunningAttached => "attached"@,
        SessionStatus::RunningDetached => "detached"@,
        SessionStatus::Saved => "saved"@,
    }
}

/// The label of an action on its button.
pub open spec fn action_label_spec(action: DashboardAction) -> Seq<char> {
    match action {
        DashboardAction::Attach => "ATTACH"@,
        DashboardAction::Stop => "STOP"@,
        DashboardAction::Remove => "RM"@,
        DashboardAction::Restart => "RESTART"@,
    }
}

/// The number of rows with the given status.
pub open spec fn count_status(rows: Seq<DashboardRow>, status: SessionStatus) -> nat
    decreases rows.len(),
{
    if rows.len() == 0 {
        0
    } else {
        count_status(rows.drop_last(), status) + if rows.last().status == status {
            1nat
        } else {
            0nat
        }
    }
}

/// The number of rows whose session runs.
pub open spec fn count_running(rows: Seq<DashboardRow>) -> nat
    decreases rows.len(),
{
    if rows.len() == 0 {
        0
    } else {
        count_running(rows.drop_last()) + if is_running_status(rows.last().status) {
            1nat
        } else {
            0nat
        }
    }
}

/// The memory of the rows, a row without a known size counting as zero.
pub open spec fn rows_memory(rows: Seq<DashboardRow>) -> nat
    decreases rows.len(),
{
    if rows.len() == 0 {
        0
    } else {
        rows_memory(rows.drop_last()) + match rows.last().memory_bytes {
            Some(b) => b as nat,
            None => 0nat,
        }
    }
}

/// A count over rows is at most the number of rows.
pub proof fn lemma_counts_bounded(rows: Seq<DashboardRow>)
    ensures
        count_running(rows) <= rows.len(),
        count_status(rows, SessionStatus::RunningAttached) <= rows.len(),
        count_status(rows, SessionStatus::RunningDetached) <= rows.len(),
        count_status(rows, SessionStatus::Saved) <= rows.len(),
    decreases rows.len(),
{
    if rows.len() > 0 {
        lemma_counts_bounded(rows.drop_last());
    }
}

/// All the rows of the groups, group by group.
pub open spec fn view_rows(groups: Seq<DashboardGroup>) -> Seq<DashboardRow>
    decreases groups.len(),
{
    if groups.len() == 0 {
        seq![]
    } else {
        view_rows(groups.drop_last()) + groups.last().sessions@
    }
}

impl DashboardRow {
    /// The row for a list entry.
    pub fn from_session_entry(entry: SessionListEntry) -> (r: Self)
        ensures
            r.session_id == entry.saved_session.id,
            r.name == entry.saved_session.name,
            r.directory@ == abbreviate_directory_spec(
                entry.saved_session.name@,
                entry.saved_session.directory@,
            ),
            r.full_directory == entry.saved_session.directory,
            r.opencode_session_id == entry.saved_session.opencode_session_id,
            r.memory_bytes == (match entry.runtime {
                Some(rt) => rt.memory_bytes,
                None => None::<u64>,
            }),
            r.status == entry.status,
    {
        let memory_bytes = entry.runtime_memory_bytes();
        let directory = abbreviate_directory(&entry.saved_session);
        let saved_session = entry.saved_session;
        DashboardRow {
            session_id: saved_session.id,
            name: saved_session.name,
            directory,
            full_directory: saved_session.directory,
            opencode_session_id: saved_session.opencode_session_id,
            memory_bytes,
            status: entry.status,
        }
    }

    /// A copy of the row.
    pub fn copy(&self) -> (r: Self)
        ensures
            r == *self,
    {
        DashboardRow {
            session_id: self.session_id,
            name: self.name.clone(),
            directory: self.directory.clone(),
            full_directory: self.full_directory.clone(),
            opencode_session_id: copy_opt_string(&self.opencode_session_id),
            memory_bytes: self.memory_bytes,
            status: self.status,
        }
    }

    /// The label of the row's status.
    pub fn status_label(&self) -> (r: &'static str)
        ensures
            r@ == status_label_spec(self.status),
    {
        match self.status {
            SessionStatus::RunningAttached => "attached",
            SessionStatus::RunningDetached => "detached",
            SessionStatus::Saved => "saved",
        }
    }

    /// The actions that can be taken on the row, in display order.
    pub fn available_actions(&self) -> (r: Vec<DashboardAction>)
        ensures
            r@ == available_actions_spec(*self),
    {
        let order = DashboardAction::display_order();
        let mut r: Vec<DashboardAction> = Vec::new();
        let mut i: usize = 0;
        while i < order.len()
            invariant
                order@ == display_order_spec(),
                i <= order.len(),
                r@ == display_order_spec().take(i as int).filter(
                    |a: DashboardAction| supports_action(*self, a),
                ),
            decreases order.len() - i,
        {
            proof {
                let t = display_order_spec().take(i as int + 1);
                assert(t.drop_last() =~= display_order_spec().take(i as int));
                reveal_with_fuel(Seq::filter, 1);
            }
            if self.supports_action(order[i]) {
                r.push(order[i]);
            }
            i = i + 1;
        }
        assert(display_order_spec().take(4) =~= display_order_spec());
        r
    }

    /// The memory of the row's session, or `-` when it is not known.
    pub fn memory_label(&self) -> (r: String)
        ensures
            r@ == (match self.memory_bytes {
                Some(b) => format_memory_spec(b),
                None => "-"@,
            }),
    {
        match self.memory_bytes {
            Some(bytes) => format_memory(bytes),
            None => crate::text::copy_str("-"),
        }
    }

    /// Whether the row's session runs in tmux.
    pub fn is_running(&self) -> (r: bool)
        ensures
            r == is_running_status(self.status),
    {
        self.status.is_running()
    }

    /// Whether an action can be taken on the row.
    pub fn supports_action(&self, action: DashboardAction) -> (r: bool)
        ensures
            r == supports_action(*self, action),
    {
        match action {
            DashboardAction::Attach => true,
            DashboardAction::Remove => true,
            DashboardAction::Stop => self.is_running(),
            DashboardAction::Restart => self.is_running() && self.opencode_session_id.is_some(),
        }
    }
}

impl DashboardAction {
    /// The actions in the order in which the action bar lists them.
    pub fn display_order() -> (r: Vec<DashboardAction>)
        ensures
            r@ == display_order_spec(),
    {
        let r = vec![
            DashboardAction::Attach,
            DashboardAction::Stop,
            DashboardAction::Remove,
            DashboardAction::Restart,
        ];
        assert(r@ =~= display_order_spec());
        r
    }

    /// The label of the action on its button.
    pub fn label(self) -> (r: &'static str)
        ensures
            r@ == action_label_spec(self),
    {
        match self {
            DashboardAction::Attach => "ATTACH",
            DashboardAction::Stop => "STOP",
            DashboardAction::Remove => "RM",
            DashboardAction::Restart => "RESTART",
        }
    }
}

/// Whether `row` is the dashboard row of the list entry `e`.
pub open spec fn row_of_entry(row: DashboardRow, e: SessionListEntry) -> bool {
    &&& row.session_id == e.saved_session.id
    &&& row.name == e.saved_session.name
    &&& row.directory@ == abbreviate_directory_spec(e.saved_session.name@, e.saved_session.directory@)
    &&& row.full_directory == e.saved_session.directory
    &&& row.opencode_session_id == e.saved_session.opencode_session_id
    &&& row.memory_bytes == (match e.runtime {
        Some(rt) => rt.memory_bytes,
        None => None::<u64>,
    })
    &&& row.status == e.status
}

/// Whether `rows` are the dashboard rows of `entries`, one for one.
pub open spec fn rows_of_entries(rows: Seq<DashboardRow>, entries: Seq<SessionListEntry>) -> bool {
    rows.len() == entries.len() && forall|i: int| 0 <= i < rows.len() ==> row_of_entry(#[trigger] rows[i], entries[i])
}

/// Whether row `a` comes strictly before row `b` on the dashboard: a lower
/// status rank first (attached, detached, saved), then the lower numeric ID.
pub open spec fn row_before(a: DashboardRow, b: DashboardRow) -> bool {
    status_rank(a.status) < status_rank(b.status) || (status_rank(a.status) == status_rank(b.status)
        && a.session_id < b.session_id)
}

/// Whether the rows are in dashboard order.
pub open spec fn rows_sorted(s: Seq<DashboardRow>) -> bool {
    forall|i: int, j: int| 0 <= i < j < s.len() ==> !row_before(#[trigger] s[j], #[trigger] s[i])
}

fn row_before_exec(a: &DashboardRow, b: &DashboardRow) -> (r: bool)
    ensures
        r == row_before(*a, *b),
{
    let ra = status_rank_exec(a.status);
    let rb = status_rank_exec(b.status);
    ra < rb || (ra == rb && a.session_id < b.session_id)
}

proof fn lemma_insert_to_multiset<A>(s: Seq<A>, p: int, a: A)
    requires
        0 <= p <= s.len(),
    ensures
        s.insert(p, a).to_multiset() == s.to_multiset().insert(a),
{
    let t = s.insert(p, a);
    s.insert_ensures(p, a);
    t.to_multiset_ensures();
    assert(t.remove(p) =~= s);
    assert(t[p] == a);
    assert(t.to_multiset().count(a) > 0) by {
        assert(t.contains(a));
    }
    assert(t.to_multiset() =~= s.to_multiset().insert(a));
}

impl DashboardSnapshot {
    /// The rows for the list entries, ordered by status (attached, detached,
    /// saved) and then by ascending numeric ID, with the number of rows of each
    /// status.
    pub fn from_session_entries(entries: Vec<SessionListEntry>) -> (r: Self)
        ensures
            r.rows@.len() == entries@.len(),
            exists|u: Seq<DashboardRow>|
                #[trigger] rows_of_entries(u, entries@) && r.rows@.to_multiset() == u.to_multiset(),
            rows_sorted(r.rows@),
            r.summary.attached == count_status(r.rows@, SessionStatus::RunningAttached),
            r.summary.detached == count_status(r.rows@, SessionStatus::RunningDetached),
            r.summary.saved == count_status(r.rows@, SessionStatus::Saved),
            r.summary.filtered_sessions == 0,
            r.summary.filtered_running == 0,
            r.summary.filtered_memory_bytes == 0,
    {
        let ghost input = entries@;
        let total = entries.len();
        assert(input.len() == total);
        let mut rest = entries;
        let mut unsorted: Vec<DashboardRow> = Vec::new();
        let mut done: usize = 0;
        assert(rest@ =~= input.skip(0));
        while rest.len() > 0
            invariant
                done + rest@.len() == input.len(),
                input.len() <= usize::MAX,
                rest@ == input.skip(done as int),
                unsorted@.len() == done,
                forall|i: int| 0 <= i < done ==> row_of_entry(#[trigger] unsorted@[i], input[i]),
            decreases rest.len(),
        {
            let entry = rest.remove(0);
            assert(entry == input[done as int]);
            let row = DashboardRow::from_session_entry(entry);
            unsorted.push(row);
            assert(rest@ =~= input.skip(done + 1));
            done = done + 1;
        }
        let ghost u = unsorted@;
        let mut rows: Vec<DashboardRow> = Vec::new();
        let mut taken: usize = 0;
        let ghost n = u.len();
        proof {
            assert(unsorted@ =~= u.skip(0));
            assert(u.take(0).to_multiset() =~= rows@.to_multiset()) by {
                u.take(0).to_multiset_ensures();
                rows@.to_multiset_ensures();
            }
        }
        while unsorted.len() > 0
            invariant
                n == u.len(),
                n <= usize::MAX,
                taken + unsorted.len() == n,
                unsorted@ == u.skip(taken as int),
                rows@.to_multiset() == u.take(taken as int).to_multiset(),
                rows@.len() == taken,
                rows_sorted(rows@),
            decreases unsorted.len(),
        {
            let row = unsorted.remove(0);
            assert(row == u[taken as int]);
            let mut p: usize = 0;
            while p < rows.len() && !row_before_exec(&row, &rows[p])
                invariant
                    p <= rows.len(),
                    forall|k: int| 0 <= k < p ==> !row_before(row, #[trigger] rows@[k]),
                decreases rows.len() - p,
            {
                p = p + 1;
            }
            let ghost old_rows = rows@;
            rows.insert(p, row);
            proof {
                old_rows.insert_ensures(p as int, row);
                lemma_insert_to_multiset(old_rows, p as int, row);
                assert(u.take(taken + 1) =~= u.take(taken as int).push(row));
                u.take(taken as int).to_multiset_ensures();
                assert forall|i: int, j: int| 0 <= i < j < rows@.len() implies !row_before(
                    #[trigger] rows@[j],
                    #[trigger] rows@[i],
                ) by {
                    if j < p {
                        assert(rows@[i] == old_rows[i] && rows@[j] == old_rows[j]);
                    } else if j == p {
                        assert(rows@[i] == old_rows[i]);
                    } else if i < p {
                        assert(rows@[i] == old_rows[i] && rows@[j] == old_rows[j - 1]);
                        assert(!row_before(old_rows[j - 1], old_rows[i]));
                    } else if i == p {
                        assert(rows@[j] == old_rows[j - 1]);
                        assert(row_before(row, old_rows[p as int]));
                        if j - 1 > p {
                            assert(!row_before(old_rows[j - 1], old_rows[p as int]));
                        }
                    } else {
                        assert(rows@[i] == old_rows[i - 1] && rows@[j] == old_rows[j - 1]);
                    }
                }
                assert(unsorted@ =~= u.skip(taken + 1));
            }
            taken = taken + 1;
        }
        assert(u.take(n as int) =~= u);
        let mut attached: usize = 0;
        let mut detached: usize = 0;
        let mut saved: usize = 0;
        let mut i: usize = 0;
        while i < rows.len()
            invariant
                i <= rows.len(),
                attached == count_status(rows@.take(i as int), SessionStatus::RunningAttached),
                detached == count_status(rows@.take(i as int), SessionStatus::RunningDetached),
                saved == count_status(rows@.take(i as int), SessionStatus::Saved),
            decreases rows.len() - i,
        {
            proof {
                assert(rows@.take(i + 1).drop_last() =~= rows@.take(i as int));
                lemma_counts_bounded(rows@.take(i as int));
            }
            match rows[i].status {
                SessionStatus::RunningAttached => attached = attached + 1,
                SessionStatus::RunningDetached => detached = detached + 1,
                SessionStatus::Saved => saved = saved + 1,
            }
            i = i + 1;
        }
        assert(rows@.take(rows.len() as int) =~= rows@);
        assert(rows_of_entries(u, input));
        DashboardSnapshot {
            rows,
            summary: DashboardSummary {
                attached,
                detached,
                saved,
                filtered_sessions: 0,
                filtered_running: 0,
                filtered_memory_bytes: 0,
            },
        }
    }
}

impl DashboardView {
    /// All the rows shown, group by group.
    pub fn sessions(&self) -> (r: Vec<&DashboardRow>)
        ensures
            r@.len() == view_rows(self.groups@).len(),
            forall|i: int| 0 <= i < r@.len() ==> *(#[trigger] r@[i]) == view_rows(self.groups@)[i],
    {
        let mut r: Vec<&DashboardRow> = Vec::new();
        let mut g: usize = 0;
        while g < self.groups.len()
            invariant
                g <= self.groups.len(),
                r@.len() == view_rows(self.groups@.take(g as int)).len(),
                forall|i: int|
                    0 <= i < r@.len() ==> *(#[trigger] r@[i]) == view_rows(
                        self.groups@.take(g as int),
                    )[i],
            decreases self.groups.len() - g,
        {
            let group = &self.groups[g];
            let ghost before = view_rows(self.groups@.take(g as int));
            proof {
                assert(self.groups@.take(g as int + 1).drop_last() =~= self.groups@.take(g as int));
            }
            let mut k: usize = 0;
            while k < group.sessions.len()
                invariant
                    k <= group.sessions.len(),
                    r@.len() == before.len() + k,
                    forall|i: int| 0 <= i < before.len() ==> *(#[trigger] r@[i]) == before[i],
                    forall|i: int|
                        before.len() <= i < r@.len() ==> *(#[trigger] r@[i])
                            == group.sessions@[i - before.len()],
                decreases group.sessions.len() - k,
            {
                r.push(&group.sessions[k]);
                k = k + 1;
            }
            g = g + 1;
            proof {
                let after = view_rows(self.groups@.take(g as int));
                assert(after =~= before + group.sessions@);
            }
        }
        assert(self.groups@.take(self.groups.len() as int) =~= self.groups@);
        r
    }
}

} // verus!
