//! The dashboard's geometry: how wide its columns and its content are, how
//! high the session list is, where each panel goes in the terminal, and the
//! small texts that the panels show. Drawing is the caller's.
use vstd::prelude::*;

use crate::text::{
    append_str, concat2, copy_str, decimal, i64_to_string, int_decimal, push_repeated, repeat_char,
    usize_to_string,
};

use super::format::{
    column_row_spec, display_width, display_width_spec, format_column_row, format_memory,
    format_memory_spec, is_printable_ascii, ColumnWidths,
};
use super::types::{
    count_status, rows_memory, status_label_spec, DashboardGroup, DashboardRow, DashboardSnapshot,
    DashboardSummary, InputMode,
};
use crate::session::SessionStatus;
use super::filter::{summary_for_view_spec, totals_scope_label_spec};
use super::types::view_rows;
use super::filter::is_active_filter_spec;
use super::state::{lock_grows, next_lock_spec, DashboardState};
use ratatui::layout::{Constraint, Direction, Layout, Rect};

verus! {

/// The horizontal measures of the dashboard: its column widths and the width
/// of its content.
#[derive(Debug, Clone, Copy, PartialEq, Eq)]
pub struct HorizontalMetrics {
    pub column_widths: ColumnWidths,
    pub content_width: u16,
}

/// The measures of the dashboard: horizontal, and the height of the list.
#[derive(Debug, Clone, Copy, PartialEq, Eq)]
pub struct DashboardMetrics {
    pub horizontal: HorizontalMetrics,
    pub list_content_height: u16,
}

/// The larger of two widths.
pub open spec fn max_usize(a: usize, b: usize) -> usize {
    if a >= b {
        a
    } else {
        b
    }
}

/// The larger of two sizes.
pub open spec fn max_u16(a: u16, b: u16) -> u16 {
    if a >= b {
        a
    } else {
        b
    }
}

/// The smaller of two sizes.
pub open spec fn min_u16(a: u16, b: u16) -> u16 {
    if a <= b {
        a
    } else {
        b
    }
}

/// `a + b`, or the largest size when that does not fit.
pub open spec fn sat_add_u16(a: u16, b: u16) -> u16 {
    if a + b <= u16::MAX {
        (a + b) as u16
    } else {
        u16::MAX
    }
}

/// `a - b`, or zero when `b` is the larger.
pub open spec fn sat_sub_u16(a: u16, b: u16) -> u16 {
    if a >= b {
        (a - b) as u16
    } else {
        0
    }
}

/// Each column as wide as the wider of the two.
pub open spec fn wider_columns(a: ColumnWidths, b: ColumnWidths) -> ColumnWidths {
    ColumnWidths {
        id: max_usize(a.id, b.id),
        name: max_usize(a.name, b.name),
        status: max_usize(a.status, b.status),
        memory: max_usize(a.memory, b.memory),
    }
}

/// Measures that fit both: each measure the larger of the two.
pub open spec fn expanded_horizontal(a: HorizontalMetrics, b: HorizontalMetrics) -> HorizontalMetrics {
    HorizontalMetrics {
        column_widths: wider_columns(a.column_widths, b.column_widths),
        content_width: max_u16(a.content_width, b.content_width),
    }
}

/// Measures that fit both: each measure the larger of the two.
pub open spec fn expanded_dashboard(a: DashboardMetrics, b: DashboardMetrics) -> DashboardMetrics {
    DashboardMetrics {
        horizontal: expanded_horizontal(a.horizontal, b.horizontal),
        list_content_height: max_u16(a.list_content_height, b.list_content_height),
    }
}

fn larger(a: usize, b: usize) -> (r: usize)
    ensures
        r == max_usize(a, b),
{
    if a >= b {
        a
    } else {
        b
    }
}

fn larger_u16(a: u16, b: u16) -> (r: u16)
    ensures
        r == max_u16(a, b),
{
    if a >= b {
        a
    } else {
        b
    }
}

impl HorizontalMetrics {
    /// Measures that fit both these and `other`.
    pub fn expanded_with(self, other: Self) -> (r: Self)
        ensures
            r == expanded_horizontal(self, other),
    {
        HorizontalMetrics {
            column_widths: ColumnWidths {
                id: larger(self.column_widths.id, other.column_widths.id),
                name: larger(self.column_widths.name, other.column_widths.name),
                status: larger(self.column_widths.status, other.column_widths.status),
                memory: larger(self.column_widths.memory, other.column_widths.memory),
            },
            content_width: larger_u16(self.content_width, other.content_width),
        }
    }
}

impl DashboardMetrics {
    /// Measures that fit both these and `other`.
    pub fn expanded_with(self, other: Self) -> (r: Self)
        ensures
            r == expanded_dashboard(self, other),
    {
        DashboardMetrics {
            horizontal: self.horizontal.expanded_with(other.horizontal),
            list_content_height: larger_u16(self.list_content_height, other.list_content_height),
        }
    }
}

/// Whether measures `a` fit within measures `b`.
pub open spec fn fits_within(a: DashboardMetrics, b: DashboardMetrics) -> bool {
    &&& a.horizontal.column_widths.id <= b.horizontal.column_widths.id
    &&& a.horizontal.column_widths.name <= b.horizontal.column_widths.name
    &&& a.horizontal.column_widths.status <= b.horizontal.column_widths.status
    &&& a.horizontal.column_widths.memory <= b.horizontal.column_widths.memory
    &&& a.horizontal.content_width <= b.horizontal.content_width
    &&& a.list_content_height <= b.list_content_height
}

/// Expanding measures never shrinks them, and the result is the least that
/// fits both: it fits both arguments, and fits within any measures that fit
/// both.
pub proof fn law_expanded_with_is_least_upper_bound(
    a: DashboardMetrics,
    b: DashboardMetrics,
    c: DashboardMetrics,
)
    ensures
        fits_within(a, expanded_dashboard(a, b)),
        fits_within(b, expanded_dashboard(a, b)),
        fits_within(a, c) && fits_within(b, c) ==> fits_within(expanded_dashboard(a, b), c),
{
}

/// Expanding is order-free: it commutes, associates, and expanding measures
/// with themselves leaves them as they are.
pub proof fn law_expanded_with_commutes_and_associates(
    a: DashboardMetrics,
    b: DashboardMetrics,
    c: DashboardMetrics,
)
    ensures
        expanded_dashboard(a, b) == expanded_dashboard(b, a),
        expanded_dashboard(expanded_dashboard(a, b), c) == expanded_dashboard(
            a,
            expanded_dashboard(b, c),
        ),
        expanded_dashboard(a, a) == a,
{
}

/// The height of the session list: a header line, a line per session, and two
/// footer lines.
pub fn session_list_content_height(session_count: usize) -> (r: u16)
    requires
        session_count + 3 <= usize::MAX,
    ensures
        r == (session_count + 3) as u16,
{
    (1 + session_count + 2) as u16
}

/// The list height that the frozen layout reserves: that of the list, and
/// room for four group titles.
pub fn frozen_list_content_height(session_count: usize) -> (r: u16)
    requires
        session_count + 3 <= usize::MAX,
    ensures
        r == sat_add_u16((session_count + 3) as u16, 4),
{
    let h = session_list_content_height(session_count);
    h.saturating_add(4)
}

/// The totals of all rows: their count, the running count, and their memory.
pub open spec fn summary_totals_spec(snapshot: DashboardSnapshot) -> DashboardSummary {
    DashboardSummary {
        attached: snapshot.summary.attached,
        detached: snapshot.summary.detached,
        saved: snapshot.summary.saved,
        filtered_sessions: snapshot.rows@.len() as usize,
        filtered_running: (snapshot.summary.attached + snapshot.summary.detached) as usize,
        filtered_memory_bytes: rows_memory(snapshot.rows@) as u64,
    }
}

/// The totals of all rows of a snapshot.
pub fn summary_totals(snapshot: &DashboardSnapshot) -> (r: DashboardSummary)
    requires
        snapshot.summary.attached + snapshot.summary.detached <= usize::MAX,
        rows_memory(snapshot.rows@) <= u64::MAX,
    ensures
        r == summary_totals_spec(*snapshot),
{
    let mut memory: u64 = 0;
    let mut i: usize = 0;
    while i < snapshot.rows.len()
        invariant
            i <= snapshot.rows.len(),
            rows_memory(snapshot.rows@) <= u64::MAX,
            memory == rows_memory(snapshot.rows@.take(i as int)),
        decreases snapshot.rows.len() - i,
    {
        proof {
            assert(snapshot.rows@.take(i + 1).drop_last() =~= snapshot.rows@.take(i as int));
            lemma_rows_memory_prefix(snapshot.rows@, i + 1);
        }
        memory = memory + match snapshot.rows[i].memory_bytes {
            Some(b) => b,
            None => 0,
        };
        i = i + 1;
    }
    assert(snapshot.rows@.take(snapshot.rows.len() as int) =~= snapshot.rows@);
    DashboardSummary {
        attached: snapshot.summary.attached,
        detached: snapshot.summary.detached,
        saved: snapshot.summary.saved,
        filtered_sessions: snapshot.rows.len(),
        filtered_running: snapshot.summary.attached + snapshot.summary.detached,
        filtered_memory_bytes: memory,
    }
}

proof fn lemma_rows_memory_prefix(rows: Seq<DashboardRow>, n: int)
    requires
        0 <= n <= rows.len(),
    ensures
        rows_memory(rows.take(n)) <= rows_memory(rows),
    decreases rows.len(),
{
    if n < rows.len() {
        assert(rows.drop_last().take(n) =~= rows.take(n));
        lemma_rows_memory_prefix(rows.drop_last(), n);
    } else {
        assert(rows.take(n) =~= rows);
    }
}

/// The memory column of a row: its memory, or `-`.
pub open spec fn memory_label_spec(row: DashboardRow) -> Seq<char> {
    match row.memory_bytes {
        Some(b) => format_memory_spec(b),
        None => "-"@,
    }
}

/// The display width of a text, as a width.
pub open spec fn dw(text: Seq<char>) -> usize {
    display_width_spec(text) as usize
}

/// The column widths before any row: those of the headers, of the totals
/// line, and of the widest status and of a typical memory size.
pub open spec fn base_column_widths(totals: DashboardSummary) -> ColumnWidths {
    ColumnWidths {
        id: max_usize(dw("ID"@), dw(decimal(totals.filtered_sessions as nat))),
        name: max_usize(dw("total sessions"@), dw("NAME"@)),
        status: max_usize(
            max_usize(dw("detached"@), dw(decimal(totals.filtered_running as nat))),
            dw("STATUS"@),
        ),
        memory: max_usize(
            max_usize(dw("523 MiB"@), dw(format_memory_spec(totals.filtered_memory_bytes))),
            dw("MEMORY"@),
        ),
    }
}

/// The column widths after taking one more row into account.
pub open spec fn widen_for_row(w: ColumnWidths, row: DashboardRow) -> ColumnWidths {
    ColumnWidths {
        id: max_usize(w.id, dw(int_decimal(row.session_id as int))),
        name: max_usize(w.name, dw(row.name@)),
        status: max_usize(w.status, dw(status_label_spec(row.status))),
        memory: max_usize(w.memory, dw(memory_label_spec(row))),
    }
}

/// The column widths for these rows and totals.
pub open spec fn column_widths_spec(rows: Seq<DashboardRow>, totals: DashboardSummary) -> ColumnWidths
    decreases rows.len(),
{
    if rows.len() == 0 {
        base_column_widths(totals)
    } else {
        widen_for_row(column_widths_spec(rows.drop_last(), totals), rows.last())
    }
}

/// The column widths for these rows and totals.
pub fn column_widths_for_rows(rows: &Vec<DashboardRow>, totals: &DashboardSummary) -> (r: ColumnWidths)
    ensures
        r == column_widths_spec(rows@, *totals),
{
    let s = usize_to_string(totals.filtered_sessions);
    let running = usize_to_string(totals.filtered_running);
    let mem = format_memory(totals.filtered_memory_bytes);
    let mut w = ColumnWidths {
        id: larger(display_width("ID"), display_width(s.as_str())),
        name: larger(display_width("total sessions"), display_width("NAME")),
        status: larger(
            larger(display_width("detached"), display_width(running.as_str())),
            display_width("STATUS"),
        ),
        memory: larger(
            larger(display_width("523 MiB"), display_width(mem.as_str())),
            display_width("MEMORY"),
        ),
    };
    let mut i: usize = 0;
    while i < rows.len()
        invariant
            i <= rows.len(),
            w == column_widths_spec(rows@.take(i as int), *totals),
        decreases rows.len() - i,
    {
        proof {
            assert(rows@.take(i + 1).drop_last() =~= rows@.take(i as int));
        }
        let row = &rows[i];
        let id = i64_to_string(row.session_id);
        let memory = row.memory_label();
        w = ColumnWidths {
            id: larger(w.id, display_width(id.as_str())),
            name: larger(w.name, display_width(row.name.as_str())),
            status: larger(w.status, display_width(row.status_label())),
            memory: larger(w.memory, display_width(memory.as_str())),
        };
        i = i + 1;
    }
    assert(rows@.take(rows.len() as int) =~= rows@);
    w
}

/// The width of a line as the dashboard measures it.
pub open spec fn line_width(text: Seq<char>) -> u16 {
    dw(text) as u16
}

/// The width of a row's line in the session table.
pub open spec fn row_line_width(row: DashboardRow, w: ColumnWidths) -> u16 {
    line_width(
        column_row_spec(
            int_decimal(row.session_id as int),
            row.name@,
            status_label_spec(row.status),
            memory_label_spec(row),
            row.directory@,
            w,
        ),
    )
}

/// The widest row line, or `default` when there is no row.
pub open spec fn widest_row(rows: Seq<DashboardRow>, w: ColumnWidths, default: u16) -> u16
    decreases rows.len(),
{
    if rows.len() == 0 {
        default
    } else if rows.len() == 1 {
        row_line_width(rows[0], w)
    } else {
        max_u16(widest_row(rows.drop_last(), w, default), row_line_width(rows.last(), w))
    }
}

/// The width of the table header.
pub open spec fn header_width(w: ColumnWidths) -> u16 {
    line_width(column_row_spec("ID"@, "NAME"@, "STATUS"@, "MEMORY"@, "DIRECTORY"@, w))
}

/// The width of the unfiltered totals line.
pub open spec fn totals_line_width(totals: DashboardSummary, w: ColumnWidths) -> u16 {
    line_width(
        column_row_spec(
            decimal(totals.filtered_sessions as nat),
            "total sessions"@,
            decimal(totals.filtered_running as nat),
            format_memory_spec(totals.filtered_memory_bytes),
            "all sessions"@,
            w,
        ),
    )
}

/// The width of the session table over all rows: the widest of its header,
/// its rows and its totals line.
pub open spec fn unfiltered_session_width_spec(snapshot: DashboardSnapshot, w: ColumnWidths) -> u16 {
    let totals = summary_totals_spec(snapshot);
    max_u16(
        max_u16(header_width(w), widest_row(snapshot.rows@, w, header_width(w))),
        totals_line_width(totals, w),
    )
}

fn row_width(row: &DashboardRow, w: &ColumnWidths) -> (r: u16)
    ensures
        r == row_line_width(*row, *w),
{
    let id = i64_to_string(row.session_id);
    let memory = row.memory_label();
    let line = format_column_row(
        id.as_str(),
        row.name.as_str(),
        row.status_label(),
        memory.as_str(),
        row.directory.as_str(),
        w,
    );
    display_width(line.as_str()) as u16
}

/// The width of the session table over all rows of a snapshot.
pub fn unfiltered_session_content_width(snapshot: &DashboardSnapshot, widths: &ColumnWidths) -> (r:
    u16)
    requires
        snapshot.summary.attached + snapshot.summary.detached <= usize::MAX,
        rows_memory(snapshot.rows@) <= u64::MAX,
    ensures
        r == unfiltered_session_width_spec(*snapshot, *widths),
{
    let totals = summary_totals(snapshot);
    let header = format_column_row("ID", "NAME", "STATUS", "MEMORY", "DIRECTORY", widths);
    let header_w = display_width(header.as_str()) as u16;
    let mut body = header_w;
    let mut i: usize = 0;
    while i < snapshot.rows.len()
        invariant
            i <= snapshot.rows.len(),
            header_w == header_width(*widths),
            body == widest_row(snapshot.rows@.take(i as int), *widths, header_w),
        decreases snapshot.rows.len() - i,
    {
        proof {
            assert(snapshot.rows@.take(i + 1).drop_last() =~= snapshot.rows@.take(i as int));
        }
        let rw = row_width(&snapshot.rows[i], widths);
        if i == 0 {
            body = rw;
        } else {
            body = larger_u16(body, rw);
        }
        i = i + 1;
    }
    assert(snapshot.rows@.take(snapshot.rows.len() as int) =~= snapshot.rows@);
    let sessions = usize_to_string(totals.filtered_sessions);
    let running = usize_to_string(totals.filtered_running);
    let memory = format_memory(totals.filtered_memory_bytes);
    let totals_line = format_column_row(
        sessions.as_str(),
        "total sessions",
        running.as_str(),
        memory.as_str(),
        "all sessions",
        widths,
    );
    let totals_w = display_width(totals_line.as_str()) as u16;
    larger_u16(larger_u16(header_w, body), totals_w)
}

/// The summary line: the attached, detached and saved counts.
pub open spec fn summary_text_spec(attached: usize, detached: usize, saved: usize) -> Seq<char> {
    "Attached "@ + decimal(attached as nat) + "  Detached "@ + decimal(detached as nat)
        + "  Saved "@ + decimal(saved as nat)
}

/// The summary line.
pub fn summary_text(attached: usize, detached: usize, saved: usize) -> (r: String)
    ensures
        r@ == summary_text_spec(attached, detached, saved),
{
    let mut r = copy_str("Attached ");
    let t = usize_to_string(attached);
    append_str(&mut r, t.as_str());
    append_str(&mut r, "  Detached ");
    let t = usize_to_string(detached);
    append_str(&mut r, t.as_str());
    append_str(&mut r, "  Saved ");
    let t = usize_to_string(saved);
    append_str(&mut r, t.as_str());
    r
}

/// The help line at the bottom of the dashboard.
pub open spec fn help_text_spec() -> Seq<char> {
    "↑↓ select  ←→ action  Enter run  Space command  Esc clear/quit  Ctrl-D quit"@
}

/// The help line at the bottom of the dashboard.
pub fn help_text() -> (r: &'static str)
    ensures
        r@ == help_text_spec(),
{
    "↑↓ select  ←→ action  Enter run  Space command  Esc clear/quit  Ctrl-D quit"
}

/// The width and spacing of the action buttons.
#[derive(Debug, Clone, Copy, PartialEq, Eq)]
pub struct ButtonGeometry {
    pub width: usize,
    pub spacing: usize,
}

/// The buttons' geometry in `available_width` columns: two columns between
/// buttons, and the rest shared evenly, each button at least eight wide.
pub open spec fn button_geometry_spec(button_count: usize, available_width: usize) -> ButtonGeometry {
    let gutter = 2 * (if button_count >= 1 {
        button_count - 1
    } else {
        0
    });
    let min_total = 8 * button_count + gutter;
    let usable = if available_width >= min_total {
        available_width as int
    } else {
        min_total
    };
    let share = if button_count >= 1 {
        button_count as int
    } else {
        1
    };
    ButtonGeometry { width: ((usable - gutter) / share) as usize, spacing: 2 }
}

/// The buttons' geometry in `available_width` columns.
pub fn action_button_geometry(button_count: usize, available_width: usize) -> (r: ButtonGeometry)
    requires
        10 * button_count <= usize::MAX,
    ensures
        r == button_geometry_spec(button_count, available_width),
{
    let spacing: usize = 2;
    let gutter_width = spacing * (if button_count >= 1 {
        button_count - 1
    } else {
        0
    });
    let min_total_width = 8 * button_count + gutter_width;
    let usable_width = if available_width >= min_total_width {
        available_width
    } else {
        min_total_width
    };
    let share: usize = if button_count >= 1 {
        button_count
    } else {
        1
    };
    ButtonGeometry { width: (usable_width - gutter_width) / share, spacing }
}

/// The width of the action bar: its four buttons at their narrowest.
pub fn actions_content_width() -> (r: u16)
    ensures
        r == 38,
{
    proof {
        reveal_strlit("Attach");
        reveal_strlit("Stop");
        reveal_strlit("Remove");
        reveal_strlit("Restart");
    }
    let widest_label = larger(
        larger(display_width("Attach"), display_width("Stop")),
        larger(display_width("Remove"), display_width("Restart")),
    );
    let min_width = larger(widest_label, 8);
    let geometry = action_button_geometry(4, min_width * 4 + 2 * 3);
    (geometry.width * 4 + geometry.spacing * 3) as u16
}

/// The content width over all rows: the widest of the summary line, the
/// session table, the action bar and the help line.
pub open spec fn unfiltered_content_width_spec(snapshot: DashboardSnapshot, w: ColumnWidths) -> u16 {
    let summary = line_width(
        summary_text_spec(
            snapshot.summary.attached,
            snapshot.summary.detached,
            snapshot.summary.saved,
        ),
    );
    max_u16(
        max_u16(max_u16(summary, unfiltered_session_width_spec(snapshot, w)), 38),
        line_width(help_text_spec()),
    )
}

/// The content width over all rows of a snapshot.
pub fn unfiltered_content_width(snapshot: &DashboardSnapshot, widths: &ColumnWidths) -> (r: u16)
    requires
        snapshot.summary.attached + snapshot.summary.detached <= usize::MAX,
        rows_memory(snapshot.rows@) <= u64::MAX,
    ensures
        r == unfiltered_content_width_spec(*snapshot, *widths),
{
    let summary = summary_text(
        snapshot.summary.attached,
        snapshot.summary.detached,
        snapshot.summary.saved,
    );
    let summary_width = display_width(summary.as_str()) as u16;
    let session_width = unfiltered_session_content_width(snapshot, widths);
    let actions_width = actions_content_width();
    let help_width = display_width(help_text()) as u16;
    larger_u16(larger_u16(larger_u16(summary_width, session_width), actions_width), help_width)
}

/// The horizontal measures over all rows of a snapshot: column widths for all
/// rows and their totals, and a content width of at least forty.
pub open spec fn unfiltered_horizontal_spec(snapshot: DashboardSnapshot) -> HorizontalMetrics {
    let w = column_widths_spec(snapshot.rows@, summary_totals_spec(snapshot));
    HorizontalMetrics {
        column_widths: w,
        content_width: max_u16(unfiltered_content_width_spec(snapshot, w), 40),
    }
}

/// The horizontal measures over all rows of a snapshot.
pub fn unfiltered_horizontal_metrics(snapshot: &DashboardSnapshot) -> (r: HorizontalMetrics)
    requires
        snapshot.summary.attached + snapshot.summary.detached <= usize::MAX,
        rows_memory(snapshot.rows@) <= u64::MAX,
    ensures
        r == unfiltered_horizontal_spec(*snapshot),
{
    let totals = summary_totals(snapshot);
    let widths = column_widths_for_rows(&snapshot.rows, &totals);
    let content = unfiltered_content_width(snapshot, &widths);
    HorizontalMetrics { column_widths: widths, content_width: larger_u16(content, 40) }
}

/// The measures that the dashboard keeps for a snapshot, whatever the filter
/// shows: those over all rows, with the list's full height.
pub fn frozen_dashboard_metrics(snapshot: &DashboardSnapshot) -> (r: DashboardMetrics)
    requires
        snapshot.summary.attached + snapshot.summary.detached <= usize::MAX,
        rows_memory(snapshot.rows@) <= u64::MAX,
        snapshot.rows@.len() + 3 <= usize::MAX,
    ensures
        r.horizontal == unfiltered_horizontal_spec(*snapshot),
        r.list_content_height == sat_add_u16((snapshot.rows@.len() + 3) as u16, 4),
{
    DashboardMetrics {
        horizontal: unfiltered_horizontal_metrics(snapshot),
        list_content_height: frozen_list_content_height(snapshot.rows.len()),
    }
}

/// `label` centred in `width` columns: the padding split in two, the extra
/// column on the right.
pub open spec fn centered_text_spec(label: Seq<char>, width: usize) -> Seq<char> {
    let text_width = display_width_spec(label);
    let total = if width >= text_width {
        (width - text_width) as nat
    } else {
        0nat
    };
    let left = total / 2;
    repeat_char(' ', left) + label + repeat_char(' ', (total - left) as nat)
}

/// `label` centred in `width` columns.
pub fn centered_text(label: &str, width: usize) -> (r: String)
    ensures
        r@ == centered_text_spec(label@, width),
{
    let text_width = display_width(label);
    let total: usize = if width >= text_width {
        width - text_width
    } else {
        0
    };
    let left = total / 2;
    let right = total - left;
    let mut r = String::new();
    push_repeated(&mut r, ' ', left);
    append_str(&mut r, label);
    push_repeated(&mut r, ' ', right);
    assert(r@ =~= repeat_char(' ', left as nat) + label@ + repeat_char(' ', right as nat));
    r
}

/// The prompt before the typed text.
pub open spec fn prompt_spec(mode: InputMode) -> Seq<char> {
    match mode {
        InputMode::Filter => "filter> "@,
        InputMode::Command => "command> "@,
    }
}

/// The prompt before the typed text.
pub fn prompt(mode: InputMode) -> (r: &'static str)
    ensures
        r@ == prompt_spec(mode),
{
    match mode {
        InputMode::Filter => "filter> ",
        InputMode::Command => "command> ",
    }
}

/// Where the cursor stands after the prompt and the typed text.
fn input_cursor_offset(mode: InputMode, text: &str) -> (r: u16)
    requires
        display_width_spec(prompt_spec(mode)) + display_width_spec(text@) <= usize::MAX,
    ensures
        r == (display_width_spec(prompt_spec(mode)) + display_width_spec(text@)) as u16,
{
    let prefix = match mode {
        InputMode::Filter => "filter> ",
        InputMode::Command => "command> ",
    };
    (display_width(prefix) + display_width(text)) as u16
}

/// Where the cursor stands after the prompt and the typed text, when the two
/// widths add up within a `usize` (else `None`).
pub fn cursor_offset(mode: InputMode, text: &str) -> (r: Option<u16>)
    ensures
        display_width_spec(prompt_spec(mode)) + display_width_spec(text@) <= usize::MAX ==> r
            == Some(
            (display_width_spec(prompt_spec(mode)) + display_width_spec(text@)) as u16,
        ),
        display_width_spec(prompt_spec(mode)) + display_width_spec(text@) > usize::MAX ==> r
            is None,
{
    let prefix = match mode {
        InputMode::Filter => "filter> ",
        InputMode::Command => "command> ",
    };
    let a = display_width(prefix);
    let b = display_width(text);
    if a <= usize::MAX - b {
        Some(input_cursor_offset(mode, text))
    } else {
        None
    }
}

/// Whether the cursor shows: in command mode, or while filter text is typed.
pub fn should_show_cursor(mode: InputMode, text: &str) -> (r: bool)
    ensures
        r == (mode == InputMode::Command || (mode == InputMode::Filter && text@.len() > 0)),
{
    mode == InputMode::Command || (mode == InputMode::Filter && !text.is_empty())
}

/// The number of lines before a group's rows: one for a titled group.
pub open spec fn title_lines(g: DashboardGroup) -> nat {
    if g.title.is_some() {
        1
    } else {
        0
    }
}

/// The number of body lines that the groups take: their titles and rows.
pub open spec fn body_lines(groups: Seq<DashboardGroup>) -> nat
    decreases groups.len(),
{
    if groups.len() == 0 {
        0
    } else {
        body_lines(groups.drop_last()) + title_lines(groups.last()) + groups.last().sessions@.len()
    }
}

/// The number of rows in the groups.
pub open spec fn row_count(groups: Seq<DashboardGroup>) -> nat
    decreases groups.len(),
{
    if groups.len() == 0 {
        0
    } else {
        row_count(groups.drop_last()) + groups.last().sessions@.len()
    }
}

/// The body line of the row at `index` among the groups' rows: the lines of
/// the groups before its own, its group's title, and the rows before it in its
/// group.
pub open spec fn body_line_of(groups: Seq<DashboardGroup>, index: nat) -> nat
    decreases groups.len(),
{
    if groups.len() == 0 {
        0
    } else {
        let before = row_count(groups.drop_last());
        if index < before {
            body_line_of(groups.drop_last(), index)
        } else if index < before + groups.last().sessions@.len() {
            body_lines(groups.drop_last()) + title_lines(groups.last()) + (index - before) as nat
        } else {
            0
        }
    }
}

proof fn lemma_body_line_bound(groups: Seq<DashboardGroup>, index: nat)
    ensures
        body_line_of(groups, index) <= body_lines(groups),
        row_count(groups) <= body_lines(groups),
    decreases groups.len(),
{
    if groups.len() > 0 {
        lemma_body_line_bound(groups.drop_last(), index);
    }
}

proof fn lemma_line_beyond(groups: Seq<DashboardGroup>, index: nat)
    requires
        index >= row_count(groups),
    ensures
        body_line_of(groups, index) == 0,
    decreases groups.len(),
{
}

proof fn lemma_row_count_prefix(groups: Seq<DashboardGroup>, n: int)
    requires
        0 <= n <= groups.len(),
    ensures
        row_count(groups.take(n)) <= row_count(groups),
    decreases groups.len(),
{
    if n < groups.len() {
        assert(groups.drop_last().take(n) =~= groups.take(n));
        lemma_row_count_prefix(groups.drop_last(), n);
    } else {
        assert(groups.take(n) =~= groups);
    }
}

proof fn lemma_line_stable(groups: Seq<DashboardGroup>, m: int, index: nat)
    requires
        0 <= m <= groups.len(),
        index < row_count(groups.take(m)),
    ensures
        body_line_of(groups, index) == body_line_of(groups.take(m), index),
    decreases groups.len(),
{
    if m == groups.len() {
        assert(groups.take(m) =~= groups);
    } else {
        assert(groups.drop_last().take(m) =~= groups.take(m));
        lemma_row_count_prefix(groups.drop_last(), m);
        lemma_line_stable(groups.drop_last(), m, index);
    }
}

/// The body line of the selected row, counting group titles; the first line
/// when no row is at that position.
pub fn selected_body_line_index(groups: &Vec<DashboardGroup>, selected_index: usize) -> (r: usize)
    requires
        body_lines(groups@) <= usize::MAX,
    ensures
        r == body_line_of(groups@, selected_index as nat),
{
    let mut body_index: usize = 0;
    let mut session_index: usize = 0;
    let mut g: usize = 0;
    assert(groups@.take(0) =~= Seq::<DashboardGroup>::empty());
    while g < groups.len()
        invariant
            g <= groups.len(),
            body_lines(groups@) <= usize::MAX,
            body_index == body_lines(groups@.take(g as int)),
            session_index == row_count(groups@.take(g as int)),
            selected_index >= session_index,
        decreases groups.len() - g,
    {
        let group = &groups[g];
        let ghost t = groups@.take(g as int);
        let ghost t1 = groups@.take(g + 1);
        proof {
            assert(t1.drop_last() =~= t);
            lemma_body_lines_prefix(groups@, g + 1);
        }
        let title: usize = if group.title.is_some() {
            1
        } else {
            0
        };
        let n = group.sessions.len();
        if selected_index - session_index < n {
            proof {
                lemma_body_line_bound(t1, selected_index as nat);
                lemma_line_stable(groups@, g + 1, selected_index as nat);
            }
            return body_index + title + (selected_index - session_index);
        }
        body_index = body_index + title + n;
        session_index = session_index + n;
        g = g + 1;
    }
    assert(groups@.take(groups.len() as int) =~= groups@);
    proof {
        lemma_line_beyond(groups@, selected_index as nat);
    }
    0
}

proof fn lemma_body_lines_prefix(groups: Seq<DashboardGroup>, n: int)
    requires
        0 <= n <= groups.len(),
    ensures
        body_lines(groups.take(n)) <= body_lines(groups),
        row_count(groups.take(n)) <= body_lines(groups.take(n)),
    decreases groups.len(),
{
    lemma_body_line_bound(groups.take(n), 0);
    if n < groups.len() {
        assert(groups.drop_last().take(n) =~= groups.take(n));
        lemma_body_lines_prefix(groups.drop_last(), n);
    } else {
        assert(groups.take(n) =~= groups);
    }
}


/// The lines of the session table that a list `max_lines` high shows, by
/// their place among the table's `line_count` lines (the header first, the
/// blank line and the totals last): all of them when they fit; otherwise the
/// header, a window of the body that scrolls no further than needed to show the
/// selected body line, and the two closing lines.
pub open spec fn table_window_spec(line_count: nat, selected_body_line: nat, max_lines: nat) -> Seq<nat> {
    if line_count <= max_lines {
        Seq::new(line_count, |i: int| i as nat)
    } else {
        let footer_start = (line_count - 2) as nat;
        let body_len = (footer_start - 1) as nat;
        let wanted = if selected_body_line < sat_sub_nat(body_len, 1) {
            selected_body_line
        } else {
            sat_sub_nat(body_len, 1)
        };
        let body_space = sat_sub_nat(max_lines, 3);
        let max_scroll = sat_sub_nat(body_len, body_space);
        let scroll = if wanted < max_scroll {
            wanted
        } else {
            max_scroll
        };
        let shown = if body_space < body_len - scroll {
            body_space
        } else {
            (body_len - scroll) as nat
        };
        seq![0nat] + Seq::new(shown, |i: int| (1 + scroll + i) as nat) + seq![
            footer_start,
            (footer_start + 1) as nat,
        ]
    }
}

/// A list at least four lines high always shows the header first and the
/// blank line and the totals last, no more lines than it has room for, and the
/// selected row's line: the list scrolls, and the totals stay put.
pub proof fn law_table_window_keeps_totals_and_selection(
    line_count: nat,
    selected_body_line: nat,
    max_lines: nat,
)
    requires
        line_count >= 3,
        selected_body_line < line_count - 3,
        max_lines >= 4,
    ensures
        ({
            let w = table_window_spec(line_count, selected_body_line, max_lines);
            &&& w.len() <= max_lines
            &&& w.len() >= 3
            &&& w[0] == 0
            &&& w[w.len() - 2] == line_count - 2
            &&& w[w.len() - 1] == line_count - 1
            &&& w.contains((1 + selected_body_line) as nat)
        }),
{
    let w = table_window_spec(line_count, selected_body_line, max_lines);
    if line_count <= max_lines {
        assert(w[(1 + selected_body_line) as int] == 1 + selected_body_line);
    } else {
        let footer_start = (line_count - 2) as nat;
        let body_len = (footer_start - 1) as nat;
        let body_space = sat_sub_nat(max_lines, 3);
        let max_scroll = sat_sub_nat(body_len, body_space);
        let scroll = if selected_body_line < max_scroll {
            selected_body_line
        } else {
            max_scroll
        };
        let shown = if body_space < body_len - scroll {
            body_space
        } else {
            (body_len - scroll) as nat
        };
        let middle = Seq::new(shown, |i: int| (1 + scroll + i) as nat);
        assert(w == seq![0nat] + middle + seq![footer_start, (footer_start + 1) as nat]);
        let k = selected_body_line - scroll;
        assert(0 <= k < shown);
        assert(w[1 + k] == middle[k]);
        assert(w[1 + k] == 1 + selected_body_line);
    }
}

/// `a - b`, or zero when `b` is larger.
pub open spec fn sat_sub_nat(a: nat, b: nat) -> nat {
    if a >= b {
        (a - b) as nat
    } else {
        0
    }
}

/// The lines of the session table that a list `max_lines` high shows. A table
/// has at least its header and its two closing lines once it does not fit.
pub fn visible_table_lines(line_count: usize, selected_body_line: usize, max_lines: usize) -> (r: Vec<
    usize,
>)
    requires
        line_count >= 3 || line_count <= max_lines,
    ensures
        r@.map_values(|i: usize| i as nat) == table_window_spec(
            line_count as nat,
            selected_body_line as nat,
            max_lines as nat,
        ),
{
    let ghost goal = table_window_spec(line_count as nat, selected_body_line as nat, max_lines as nat);
    let mut r: Vec<usize> = Vec::new();
    if line_count <= max_lines {
        let mut i: usize = 0;
        while i < line_count
            invariant
                i <= line_count,
                line_count <= max_lines,
                goal == table_window_spec(line_count as nat, selected_body_line as nat, max_lines as nat),
                r@.map_values(|j: usize| j as nat) =~= goal.take(i as int),
            decreases line_count - i,
        {
            let ghost before = r@;
            assert(goal[i as int] == i as nat);
            r.push(i);
            assert(r@ == before.push(i));
            assert(r@.map_values(|j: usize| j as nat) =~= before.map_values(|j: usize| j as nat).push(i as nat));
            i = i + 1;
            assert(goal.take(i as int) =~= goal.take(i - 1).push((i - 1) as nat));
        }
        assert(goal.take(line_count as int) =~= goal);
        return r;
    }
    let footer_start = line_count - 2;
    let body_len = footer_start - 1;
    let last_body: usize = if body_len >= 1 { body_len - 1 } else { 0 };
    let wanted = if selected_body_line < last_body { selected_body_line } else { last_body };
    let body_space: usize = if max_lines >= 3 { max_lines - 3 } else { 0 };
    let max_scroll: usize = if body_len >= body_space { body_len - body_space } else { 0 };
    let scroll = if wanted < max_scroll { wanted } else { max_scroll };
    let shown = if body_space < body_len - scroll { body_space } else { body_len - scroll };
    r.push(0);
    let mut k: usize = 0;
    let ghost middle = Seq::new(shown as nat, |i: int| (1 + scroll + i) as nat);
    while k < shown
        invariant
            k <= shown,
            shown <= body_len - scroll,
            body_len == line_count - 3,
            middle == Seq::new(shown as nat, |i: int| (1 + scroll + i) as nat),
            r@.map_values(|j: usize| j as nat) =~= seq![0nat] + middle.take(k as int),
        decreases shown - k,
    {
        let ghost before = r@;
        assert(middle[k as int] == (1 + scroll + k) as nat);
        r.push(1 + scroll + k);
        assert(r@ == before.push((1 + scroll + k) as usize));
        assert(r@.map_values(|j: usize| j as nat) =~= before.map_values(|j: usize| j as nat).push((1 + scroll + k) as nat));
        k = k + 1;
        assert(middle.take(k as int) =~= middle.take(k - 1).push(middle[k - 1]));
        assert(seq![0nat] + middle.take(k as int) =~= (seq![0nat] + middle.take(k - 1)).push(middle[k - 1]));
    }
    assert(middle.take(shown as int) =~= middle);
    r.push(footer_start);
    r.push(footer_start + 1);
    assert(r@.map_values(|j: usize| j as nat) =~= goal);
    r
}

/// A rectangle of the terminal.
#[derive(Debug, Clone, Copy, PartialEq, Eq)]
pub struct Area {
    pub x: u16,
    pub y: u16,
    pub width: u16,
    pub height: u16,
}

/// A constraint on one part of a split area, as `ratatui`'s layout takes it.
#[derive(Debug, Clone, Copy, PartialEq, Eq, Structural)]
pub enum SplitConstraint {
    /// Exactly this many cells.
    Length(u16),
    /// A share, by this weight, of what the other parts leave.
    Fill(u16),
}

/// The way an area is split: into parts side by side, or stacked.
#[derive(Debug, Clone, Copy, PartialEq, Eq, Structural)]
pub enum SplitDirection {
    Across,
    Down,
}

/// Where `a` starts along `d`: its column across, its row down.
pub open spec fn start_along(a: Area, d: SplitDirection) -> int {
    match d {
        SplitDirection::Across => a.x as int,
        SplitDirection::Down => a.y as int,
    }
}

/// How long `a` is along `d`: its width across, its height down.
pub open spec fn size_along(a: Area, d: SplitDirection) -> int {
    match d {
        SplitDirection::Across => a.width as int,
        SplitDirection::Down => a.height as int,
    }
}

/// Where `a` ends along `d`.
pub open spec fn end_along(a: Area, d: SplitDirection) -> int {
    start_along(a, d) + size_along(a, d)
}

/// Whether the right and bottom edges of `a` are terminal coordinates.
pub open spec fn fits_coordinates(a: Area) -> bool {
    a.x + a.width <= u16::MAX && a.y + a.height <= u16::MAX
}

/// `part` is a part of `area` split along `d`: it keeps the area's extent
/// across the split and lies within the area along it.
pub open spec fn part_of(part: Area, area: Area, d: SplitDirection) -> bool {
    &&& match d {
        SplitDirection::Across => part.y == area.y && part.height == area.height,
        SplitDirection::Down => part.x == area.x && part.width == area.width,
    }
    &&& start_along(area, d) <= start_along(part, d)
    &&& end_along(part, d) <= end_along(area, d)
}

/// The sum of the sizes `hs`.
pub open spec fn sum_u16(hs: Seq<u16>) -> int
    decreases hs.len(),
{
    if hs.len() == 0 {
        0
    } else {
        sum_u16(hs.drop_last()) + hs.last()
    }
}

/// A constraint of exactly `h` cells for each size in `hs`.
pub open spec fn length_constraints(hs: Seq<u16>) -> Seq<SplitConstraint> {
    hs.map_values(|h: u16| SplitConstraint::Length(h))
}

/// The constraints that centre a part of `n` cells between two equal fills.
pub open spec fn centering_spec(n: u16) -> Seq<SplitConstraint> {
    seq![SplitConstraint::Fill(1), SplitConstraint::Length(n), SplitConstraint::Fill(1)]
}

/// `parts` lie end to end along `d` from the start of `area`, each of its
/// size in `hs`.
pub open spec fn end_to_end(parts: Seq<Area>, area: Area, d: SplitDirection, hs: Seq<u16>) -> bool {
    &&& parts.len() == hs.len()
    &&& parts.len() > 0 ==> start_along(parts[0], d) == start_along(area, d)
    &&& forall|i: int| #![trigger parts[i]] 0 <= i < parts.len() ==> size_along(parts[i], d) == hs[i]
    &&& forall|i: int|
        #![trigger parts[i + 1]]
        0 <= i < parts.len() - 1 ==> start_along(parts[i + 1], d) == end_along(parts[i], d)
}

/// A span of `size` cells from `start` lies centred in the span of `outer`
/// cells from `outer_start`: the room left before it and after it differ by
/// at most one cell.
pub open spec fn centred_in(outer_start: int, outer: int, start: int, size: int) -> bool {
    let before = start - outer_start;
    let after = (outer_start + outer) - (start + size);
    -1 <= before - after <= 1
}

/// Three parts of `area` along `d` fill it end to end, the middle one of `n`
/// cells and centred.
pub open spec fn centred_between_fills(parts: Seq<Area>, area: Area, d: SplitDirection, n: u16) -> bool {
    &&& parts.len() == 3
    &&& start_along(parts[0], d) == start_along(area, d)
    &&& start_along(parts[1], d) == end_along(parts[0], d)
    &&& size_along(parts[1], d) == n
    &&& start_along(parts[2], d) == end_along(parts[1], d)
    &&& end_along(parts[2], d) == end_along(area, d)
    &&& centred_in(start_along(area, d), size_along(area, d), start_along(parts[1], d), n as int)
}

/// Calls `ratatui::layout::Layout::split` on `area` with these constraints,
/// in this direction, with the layout's defaults: no margin, no spacing, and
/// parts aligned to the start. `area` must fit the terminal's coordinates, so
/// that `Rect::new` keeps its size. As the layout's source and documentation
/// show, the result has one part per constraint; each keeps the area's extent
/// across the split and lies within the area along it (the solver's required
/// constraints keep every boundary between the area's ends); when every
/// constraint is a length and the lengths fit, the parts lie end to end from
/// the start of the area, each of its length; and a length between two equal
/// fills, when it fits, is that long, with the fills taking the rest equally,
/// to a cell. Where lengths do not fit, how the solver settles the conflict is
/// not stated: its answer then depends on the order in which its tables are
/// walked.
#[verifier::external_body]
fn layout_split(area: Area, direction: SplitDirection, constraints: &Vec<SplitConstraint>) -> (r: Vec<
    Area,
>)
    requires
        fits_coordinates(area),
    ensures
        r@.len() == constraints@.len(),
        forall|i: int| #![trigger r@[i]] 0 <= i < r@.len() ==> part_of(r@[i], area, direction),
        forall|hs: Seq<u16>|
            constraints@ == #[trigger] length_constraints(hs) && sum_u16(hs) <= size_along(area, direction)
                ==> end_to_end(r@, area, direction, hs),
        forall|n: u16|
            constraints@ == #[trigger] centering_spec(n) && n <= size_along(area, direction)
                ==> centred_between_fills(r@, area, direction, n),
{
    let direction = match direction {
        SplitDirection::Across => Direction::Horizontal,
        SplitDirection::Down => Direction::Vertical,
    };
    let parts = Layout::default().direction(direction).constraints(constraints.iter().map(|c| match c {
        SplitConstraint::Length(n) => Constraint::Length(*n),
        SplitConstraint::Fill(n) => Constraint::Fill(*n),
    })).split(Rect::new(area.x, area.y, area.width, area.height));
    parts.iter().map(|r| Area { x: r.x, y: r.y, width: r.width, height: r.height }).collect()
}

fn centering(size: u16) -> (r: Vec<SplitConstraint>)
    ensures
        r@ == centering_spec(size),
{
    let r = vec![SplitConstraint::Fill(1), SplitConstraint::Length(size), SplitConstraint::Fill(1)];
    assert(r@ =~= centering_spec(size));
    r
}

/// The area of `width` by `height` centred in `area`: the middle part across,
/// between two equal fills, then the middle part of that down. It lies in
/// `area`; it is `width` wide and centred across, and, when `height` fits, it
/// is that high and centred down.
fn centered_area(area: Area, width: u16, height: u16) -> (r: Area)
    requires
        fits_coordinates(area),
        width <= area.width,
    ensures
        area.x <= r.x && r.x + r.width <= area.x + area.width,
        area.y <= r.y && r.y + r.height <= area.y + area.height,
        r.width == width && centred_in(area.x as int, area.width as int, r.x as int, width as int),
        height <= area.height ==> r.height == height && centred_in(
            area.y as int,
            area.height as int,
            r.y as int,
            height as int,
        ),
{
    let across = layout_split(area, SplitDirection::Across, &centering(width));
    assert(centred_between_fills(across@, area, SplitDirection::Across, width));
    assert(part_of(across@[1], area, SplitDirection::Across));
    let middle = across[1];
    let down = layout_split(middle, SplitDirection::Down, &centering(height));
    assert(part_of(down@[1], middle, SplitDirection::Down));
    if height <= middle.height {
        assert(centred_between_fills(down@, middle, SplitDirection::Down, height));
    }
    down[1]
}

/// The areas of rows of these heights, stacked down `area`: one per height,
/// each as wide as `area`, in its column, and within it; and, when the
/// heights fit, end to end from its top, each of its height.
fn stacked_rows(area: Area, heights: &Vec<u16>) -> (r: Vec<Area>)
    requires
        fits_coordinates(area),
    ensures
        r@.len() == heights@.len(),
        forall|i: int| #![trigger r@[i]] 0 <= i < r@.len() ==> part_of(r@[i], area, SplitDirection::Down),
        sum_u16(heights@) <= area.height ==> end_to_end(r@, area, SplitDirection::Down, heights@),
{
    let mut constraints: Vec<SplitConstraint> = Vec::new();
    let mut i: usize = 0;
    while i < heights.len()
        invariant
            i <= heights.len(),
            constraints@ == length_constraints(heights@.take(i as int)),
        decreases heights.len() - i,
    {
        constraints.push(SplitConstraint::Length(heights[i]));
        i = i + 1;
        assert(constraints@ =~= length_constraints(heights@.take(i as int)));
    }
    assert(heights@.take(heights.len() as int) =~= heights@);
    layout_split(area, SplitDirection::Down, &constraints)
}

/// `area` shrunk by a margin on each side, as `ratatui`'s `Rect::inner` does:
/// an empty area at the origin when the margins do not fit.
pub open spec fn inner_spec(area: Area, horizontal: u16, vertical: u16) -> Area {
    let dh = if 2 * horizontal <= u16::MAX {
        (2 * horizontal) as u16
    } else {
        u16::MAX
    };
    let dv = if 2 * vertical <= u16::MAX {
        (2 * vertical) as u16
    } else {
        u16::MAX
    };
    if area.width < dh || area.height < dv {
        Area { x: 0, y: 0, width: 0, height: 0 }
    } else {
        Area {
            x: sat_add_u16(area.x, horizontal),
            y: sat_add_u16(area.y, vertical),
            width: (area.width - dh) as u16,
            height: (area.height - dv) as u16,
        }
    }
}

/// `area` shrunk by a margin on each side.
pub fn inner_area(area: Area, horizontal: u16, vertical: u16) -> (r: Area)
    ensures
        r == inner_spec(area, horizontal, vertical),
{
    let dh: u16 = if horizontal <= u16::MAX / 2 {
        2 * horizontal
    } else {
        u16::MAX
    };
    let dv: u16 = if vertical <= u16::MAX / 2 {
        2 * vertical
    } else {
        u16::MAX
    };
    if area.width < dh || area.height < dv {
        Area { x: 0, y: 0, width: 0, height: 0 }
    } else {
        Area {
            x: area.x.saturating_add(horizontal),
            y: area.y.saturating_add(vertical),
            width: area.width - dh,
            height: area.height - dv,
        }
    }
}

/// A surface of the dashboard: its content, and the one-line edges drawn
/// above and below it.
#[derive(Debug, Clone, Copy, PartialEq, Eq)]
pub struct PanelLayout {
    pub content: Area,
    pub top_edge: Area,
    pub bottom_edge: Area,
}

/// The surface in `area` with this much horizontal padding: the edges are
/// its first and last lines.
pub open spec fn surface_spec(area: Area, horizontal_padding: u16) -> PanelLayout {
    PanelLayout {
        content: inner_spec(area, horizontal_padding, 1),
        top_edge: Area { x: area.x, y: area.y, width: area.width, height: 1 },
        bottom_edge: Area {
            x: area.x,
            y: sat_sub_u16(sat_add_u16(area.y, area.height), 1),
            width: area.width,
            height: 1,
        },
    }
}

impl PanelLayout {
    /// The surface in `area` with this much horizontal padding.
    pub fn new(area: Area, horizontal_padding: u16) -> (r: Self)
        ensures
            r == surface_spec(area, horizontal_padding),
    {
        PanelLayout {
            content: inner_area(area, horizontal_padding, 1),
            top_edge: Area { x: area.x, y: area.y, width: area.width, height: 1 },
            bottom_edge: Area {
                x: area.x,
                y: area.y.saturating_add(area.height).saturating_sub(1),
                width: area.width,
                height: 1,
            },
        }
    }
}

/// Where each part of the dashboard goes.
#[derive(Debug, Clone, Copy, PartialEq, Eq)]
pub struct DashboardLayout {
    pub container: PanelLayout,
    pub input: PanelLayout,
    pub summary: PanelLayout,
    pub list: PanelLayout,
    pub actions: PanelLayout,
    pub help: PanelLayout,
}

/// The sizes that the layout settles on.
#[derive(Debug, Clone, Copy, PartialEq, Eq)]
pub struct LayoutSizes {
    pub input_content_height: u16,
    pub list_content_height: u16,
    pub outer_width: u16,
    pub outer_height: u16,
}

/// The outer width: nothing without room, all the room when it is under
/// forty columns, and otherwise the desired width within forty and the room.
pub open spec fn clamp_outer_width_spec(desired_width: u16, max_width: u16) -> u16 {
    if max_width == 0 {
        0
    } else if max_width < 40 {
        max_width
    } else {
        max_u16(min_u16(desired_width, max_width), 40)
    }
}

/// The outer width.
pub fn clamp_outer_width(desired_width: u16, max_width: u16) -> (r: u16)
    ensures
        r == clamp_outer_width_spec(desired_width, max_width),
{
    if max_width == 0 {
        return 0;
    }
    if max_width < 40 {
        return max_width;
    }
    let w = if desired_width <= max_width {
        desired_width
    } else {
        max_width
    };
    larger_u16(w, 40)
}

/// The sizes of the dashboard in a terminal of `area_width` by `area_height`:
/// the input panel shows one or two lines; the list as many as it has (at
/// least three) within the room the other panels leave (at least three); the
/// height is what the panels need within the terminal, but never under the
/// least that they need (or the terminal, when that is smaller); the width is
/// the content's with padding, clamped to the terminal less a margin.
pub open spec fn layout_sizes_spec(
    area_width: u16,
    area_height: u16,
    input_rows: u16,
    list_lines: usize,
    content_width: u16,
) -> LayoutSizes {
    let input = if input_rows < 1 {
        1u16
    } else if input_rows > 2 {
        2u16
    } else {
        input_rows
    };
    let non_list = input + 15;
    let lines = (if list_lines >= 3 {
        list_lines
    } else {
        3usize
    }) as u16;
    let list = max_u16(min_u16(lines, sat_sub_u16(area_height, non_list as u16)), 3);
    let min_height = min_u16((input + 20) as u16, max_u16(area_height, 1));
    let desired_height = non_list + list + 2;
    let outer_height = max_u16(
        if desired_height <= area_height {
            desired_height as u16
        } else {
            area_height
        },
        min_height,
    );
    let desired_width = sat_add_u16(sat_add_u16(content_width, 2), 4);
    LayoutSizes {
        input_content_height: input,
        list_content_height: list,
        outer_width: clamp_outer_width_spec(desired_width, sat_sub_u16(area_width, 2)),
        outer_height,
    }
}

/// The sizes of the dashboard in a terminal of this size.
pub fn layout_sizes(
    area_width: u16,
    area_height: u16,
    input_rows: u16,
    list_lines: usize,
    content_width: u16,
) -> (r: LayoutSizes)
    requires
        area_height <= u16::MAX - 2,
    ensures
        r == layout_sizes_spec(area_width, area_height, input_rows, list_lines, content_width),
{
    let input: u16 = if input_rows < 1 {
        1
    } else if input_rows > 2 {
        2
    } else {
        input_rows
    };
    let non_list: u16 = input + 15;
    let lines: u16 = (if list_lines >= 3 {
        list_lines
    } else {
        3
    }) as u16;
    let room = area_height.saturating_sub(non_list);
    let list = larger_u16(
        if lines <= room {
            lines
        } else {
            room
        },
        3,
    );
    let min_height = if input + 20 <= larger_u16(area_height, 1) {
        input + 20
    } else {
        larger_u16(area_height, 1)
    };
    let desired_height: u16 = non_list + list + 2;
    let outer_height = larger_u16(
        if desired_height <= area_height {
            desired_height
        } else {
            area_height
        },
        min_height,
    );
    let desired_width = content_width.saturating_add(2).saturating_add(4);
    LayoutSizes {
        input_content_height: input,
        list_content_height: list,
        outer_width: clamp_outer_width(desired_width, area_width.saturating_sub(2)),
        outer_height,
    }
}

/// The heights of the dashboard's panel rows, from the top: the input panel,
/// the summary, the list, the actions and the help, each its content with an
/// edge above and below.
pub open spec fn panel_heights_spec(sizes: LayoutSizes) -> Seq<u16> {
    seq![
        sat_add_u16(sizes.input_content_height, 2),
        3u16,
        sat_add_u16(sizes.list_content_height, 2),
        5u16,
        3u16,
    ]
}

/// The heights of the dashboard's panel rows, from the top.
pub fn panel_heights(sizes: &LayoutSizes) -> (r: Vec<u16>)
    ensures
        r@ == panel_heights_spec(*sizes),
{
    let mut r: Vec<u16> = Vec::new();
    r.push(sizes.input_content_height.saturating_add(2));
    r.push(3);
    r.push(sizes.list_content_height.saturating_add(2));
    r.push(5);
    r.push(3);
    assert(r@ =~= panel_heights_spec(*sizes));
    r
}

/// The dashboard laid out from the area that its container takes and the five
/// rows, from the top, that the container's content is split into: the
/// container with two columns of padding, and the input, summary, list, action
/// and help panels in these rows, each with one column of padding.
pub open spec fn layout_from_parts_spec(outer: Area, rows: Seq<Area>) -> DashboardLayout {
    DashboardLayout {
        container: surface_spec(outer, 2),
        input: surface_spec(rows[0], 1),
        summary: surface_spec(rows[1], 1),
        list: surface_spec(rows[2], 1),
        actions: surface_spec(rows[3], 1),
        help: surface_spec(rows[4], 1),
    }
}

/// The dashboard laid out from the area that its container takes and the rows
/// of its panels.
pub fn layout_from_parts(outer: Area, rows: &Vec<Area>) -> (r: DashboardLayout)
    requires
        rows@.len() == 5,
    ensures
        r == layout_from_parts_spec(outer, rows@),
{
    DashboardLayout {
        container: PanelLayout::new(outer, 2),
        input: PanelLayout::new(rows[0], 1),
        summary: PanelLayout::new(rows[1], 1),
        list: PanelLayout::new(rows[2], 1),
        actions: PanelLayout::new(rows[3], 1),
        help: PanelLayout::new(rows[4], 1),
    }
}

/// `r` is the dashboard laid out from `outer` and the five panel `rows`, each
/// row as wide as the container's content and starting in its column.
pub open spec fn laid_out_from(r: DashboardLayout, outer: Area, rows: Seq<Area>) -> bool {
    &&& rows.len() == 5
    &&& r == layout_from_parts_spec(outer, rows)
    &&& forall|i: int|
        #![trigger rows[i]]
        0 <= i < 5 ==> rows[i].x == surface_spec(outer, 2).content.x && rows[i].width == surface_spec(
            outer,
            2,
        ).content.width
}

/// Where the dashboard's container (`outer`) and the rows of its panels lie in
/// `area`, for these sizes: the container lies in the area, is as wide as the
/// sizes say and centred across, and, when its height fits, is that high and
/// centred down; the five rows are as wide as the container's content, in its
/// column and within it, and, when the panel heights fit, they lie end to end
/// from its top, each of its panel's height.
pub open spec fn dashboard_placement(area: Area, sizes: LayoutSizes, outer: Area, rows: Seq<Area>) -> bool {
    let content = surface_spec(outer, 2).content;
    &&& area.x <= outer.x && outer.x + outer.width <= area.x + area.width
    &&& area.y <= outer.y && outer.y + outer.height <= area.y + area.height
    &&& outer.width == sizes.outer_width
    &&& centred_in(area.x as int, area.width as int, outer.x as int, outer.width as int)
    &&& sizes.outer_height <= area.height ==> outer.height == sizes.outer_height && centred_in(
        area.y as int,
        area.height as int,
        outer.y as int,
        outer.height as int,
    )
    &&& rows.len() == 5
    &&& forall|i: int| #![trigger rows[i]] 0 <= i < 5 ==> part_of(rows[i], content, SplitDirection::Down)
    &&& sum_u16(panel_heights_spec(sizes)) <= content.height ==> end_to_end(
        rows,
        content,
        SplitDirection::Down,
        panel_heights_spec(sizes),
    )
}

/// Where each part of the dashboard goes in `area`: the sizes are those of
/// `layout_sizes`; the container, of that size, is centred in `area` between
/// equal fills, and its content is split into rows of `panel_heights`; the
/// panels are laid out from these parts as `layout_from_parts` does, and the
/// parts lie as `dashboard_placement` says. The container's width always
/// fits; its height fits whenever the terminal has a line.
pub fn compute_layout(area: Area, input_rows: u16, list_lines: usize, content_width: u16) -> (r:
    DashboardLayout)
    requires
        area.height <= u16::MAX - 2,
        fits_coordinates(area),
    ensures
        exists|outer: Area, rows: Seq<Area>|
            #[trigger] laid_out_from(r, outer, rows) && dashboard_placement(
                area,
                layout_sizes_spec(area.width, area.height, input_rows, list_lines, content_width),
                outer,
                rows,
            ),
        area.height >= 1 ==> layout_sizes_spec(
            area.width,
            area.height,
            input_rows,
            list_lines,
            content_width,
        ).outer_height <= area.height,
{
    let sizes = layout_sizes(area.width, area.height, input_rows, list_lines, content_width);
    let outer = centered_area(area, sizes.outer_width, sizes.outer_height);
    let container = PanelLayout::new(outer, 2);
    let heights = panel_heights(&sizes);
    let rows = stacked_rows(container.content, &heights);
    let r = layout_from_parts(outer, &rows);
    assert(laid_out_from(r, outer, rows@));
    assert(dashboard_placement(area, sizes, outer, rows@));
    r
}


/// A group title as a rule across `width` columns: the title between spaces,
/// centred between runs of `─`, the extra one on the right; the spaced title
/// alone when it does not fit.
pub open spec fn group_rule_spec(title: Seq<char>, width: usize) -> Seq<char> {
    let label = " "@ + title + " "@;
    let w = display_width_spec(label);
    let total = if width >= w {
        (width - w) as nat
    } else {
        0nat
    };
    let left = total / 2;
    repeat_char('─', left) + label + repeat_char('─', (total - left) as nat)
}

/// A group title as a rule across `width` columns.
pub fn group_rule(title: &str, width: usize) -> (r: String)
    ensures
        r@ == group_rule_spec(title@, width),
{
    let mut label = copy_str(" ");
    append_str(&mut label, title);
    append_str(&mut label, " ");
    let w = display_width(label.as_str());
    let total: usize = if width >= w {
        width - w
    } else {
        0
    };
    let left = total / 2;
    let right = total - left;
    let mut r = String::new();
    push_repeated(&mut r, '─', left);
    append_str(&mut r, label.as_str());
    push_repeated(&mut r, '─', right);
    assert(r@ =~= repeat_char('─', left as nat) + label@ + repeat_char('─', right as nat));
    r
}

/// What a line of the session table shows.
#[derive(Debug, Clone, Copy, PartialEq, Eq)]
pub enum TableLineKind {
    /// The column headers.
    Header,
    /// A group's title.
    GroupTitle,
    /// The row at this position among the rows shown.
    Session(usize),
    /// The blank line before the totals.
    Blank,
    /// The totals.
    Totals,
}

/// A line of the session table.
#[derive(Debug, Clone, PartialEq, Eq)]
pub struct TableLine {
    pub kind: TableLineKind,
    pub text: String,
}

/// The line of the session table for one row.
pub open spec fn row_text_spec(row: DashboardRow, w: ColumnWidths) -> Seq<char> {
    column_row_spec(
        int_decimal(row.session_id as int),
        row.name@,
        status_label_spec(row.status),
        memory_label_spec(row),
        row.directory@,
        w,
    )
}

/// The header line of the session table.
pub open spec fn header_text_spec(w: ColumnWidths) -> Seq<char> {
    column_row_spec("ID"@, "NAME"@, "STATUS"@, "MEMORY"@, "DIRECTORY"@, w)
}

/// The lines of one group: its title as a rule as wide as the header, then
/// its rows, the first of them at position `first`.
pub open spec fn group_block_spec(g: DashboardGroup, first: nat, w: ColumnWidths, rule_width: usize) -> Seq<
    (TableLineKind, Seq<char>),
> {
    let title = match g.title {
        Some(t) => seq![(TableLineKind::GroupTitle, group_rule_spec(t@, rule_width))],
        None => Seq::empty(),
    };
    title + Seq::new(
        g.sessions@.len(),
        |i: int| (TableLineKind::Session((first + i) as usize), row_text_spec(g.sessions@[i], w)),
    )
}

/// The lines of the groups, one group after another.
pub open spec fn group_lines_spec(groups: Seq<DashboardGroup>, w: ColumnWidths, rule_width: usize) -> Seq<
    (TableLineKind, Seq<char>),
>
    decreases groups.len(),
{
    if groups.len() == 0 {
        Seq::empty()
    } else {
        group_lines_spec(groups.drop_last(), w, rule_width) + group_block_spec(
            groups.last(),
            row_count(groups.drop_last()),
            w,
            rule_width,
        )
    }
}

/// The session table: the header, the groups' lines, a blank line, and the
/// totals over `scope`.
pub open spec fn table_lines_spec(
    groups: Seq<DashboardGroup>,
    totals: DashboardSummary,
    scope: Seq<char>,
    w: ColumnWidths,
) -> Seq<(TableLineKind, Seq<char>)> {
    let header = header_text_spec(w);
    seq![(TableLineKind::Header, header)] + group_lines_spec(groups, w, dw(header)) + seq![
        (TableLineKind::Blank, Seq::<char>::empty()),
        (
            TableLineKind::Totals,
            column_row_spec(
                decimal(totals.filtered_sessions as nat),
                "total sessions"@,
                decimal(totals.filtered_running as nat),
                format_memory_spec(totals.filtered_memory_bytes),
                scope,
                w,
            ),
        ),
    ]
}

/// The kind and text of each line.
pub open spec fn table_line_views(lines: Seq<TableLine>) -> Seq<(TableLineKind, Seq<char>)> {
    lines.map_values(|l: TableLine| (l.kind, l.text@))
}

fn row_text(row: &DashboardRow, w: &ColumnWidths) -> (r: String)
    ensures
        r@ == row_text_spec(*row, *w),
{
    let id = i64_to_string(row.session_id);
    let memory = row.memory_label();
    format_column_row(
        id.as_str(),
        row.name.as_str(),
        row.status_label(),
        memory.as_str(),
        row.directory.as_str(),
        w,
    )
}

/// The lines of the session table for these groups and totals.
pub fn table_lines(
    groups: &Vec<DashboardGroup>,
    totals: &DashboardSummary,
    scope_label: &str,
    widths: &ColumnWidths,
) -> (r: Vec<TableLine>)
    requires
        row_count(groups@) <= usize::MAX,
    ensures
        table_line_views(r@) == table_lines_spec(groups@, *totals, scope_label@, *widths),
{
    let header = format_column_row("ID", "NAME", "STATUS", "MEMORY", "DIRECTORY", widths);
    let rule_width = display_width(header.as_str());
    let ghost rw = rule_width;
    let mut out: Vec<TableLine> = Vec::new();
    out.push(TableLine { kind: TableLineKind::Header, text: header });
    let ghost head = seq![(TableLineKind::Header, header_text_spec(*widths))];
    let mut position: usize = 0;
    let mut g: usize = 0;
    assert(groups@.take(0) =~= Seq::<DashboardGroup>::empty());
    assert(table_line_views(out@) =~= head + group_lines_spec(groups@.take(0), *widths, rw));
    while g < groups.len()
        invariant
            g <= groups.len(),
            rw == rule_width,
            rule_width == dw(header_text_spec(*widths)),
            row_count(groups@) <= usize::MAX,
            head == seq![(TableLineKind::Header, header_text_spec(*widths))],
            position == row_count(groups@.take(g as int)),
            table_line_views(out@) == head + group_lines_spec(groups@.take(g as int), *widths, rw),
        decreases groups.len() - g,
    {
        let group = &groups[g];
        let ghost before = table_line_views(out@);
        let ghost t = groups@.take(g as int);
        let ghost t1 = groups@.take(g + 1);
        proof {
            assert(t1.drop_last() =~= t);
            assert(t1.last() == groups@[g as int]);
            lemma_row_count_take(groups@, g + 1);
        }
        let ghost title_part = match groups@[g as int].title {
            Some(ti) => seq![(TableLineKind::GroupTitle, group_rule_spec(ti@, rw))],
            None => Seq::<(TableLineKind, Seq<char>)>::empty(),
        };
        match &group.title {
            Some(title) => {
                let rule = group_rule(title.as_str(), rule_width);
                out.push(TableLine { kind: TableLineKind::GroupTitle, text: rule });
            },
            None => {},
        }
        assert(table_line_views(out@) =~= before + title_part);
        let ghost rows_part = Seq::new(
            group.sessions@.len(),
            |i: int| (TableLineKind::Session((position + i) as usize), row_text_spec(group.sessions@[i], *widths)),
        );
        let mut j: usize = 0;
        while j < group.sessions.len()
            invariant
                j <= group.sessions.len(),
                group == &groups@[g as int],
                position + group.sessions@.len() <= usize::MAX,
                rows_part == Seq::new(
                    group.sessions@.len(),
                    |i: int| (TableLineKind::Session((position + i) as usize), row_text_spec(group.sessions@[i], *widths)),
                ),
                table_line_views(out@) =~= before + title_part + rows_part.take(j as int),
            decreases group.sessions.len() - j,
        {
            let ghost prev = out@;
            let text = row_text(&group.sessions[j], widths);
            out.push(TableLine { kind: TableLineKind::Session(position + j), text });
            assert(table_line_views(out@) =~= table_line_views(prev).push(rows_part[j as int]));
            j = j + 1;
            assert(rows_part.take(j as int) =~= rows_part.take(j - 1).push(rows_part[j - 1]));
        }
        assert(rows_part.take(j as int) =~= rows_part);
        assert(group_block_spec(groups@[g as int], position as nat, *widths, rw) =~= title_part + rows_part);
        assert(table_line_views(out@) =~= head + group_lines_spec(t1, *widths, rw));
        position = position + group.sessions.len();
        g = g + 1;
    }
    assert(groups@.take(groups.len() as int) =~= groups@);
    let ghost mid = table_line_views(out@);
    out.push(TableLine { kind: TableLineKind::Blank, text: String::new() });
    let sessions = usize_to_string(totals.filtered_sessions);
    let running = usize_to_string(totals.filtered_running);
    let memory = format_memory(totals.filtered_memory_bytes);
    let totals_text = format_column_row(
        sessions.as_str(),
        "total sessions",
        running.as_str(),
        memory.as_str(),
        scope_label,
        widths,
    );
    out.push(TableLine { kind: TableLineKind::Totals, text: totals_text });
    assert(table_line_views(out@) =~= table_lines_spec(groups@, *totals, scope_label@, *widths));
    out
}

proof fn lemma_row_count_take(groups: Seq<DashboardGroup>, n: int)
    requires
        0 <= n <= groups.len(),
    ensures
        row_count(groups.take(n)) <= row_count(groups),
    decreases groups.len(),
{
    if n < groups.len() {
        assert(groups.drop_last().take(n) =~= groups.take(n));
        lemma_row_count_take(groups.drop_last(), n);
    } else {
        assert(groups.take(n) =~= groups);
    }
}

proof fn lemma_view_rows_len(groups: Seq<DashboardGroup>)
    ensures
        view_rows(groups).len() == row_count(groups),
    decreases groups.len(),
{
    if groups.len() > 0 {
        lemma_view_rows_len(groups.drop_last());
    }
}

/// The widest of the lines, as the dashboard measures them; zero for none.
pub open spec fn widest_line(lines: Seq<(TableLineKind, Seq<char>)>) -> u16
    decreases lines.len(),
{
    if lines.len() == 0 {
        0
    } else {
        max_u16(widest_line(lines.drop_last()), line_width(lines.last().1))
    }
}

/// The width of a session table: its widest line.
pub open spec fn table_width_spec(
    groups: Seq<DashboardGroup>,
    totals: DashboardSummary,
    scope: Seq<char>,
    w: ColumnWidths,
) -> u16 {
    widest_line(table_lines_spec(groups, totals, scope, w))
}

/// The width of the session table that a state shows: its widest line.
pub open spec fn view_session_width_spec(state: DashboardState, w: ColumnWidths) -> u16 {
    table_width_spec(
        state.view.groups@,
        state.view.totals,
        totals_scope_label_spec(state.input_mode, state.input_text@),
        w,
    )
}

/// The width of the session table that a state shows: the widest of its
/// header, its group titles and rows, and its totals line.
pub fn session_content_width(state: &DashboardState, widths: &ColumnWidths) -> (r: u16)
    ensures
        r == view_session_width_spec(*state, *widths),
{
    // The rows shown fit in a vector, so their count fits in a `usize`.
    let _shown_count = state.view.sessions().len();
    proof {
        lemma_view_rows_len(state.view.groups@);
    }
    let lines = table_lines(&state.view.groups, &state.view.totals, state.totals_scope_label(), widths);
    let ghost views = table_line_views(lines@);
    let mut widest: u16 = 0;
    let mut i: usize = 0;
    while i < lines.len()
        invariant
            i <= lines.len(),
            views == table_line_views(lines@),
            widest == widest_line(views.take(i as int)),
        decreases lines.len() - i,
    {
        proof {
            assert(views.take(i + 1).drop_last() =~= views.take(i as int));
            assert(views[i as int].1 == lines@[i as int].text@);
        }
        let w = display_width(lines[i].text.as_str()) as u16;
        widest = larger_u16(widest, w);
        i = i + 1;
    }
    assert(views.take(lines.len() as int) =~= views);
    widest
}

/// The dashboard's measures for the rows shown in these groups, with these
/// totals, for this input: the column widths over the rows shown and the
/// totals, and the content width, the widest of the summary line, the session
/// table, the action bar and the help line, and at least forty.
pub open spec fn shown_metrics_spec(
    summary: DashboardSummary,
    groups: Seq<DashboardGroup>,
    totals: DashboardSummary,
    mode: InputMode,
    text: Seq<char>,
) -> HorizontalMetrics {
    let w = column_widths_spec(view_rows(groups), totals);
    let s = summary_for_view_spec(summary, view_rows(groups), mode, text);
    let table = table_width_spec(groups, totals, totals_scope_label_spec(mode, text), w);
    HorizontalMetrics {
        column_widths: w,
        content_width: max_u16(
            max_u16(
                max_u16(max_u16(line_width(summary_text_spec(s.attached, s.detached, s.saved)), table), 38),
                line_width(help_text_spec()),
            ),
            40,
        ),
    }
}

/// The dashboard's measures for what a state shows.
pub open spec fn horizontal_metrics_spec(state: DashboardState) -> HorizontalMetrics {
    shown_metrics_spec(
        state.snapshot.summary,
        state.view.groups@,
        state.view.totals,
        state.input_mode,
        state.input_text@,
    )
}

/// The dashboard's measures for what a state shows.
pub fn horizontal_metrics(state: &DashboardState) -> (r: HorizontalMetrics)
    ensures
        r == horizontal_metrics_spec(*state),
{
    let shown = state.view.sessions();
    let mut rows: Vec<DashboardRow> = Vec::new();
    let mut i: usize = 0;
    while i < shown.len()
        invariant
            i <= shown.len(),
            shown@.len() == view_rows(state.view.groups@).len(),
            forall|k: int| 0 <= k < shown@.len() ==> *(#[trigger] shown@[k]) == view_rows(state.view.groups@)[k],
            rows@ == view_rows(state.view.groups@).take(i as int),
        decreases shown.len() - i,
    {
        rows.push(shown[i].copy());
        i = i + 1;
        assert(rows@ =~= view_rows(state.view.groups@).take(i as int));
    }
    assert(view_rows(state.view.groups@).take(shown.len() as int) =~= view_rows(state.view.groups@));
    let widths = column_widths_for_rows(&rows, &state.view.totals);
    let summary = state.summary();
    let text = summary_text(summary.attached, summary.detached, summary.saved);
    let summary_width = display_width(text.as_str()) as u16;
    let session_width = session_content_width(state, &widths);
    let help_width = display_width(help_text()) as u16;
    let base = larger_u16(
        larger_u16(larger_u16(summary_width, session_width), actions_content_width()),
        help_width,
    );
    HorizontalMetrics { column_widths: widths, content_width: larger_u16(base, 40) }
}

/// The measures of the expansion candidate: the same as those of what the
/// state shows.
pub fn expansion_candidate_metrics(state: &DashboardState) -> (r: HorizontalMetrics)
    ensures
        r == horizontal_metrics_spec(*state),
{
    horizontal_metrics(state)
}

/// The dashboard's measures for what a state shows, with the list's height
/// for the rows shown.
pub fn dashboard_metrics(state: &DashboardState) -> (r: DashboardMetrics)
    requires
        state.rows().len() + 3 <= usize::MAX,
    ensures
        r.horizontal == horizontal_metrics_spec(*state),
        r.list_content_height == (state.rows().len() + 3) as u16,
{
    let count = state.view.sessions().len();
    DashboardMetrics {
        horizontal: horizontal_metrics(state),
        list_content_height: session_list_content_height(count),
    }
}

/// The measures that the dashboard draws with: while a filter is active, the
/// layout lock; otherwise those over all rows, widened to what is shown.
pub open spec fn drawn_horizontal_spec(state: DashboardState) -> HorizontalMetrics {
    match state.layout_lock {
        Some(l) => l,
        None => expanded_horizontal(unfiltered_horizontal_spec(state.snapshot), horizontal_metrics_spec(state)),
    }
}

/// Whether horizontal measures `a` fit within `b`.
pub open spec fn horizontal_fits_within(a: HorizontalMetrics, b: HorizontalMetrics) -> bool {
    &&& a.column_widths.id <= b.column_widths.id
    &&& a.column_widths.name <= b.column_widths.name
    &&& a.column_widths.status <= b.column_widths.status
    &&& a.column_widths.memory <= b.column_widths.memory
    &&& a.content_width <= b.content_width
}

/// The drawn layout always fits what is shown, and without a filter it fits
/// all rows as well.
pub proof fn law_drawn_layout_fits_what_is_shown(state: DashboardState)
    requires
        state.wf(),
    ensures
        horizontal_fits_within(horizontal_metrics_spec(state), drawn_horizontal_spec(state)),
        !is_active_filter_spec(state.input_mode, state.input_text@) ==> horizontal_fits_within(
            unfiltered_horizontal_spec(state.snapshot),
            drawn_horizontal_spec(state),
        ),
{
}

/// While a filter stays active the drawn layout never narrows: from one state
/// to the next (each key, and each refresh, keeps the lock growing) the earlier
/// measures fit within the later.
pub proof fn law_drawn_layout_never_narrows_while_filtering(before: DashboardState, after: DashboardState)
    requires
        before.wf(),
        after.wf(),
        is_active_filter_spec(before.input_mode, before.input_text@),
        is_active_filter_spec(after.input_mode, after.input_text@),
        lock_grows(before.layout_lock, after.layout_lock),
    ensures
        horizontal_fits_within(drawn_horizontal_spec(before), drawn_horizontal_spec(after)),
{
}

/// The filter that begins with a state's view locks the layout to the
/// measures over all rows, widened to what it shows.
pub proof fn law_filter_locks_layout_to_all_rows(before: DashboardState, after: DashboardState)
    requires
        before.wf(),
        !is_active_filter_spec(before.input_mode, before.input_text@),
        after.layout_lock == next_lock_spec(before.layout_lock, after),
        is_active_filter_spec(after.input_mode, after.input_text@),
    ensures
        horizontal_fits_within(unfiltered_horizontal_spec(after.snapshot), drawn_horizontal_spec(after)),
{
}

/// The measures that the dashboard draws with: the layout lock while a filter
/// is active, so that filtering never narrows the layout; otherwise those over
/// all rows, widened to what the state shows.
pub fn effective_horizontal_metrics(state: &DashboardState) -> (r: HorizontalMetrics)
    requires
        state.wf(),
    ensures
        r == drawn_horizontal_spec(*state),
{
    match state.layout_lock {
        Some(l) => l,
        None => {
            let frozen = unfiltered_horizontal_metrics(&state.snapshot);
            frozen.expanded_with(expansion_candidate_metrics(state))
        },
    }
}

} // verus!
