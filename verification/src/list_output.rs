//! The session list that `oc list` prints: one row per saved session, as an
//! aligned table with a header and a summary line, or as JSON.
use vstd::prelude::*;
use vstd::utf8::encode_utf8;

use crate::session::{public_label_spec, SessionListEntry};
use crate::text::{
    append_str, copy_str, decimal, i64_to_string, int_decimal, pad_left, pad_left_to, pad_right,
    pad_right_to, str_eq, usize_to_string,
};

verus! {

/// One row of the session list.
#[derive(Debug, Clone, PartialEq, Eq)]
pub struct SessionListRow {
    pub name: String,
    pub status: String,
    pub directory: String,
    pub session_id: Option<String>,
    pub saved_id: i64,
}

/// The widths of the table's columns, in bytes of UTF-8.
#[derive(Debug, Clone, Copy, PartialEq, Eq)]
pub struct ListColumnWidths {
    pub name: usize,
    pub status: usize,
    pub directory: usize,
    pub session_id: usize,
    pub saved_id: usize,
}

/// The length of a text in bytes of UTF-8, as `str::len` reports it.
pub open spec fn byte_length(s: Seq<char>) -> usize {
    encode_utf8(s).len() as usize
}

/// The larger of two widths.
pub open spec fn wider(a: usize, b: usize) -> usize {
    if a >= b {
        a
    } else {
        b
    }
}

/// What the session-ID column shows: the ID, or `(none)`.
pub open spec fn session_id_display_spec(session_id: Option<String>) -> Seq<char> {
    match session_id {
        Some(s) => s@,
        None => "(none)"@,
    }
}

/// The widths before any row: those of the headers, and for the name column
/// that of the empty-table marker `(no sessions)`.
pub open spec fn initial_widths() -> ListColumnWidths {
    ListColumnWidths { name: 13, status: 6, directory: 9, session_id: 10, saved_id: 2 }
}

/// The widths after taking one more row into account.
pub open spec fn widen(w: ListColumnWidths, row: SessionListRow) -> ListColumnWidths {
    ListColumnWidths {
        name: wider(w.name, byte_length(row.name@)),
        status: wider(w.status, byte_length(row.status@)),
        directory: wider(w.directory, byte_length(row.directory@)),
        session_id: wider(w.session_id, byte_length(session_id_display_spec(row.session_id))),
        saved_id: wider(w.saved_id, byte_length(int_decimal(row.saved_id as int))),
    }
}

/// The widths of the table for these rows: each column as wide as its widest
/// cell or header.
pub open spec fn table_widths(rows: Seq<SessionListRow>) -> ListColumnWidths
    decreases rows.len(),
{
    if rows.len() == 0 {
        initial_widths()
    } else {
        widen(table_widths(rows.drop_last()), rows.last())
    }
}

/// One line of the table: the first four cells padded on the right, the ID
/// padded on the left, two spaces between cells.
pub open spec fn table_line_spec(
    name: Seq<char>,
    status: Seq<char>,
    directory: Seq<char>,
    session_id: Seq<char>,
    saved_id: Seq<char>,
    w: ListColumnWidths,
) -> Seq<char> {
    pad_right(name, w.name as nat) + "  "@ + pad_right(status, w.status as nat) + "  "@ + pad_right(
        directory,
        w.directory as nat,
    ) + "  "@ + pad_right(session_id, w.session_id as nat) + "  "@ + pad_left(
        saved_id,
        w.saved_id as nat,
    )
}

/// The line of a row.
pub open spec fn row_line(row: SessionListRow, w: ListColumnWidths) -> Seq<char> {
    table_line_spec(
        row.name@,
        row.status@,
        row.directory@,
        session_id_display_spec(row.session_id),
        int_decimal(row.saved_id as int),
        w,
    )
}

/// How many rows have this status label.
pub open spec fn count_label(rows: Seq<SessionListRow>, label: Seq<char>) -> nat
    decreases rows.len(),
{
    if rows.len() == 0 {
        0
    } else {
        count_label(rows.drop_last(), label) + if rows.last().status@ == label {
            1nat
        } else {
            0nat
        }
    }
}

/// The last line: the number of sessions and how many are attached, detached
/// and saved.
pub open spec fn summary_line_spec(rows: Seq<SessionListRow>) -> Seq<char> {
    decimal(rows.len()) + " sessions: "@ + decimal(count_label(rows, "attached"@))
        + " attached, "@ + decimal(count_label(rows, "detached"@)) + " detached, "@ + decimal(
        count_label(rows, "saved"@),
    ) + " saved"@
}

/// The lines of the table: the header, a line per row (or the empty-table
/// marker when there is none) and the summary.
pub open spec fn table_lines(rows: Seq<SessionListRow>) -> Seq<Seq<char>> {
    let w = table_widths(rows);
    let header = table_line_spec("NAME"@, "STATUS"@, "DIRECTORY"@, "SESSION ID"@, "ID"@, w);
    let body = if rows.len() == 0 {
        seq![table_line_spec("(no sessions)"@, "-"@, "-"@, "-"@, "-"@, w)]
    } else {
        Seq::new(rows.len(), |i: int| row_line(rows[i], w))
    };
    seq![header] + body + seq![summary_line_spec(rows)]
}

/// Lines joined with line feeds between them.
pub open spec fn join_lines(lines: Seq<Seq<char>>) -> Seq<char>
    decreases lines.len(),
{
    if lines.len() == 0 {
        Seq::empty()
    } else if lines.len() == 1 {
        lines[0]
    } else {
        join_lines(lines.drop_last()) + "\n"@ + lines.last()
    }
}

/// The whole table: its lines joined, with a final line feed.
pub open spec fn render_table_spec(rows: Seq<SessionListRow>) -> Seq<char> {
    join_lines(table_lines(rows)) + "\n"@
}

impl SessionListRow {
    /// The row of an entry: its name, status label, directory, OpenCode
    /// session ID and numeric ID.
    pub fn from_entry(entry: SessionListEntry) -> (r: Self)
        ensures
            r.name == entry.saved_session.name,
            r.status@ == public_label_spec(entry.status),
            r.directory == entry.saved_session.directory,
            r.session_id == entry.saved_session.opencode_session_id,
            r.saved_id == entry.saved_session.id,
    {
        let status = copy_str(entry.status.public_label());
        let saved_session = entry.saved_session;
        SessionListRow {
            name: saved_session.name,
            status,
            directory: saved_session.directory,
            session_id: saved_session.opencode_session_id,
            saved_id: saved_session.id,
        }
    }

    /// What the session-ID column shows for this row.
    pub fn session_id_display(&self) -> (r: &str)
        ensures
            r@ == session_id_display_spec(self.session_id),
    {
        match &self.session_id {
            Some(s) => s.as_str(),
            None => "(none)",
        }
    }
}

/// The rows of the list, one per entry, in order.
pub fn rows_from_entries(entries: Vec<SessionListEntry>) -> (r: Vec<SessionListRow>)
    ensures
        r@.len() == entries@.len(),
        forall|i: int|
            0 <= i < entries@.len() ==> {
                &&& (#[trigger] r@[i]).name == entries@[i].saved_session.name
                &&& r@[i].status@ == public_label_spec(entries@[i].status)
                &&& r@[i].directory == entries@[i].saved_session.directory
                &&& r@[i].session_id == entries@[i].saved_session.opencode_session_id
                &&& r@[i].saved_id == entries@[i].saved_session.id
            },
{
    let mut r: Vec<SessionListRow> = Vec::new();
    let mut entries = entries;
    let total = entries.len();
    let ghost all = entries@;
    let mut taken: usize = 0;
    while entries.len() > 0
        invariant
            taken + entries@.len() == all.len(),
            all.len() <= usize::MAX,
            entries@ == all.skip(taken as int),
            r@.len() == taken,
            forall|i: int|
                0 <= i < taken ==> {
                    &&& (#[trigger] r@[i]).name == all[i].saved_session.name
                    &&& r@[i].status@ == public_label_spec(all[i].status)
                    &&& r@[i].directory == all[i].saved_session.directory
                    &&& r@[i].session_id == all[i].saved_session.opencode_session_id
                    &&& r@[i].saved_id == all[i].saved_session.id
                },
        decreases entries@.len(),
    {
        let entry = entries.remove(0);
        assert(entry == all[taken as int]);
        r.push(SessionListRow::from_entry(entry));
        taken = taken + 1;
        assert(entries@ =~= all.skip(taken as int));
    }
    r
}

fn table_widths_of(rows: &Vec<SessionListRow>) -> (w: ListColumnWidths)
    ensures
        w == table_widths(rows@),
{
    let mut w = ListColumnWidths { name: 13, status: 6, directory: 9, session_id: 10, saved_id: 2 };
    let mut i: usize = 0;
    while i < rows.len()
        invariant
            i <= rows.len(),
            w == table_widths(rows@.take(i as int)),
        decreases rows.len() - i,
    {
        let row = &rows[i];
        let id = i64_to_string(row.saved_id);
        let name_len = row.name.as_str().len();
        let status_len = row.status.as_str().len();
        let directory_len = row.directory.as_str().len();
        let session_id_len = row.session_id_display().len();
        let id_len = id.as_str().len();
        w = ListColumnWidths {
            name: if w.name >= name_len {
                w.name
            } else {
                name_len
            },
            status: if w.status >= status_len {
                w.status
            } else {
                status_len
            },
            directory: if w.directory >= directory_len {
                w.directory
            } else {
                directory_len
            },
            session_id: if w.session_id >= session_id_len {
                w.session_id
            } else {
                session_id_len
            },
            saved_id: if w.saved_id >= id_len {
                w.saved_id
            } else {
                id_len
            },
        };
        proof {
            assert(rows@.take(i + 1).drop_last() =~= rows@.take(i as int));
        }
        i = i + 1;
    }
    assert(rows@.take(rows.len() as int) =~= rows@);
    w
}

fn format_table_line(
    name: &str,
    status: &str,
    directory: &str,
    session_id: &str,
    saved_id: &str,
    w: ListColumnWidths,
) -> (s: String)
    ensures
        s@ == table_line_spec(name@, status@, directory@, session_id@, saved_id@, w),
{
    let mut s = pad_right_to(name, w.name);
    append_str(&mut s, "  ");
    let t = pad_right_to(status, w.status);
    append_str(&mut s, t.as_str());
    append_str(&mut s, "  ");
    let t = pad_right_to(directory, w.directory);
    append_str(&mut s, t.as_str());
    append_str(&mut s, "  ");
    let t = pad_right_to(session_id, w.session_id);
    append_str(&mut s, t.as_str());
    append_str(&mut s, "  ");
    let t = pad_left_to(saved_id, w.saved_id);
    append_str(&mut s, t.as_str());
    s
}

fn count_status(rows: &Vec<SessionListRow>, label: &str) -> (n: usize)
    ensures
        n as nat == count_label(rows@, label@),
{
    let mut n: usize = 0;
    let mut i: usize = 0;
    while i < rows.len()
        invariant
            i <= rows.len(),
            n as nat == count_label(rows@.take(i as int), label@),
            n <= i,
        decreases rows.len() - i,
    {
        assert(rows@.take(i + 1).drop_last() =~= rows@.take(i as int));
        if str_eq(rows[i].status.as_str(), label) {
            n = n + 1;
        }
        i = i + 1;
    }
    assert(rows@.take(rows.len() as int) =~= rows@);
    n
}

fn summary_line(rows: &Vec<SessionListRow>) -> (s: String)
    ensures
        s@ == summary_line_spec(rows@),
{
    let attached = count_status(rows, "attached");
    let detached = count_status(rows, "detached");
    let saved = count_status(rows, "saved");
    let mut s = usize_to_string(rows.len());
    append_str(&mut s, " sessions: ");
    let t = usize_to_string(attached);
    append_str(&mut s, t.as_str());
    append_str(&mut s, " attached, ");
    let t = usize_to_string(detached);
    append_str(&mut s, t.as_str());
    append_str(&mut s, " detached, ");
    let t = usize_to_string(saved);
    append_str(&mut s, t.as_str());
    append_str(&mut s, " saved");
    s
}

/// The table that `oc list` prints for these rows.
pub fn render_table(rows: &Vec<SessionListRow>) -> (s: String)
    ensures
        s@ == render_table_spec(rows@),
{
    let w = table_widths_of(rows);
    let ghost lines = table_lines(rows@);
    let mut s = format_table_line("NAME", "STATUS", "DIRECTORY", "SESSION ID", "ID", w);
    assert(s@ == join_lines(lines.take(1)));
    if rows.len() == 0 {
        append_str(&mut s, "\n");
        let t = format_table_line("(no sessions)", "-", "-", "-", "-", w);
        append_str(&mut s, t.as_str());
        assert(lines.take(2).drop_last() =~= lines.take(1));
        assert(s@ == join_lines(lines.take(2)));
    } else {
        let mut i: usize = 0;
        while i < rows.len()
            invariant
                i <= rows.len(),
                rows.len() > 0,
                w == table_widths(rows@),
                lines == table_lines(rows@),
                s@ == join_lines(lines.take(i + 1)),
            decreases rows.len() - i,
        {
            append_str(&mut s, "\n");
            let row = &rows[i];
            let id = i64_to_string(row.saved_id);
            let t = format_table_line(
                row.name.as_str(),
                row.status.as_str(),
                row.directory.as_str(),
                row.session_id_display(),
                id.as_str(),
                w,
            );
            append_str(&mut s, t.as_str());
            assert(lines.take(i + 2).drop_last() =~= lines.take(i + 1));
            assert(lines[i + 1] == row_line(rows@[i as int], w));
            i = i + 1;
        }
    }
    let body_count: usize = if rows.len() == 0 {
        1
    } else {
        rows.len()
    };
    append_str(&mut s, "\n");
    let t = summary_line(rows);
    append_str(&mut s, t.as_str());
    assert(lines.len() == body_count + 2);
    assert(lines.take(body_count + 2).drop_last() =~= lines.take(body_count + 1));
    assert(lines.take(body_count + 2) =~= lines);
    append_str(&mut s, "\n");
    s
}

/// The fields of a row that the JSON list holds: name, status, directory,
/// OpenCode session ID and numeric ID.
pub open spec fn row_fields(row: SessionListRow) -> (Seq<char>, Seq<char>, Seq<char>, Option<Seq<char>>, i64) {
    (
        row.name@,
        row.status@,
        row.directory@,
        match row.session_id {
            Some(s) => Some(s@),
            None => None,
        },
        row.saved_id,
    )
}

/// The JSON text that `serde_json::to_string_pretty` writes for a list of
/// objects, one per row, each with the row's fields under the keys `name`,
/// `status`, `directory`, `session_id` (null when there is none) and `id`.
pub uninterp spec fn session_rows_json(
    rows: Seq<(Seq<char>, Seq<char>, Seq<char>, Option<Seq<char>>, i64)>,
) -> Seq<char>;

/// Calls `serde_json::to_string_pretty` on the rows, each made a JSON object
/// of its fields; the result is the name above applied to the rows' fields.
/// Writing JSON values to text cannot fail, since every key is a string.
#[verifier::external_body]
fn rows_to_pretty_json(rows: &Vec<SessionListRow>) -> (r: String)
    ensures
        r@ == session_rows_json(rows@.map_values(|row: SessionListRow| row_fields(row))),
{
    let values: Vec<serde_json::Value> = rows.iter().map(|row| {
        let mut object = serde_json::Map::new();
        object.insert("name".into(), row.name.clone().into());
        object.insert("status".into(), row.status.clone().into());
        object.insert("directory".into(), row.directory.clone().into());
        object.insert("session_id".into(), row.session_id.clone().into());
        object.insert("id".into(), row.saved_id.into());
        serde_json::Value::Object(object)
    }).collect();
    serde_json::to_string_pretty(&values).unwrap_or_default()
}

/// The session list as `oc list --json` prints it: the rows as pretty JSON,
/// and a line feed.
pub fn render_json(rows: &Vec<SessionListRow>) -> (s: String)
    ensures
        s@ == session_rows_json(rows@.map_values(|row: SessionListRow| row_fields(row))) + "\n"@,
{
    let mut s = rows_to_pretty_json(rows);
    append_str(&mut s, "\n");
    s
}

} // verus!
