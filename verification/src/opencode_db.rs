//! What the tool reads from OpenCode's own database: the root sessions opened
//! in a directory, and the session that a running OpenCode process serves.
//! The queries are the caller's; this module decides what their results and
//! failures mean.
use vstd::prelude::*;

use crate::directory_identity::{directories_match, directories_match_spec, opt_str_view};
use crate::text::{contains, contains_seq, parse_u64, parse_unsigned, split_whitespace, str_eq, string_views, words};

verus! {

/// OpenCode's database, by path.
#[derive(Debug, Clone, PartialEq, Eq)]
pub struct OpenCodeDb {
    path: String,
}

impl OpenCodeDb {
    /// The database's path.
    pub closed spec fn path_spec(self) -> Seq<char> {
        self.path@
    }

    /// The database at `path`.
    pub fn new(path: String) -> (r: Self)
        ensures
            r.path_spec() == path@,
    {
        OpenCodeDb { path }
    }

    /// The database's path.
    pub fn path(&self) -> (r: &str)
        ensures
            r@ == self.path_spec(),
    {
        self.path.as_str()
    }
}

/// The root sessions of a directory, when the database could be read.
#[derive(Debug, Clone, PartialEq, Eq)]
pub enum RootSessionIdLookup {
    /// The IDs, each once.
    Available(Vec<String>),
    /// The database is busy or locked.
    Unavailable,
}

/// The session of a process, when the database could be read.
#[derive(Debug, Clone, PartialEq, Eq)]
pub enum ProcessSessionLookup {
    Available(ProcessSessionRowLookup),
    Unavailable,
}

/// Whether the `process_session` table exists.
#[derive(Debug, Clone, Copy, PartialEq, Eq, Structural)]
pub enum ProcessSessionTableLookup {
    Available,
    Missing,
    Unavailable,
}

/// What the `process_session` table says of a process.
#[derive(Debug, Clone, PartialEq, Eq)]
pub enum ProcessSessionRowLookup {
    /// The table is absent, so older OpenCode versions may still be matched by
    /// directory.
    TableMissing,
    /// The table has no row for the process, so matching by directory could
    /// pick the wrong session.
    RowMissing,
    /// The row exists but names no session yet.
    SessionIdMissing,
    /// The root session of the row's session.
    SessionId(String),
    /// The row describes an earlier process that had the same ID.
    Stale,
}

/// The result codes of SQLite that the tool tells apart.
#[derive(Debug, Clone, Copy, PartialEq, Eq, Structural)]
pub enum SqliteCode {
    DatabaseBusy,
    DatabaseLocked,
    ConstraintViolation,
    Other,
}

/// A failed database call, as the tool tells failures apart.
#[derive(Debug, Clone, PartialEq, Eq)]
pub enum SqliteErrorKind {
    /// A query for one row found none.
    QueryReturnedNoRows,
    /// SQLite refused the call with this code and message.
    Failure { code: SqliteCode, message: Option<String> },
    /// Any other failure.
    Other,
}

/// Whether a failure means that the database is busy or locked.
pub open spec fn is_unavailable_spec(e: SqliteErrorKind) -> bool {
    e matches SqliteErrorKind::Failure { code, .. } && (code == SqliteCode::DatabaseBusy || code
        == SqliteCode::DatabaseLocked)
}

/// Whether a failure means that OpenCode's `session` table does not exist.
pub open spec fn is_missing_session_table_spec(e: SqliteErrorKind) -> bool {
    e matches SqliteErrorKind::Failure { message: Some(m), .. } && contains_seq(
        m@,
        "no such table: session"@,
    )
}

/// Whether a failure means that the database is busy or locked.
pub fn is_unavailable_error(e: &SqliteErrorKind) -> (r: bool)
    ensures
        r == is_unavailable_spec(*e),
{
    match e {
        SqliteErrorKind::Failure { code, .. } => match code {
            SqliteCode::DatabaseBusy => true,
            SqliteCode::DatabaseLocked => true,
            _ => false,
        },
        _ => false,
    }
}

/// Whether a failure means that OpenCode's `session` table does not exist.
pub fn is_missing_session_table_error(e: &SqliteErrorKind) -> (r: bool)
    ensures
        r == is_missing_session_table_spec(*e),
{
    match e {
        SqliteErrorKind::Failure { message: Some(m), .. } => contains(
            m.as_str(),
            "no such table: session",
        ),
        _ => false,
    }
}

/// What opening the database failing means for a root-session lookup: busy or
/// locked is `Unavailable`; anything else is an error (`None`).
pub fn root_ids_on_open_error(e: &SqliteErrorKind) -> (r: Option<RootSessionIdLookup>)
    ensures
        r == (if is_unavailable_spec(*e) {
            Some(RootSessionIdLookup::Unavailable)
        } else {
            None
        }),
{
    if is_unavailable_error(e) {
        Some(RootSessionIdLookup::Unavailable)
    } else {
        None
    }
}

/// What preparing the root-session query failing means: no `session` table is
/// no session at all, busy or locked is `Unavailable`, and anything else an
/// error (`None`).
pub fn root_ids_on_prepare_error(e: &SqliteErrorKind) -> (r: Option<RootSessionIdLookup>)
    ensures
        is_missing_session_table_spec(*e) ==> (r matches Some(RootSessionIdLookup::Available(ids))
            && ids@.len() == 0),
        !is_missing_session_table_spec(*e) ==> r == (if is_unavailable_spec(*e) {
            Some(RootSessionIdLookup::Unavailable)
        } else {
            None
        }),
{
    if is_missing_session_table_error(e) {
        return Some(RootSessionIdLookup::Available(Vec::new()));
    }
    root_ids_on_open_error(e)
}

/// Whether some row names `id` and a directory that matches `directory`.
pub open spec fn matching_root_id(
    rows: Seq<(String, String)>,
    directory: Seq<char>,
    home: Option<Seq<char>>,
    current_directory: Option<Seq<char>>,
    id: Seq<char>,
) -> bool {
    exists|i: int|
        0 <= i < rows.len() && (#[trigger] rows[i]).0@ == id && directories_match_spec(
            rows[i].1@,
            directory,
            home,
            current_directory,
        )
}

/// The IDs of the root sessions whose directory matches `directory`, each
/// once, from the `(id, directory)` rows of the `session` table.
pub fn root_session_ids_matching(
    rows: &Vec<(String, String)>,
    directory: &str,
    home: Option<&str>,
    current_directory: Option<&str>,
) -> (r: Vec<String>)
    ensures
        string_views(r@).no_duplicates(),
        forall|id: Seq<char>|
            string_views(r@).contains(id) <==> matching_root_id(
                rows@,
                directory@,
                opt_str_view(home),
                opt_str_view(current_directory),
                id,
            ),
{
    let ghost h = opt_str_view(home);
    let ghost c = opt_str_view(current_directory);
    let mut r: Vec<String> = Vec::new();
    let mut i: usize = 0;
    while i < rows.len()
        invariant
            i <= rows.len(),
            h == opt_str_view(home),
            c == opt_str_view(current_directory),
            string_views(r@).no_duplicates(),
            forall|id: Seq<char>|
                string_views(r@).contains(id) <==> matching_root_id(
                    rows@.take(i as int),
                    directory@,
                    h,
                    c,
                    id,
                ),
        decreases rows.len() - i,
    {
        let (id, row_directory) = (&rows[i].0, &rows[i].1);
        let ghost before = r@;
        assert(forall|id2: Seq<char>|
            string_views(before).contains(id2) <==> matching_root_id(
                rows@.take(i as int),
                directory@,
                h,
                c,
                id2,
            ));
        let m = directories_match(row_directory.as_str(), directory, home, current_directory);
        if m {
            let mut present = false;
            let mut j: usize = 0;
            while j < r.len()
                invariant
                    j <= r.len(),
                    present <==> exists|k: int| 0 <= k < j && r@[k]@ == id@,
                decreases r.len() - j,
            {
                if str_eq(r[j].as_str(), id.as_str()) {
                    present = true;
                }
                j = j + 1;
            }
            if !present {
                r.push(id.clone());
                proof {
                    assert(string_views(r@) =~= string_views(before).push(id@));
                    assert forall|a: int, b: int|
                        0 <= a < string_views(r@).len() && 0 <= b < string_views(r@).len() && a
                            != b implies string_views(r@)[a] != string_views(r@)[b] by {
                        if a < before.len() && b < before.len() {
                            assert(string_views(before)[a] != string_views(before)[b]);
                        } else if a < before.len() {
                            assert(r@[a]@ != id@);
                        } else {
                            assert(r@[b]@ != id@);
                        }
                    }
                }
            } else {
                proof {
                    let k = choose|k: int| 0 <= k < r.len() && r@[k]@ == id@;
                    assert(string_views(r@)[k] == id@);
                }
            }
        }
        proof {
            assert forall|id2: Seq<char>|
                string_views(r@).contains(id2) <==> (string_views(before).contains(id2) || (m
                    && id2 == id@)) by {
                if m && string_views(r@).len() > string_views(before).len() {
                    assert(string_views(r@) == string_views(before).push(id@));
                    if string_views(before).contains(id2) {
                        let k = choose|k: int|
                            0 <= k < string_views(before).len() && string_views(before)[k] == id2;
                        assert(string_views(r@)[k] == id2);
                    }
                    if id2 == id@ {
                        assert(string_views(r@)[before.len() as int] == id2);
                    }
                }
            }
            let t = rows@.take(i as int);
            let t1 = rows@.take(i + 1);
            assert(t1[i as int] == rows@[i as int]);
            assert forall|id2: Seq<char>|
                matching_root_id(t1, directory@, h, c, id2) <==> (matching_root_id(
                    t,
                    directory@,
                    h,
                    c,
                    id2,
                ) || (m && id2 == id@)) by {
                if matching_root_id(t, directory@, h, c, id2) {
                    let w = choose|w: int|
                        0 <= w < t.len() && (#[trigger] t[w]).0@ == id2 && directories_match_spec(
                            t[w].1@,
                            directory@,
                            h,
                            c,
                        );
                    assert(t1[w] == t[w]);
                }
                if m && id2 == id@ {
                    assert(t1[i as int].0@ == id2);
                }
                if matching_root_id(t1, directory@, h, c, id2) {
                    let w = choose|w: int|
                        0 <= w < t1.len() && (#[trigger] t1[w]).0@ == id2 && directories_match_spec(
                            t1[w].1@,
                            directory@,
                            h,
                            c,
                        );
                    if w < i {
                        assert(t[w] == t1[w]);
                    }
                }
            }
            assert forall|id2: Seq<char>|
                string_views(r@).contains(id2) <==> matching_root_id(t1, directory@, h, c, id2) by {
                assert(string_views(before).contains(id2) <==> matching_root_id(
                    t,
                    directory@,
                    h,
                    c,
                    id2,
                ));
            }
        }
        i = i + 1;
    }
    assert(rows@.take(rows.len() as int) =~= rows@);
    r
}

/// What the query for the root sessions failing means: busy or locked is
/// `Unavailable`, anything else an error (`None`).
pub fn root_ids_on_query_error(e: &SqliteErrorKind) -> (r: Option<RootSessionIdLookup>)
    ensures
        r == (if is_unavailable_spec(*e) {
            Some(RootSessionIdLookup::Unavailable)
        } else {
            None
        }),
{
    root_ids_on_open_error(e)
}

/// What opening the database failing means for a process lookup: busy or
/// locked is `Unavailable`, anything else an error (`None`).
pub fn process_lookup_on_open_error(e: &SqliteErrorKind) -> (r: Option<ProcessSessionLookup>)
    ensures
        r == (if is_unavailable_spec(*e) {
            Some(ProcessSessionLookup::Unavailable)
        } else {
            None
        }),
{
    if is_unavailable_error(e) {
        Some(ProcessSessionLookup::Unavailable)
    } else {
        None
    }
}

/// Whether the `process_session` table exists, from the query that looks for
/// it in `sqlite_master`: a row means it does, no row that it does not, busy
/// or locked that the database is unavailable, and any other failure is an
/// error (`None`).
pub fn process_session_table_from_query(result: &Result<(), SqliteErrorKind>) -> (r: Option<
    ProcessSessionTableLookup,
>)
    ensures
        r == match result {
            Ok(()) => Some(ProcessSessionTableLookup::Available),
            Err(SqliteErrorKind::QueryReturnedNoRows) => Some(ProcessSessionTableLookup::Missing),
            Err(e) => if is_unavailable_spec(*e) {
                Some(ProcessSessionTableLookup::Unavailable)
            } else {
                None
            },
        },
{
    match result {
        Ok(()) => Some(ProcessSessionTableLookup::Available),
        Err(SqliteErrorKind::QueryReturnedNoRows) => Some(ProcessSessionTableLookup::Missing),
        Err(e) => {
            if is_unavailable_error(e) {
                Some(ProcessSessionTableLookup::Unavailable)
            } else {
                None
            }
        },
    }
}

/// What the table's presence settles for a process lookup: nothing when it
/// exists (the row is queried next), `TableMissing` when it does not, and
/// `Unavailable` when the database is busy or locked.
pub fn process_lookup_for_table(table: ProcessSessionTableLookup) -> (r: Option<ProcessSessionLookup>)
    ensures
        r == match table {
            ProcessSessionTableLookup::Available => None,
            ProcessSessionTableLookup::Missing => Some(
                ProcessSessionLookup::Available(ProcessSessionRowLookup::TableMissing),
            ),
            ProcessSessionTableLookup::Unavailable => Some(ProcessSessionLookup::Unavailable),
        },
{
    match table {
        ProcessSessionTableLookup::Available => None,
        ProcessSessionTableLookup::Missing => Some(
            ProcessSessionLookup::Available(ProcessSessionRowLookup::TableMissing),
        ),
        ProcessSessionTableLookup::Unavailable => Some(ProcessSessionLookup::Unavailable),
    }
}

/// What the query for a process's row failing means: no row is `RowMissing`,
/// busy or locked is `Unavailable`, and anything else an error (`None`).
pub fn process_lookup_on_row_error(e: &SqliteErrorKind) -> (r: Option<ProcessSessionLookup>)
    ensures
        r == match *e {
            SqliteErrorKind::QueryReturnedNoRows => Some(
                ProcessSessionLookup::Available(ProcessSessionRowLookup::RowMissing),
            ),
            _ => if is_unavailable_spec(*e) {
                Some(ProcessSessionLookup::Unavailable)
            } else {
                None
            },
        },
{
    match e {
        SqliteErrorKind::QueryReturnedNoRows => Some(
            ProcessSessionLookup::Available(ProcessSessionRowLookup::RowMissing),
        ),
        _ => process_lookup_on_open_error(e),
    }
}

/// The start time, in clock ticks, that a `/proc/<pid>/stat` text reports:
/// its twenty-second field.
pub open spec fn start_ticks_spec(stat: Seq<char>) -> Option<nat> {
    if words(stat).len() > 21 {
        parse_unsigned(words(stat)[21], u64::MAX as nat)
    } else {
        None
    }
}

/// The start time, in clock ticks, that a stat text reports.
pub fn parse_proc_start_ticks(stat: &str) -> (r: Option<u64>)
    ensures
        match r {
            Some(v) => start_ticks_spec(stat@) == Some(v as nat),
            None => start_ticks_spec(stat@).is_none(),
        },
{
    let ws = split_whitespace(stat);
    if ws.len() <= 21 {
        return None;
    }
    assert(string_views(ws@)[21] == ws@[21]@);
    parse_u64(ws[21].as_str())
}

/// Whether a process still is the one that a row describes: its stat file
/// (absent when the process is gone) reports the row's start time.
pub fn process_start_ticks_match(stat: Option<&str>, expected_ticks: u64) -> (r: bool)
    ensures
        r == match stat {
            Some(s) => start_ticks_spec(s@) == Some(expected_ticks as nat),
            None => false,
        },
{
    match stat {
        Some(s) => match parse_proc_start_ticks(s) {
            Some(t) => t == expected_ticks,
            None => false,
        },
        None => false,
    }
}

/// What comes after a process's row was read and its start time checked.
#[derive(Debug, Clone, PartialEq, Eq)]
pub enum RowDecision {
    /// The lookup is settled.
    Settled(ProcessSessionRowLookup),
    /// The row's session is resolved to its root next.
    ResolveRoot(String),
}

/// What a process's row settles: a row of an earlier process is `Stale`, a
/// row without a session `SessionIdMissing`, and otherwise its session is
/// resolved to its root.
pub fn row_decision(ticks_match: bool, session_id: Option<String>) -> (r: RowDecision)
    ensures
        r == (if !ticks_match {
            RowDecision::Settled(ProcessSessionRowLookup::Stale)
        } else {
            match session_id {
                Some(s) => RowDecision::ResolveRoot(s),
                None => RowDecision::Settled(ProcessSessionRowLookup::SessionIdMissing),
            }
        }),
{
    if !ticks_match {
        return RowDecision::Settled(ProcessSessionRowLookup::Stale);
    }
    match session_id {
        Some(s) => RowDecision::ResolveRoot(s),
        None => RowDecision::Settled(ProcessSessionRowLookup::SessionIdMissing),
    }
}

/// One step of walking from a session up to its root session.
#[derive(Debug, Clone, PartialEq, Eq)]
pub enum RootWalk {
    /// Look up the parent of this session next.
    Next(String),
    /// The root session is found.
    Resolved(String),
    /// The chain of parents names a session that does not exist.
    Broken(String),
    /// The database failed.
    Failed(SqliteErrorKind),
}

/// The step after looking up the parent of `current` (the walk began at
/// `original`; `first_lookup` on its first step): a parent is looked up in
/// turn; no parent makes `current` the root; an unknown first session, or no
/// `session` table, keeps `original`; an unknown session later breaks the
/// chain; any other failure ends the walk.
pub fn root_walk_step(
    original: &str,
    current: &str,
    first_lookup: bool,
    result: Result<Option<String>, SqliteErrorKind>,
) -> (r: RootWalk)
    ensures
        match result {
            Ok(Some(parent)) => r == RootWalk::Next(parent),
            Ok(None) => r matches RootWalk::Resolved(s) && s@ == current@,
            Err(SqliteErrorKind::QueryReturnedNoRows) => if first_lookup {
                r matches RootWalk::Resolved(s) && s@ == original@
            } else {
                r matches RootWalk::Broken(s) && s@ == current@
            },
            Err(e) => if is_missing_session_table_spec(e) {
                r matches RootWalk::Resolved(s) && s@ == original@
            } else {
                r == RootWalk::Failed(e)
            },
        },
{
    match result {
        Ok(Some(parent)) => RootWalk::Next(parent),
        Ok(None) => RootWalk::Resolved(crate::text::copy_str(current)),
        Err(SqliteErrorKind::QueryReturnedNoRows) => {
            if first_lookup {
                RootWalk::Resolved(crate::text::copy_str(original))
            } else {
                RootWalk::Broken(crate::text::copy_str(current))
            }
        },
        Err(e) => {
            if is_missing_session_table_error(&e) {
                RootWalk::Resolved(crate::text::copy_str(original))
            } else {
                RootWalk::Failed(e)
            }
        },
    }
}

} // verus!
