//! Filtering the dashboard: which rows a filter text matches, how they are
//! grouped and ordered, and the counts and totals that follow.
use vstd::prelude::*;

use crate::paths::{path_eq, path_eq_spec};
use crate::session::SessionStatus;
use crate::text::{
    all_digits, ascii_lower, ascii_lowercase, chars_of, contains, contains_seq, copy_str,
    has_prefix, i64_to_string, int_decimal, starts_with, str_eq,
};

use super::types::{
    count_running, count_status, is_running_status, rows_memory, view_rows, DashboardGroup,
    DashboardRow, DashboardSnapshot, DashboardSummary, DashboardView, InputMode,
};

verus! {

/// How well a value matches the filter text.
#[derive(Debug, Clone, Copy, PartialEq, Eq, Structural)]
pub enum MatchStrength {
    Exact,
    Prefix,
    Contains,
}

/// Which field of a row the filter text matched, in priority order.
#[derive(Debug, Clone, Copy, PartialEq, Eq, Structural)]
pub enum MatchGroup {
    NumericId,
    Name,
    Directory,
    OpencodeSessionId,
}

/// Whether typed text filters the list: in filter mode, with some text.
pub open spec fn is_active_filter_spec(mode: InputMode, text: Seq<char>) -> bool {
    mode == InputMode::Filter && text.len() > 0
}

/// Whether the filter text is all ASCII digits (and not empty).
pub open spec fn is_numeric_filter_spec(text: Seq<char>) -> bool {
    text.len() > 0 && all_digits(text)
}

/// How a field matches a filter text that is already in lower case: exactly,
/// as a prefix or somewhere inside, ignoring ASCII case.
pub open spec fn classify_spec(value: Seq<char>, filter: Seq<char>) -> Option<MatchStrength> {
    let lowered = ascii_lower(value);
    if value == filter || lowered == filter {
        Some(MatchStrength::Exact)
    } else if has_prefix(lowered, filter) {
        Some(MatchStrength::Prefix)
    } else if contains_seq(lowered, filter) {
        Some(MatchStrength::Contains)
    } else {
        None
    }
}

/// How a numeric ID matches the filter text; a contains-match needs the ID to
/// be longer than the filter.
pub open spec fn classify_numeric_spec(id: i64, filter: Seq<char>) -> Option<MatchStrength> {
    let text = int_decimal(id as int);
    if text == filter {
        Some(MatchStrength::Exact)
    } else if has_prefix(text, filter) {
        Some(MatchStrength::Prefix)
    } else if text.len() > filter.len() && contains_seq(text, filter) {
        Some(MatchStrength::Contains)
    } else {
        None
    }
}

/// The group in which a row appears for a filter, with the strength of its
/// match there: the highest-priority field that matches (the numeric ID only
/// for an all-digit filter, then the name, the directory and the OpenCode
/// session ID).
pub open spec fn best_match_spec(row: DashboardRow, filter: Seq<char>, numeric: bool) -> Option<
    (MatchGroup, MatchStrength),
> {
    if numeric && classify_numeric_spec(row.session_id, filter).is_some() {
        Some((MatchGroup::NumericId, classify_numeric_spec(row.session_id, filter).unwrap()))
    } else if classify_spec(row.name@, filter).is_some() {
        Some((MatchGroup::Name, classify_spec(row.name@, filter).unwrap()))
    } else if classify_spec(row.full_directory@, filter).is_some() {
        Some((MatchGroup::Directory, classify_spec(row.full_directory@, filter).unwrap()))
    } else {
        match row.opencode_session_id {
            Some(id) => match classify_spec(id@, filter) {
                Some(s) => Some((MatchGroup::OpencodeSessionId, s)),
                None => None,
            },
            None => None,
        }
    }
}

/// The rows, in order, that match the filter in group `g` with strength `st`.
pub open spec fn select_rows(
    rows: Seq<DashboardRow>,
    filter: Seq<char>,
    numeric: bool,
    g: MatchGroup,
    st: MatchStrength,
) -> Seq<DashboardRow>
    decreases rows.len(),
{
    if rows.len() == 0 {
        seq![]
    } else {
        select_rows(rows.drop_last(), filter, numeric, g, st) + if best_match_spec(
            rows.last(),
            filter,
            numeric,
        ) == Some((g, st)) {
            seq![rows.last()]
        } else {
            seq![]
        }
    }
}

/// The rows of group `g`: exact matches, then prefix matches, then contains
/// matches, each in list order.
pub open spec fn group_rows(
    rows: Seq<DashboardRow>,
    filter: Seq<char>,
    numeric: bool,
    g: MatchGroup,
) -> Seq<DashboardRow> {
    select_rows(rows, filter, numeric, g, MatchStrength::Exact) + select_rows(
        rows,
        filter,
        numeric,
        g,
        MatchStrength::Prefix,
    ) + select_rows(rows, filter, numeric, g, MatchStrength::Contains)
}

/// The groups in priority order.
pub open spec fn group_order() -> Seq<MatchGroup> {
    seq![
        MatchGroup::NumericId,
        MatchGroup::Name,
        MatchGroup::Directory,
        MatchGroup::OpencodeSessionId,
    ]
}

/// Whether group `g` has rows for a filter.
pub open spec fn has_rows(rows: Seq<DashboardRow>, filter: Seq<char>, numeric: bool) -> spec_fn(
    MatchGroup,
) -> bool {
    |g: MatchGroup| group_rows(rows, filter, numeric, g).len() > 0
}

/// The groups that have rows for a filter, in priority order.
pub open spec fn nonempty_groups(rows: Seq<DashboardRow>, filter: Seq<char>, numeric: bool) -> Seq<
    MatchGroup,
> {
    group_order().filter(has_rows(rows, filter, numeric))
}

/// The title of a group.
pub open spec fn group_title_spec(g: MatchGroup) -> Seq<char> {
    match g {
        MatchGroup::NumericId => "numeric id"@,
        MatchGroup::Name => "name"@,
        MatchGroup::Directory => "directory"@,
        MatchGroup::OpencodeSessionId => "opencode session id"@,
    }
}

/// What a filter text shows of the rows: one titled group for each field that
/// matched some row, in priority order, each row appearing once, in its
/// highest-priority group, ordered by strength and then by list order. The
/// filter compares ignoring ASCII case.
pub open spec fn filtered_groups_spec(
    groups: Seq<DashboardGroup>,
    rows: Seq<DashboardRow>,
    text: Seq<char>,
) -> bool {
    let f = ascii_lower(text);
    let numeric = is_numeric_filter_spec(text);
    let expected = nonempty_groups(rows, f, numeric);
    &&& groups.len() == expected.len()
    &&& forall|i: int|
        0 <= i < groups.len() ==> (#[trigger] groups[i]).title.is_some() && groups[i].title.unwrap()@
            == group_title_spec(expected[i]) && groups[i].sessions@ == group_rows(
            rows,
            f,
            numeric,
            expected[i],
        )
}

/// The rows whose directory is (`matching`) or is not (`!matching`) the
/// current directory; without a current directory none match.
pub open spec fn rows_in_directory(
    rows: Seq<DashboardRow>,
    current_directory: Option<Seq<char>>,
    matching: bool,
) -> Seq<DashboardRow>
    decreases rows.len(),
{
    if rows.len() == 0 {
        seq![]
    } else {
        let here = match current_directory {
            Some(d) => path_eq_spec(rows.last().full_directory@, d),
            None => false,
        };
        rows_in_directory(rows.drop_last(), current_directory, matching) + if here == matching {
            seq![rows.last()]
        } else {
            seq![]
        }
    }
}

/// What an empty filter shows: one untitled group with the rows in the current
/// directory first and the others after, each part in list order.
pub open spec fn unfiltered_groups_spec(
    groups: Seq<DashboardGroup>,
    rows: Seq<DashboardRow>,
    current_directory: Option<Seq<char>>,
) -> bool {
    &&& groups.len() == 1
    &&& groups[0].title.is_none()
    &&& groups[0].sessions@ == rows_in_directory(rows, current_directory, true) + rows_in_directory(
        rows,
        current_directory,
        false,
    )
}

/// The summary with its totals set from the rows shown.
pub open spec fn totals_spec(summary: DashboardSummary, rows: Seq<DashboardRow>) -> DashboardSummary {
    DashboardSummary {
        filtered_sessions: rows.len() as usize,
        filtered_running: count_running(rows) as usize,
        filtered_memory_bytes: rows_memory(rows) as u64,
        ..summary
    }
}

/// The rows behind a list of references.
pub open spec fn deref_rows(rows: Seq<&DashboardRow>) -> Seq<DashboardRow> {
    rows.map_values(|r: &DashboardRow| *r)
}

// ---------------------------------------------------------------------------
// Lemmas
// ---------------------------------------------------------------------------

/// The memory of two row lists together is the sum of their memories.
pub proof fn lemma_rows_memory_concat(a: Seq<DashboardRow>, b: Seq<DashboardRow>)
    ensures
        rows_memory(a + b) == rows_memory(a) + rows_memory(b),
    decreases b.len(),
{
    if b.len() > 0 {
        lemma_rows_memory_concat(a, b.drop_last());
        assert((a + b).drop_last() =~= a + b.drop_last());
    } else {
        assert(a + b =~= a);
    }
}

/// The memory of a prefix of the rows is at most that of all of them.
pub proof fn lemma_rows_memory_prefix(rows: Seq<DashboardRow>, i: int)
    requires
        0 <= i <= rows.len(),
    ensures
        rows_memory(rows.take(i)) <= rows_memory(rows),
    decreases rows.len() - i,
{
    if i < rows.len() {
        lemma_rows_memory_prefix(rows, i + 1);
        assert(rows.take(i + 1).drop_last() =~= rows.take(i));
    } else {
        assert(rows.take(i) =~= rows);
    }
}

proof fn lemma_counts_concat(a: Seq<DashboardRow>, b: Seq<DashboardRow>)
    ensures
        count_running(a + b) == count_running(a) + count_running(b),
        count_status(a + b, SessionStatus::RunningAttached) == count_status(
            a,
            SessionStatus::RunningAttached,
        ) + count_status(b, SessionStatus::RunningAttached),
        count_status(a + b, SessionStatus::RunningDetached) == count_status(
            a,
            SessionStatus::RunningDetached,
        ) + count_status(b, SessionStatus::RunningDetached),
        count_status(a + b, SessionStatus::Saved) == count_status(a, SessionStatus::Saved)
            + count_status(b, SessionStatus::Saved),
    decreases b.len(),
{
    if b.len() > 0 {
        lemma_counts_concat(a, b.drop_last());
        assert((a + b).drop_last() =~= a + b.drop_last());
    } else {
        assert(a + b =~= a);
    }
}

/// The rows of all groups, matched or not, in group order.
pub open spec fn all_group_rows(rows: Seq<DashboardRow>, filter: Seq<char>, numeric: bool) -> Seq<
    DashboardRow,
> {
    group_rows(rows, filter, numeric, MatchGroup::NumericId) + group_rows(
        rows,
        filter,
        numeric,
        MatchGroup::Name,
    ) + group_rows(rows, filter, numeric, MatchGroup::Directory) + group_rows(
        rows,
        filter,
        numeric,
        MatchGroup::OpencodeSessionId,
    )
}

proof fn lemma_select_memory(
    rows: Seq<DashboardRow>,
    filter: Seq<char>,
    numeric: bool,
)
    ensures
        rows_memory(select_rows(rows, filter, numeric, MatchGroup::NumericId, MatchStrength::Exact))
            + rows_memory(
            select_rows(rows, filter, numeric, MatchGroup::NumericId, MatchStrength::Prefix),
        ) + rows_memory(
            select_rows(rows, filter, numeric, MatchGroup::NumericId, MatchStrength::Contains),
        ) + rows_memory(select_rows(rows, filter, numeric, MatchGroup::Name, MatchStrength::Exact))
            + rows_memory(select_rows(rows, filter, numeric, MatchGroup::Name, MatchStrength::Prefix))
            + rows_memory(
            select_rows(rows, filter, numeric, MatchGroup::Name, MatchStrength::Contains),
        ) + rows_memory(
            select_rows(rows, filter, numeric, MatchGroup::Directory, MatchStrength::Exact),
        ) + rows_memory(
            select_rows(rows, filter, numeric, MatchGroup::Directory, MatchStrength::Prefix),
        ) + rows_memory(
            select_rows(rows, filter, numeric, MatchGroup::Directory, MatchStrength::Contains),
        ) + rows_memory(
            select_rows(rows, filter, numeric, MatchGroup::OpencodeSessionId, MatchStrength::Exact),
        ) + rows_memory(
            select_rows(rows, filter, numeric, MatchGroup::OpencodeSessionId, MatchStrength::Prefix),
        ) + rows_memory(
            select_rows(
                rows,
                filter,
                numeric,
                MatchGroup::OpencodeSessionId,
                MatchStrength::Contains,
            ),
        ) <= rows_memory(rows),
    decreases rows.len(),
{
    if rows.len() > 0 {
        let init = rows.drop_last();
        lemma_select_memory(init, filter, numeric);
        let last = rows.last();
        let m = best_match_spec(last, filter, numeric);
        assert(seq![last].drop_last() =~= Seq::<DashboardRow>::empty());
        assert(rows_memory(Seq::<DashboardRow>::empty()) == 0);
        assert(seq![last].last() == last);
        assert(rows_memory(seq![last]) == rows_memory(rows) - rows_memory(init));
        assert forall|g: MatchGroup, st: MatchStrength| #[trigger]
            rows_memory(select_rows(rows, filter, numeric, g, st)) == rows_memory(
                select_rows(init, filter, numeric, g, st),
            ) + if m == Some((g, st)) {
                rows_memory(seq![last])
            } else {
                0
            } by {
            lemma_rows_memory_concat(
                select_rows(init, filter, numeric, g, st),
                if m == Some((g, st)) {
                    seq![last]
                } else {
                    seq![]
                },
            );
            assert(rows_memory(Seq::<DashboardRow>::empty()) == 0);
        }
        match m {
            None => {},
            Some((g, st)) => {
                assert(rows_memory(select_rows(rows, filter, numeric, g, st)) == rows_memory(
                    select_rows(init, filter, numeric, g, st),
                ) + rows_memory(seq![last]));
            },
        }
    }
}

/// What all the groups of a filter show together takes at most the memory of
/// all the rows.
pub proof fn lemma_all_group_rows_memory(rows: Seq<DashboardRow>, filter: Seq<char>, numeric: bool)
    ensures
        rows_memory(all_group_rows(rows, filter, numeric)) <= rows_memory(rows),
{
    lemma_select_memory(rows, filter, numeric);
    let s = |g: MatchGroup, st: MatchStrength| select_rows(rows, filter, numeric, g, st);
    assert forall|g: MatchGroup| #[trigger]
        rows_memory(group_rows(rows, filter, numeric, g)) == rows_memory(
            select_rows(rows, filter, numeric, g, MatchStrength::Exact),
        ) + rows_memory(select_rows(rows, filter, numeric, g, MatchStrength::Prefix))
            + rows_memory(select_rows(rows, filter, numeric, g, MatchStrength::Contains)) by {
        lemma_rows_memory_concat(
            select_rows(rows, filter, numeric, g, MatchStrength::Exact),
            select_rows(rows, filter, numeric, g, MatchStrength::Prefix),
        );
        lemma_rows_memory_concat(
            select_rows(rows, filter, numeric, g, MatchStrength::Exact) + select_rows(
                rows,
                filter,
                numeric,
                g,
                MatchStrength::Prefix,
            ),
            select_rows(rows, filter, numeric, g, MatchStrength::Contains),
        );
    }
    let a = group_rows(rows, filter, numeric, MatchGroup::NumericId);
    let b = group_rows(rows, filter, numeric, MatchGroup::Name);
    let c = group_rows(rows, filter, numeric, MatchGroup::Directory);
    let d = group_rows(rows, filter, numeric, MatchGroup::OpencodeSessionId);
    lemma_rows_memory_concat(a, b);
    lemma_rows_memory_concat(a + b, c);
    lemma_rows_memory_concat(a + b + c, d);
}

/// The two parts of the unfiltered list take exactly the memory of all rows.
pub proof fn lemma_partition_memory(rows: Seq<DashboardRow>, current_directory: Option<Seq<char>>)
    ensures
        rows_memory(rows_in_directory(rows, current_directory, true)) + rows_memory(
            rows_in_directory(rows, current_directory, false),
        ) == rows_memory(rows),
    decreases rows.len(),
{
    if rows.len() > 0 {
        lemma_partition_memory(rows.drop_last(), current_directory);
        let last = rows.last();
        let here = match current_directory {
            Some(d) => path_eq_spec(last.full_directory@, d),
            None => false,
        };
        let one = seq![last];
        let none = Seq::<DashboardRow>::empty();
        lemma_rows_memory_concat(
            rows_in_directory(rows.drop_last(), current_directory, true),
            if here {
                one
            } else {
                none
            },
        );
        lemma_rows_memory_concat(
            rows_in_directory(rows.drop_last(), current_directory, false),
            if !here {
                one
            } else {
                none
            },
        );
        assert(one.drop_last() =~= none);
    }
}

// ---------------------------------------------------------------------------
// Matching
// ---------------------------------------------------------------------------

/// How `value` matches the lower-case filter text.
pub fn classify_match(value: &str, filter_text: &str) -> (r: Option<MatchStrength>)
    ensures
        r == classify_spec(value@, filter_text@),
{
    let normalized = ascii_lowercase(value);
    if str_eq(value, filter_text) {
        return Some(MatchStrength::Exact);
    }
    if str_eq(normalized.as_str(), filter_text) {
        return Some(MatchStrength::Exact);
    }
    if starts_with(normalized.as_str(), filter_text) {
        return Some(MatchStrength::Prefix);
    }
    if contains(normalized.as_str(), filter_text) {
        Some(MatchStrength::Contains)
    } else {
        None
    }
}

/// How a numeric ID matches the filter text.
pub fn classify_numeric_id_match(session_id: i64, filter_text: &str) -> (r: Option<MatchStrength>)
    ensures
        r == classify_numeric_spec(session_id, filter_text@),
{
    let id_text = i64_to_string(session_id);
    if str_eq(id_text.as_str(), filter_text) {
        return Some(MatchStrength::Exact);
    }
    if starts_with(id_text.as_str(), filter_text) {
        return Some(MatchStrength::Prefix);
    }
    let id_len = chars_of(id_text.as_str()).len();
    let filter_len = chars_of(filter_text).len();
    if id_len > filter_len && contains(id_text.as_str(), filter_text) {
        Some(MatchStrength::Contains)
    } else {
        None
    }
}

/// The group in which a row appears for the lower-case filter text.
pub fn best_match_for_row(row: &DashboardRow, filter_text: &str, numeric_filter: bool) -> (r: Option<
    (MatchGroup, MatchStrength),
>)
    ensures
        r == best_match_spec(*row, filter_text@, numeric_filter),
{
    if numeric_filter {
        if let Some(strength) = classify_numeric_id_match(row.session_id, filter_text) {
            return Some((MatchGroup::NumericId, strength));
        }
    }
    if let Some(strength) = classify_match(row.name.as_str(), filter_text) {
        return Some((MatchGroup::Name, strength));
    }
    if let Some(strength) = classify_match(row.full_directory.as_str(), filter_text) {
        return Some((MatchGroup::Directory, strength));
    }
    match &row.opencode_session_id {
        Some(id) => match classify_match(id.as_str(), filter_text) {
            Some(strength) => Some((MatchGroup::OpencodeSessionId, strength)),
            None => None,
        },
        None => None,
    }
}

/// Whether the filter text is all ASCII digits (and not empty).
pub fn is_numeric_filter(filter_text: &str) -> (r: bool)
    ensures
        r == is_numeric_filter_spec(filter_text@),
{
    let cs = chars_of(filter_text);
    if cs.len() == 0 {
        return false;
    }
    let mut i: usize = 0;
    while i < cs.len()
        invariant
            cs@ == filter_text@,
            i <= cs.len(),
            forall|j: int| 0 <= j < i ==> crate::text::is_digit(#[trigger] cs@[j]),
        decreases cs.len() - i,
    {
        if !('0' <= cs[i] && cs[i] <= '9') {
            assert(!crate::text::is_digit(filter_text@[i as int]));
            return false;
        }
        i = i + 1;
    }
    true
}

/// Whether typed text filters the list.
pub fn is_active_filter(input_mode: InputMode, input_text: &str) -> (r: bool)
    ensures
        r == is_active_filter_spec(input_mode, input_text@),
{
    input_mode == InputMode::Filter && !input_text.is_empty()
}

/// The title of a group.
pub fn group_title(g: MatchGroup) -> (r: &'static str)
    ensures
        r@ == group_title_spec(g),
{
    match g {
        MatchGroup::NumericId => "numeric id",
        MatchGroup::Name => "name",
        MatchGroup::Directory => "directory",
        MatchGroup::OpencodeSessionId => "opencode session id",
    }
}

fn select_matches(
    rows: &Vec<DashboardRow>,
    filter_text: &str,
    numeric: bool,
    g: MatchGroup,
    st: MatchStrength,
    out: &mut Vec<DashboardRow>,
)
    ensures
        final(out)@ == old(out)@ + select_rows(rows@, filter_text@, numeric, g, st),
{
    let ghost start = out@;
    let mut i: usize = 0;
    assert(rows@.take(0) =~= Seq::<DashboardRow>::empty());
    assert(out@ =~= start + select_rows(rows@.take(0), filter_text@, numeric, g, st));
    while i < rows.len()
        invariant
            i <= rows.len(),
            out@ == start + select_rows(rows@.take(i as int), filter_text@, numeric, g, st),
        decreases rows.len() - i,
    {
        proof {
            assert(rows@.take(i as int + 1).drop_last() =~= rows@.take(i as int));
        }
        match best_match_for_row(&rows[i], filter_text, numeric) {
            Some((g2, st2)) => {
                if g2 == g && st2 == st {
                    out.push(rows[i].copy());
                }
            },
            None => {},
        }
        i = i + 1;
        assert(out@ =~= start + select_rows(rows@.take(i as int), filter_text@, numeric, g, st));
    }
    assert(rows@.take(rows.len() as int) =~= rows@);
}

fn rows_for_group(rows: &Vec<DashboardRow>, filter_text: &str, numeric: bool, g: MatchGroup) -> (out:
    Vec<DashboardRow>)
    ensures
        out@ == group_rows(rows@, filter_text@, numeric, g),
{
    let mut out: Vec<DashboardRow> = Vec::new();
    select_matches(rows, filter_text, numeric, g, MatchStrength::Exact, &mut out);
    select_matches(rows, filter_text, numeric, g, MatchStrength::Prefix, &mut out);
    select_matches(rows, filter_text, numeric, g, MatchStrength::Contains, &mut out);
    assert(out@ =~= group_rows(rows@, filter_text@, numeric, g));
    out
}

fn groups_with_filter(snapshot: &DashboardSnapshot, filter_text: &str) -> (groups: Vec<
    DashboardGroup,
>)
    ensures
        filtered_groups_spec(groups@, snapshot.rows@, filter_text@),
        view_rows(groups@) == all_group_rows(
            snapshot.rows@,
            ascii_lower(filter_text@),
            is_numeric_filter_spec(filter_text@),
        ),
{
    let normalized = ascii_lowercase(filter_text);
    let numeric = is_numeric_filter(filter_text);
    let ghost rows = snapshot.rows@;
    let ghost f = normalized@;
    let order = vec![
        MatchGroup::NumericId,
        MatchGroup::Name,
        MatchGroup::Directory,
        MatchGroup::OpencodeSessionId,
    ];
    assert(order@ =~= group_order());
    let mut groups: Vec<DashboardGroup> = Vec::new();
    let mut k: usize = 0;
    while k < order.len()
        invariant
            order@ == group_order(),
            k <= order.len(),
            f == ascii_lower(filter_text@),
            f == normalized@,
            numeric == is_numeric_filter_spec(filter_text@),
            rows == snapshot.rows@,
            groups@.len() == group_order().take(k as int).filter(has_rows(rows, f, numeric)).len(),
            forall|i: int|
                0 <= i < groups@.len() ==> (#[trigger] groups@[i]).title.is_some()
                    && groups@[i].title.unwrap()@ == group_title_spec(
                    group_order().take(k as int).filter(has_rows(rows, f, numeric))[i],
                ) && groups@[i].sessions@ == group_rows(
                    rows,
                    f,
                    numeric,
                    group_order().take(k as int).filter(has_rows(rows, f, numeric))[i],
                ),
            view_rows(groups@) == (if k == 0 {
                Seq::<DashboardRow>::empty()
            } else if k == 1 {
                group_rows(rows, f, numeric, MatchGroup::NumericId)
            } else if k == 2 {
                group_rows(rows, f, numeric, MatchGroup::NumericId) + group_rows(
                    rows,
                    f,
                    numeric,
                    MatchGroup::Name,
                )
            } else if k == 3 {
                group_rows(rows, f, numeric, MatchGroup::NumericId) + group_rows(
                    rows,
                    f,
                    numeric,
                    MatchGroup::Name,
                ) + group_rows(rows, f, numeric, MatchGroup::Directory)
            } else {
                all_group_rows(rows, f, numeric)
            }),
        decreases order.len() - k,
    {
        let g = order[k];
        let sessions = rows_for_group(&snapshot.rows, normalized.as_str(), numeric, g);
        let ghost before = group_order().take(k as int).filter(has_rows(rows, f, numeric));
        let ghost after = group_order().take(k as int + 1).filter(has_rows(rows, f, numeric));
        let ghost old_groups = groups@;
        proof {
            assert(group_order().take(k as int + 1) =~= group_order().take(k as int).push(g));
            group_order().take(k as int).lemma_filter_push(g, has_rows(rows, f, numeric));
            assert(has_rows(rows, f, numeric)(g) == (sessions@.len() > 0));
        }
        if sessions.len() > 0 {
            let title = copy_str(group_title(g));
            groups.push(DashboardGroup { title: Some(title), sessions });
            proof {
                assert(after == before.push(g));
                assert(groups@.drop_last() =~= old_groups);
                assert forall|i: int| 0 <= i < groups@.len() implies (#[trigger] groups@[i]).title.is_some()
                    && groups@[i].title.unwrap()@ == group_title_spec(after[i])
                    && groups@[i].sessions@ == group_rows(rows, f, numeric, after[i]) by {
                    if i < old_groups.len() {
                        assert(groups@[i] == old_groups[i]);
                        assert(after[i] == before[i]);
                    }
                }
            }
        } else {
            proof {
                assert(after == before);
            }
        }
        k = k + 1;
        proof {
            if sessions@.len() == 0 {
                assert(view_rows(groups@) =~= view_rows(old_groups) + sessions@);
            }
        }
    }
    assert(group_order().take(4) =~= group_order());
    groups
}

fn groups_without_filter(snapshot: &DashboardSnapshot, current_directory: &Option<String>) -> (groups:
    Vec<DashboardGroup>)
    ensures
        unfiltered_groups_spec(
            groups@,
            snapshot.rows@,
            match current_directory {
                Some(d) => Some(d@),
                None => None,
            },
        ),
{
    let ghost cwd = match current_directory {
        Some(d) => Some(d@),
        None => None::<Seq<char>>,
    };
    let mut matching: Vec<DashboardRow> = Vec::new();
    let mut remaining: Vec<DashboardRow> = Vec::new();
    let mut i: usize = 0;
    while i < snapshot.rows.len()
        invariant
            i <= snapshot.rows.len(),
            matching@ == rows_in_directory(snapshot.rows@.take(i as int), cwd, true),
            remaining@ == rows_in_directory(snapshot.rows@.take(i as int), cwd, false),
            cwd == (match current_directory {
                Some(d) => Some(d@),
                None => None::<Seq<char>>,
            }),
        decreases snapshot.rows.len() - i,
    {
        proof {
            assert(snapshot.rows@.take(i as int + 1).drop_last() =~= snapshot.rows@.take(i as int));
        }
        let row = &snapshot.rows[i];
        let here = match current_directory {
            Some(d) => path_eq(row.full_directory.as_str(), d.as_str()),
            None => false,
        };
        if here {
            matching.push(row.copy());
        } else {
            remaining.push(row.copy());
        }
        i = i + 1;
        proof {
            assert(matching@ =~= rows_in_directory(snapshot.rows@.take(i as int), cwd, true));
            assert(remaining@ =~= rows_in_directory(snapshot.rows@.take(i as int), cwd, false));
        }
    }
    assert(snapshot.rows@.take(snapshot.rows.len() as int) =~= snapshot.rows@);
    let mut sessions = matching;
    let mut k: usize = 0;
    let ghost first = sessions@;
    while k < remaining.len()
        invariant
            k <= remaining.len(),
            sessions@ == first + remaining@.take(k as int),
        decreases remaining.len() - k,
    {
        sessions.push(remaining[k].copy());
        k = k + 1;
        assert(sessions@ =~= first + remaining@.take(k as int));
    }
    assert(remaining@.take(remaining.len() as int) =~= remaining@);
    vec![DashboardGroup { title: None, sessions }]
}

/// What the dashboard shows for the snapshot: with active filter text, the
/// grouped matches; otherwise all rows, those in the current directory first.
/// The totals count the rows shown.
pub fn build_view(
    snapshot: &DashboardSnapshot,
    filter_text: &str,
    input_mode: InputMode,
    current_directory: Option<String>,
) -> (view: DashboardView)
    requires
        rows_memory(snapshot.rows@) <= u64::MAX,
    ensures
        is_active_filter_spec(input_mode, filter_text@) ==> filtered_groups_spec(
            view.groups@,
            snapshot.rows@,
            filter_text@,
        ),
        !is_active_filter_spec(input_mode, filter_text@) ==> unfiltered_groups_spec(
            view.groups@,
            snapshot.rows@,
            match current_directory {
                Some(d) => Some(d@),
                None => None,
            },
        ),
        is_active_filter_spec(input_mode, filter_text@) ==> view_rows(view.groups@)
            == all_group_rows(
            snapshot.rows@,
            ascii_lower(filter_text@),
            is_numeric_filter_spec(filter_text@),
        ),
        view.totals == totals_spec(snapshot.summary, view_rows(view.groups@)),
        rows_memory(view_rows(view.groups@)) <= rows_memory(snapshot.rows@),
{
    let groups = if is_active_filter(input_mode, filter_text) {
        let groups = groups_with_filter(snapshot, filter_text);
        proof {
            lemma_all_group_rows_memory(
                snapshot.rows@,
                ascii_lower(filter_text@),
                is_numeric_filter_spec(filter_text@),
            );
        }
        groups
    } else {
        let groups = groups_without_filter(snapshot, &current_directory);
        proof {
            let cwd = match current_directory {
                Some(d) => Some(d@),
                None => None::<Seq<char>>,
            };
            lemma_partition_memory(snapshot.rows@, cwd);
            lemma_rows_memory_concat(
                rows_in_directory(snapshot.rows@, cwd, true),
                rows_in_directory(snapshot.rows@, cwd, false),
            );
            assert(groups@.drop_last() =~= Seq::<DashboardGroup>::empty());
            assert(view_rows(groups@.drop_last()) =~= Seq::<DashboardRow>::empty());
            assert(groups@.last() == groups@[0]);
            assert(view_rows(groups@) =~= groups@[0].sessions@);
        }
        groups
    };
    let mut view = DashboardView { groups, totals: snapshot.summary };
    let rows = view.sessions();
    proof {
        assert(deref_rows(rows@) =~= view_rows(view.groups@));
    }
    let totals = totals_for_rows(&snapshot.summary, rows);
    view.totals = totals;
    view
}

/// The summary with its totals set from the rows: how many there are, how
/// many run, and their memory.
pub fn totals_for_rows(summary: &DashboardSummary, rows: Vec<&DashboardRow>) -> (totals:
    DashboardSummary)
    requires
        rows_memory(deref_rows(rows@)) <= u64::MAX,
    ensures
        totals == totals_spec(*summary, deref_rows(rows@)),
{
    let ghost all = deref_rows(rows@);
    let mut totals = *summary;
    totals.filtered_sessions = 0;
    totals.filtered_running = 0;
    totals.filtered_memory_bytes = 0;
    let mut i: usize = 0;
    while i < rows.len()
        invariant
            all == deref_rows(rows@),
            rows_memory(all) <= u64::MAX,
            i <= rows.len(),
            totals == totals_spec(*summary, all.take(i as int)),
        decreases rows.len() - i,
    {
        let row = rows[i];
        proof {
            assert(all.take(i as int + 1).drop_last() =~= all.take(i as int));
            assert(all.take(i as int + 1).last() == *row);
            lemma_rows_memory_prefix(all, i as int + 1);
            crate::tui::types::lemma_counts_bounded(all.take(i as int));
        }
        totals.filtered_sessions = totals.filtered_sessions + 1;
        if row.is_running() {
            totals.filtered_running = totals.filtered_running + 1;
        }
        let m: u64 = match row.memory_bytes {
            Some(b) => b,
            None => 0,
        };
        totals.filtered_memory_bytes = totals.filtered_memory_bytes + m;
        i = i + 1;
    }
    assert(all.take(rows.len() as int) =~= all);
    totals
}

/// The label of what the totals count.
pub open spec fn totals_scope_label_spec(input_mode: InputMode, input_text: Seq<char>) -> Seq<char> {
    if is_active_filter_spec(input_mode, input_text) {
        "filtered"@
    } else {
        "all sessions"@
    }
}

/// What the totals count: the filtered rows while a filter is active, all
/// sessions otherwise.
pub fn totals_scope_label(input_mode: InputMode, input_text: &str) -> (r: &'static str)
    ensures
        r@ == totals_scope_label_spec(input_mode, input_text@),
{
    if is_active_filter(input_mode, input_text) {
        "filtered"
    } else {
        "all sessions"
    }
}

/// The status counts that the summary header shows: those of the rows shown
/// while a filter is active, the snapshot's counts otherwise.
pub open spec fn summary_for_view_spec(
    summary: DashboardSummary,
    rows: Seq<DashboardRow>,
    input_mode: InputMode,
    input_text: Seq<char>,
) -> DashboardSummary {
    if is_active_filter_spec(input_mode, input_text) {
        DashboardSummary {
            attached: count_status(rows, SessionStatus::RunningAttached) as usize,
            detached: count_status(rows, SessionStatus::RunningDetached) as usize,
            saved: count_status(rows, SessionStatus::Saved) as usize,
            ..summary
        }
    } else {
        summary
    }
}

/// The status counts that the summary header shows.
pub fn summary_for_view(
    summary: &DashboardSummary,
    view: &DashboardView,
    input_mode: InputMode,
    input_text: &str,
) -> (r: DashboardSummary)
    ensures
        r == summary_for_view_spec(*summary, view_rows(view.groups@), input_mode, input_text@),
{
    if !is_active_filter(input_mode, input_text) {
        return *summary;
    }
    let rows = view.sessions();
    let ghost all = view_rows(view.groups@);
    assert(deref_rows(rows@) =~= all);
    let mut r = *summary;
    r.attached = 0;
    r.detached = 0;
    r.saved = 0;
    let mut i: usize = 0;
    while i < rows.len()
        invariant
            all == deref_rows(rows@),
            i <= rows.len(),
            rows@.len() <= usize::MAX,
            r == summary_for_view_spec(*summary, all.take(i as int), input_mode, input_text@),
            is_active_filter_spec(input_mode, input_text@),
        decreases rows.len() - i,
    {
        let row = rows[i];
        proof {
            assert(all.take(i as int + 1).drop_last() =~= all.take(i as int));
            assert(all.take(i as int + 1).last() == *row);
            crate::tui::types::lemma_counts_bounded(all.take(i as int));
        }
        match row.status {
            SessionStatus::RunningAttached => r.attached = r.attached + 1,
            SessionStatus::RunningDetached => r.detached = r.detached + 1,
            SessionStatus::Saved => r.saved = r.saved + 1,
        }
        i = i + 1;
    }
    assert(all.take(rows.len() as int) =~= all);
    r
}


/// The rows that a filter matches, in list order.
pub open spec fn matched_rows(rows: Seq<DashboardRow>, filter: Seq<char>, numeric: bool) -> Seq<
    DashboardRow,
>
    decreases rows.len(),
{
    if rows.len() == 0 {
        seq![]
    } else {
        matched_rows(rows.drop_last(), filter, numeric) + if best_match_spec(
            rows.last(),
            filter,
            numeric,
        ).is_some() {
            seq![rows.last()]
        } else {
            seq![]
        }
    }
}

proof fn lemma_select_step(
    rows: Seq<DashboardRow>,
    filter: Seq<char>,
    numeric: bool,
    g: MatchGroup,
    st: MatchStrength,
)
    requires
        rows.len() > 0,
    ensures
        select_rows(rows, filter, numeric, g, st).to_multiset() =~= select_rows(
            rows.drop_last(),
            filter,
            numeric,
            g,
            st,
        ).to_multiset().add(
            if best_match_spec(rows.last(), filter, numeric) == Some((g, st)) {
                vstd::multiset::Multiset::singleton(rows.last())
            } else {
                vstd::multiset::Multiset::empty()
            },
        ),
{
    broadcast use vstd::seq_lib::lemma_multiset_commutative, vstd::multiset::group_multiset_axioms, vstd::seq_lib::group_to_multiset_ensures;

    let init = select_rows(rows.drop_last(), filter, numeric, g, st);
    if best_match_spec(rows.last(), filter, numeric) == Some((g, st)) {
        assert(seq![rows.last()] =~= Seq::<DashboardRow>::empty().push(rows.last()));
        assert(seq![rows.last()].to_multiset() =~= vstd::multiset::Multiset::singleton(rows.last()));
    } else {
        assert(init + seq![] =~= init);
    }
}

proof fn lemma_group_step(rows: Seq<DashboardRow>, filter: Seq<char>, numeric: bool, g: MatchGroup)
    requires
        rows.len() > 0,
    ensures
        group_rows(rows, filter, numeric, g).to_multiset() =~= group_rows(
            rows.drop_last(),
            filter,
            numeric,
            g,
        ).to_multiset().add(
            if best_match_spec(rows.last(), filter, numeric) matches Some((g2, _)) && g2 == g {
                vstd::multiset::Multiset::singleton(rows.last())
            } else {
                vstd::multiset::Multiset::empty()
            },
        ),
{
    broadcast use vstd::seq_lib::lemma_multiset_commutative, vstd::multiset::group_multiset_axioms;

    lemma_select_step(rows, filter, numeric, g, MatchStrength::Exact);
    lemma_select_step(rows, filter, numeric, g, MatchStrength::Prefix);
    lemma_select_step(rows, filter, numeric, g, MatchStrength::Contains);
}

proof fn lemma_all_groups_multiset(rows: Seq<DashboardRow>, filter: Seq<char>, numeric: bool)
    ensures
        all_group_rows(rows, filter, numeric).to_multiset() =~= matched_rows(
            rows,
            filter,
            numeric,
        ).to_multiset(),
    decreases rows.len(),
{
    broadcast use vstd::seq_lib::lemma_multiset_commutative, vstd::multiset::group_multiset_axioms, vstd::seq_lib::group_to_multiset_ensures;

    if rows.len() == 0 {
        assert(all_group_rows(rows, filter, numeric) =~= Seq::<DashboardRow>::empty());
    } else {
        lemma_all_groups_multiset(rows.drop_last(), filter, numeric);
        lemma_group_step(rows, filter, numeric, MatchGroup::NumericId);
        lemma_group_step(rows, filter, numeric, MatchGroup::Name);
        lemma_group_step(rows, filter, numeric, MatchGroup::Directory);
        lemma_group_step(rows, filter, numeric, MatchGroup::OpencodeSessionId);
        let last = rows.last();
        if best_match_spec(last, filter, numeric).is_some() {
            assert(seq![last] =~= Seq::<DashboardRow>::empty().push(last));
        } else {
            assert(matched_rows(rows.drop_last(), filter, numeric) + seq![] =~= matched_rows(
                rows.drop_last(),
                filter,
                numeric,
            ));
        }
    }
}

/// A filter shows each row that it matches exactly once and no other row:
/// the rows of its groups, taken together, are the matched rows.
pub proof fn law_filter_shows_each_match_once(
    groups: Seq<DashboardGroup>,
    rows: Seq<DashboardRow>,
    text: Seq<char>,
)
    requires
        view_rows(groups) == all_group_rows(rows, ascii_lower(text), is_numeric_filter_spec(text)),
    ensures
        view_rows(groups).to_multiset() =~= matched_rows(
            rows,
            ascii_lower(text),
            is_numeric_filter_spec(text),
        ).to_multiset(),
{
    lemma_all_groups_multiset(rows, ascii_lower(text), is_numeric_filter_spec(text));
}

proof fn lemma_select_member(
    rows: Seq<DashboardRow>,
    filter: Seq<char>,
    numeric: bool,
    g: MatchGroup,
    st: MatchStrength,
    k: int,
)
    requires
        0 <= k < select_rows(rows, filter, numeric, g, st).len(),
    ensures
        best_match_spec(select_rows(rows, filter, numeric, g, st)[k], filter, numeric) == Some(
            (g, st),
        ),
    decreases rows.len(),
{
    let init = select_rows(rows.drop_last(), filter, numeric, g, st);
    if k < init.len() {
        lemma_select_member(rows.drop_last(), filter, numeric, g, st, k);
    }
}

/// A row stands in a group because that group is where it matches best, and
/// the group lists its exact matches, then its prefix matches, then the rest.
pub proof fn law_filter_row_in_best_group(
    rows: Seq<DashboardRow>,
    filter: Seq<char>,
    numeric: bool,
    g: MatchGroup,
    k: int,
)
    requires
        0 <= k < group_rows(rows, filter, numeric, g).len(),
    ensures
        best_match_spec(group_rows(rows, filter, numeric, g)[k], filter, numeric) matches Some(
            (g2, _),
        ) && g2 == g,
        forall|j: int|
            0 <= j < k ==> strength_rank(
                best_match_spec(group_rows(rows, filter, numeric, g)[j], filter, numeric).unwrap().1,
            ) <= strength_rank(
                best_match_spec(group_rows(rows, filter, numeric, g)[k], filter, numeric).unwrap().1,
            ),
{
    let e = select_rows(rows, filter, numeric, g, MatchStrength::Exact);
    let p = select_rows(rows, filter, numeric, g, MatchStrength::Prefix);
    let c = select_rows(rows, filter, numeric, g, MatchStrength::Contains);
    let all = group_rows(rows, filter, numeric, g);
    assert(all == e + p + c);
    assert forall|j: int| 0 <= j < all.len() implies best_match_spec(all[j], filter, numeric)
        == Some(
        (
            g,
            if j < e.len() {
                MatchStrength::Exact
            } else if j < e.len() + p.len() {
                MatchStrength::Prefix
            } else {
                MatchStrength::Contains
            },
        ),
    ) by {
        if j < e.len() {
            lemma_select_member(rows, filter, numeric, g, MatchStrength::Exact, j);
        } else if j < e.len() + p.len() {
            lemma_select_member(rows, filter, numeric, g, MatchStrength::Prefix, j - e.len());
        } else {
            lemma_select_member(rows, filter, numeric, g, MatchStrength::Contains, j - e.len() - p.len());
        }
    }
}

/// The rank of a match strength: exact first, then prefix, then contains.
pub open spec fn strength_rank(st: MatchStrength) -> int {
    match st {
        MatchStrength::Exact => 0,
        MatchStrength::Prefix => 1,
        MatchStrength::Contains => 2,
    }
}

proof fn lemma_lower_idempotent(s: Seq<char>)
    ensures
        ascii_lower(ascii_lower(s)) == ascii_lower(s),
        is_numeric_filter_spec(ascii_lower(s)) == is_numeric_filter_spec(s),
{
    assert(ascii_lower(ascii_lower(s)) =~= ascii_lower(s));
    assert(all_digits(ascii_lower(s)) == all_digits(s)) by {
        if all_digits(s) {
            assert forall|i: int| 0 <= i < ascii_lower(s).len() implies crate::text::is_digit(
                #[trigger] ascii_lower(s)[i],
            ) by {
                assert(crate::text::is_digit(s[i]));
            }
        }
        if all_digits(ascii_lower(s)) {
            assert forall|i: int| 0 <= i < s.len() implies crate::text::is_digit(#[trigger] s[i]) by {
                assert(crate::text::is_digit(ascii_lower(s)[i]));
            }
        }
    }
}

/// Filtering ignores ASCII case: a filter text and its lower-case form show
/// the same groups.
pub proof fn law_filter_ignores_ascii_case(
    groups: Seq<DashboardGroup>,
    rows: Seq<DashboardRow>,
    text: Seq<char>,
)
    ensures
        filtered_groups_spec(groups, rows, text) == filtered_groups_spec(
            groups,
            rows,
            ascii_lower(text),
        ),
{
    lemma_lower_idempotent(text);
}

} // verus!
