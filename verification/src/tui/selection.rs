//! Which row the dashboard selects, and which action Enter runs on it.
use vstd::prelude::*;

use crate::paths::{path_eq, path_eq_spec};

use super::types::{
    available_actions_spec, display_order_spec, is_running_status, supports_action, view_rows, DashboardAction,
    DashboardRow, DashboardView, InputMode,
};

verus! {

/// The selected session, by numeric ID; it survives refreshes and regrouping.
#[derive(Debug, Clone, Copy, PartialEq, Eq, Structural)]
pub struct SelectedSession(pub i64);

/// The first position of the row with this numeric ID.
pub open spec fn position_of_id(rows: Seq<DashboardRow>, id: i64) -> Option<nat>
    decreases rows.len(),
{
    if rows.len() == 0 {
        None
    } else if rows[0].session_id == id {
        Some(0)
    } else {
        match position_of_id(rows.drop_first(), id) {
            Some(k) => Some(k + 1),
            None => None,
        }
    }
}

/// The first position of a row whose directory is `directory`.
pub open spec fn position_in_directory(rows: Seq<DashboardRow>, directory: Seq<char>) -> Option<nat>
    decreases rows.len(),
{
    if rows.len() == 0 {
        None
    } else if path_eq_spec(rows[0].full_directory@, directory) {
        Some(0)
    } else {
        match position_in_directory(rows.drop_first(), directory) {
            Some(k) => Some(k + 1),
            None => None,
        }
    }
}

/// The session selected when nothing is: the first one in the current
/// directory, else the first one shown.
pub open spec fn default_identity_spec(rows: Seq<DashboardRow>, current_directory: Option<Seq<char>>) -> Option<
    SelectedSession,
> {
    let first = if rows.len() > 0 {
        Some(SelectedSession(rows[0].session_id))
    } else {
        None
    };
    match current_directory {
        Some(d) => match position_in_directory(rows, d) {
            Some(k) => Some(SelectedSession(rows[k as int].session_id)),
            None => first,
        },
        None => first,
    }
}

/// The position selected in the rows shown: that of the selected session (or,
/// without one, of the default), or the top when it is not shown.
pub open spec fn select_index_spec(
    rows: Seq<DashboardRow>,
    selected: Option<SelectedSession>,
    current_directory: Option<Seq<char>>,
) -> nat {
    let target = match selected {
        Some(s) => Some(s),
        None => default_identity_spec(rows, current_directory),
    };
    match target {
        Some(SelectedSession(id)) => match position_of_id(rows, id) {
            Some(k) => k,
            None => 0,
        },
        None => 0,
    }
}

/// The index of an action in display order.
pub open spec fn order_index(a: DashboardAction) -> int {
    match a {
        DashboardAction::Attach => 0,
        DashboardAction::Stop => 1,
        DashboardAction::Remove => 2,
        DashboardAction::Restart => 3,
    }
}

/// The action `k` places after the one at display index `i`, wrapping.
pub open spec fn rotated_action(i: int, k: int) -> DashboardAction {
    display_order_spec()[(i + k) % 4]
}

/// The action to keep for a row: the current one when the row supports it,
/// else the next one in display order (wrapping) that it supports.
pub open spec fn preferred_action_spec(row: DashboardRow, current: DashboardAction) -> DashboardAction {
    let i = order_index(current);
    if supports_action(row, current) {
        current
    } else if supports_action(row, rotated_action(i, 1)) {
        rotated_action(i, 1)
    } else if supports_action(row, rotated_action(i, 2)) {
        rotated_action(i, 2)
    } else if supports_action(row, rotated_action(i, 3)) {
        rotated_action(i, 3)
    } else {
        current
    }
}

/// The first position of an action in a list.
pub open spec fn position_of_action(actions: Seq<DashboardAction>, a: DashboardAction) -> int
    decreases actions.len(),
{
    if actions.len() == 0 {
        0
    } else if actions[0] == a {
        0
    } else {
        1 + position_of_action(actions.drop_first(), a)
    }
}

/// The action after moving `delta` steps through the row's available actions
/// from the kept action, wrapping at both ends.
pub open spec fn cycle_action_spec(row: DashboardRow, current: DashboardAction, delta: int) -> DashboardAction {
    let actions = available_actions_spec(row);
    if actions.len() == 0 {
        current
    } else {
        let kept = preferred_action_spec(row, current);
        let idx = position_of_action(actions, kept);
        actions[(idx + delta) % (actions.len() as int)]
    }
}

proof fn lemma_position_of_id(rows: Seq<DashboardRow>, id: i64)
    ensures
        match position_of_id(rows, id) {
            Some(k) => k < rows.len() && rows[k as int].session_id == id && forall|j: int|
                0 <= j < k ==> rows[j].session_id != id,
            None => forall|j: int| 0 <= j < rows.len() ==> rows[j].session_id != id,
        },
    decreases rows.len(),
{
    if rows.len() > 0 && rows[0].session_id != id {
        lemma_position_of_id(rows.drop_first(), id);
        assert forall|j: int| 0 < j < rows.len() implies rows[j] == rows.drop_first()[j - 1] by {}
    }
}

proof fn lemma_position_in_directory(rows: Seq<DashboardRow>, d: Seq<char>)
    ensures
        match position_in_directory(rows, d) {
            Some(k) => k < rows.len() && path_eq_spec(rows[k as int].full_directory@, d) && forall|
                j: int,
            | 0 <= j < k ==> !path_eq_spec(rows[j].full_directory@, d),
            None => forall|j: int| 0 <= j < rows.len() ==> !path_eq_spec(rows[j].full_directory@, d),
        },
    decreases rows.len(),
{
    if rows.len() > 0 && !path_eq_spec(rows[0].full_directory@, d) {
        lemma_position_in_directory(rows.drop_first(), d);
        assert forall|j: int| 0 < j < rows.len() implies rows[j] == rows.drop_first()[j - 1] by {}
    }
}

fn find_position(rows: &Vec<&DashboardRow>, id: i64) -> (r: Option<usize>)
    ensures
        match r {
            Some(k) => position_of_id(rows@.map_values(|x: &DashboardRow| *x), id) == Some(k as nat),
            None => position_of_id(rows@.map_values(|x: &DashboardRow| *x), id).is_none(),
        },
{
    let ghost all = rows@.map_values(|x: &DashboardRow| *x);
    proof {
        lemma_position_of_id(all, id);
    }
    let mut i: usize = 0;
    while i < rows.len()
        invariant
            all == rows@.map_values(|x: &DashboardRow| *x),
            i <= rows.len(),
            forall|j: int| 0 <= j < i ==> all[j].session_id != id,
            match position_of_id(all, id) {
                Some(k) => k < all.len() && all[k as int].session_id == id && forall|j: int|
                    0 <= j < k ==> all[j].session_id != id,
                None => forall|j: int| 0 <= j < all.len() ==> all[j].session_id != id,
            },
        decreases rows.len() - i,
    {
        if rows[i].session_id == id {
            assert(all[i as int] == *rows@[i as int]);
            return Some(i);
        }
        assert(all[i as int] == *rows@[i as int]);
        i = i + 1;
    }
    None
}

proof fn lemma_sessions_rows(view: &DashboardView, rows: Seq<&DashboardRow>)
    requires
        rows.len() == view_rows(view.groups@).len(),
        forall|i: int| 0 <= i < rows.len() ==> *(#[trigger] rows[i]) == view_rows(view.groups@)[i],
    ensures
        rows.map_values(|x: &DashboardRow| *x) == view_rows(view.groups@),
{
    assert(rows.map_values(|x: &DashboardRow| *x) =~= view_rows(view.groups@));
}

/// The position selected in the view.
pub fn select_index(
    view: &DashboardView,
    selected_identity: Option<SelectedSession>,
    current_directory: Option<&str>,
) -> (r: usize)
    ensures
        r as nat == select_index_spec(
            view_rows(view.groups@),
            selected_identity,
            match current_directory {
                Some(d) => Some(d@),
                None => None,
            },
        ),
{
    let target = match selected_identity {
        Some(s) => Some(s),
        None => default_selected_identity(view, current_directory),
    };
    let rows = view.sessions();
    proof {
        lemma_sessions_rows(view, rows@);
    }
    match target {
        Some(SelectedSession(id)) => match find_position(&rows, id) {
            Some(k) => k,
            None => 0,
        },
        None => 0,
    }
}

/// The position selected in the view for the current input: the selected
/// session is kept in command mode or without filter text; while filter text
/// is typed, the default applies.
pub fn select_index_for_input(
    view: &DashboardView,
    selected_identity: Option<SelectedSession>,
    current_directory: Option<&str>,
    input_mode: InputMode,
    input_text: &str,
) -> (r: usize)
    ensures
        r as nat == select_index_spec(
            view_rows(view.groups@),
            if input_mode == InputMode::Command || input_text@.len() == 0 {
                selected_identity
            } else {
                None
            },
            match current_directory {
                Some(d) => Some(d@),
                None => None,
            },
        ),
{
    let preserve_selection = input_mode == InputMode::Command || input_text.is_empty();
    let kept = if preserve_selection {
        selected_identity
    } else {
        None
    };
    select_index(view, kept, current_directory)
}

/// The session shown at a position, if any.
pub fn selected_identity_at(view: &DashboardView, index: usize) -> (r: Option<SelectedSession>)
    ensures
        r == (if index < view_rows(view.groups@).len() {
            Some(SelectedSession(view_rows(view.groups@)[index as int].session_id))
        } else {
            None
        }),
{
    let rows = view.sessions();
    if index < rows.len() {
        Some(SelectedSession(rows[index].session_id))
    } else {
        None
    }
}

/// The position at which the selected session is shown, if it is.
pub fn index_for_selected_identity(view: &DashboardView, selected_identity: Option<SelectedSession>) -> (r:
    Option<usize>)
    ensures
        r == (match selected_identity {
            Some(SelectedSession(id)) => match position_of_id(view_rows(view.groups@), id) {
                Some(k) => Some(k as usize),
                None => None,
            },
            None => None,
        }),
{
    let id = match selected_identity {
        Some(SelectedSession(id)) => id,
        None => return None,
    };
    let rows = view.sessions();
    proof {
        lemma_sessions_rows(view, rows@);
        lemma_position_of_id(view_rows(view.groups@), id);
    }
    find_position(&rows, id)
}

/// The session selected when nothing is: the first one in the current
/// directory, else the first one shown.
pub fn default_selected_identity(view: &DashboardView, current_directory: Option<&str>) -> (r: Option<
    SelectedSession,
>)
    ensures
        r == default_identity_spec(
            view_rows(view.groups@),
            match current_directory {
                Some(d) => Some(d@),
                None => None,
            },
        ),
{
    let rows = view.sessions();
    let ghost all = view_rows(view.groups@);
    proof {
        lemma_sessions_rows(view, rows@);
    }
    if let Some(d) = current_directory {
        proof {
            lemma_position_in_directory(all, d@);
        }
        let mut i: usize = 0;
        while i < rows.len()
            invariant
                all == rows@.map_values(|x: &DashboardRow| *x),
                all == view_rows(view.groups@),
                current_directory == Some(d),
                i <= rows.len(),
                forall|j: int| 0 <= j < i ==> !path_eq_spec(all[j].full_directory@, d@),
                match position_in_directory(all, d@) {
                    Some(k) => k < all.len() && path_eq_spec(all[k as int].full_directory@, d@)
                        && forall|j: int|
                        0 <= j < k ==> !path_eq_spec(all[j].full_directory@, d@),
                    None => forall|j: int|
                        0 <= j < all.len() ==> !path_eq_spec(all[j].full_directory@, d@),
                },
            decreases rows.len() - i,
        {
            assert(all[i as int] == *rows@[i as int]);
            if path_eq(rows[i].full_directory.as_str(), d) {
                proof {
                    match position_in_directory(all, d@) {
                        Some(k) => {
                            if k < i {
                                assert(!path_eq_spec(all[k as int].full_directory@, d@));
                            }
                            if k > i {
                                assert(!path_eq_spec(all[i as int].full_directory@, d@));
                            }
                            assert(k == i);
                        },
                        None => {
                            assert(!path_eq_spec(all[i as int].full_directory@, d@));
                        },
                    }
                }
                return Some(SelectedSession(rows[i].session_id));
            }
            i = i + 1;
        }
    }
    if rows.len() > 0 {
        Some(SelectedSession(rows[0].session_id))
    } else {
        None
    }
}

fn order_at(i: usize) -> (a: DashboardAction)
    requires
        i < 4,
    ensures
        a == display_order_spec()[i as int],
{
    match i {
        0 => DashboardAction::Attach,
        1 => DashboardAction::Stop,
        2 => DashboardAction::Remove,
        _ => DashboardAction::Restart,
    }
}

fn order_index_exec(a: DashboardAction) -> (i: usize)
    ensures
        i as int == order_index(a),
{
    match a {
        DashboardAction::Attach => 0,
        DashboardAction::Stop => 1,
        DashboardAction::Remove => 2,
        DashboardAction::Restart => 3,
    }
}

/// The action to keep for a row: the current one when the row supports it,
/// else the next supported one in display order, wrapping.
pub fn preferred_action_for_row(row: &DashboardRow, current: DashboardAction) -> (r: DashboardAction)
    ensures
        r == preferred_action_spec(*row, current),
        supports_action(*row, r),
{
    if row.supports_action(current) {
        return current;
    }
    let i = order_index_exec(current);
    let mut offset: usize = 1;
    while offset <= 3
        invariant
            1 <= offset <= 4,
            i as int == order_index(current),
            !supports_action(*row, current),
            forall|k: int|
                1 <= k < offset ==> !supports_action(*row, #[trigger] rotated_action(i as int, k)),
        decreases 4 - offset,
    {
        let candidate = order_at((i + offset) % 4);
        assert(candidate == rotated_action(i as int, offset as int));
        if row.supports_action(candidate) {
            proof {
                if offset >= 2 {
                    assert(!supports_action(*row, rotated_action(i as int, 1)));
                }
                if offset >= 3 {
                    assert(!supports_action(*row, rotated_action(i as int, 2)));
                }
            }
            return candidate;
        }
        offset = offset + 1;
    }
    proof {
        assert(!supports_action(*row, rotated_action(i as int, 1)));
        assert(!supports_action(*row, rotated_action(i as int, 2)));
        assert(!supports_action(*row, rotated_action(i as int, 3)));
        assert(supports_action(*row, DashboardAction::Attach));
        assert(false);
    }
    current
}

pub proof fn lemma_available_contains(row: DashboardRow, a: DashboardAction)
    ensures
        supports_action(row, a) ==> available_actions_spec(row)[position_of_action(
            available_actions_spec(row),
            a,
        )] == a && 0 <= position_of_action(available_actions_spec(row), a) < available_actions_spec(
            row,
        ).len(),
        available_actions_spec(row).len() > 0,
{
    let o = display_order_spec();
    let p = |x: DashboardAction| supports_action(row, x);
    reveal_with_fuel(Seq::filter, 5);
    assert(o.drop_last().drop_last().drop_last().drop_last() =~= Seq::<DashboardAction>::empty());
    let f = available_actions_spec(row);
    assert(f.len() > 0);
    if supports_action(row, a) {
        assert(f.contains(a)) by {
            o.filter_lemma(p);
            assert(o[order_index(a)] == a);
        }
        let q = position_of_action(f, a);
        lemma_position_of_action(f, a);
    }
}

proof fn lemma_position_of_action(actions: Seq<DashboardAction>, a: DashboardAction)
    requires
        actions.contains(a),
    ensures
        0 <= position_of_action(actions, a) < actions.len(),
        actions[position_of_action(actions, a)] == a,
    decreases actions.len(),
{
    if actions[0] != a {
        let j = choose|j: int| 0 <= j < actions.len() && actions[j] == a;
        assert(actions.drop_first()[j - 1] == a);
        lemma_position_of_action(actions.drop_first(), a);
    }
}

/// The action after moving `delta` steps through the row's available actions,
/// wrapping at both ends.
pub fn cycle_action_for_row(row: &DashboardRow, current: DashboardAction, delta: isize) -> (r:
    DashboardAction)
    ensures
        r == cycle_action_spec(*row, current, delta as int),
{
    let actions = row.available_actions();
    proof {
        lemma_available_contains(*row, preferred_action_spec(*row, current));
    }
    if actions.len() == 0 {
        return current;
    }
    let kept = preferred_action_for_row(row, current);
    let ghost idx_spec = position_of_action(actions@, kept);
    let mut idx: usize = 0;
    while idx < actions.len() && actions[idx] != kept
        invariant
            idx <= actions.len(),
            actions@ == available_actions_spec(*row),
            0 <= idx_spec < actions.len(),
            actions@[idx_spec] == kept,
            idx_spec == position_of_action(actions@, kept),
            forall|j: int| 0 <= j < idx ==> actions@[j] != kept,
        decreases actions.len() - idx,
    {
        idx = idx + 1;
    }
    proof {
        lemma_first_position(actions@, kept, idx as int);
    }
    let len = actions.len();
    let next: usize = if delta >= 0 {
        let d = (delta as usize) % len;
        proof {
            vstd::arithmetic::div_mod::lemma_add_mod_noop_right(idx as int, delta as int, len as int);
        }
        (idx + d) % len
    } else {
        let m_prime: usize = (-(delta + 1)) as usize;
        let m = m_prime % len;
        proof {
            let q = m_prime as int / len as int;
            vstd::arithmetic::div_mod::lemma_fundamental_div_mod(m_prime as int, len as int);
            vstd::arithmetic::div_mod::lemma_mod_multiples_vanish(
                -(q + 1),
                idx as int + len as int - 1 - m as int,
                len as int,
            );
            assert(idx as int + delta as int == len * (-(q + 1)) + (idx as int + len as int - 1
                - m as int)) by (nonlinear_arith)
                requires
                    m_prime as int == len * q + m as int,
                    delta as int == -(m_prime as int) - 1,
            ;
        }
        (idx + (len - 1 - m)) % len
    };
    actions[next]
}

proof fn lemma_first_position(actions: Seq<DashboardAction>, a: DashboardAction, idx: int)
    requires
        0 <= idx < actions.len(),
        actions[idx] == a,
        forall|j: int| 0 <= j < idx ==> actions[j] != a,
    ensures
        position_of_action(actions, a) == idx,
    decreases idx,
{
    if idx > 0 {
        lemma_first_position(actions.drop_first(), a, idx - 1);
    }
}

/// The actions that can be taken on a row, in display order.
pub fn available_actions(row: &DashboardRow) -> (r: Vec<DashboardAction>)
    ensures
        r@ == available_actions_spec(*row),
{
    row.available_actions()
}


/// The actions of a row, by its status: all four for a running session with a
/// captured OpenCode session; attach, stop and remove for another running
/// session; attach and remove for a saved one.
proof fn lemma_available_shapes(row: DashboardRow)
    ensures
        is_running_status(row.status) && row.opencode_session_id.is_some() ==> available_actions_spec(
            row,
        ) == seq![
            DashboardAction::Attach,
            DashboardAction::Stop,
            DashboardAction::Remove,
            DashboardAction::Restart,
        ],
        is_running_status(row.status) && row.opencode_session_id.is_none() ==> available_actions_spec(
            row,
        ) == seq![DashboardAction::Attach, DashboardAction::Stop, DashboardAction::Remove],
        !is_running_status(row.status) ==> available_actions_spec(row) == seq![
            DashboardAction::Attach,
            DashboardAction::Remove,
        ],
{
    let o = display_order_spec();
    let p = |a: DashboardAction| supports_action(row, a);
    reveal_with_fuel(Seq::filter, 5);
    assert(o.drop_last().drop_last().drop_last().drop_last() =~= Seq::<DashboardAction>::empty());
    assert(o.drop_last().drop_last().drop_last() =~= seq![DashboardAction::Attach]);
    assert(o.drop_last().drop_last() =~= seq![DashboardAction::Attach, DashboardAction::Stop]);
    assert(o.drop_last() =~= seq![
        DashboardAction::Attach,
        DashboardAction::Stop,
        DashboardAction::Remove,
    ]);
    let f1 = seq![DashboardAction::Attach].filter(p);
    assert(f1 =~= seq![DashboardAction::Attach]);
    if is_running_status(row.status) {
        assert(seq![DashboardAction::Attach, DashboardAction::Stop].filter(p) =~= seq![
            DashboardAction::Attach,
            DashboardAction::Stop,
        ]);
    } else {
        assert(seq![DashboardAction::Attach, DashboardAction::Stop].filter(p) =~= seq![
            DashboardAction::Attach,
        ]);
    }
}

/// Cycling never leaves the row's available actions: the action after any
/// number of steps is one that the row supports.
pub proof fn law_cycle_stays_available(row: DashboardRow, current: DashboardAction, delta: int)
    ensures
        supports_action(row, cycle_action_spec(row, current, delta)),
        available_actions_spec(row).contains(cycle_action_spec(row, current, delta)),
{
    lemma_available_shapes(row);
    lemma_available_contains(row, preferred_action_spec(row, current));
    let actions = available_actions_spec(row);
    let kept = preferred_action_spec(row, current);
    assert(supports_action(row, kept));
    let idx = position_of_action(actions, kept);
    let k = (idx + delta) % (actions.len() as int);
    assert(0 <= k < actions.len());
    assert(actions[k] == cycle_action_spec(row, current, delta));
}

/// One step right and then one step left returns to the action the row had,
/// when the row supports it; and the reverse.
pub proof fn law_cycle_round_trip(row: DashboardRow, current: DashboardAction)
    requires
        supports_action(row, current),
    ensures
        cycle_action_spec(row, cycle_action_spec(row, current, 1), -1) == current,
        cycle_action_spec(row, cycle_action_spec(row, current, -1), 1) == current,
{
    lemma_available_shapes(row);
    let actions = available_actions_spec(row);
    let n = actions.len() as int;
    assert(2 <= n <= 4);
    assert(forall|a: int, b: int| 0 <= a < n && 0 <= b < n && a != b ==> actions[a] != actions[b]);
    lemma_available_contains(row, current);
    let i = position_of_action(actions, current);
    assert(preferred_action_spec(row, current) == current);
    lemma_step_back(row, i, 1);
    lemma_step_back(row, i, -1);
}

proof fn lemma_step_back(row: DashboardRow, i: int, d: int)
    requires
        d == 1 || d == -1,
        0 <= i < available_actions_spec(row).len(),
        2 <= available_actions_spec(row).len() <= 4,
        forall|a: int, b: int|
            0 <= a < available_actions_spec(row).len() && 0 <= b < available_actions_spec(row).len()
                && a != b ==> available_actions_spec(row)[a] != available_actions_spec(row)[b],
        position_of_action(available_actions_spec(row), available_actions_spec(row)[i]) == i,
        supports_action(row, available_actions_spec(row)[i]),
    ensures
        cycle_action_spec(
            row,
            cycle_action_spec(row, available_actions_spec(row)[i], d),
            -d,
        ) == available_actions_spec(row)[i],
{
    let actions = available_actions_spec(row);
    let n = actions.len() as int;
    let current = actions[i];
    let o = display_order_spec();
    o.filter_lemma(|a: DashboardAction| supports_action(row, a));
    assert(preferred_action_spec(row, current) == current);
    let j = (i + d) % n;
    assert(0 <= j < n);
    let b = actions[j];
    assert(cycle_action_spec(row, current, d) == b);
    assert(supports_action(row, b));
    assert(preferred_action_spec(row, b) == b);
    assert forall|k: int| 0 <= k < j implies actions[k] != b by {}
    lemma_first_position(actions, b, j);
    assert((j - d) % n == i) by {
        if n == 2 {
            assert(((i + d) % 2 - d) % 2 == i);
        } else if n == 3 {
            assert(((i + d) % 3 - d) % 3 == i);
        } else {
            assert(((i + d) % 4 - d) % 4 == i);
        }
    }
}

/// The dashboard selects the first filtered row when nothing was selected and
/// no row sits in the current directory (or there is none): typing a filter
/// and pressing Enter acts on the top result.
pub proof fn law_filter_selects_top_result(rows: Seq<DashboardRow>, current_directory: Option<Seq<char>>)
    requires
        rows.len() > 0,
        match current_directory {
            Some(d) => position_in_directory(rows, d).is_none(),
            None => true,
        },
    ensures
        select_index_spec(rows, None, current_directory) == 0,
{
}

} // verus!
