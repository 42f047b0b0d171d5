//! The merged session list: each saved session paired with the tmux session
//! that runs it, ordered by status.
use vstd::prelude::*;

use crate::session::{
    status_for, ManagedSessionRuntime, SavedSession, SessionListEntry, SessionStatus,
};
use crate::text::{concat2, str_eq};

verus! {

/// The order of statuses in the list: attached, then detached, then saved.
pub open spec fn status_rank(status: SessionStatus) -> int {
    match status {
        SessionStatus::RunningAttached => 0,
        SessionStatus::RunningDetached => 1,
        SessionStatus::Saved => 2,
    }
}

/// Whether entry `a` is listed strictly before entry `b`: a lower status rank
/// first, and within one status the higher numeric ID first.
pub open spec fn listed_before(a: SessionListEntry, b: SessionListEntry) -> bool {
    status_rank(a.status) < status_rank(b.status) || (status_rank(a.status) == status_rank(
        b.status,
    ) && a.saved_session.id > b.saved_session.id)
}

/// Whether the entries are in list order.
pub open spec fn entries_sorted(s: Seq<SessionListEntry>) -> bool {
    forall|i: int, j: int| 0 <= i < j < s.len() ==> !listed_before(#[trigger] s[j], #[trigger] s[i])
}

/// The runtime record that tmux reports under `name`; when several share the
/// name, the last one counts.
pub open spec fn runtime_named(runtimes: Seq<ManagedSessionRuntime>, name: Seq<char>) -> Option<
    ManagedSessionRuntime,
>
    decreases runtimes.len(),
{
    if runtimes.len() == 0 {
        None
    } else if runtimes.last().tmux_session_name@ == name {
        Some(runtimes.last())
    } else {
        runtime_named(runtimes.drop_last(), name)
    }
}

/// The list entry for a saved session, given the runtimes and the prefix of
/// managed tmux session names.
pub open spec fn entry_for(
    saved: SavedSession,
    runtimes: Seq<ManagedSessionRuntime>,
    prefix: Seq<char>,
) -> SessionListEntry {
    let rt = runtime_named(runtimes, prefix + saved.name@);
    SessionListEntry { saved_session: saved, status: status_for(rt), runtime: rt }
}

pub(crate) fn status_rank_exec(status: SessionStatus) -> (r: u8)
    ensures
        r as int == status_rank(status),
{
    match status {
        SessionStatus::RunningAttached => 0,
        SessionStatus::RunningDetached => 1,
        SessionStatus::Saved => 2,
    }
}

fn listed_before_exec(a: &SessionListEntry, b: &SessionListEntry) -> (r: bool)
    ensures
        r == listed_before(*a, *b),
{
    let ra = status_rank_exec(a.status);
    let rb = status_rank_exec(b.status);
    ra < rb || (ra == rb && a.saved_session.id > b.saved_session.id)
}

/// The runtime record named `name`, the last one when several share it.
fn find_runtime<'a>(runtimes: &'a Vec<ManagedSessionRuntime>, name: &str) -> (r: Option<
    &'a ManagedSessionRuntime,
>)
    ensures
        match r {
            Some(rt) => runtime_named(runtimes@, name@) == Some(*rt),
            None => runtime_named(runtimes@, name@).is_none(),
        },
{
    let mut i: usize = runtimes.len();
    assert(runtimes@.take(i as int) =~= runtimes@);
    while i > 0
        invariant
            i <= runtimes.len(),
            runtime_named(runtimes@, name@) == runtime_named(runtimes@.take(i as int), name@),
        decreases i,
    {
        let ghost t = runtimes@.take(i as int);
        assert(t.drop_last() =~= runtimes@.take(i - 1));
        if str_eq(runtimes[i - 1].tmux_session_name.as_str(), name) {
            return Some(&runtimes[i - 1]);
        }
        i = i - 1;
    }
    None
}

proof fn lemma_insert_to_multiset<A>(s: Seq<A>, p: int, a: A)
    requires
        0 <= p <= s.len(),
    ensures
        s.insert(p, a).to_multiset() == s.to_multiset().insert(a),
{
    let t = s.insert(p, a);
    s.insert_ensures(p, a);
    t.to_multiset_ensures();
    assert(t.remove(p) =~= s);
    assert(t[p] == a);
    assert(t.to_multiset().count(a) > 0) by {
        assert(t.contains(a));
    }
    assert(t.to_multiset() =~= s.to_multiset().insert(a));
}

/// Pairs each saved session with the tmux session that runs it (the one named
/// by the prefix followed by the session's name) and lists them attached
/// first, then detached, then saved, the higher numeric ID first within a
/// status. The result holds exactly the entries of the saved sessions.
pub fn merge_saved_and_runtime_sessions_with_prefix(
    saved_sessions: Vec<SavedSession>,
    runtimes: Vec<ManagedSessionRuntime>,
    tmux_prefix: &str,
) -> (out: Vec<SessionListEntry>)
    ensures
        out@.to_multiset() == Seq::new(
            saved_sessions@.len(),
            |i: int| entry_for(saved_sessions@[i], runtimes@, tmux_prefix@),
        ).to_multiset(),
        entries_sorted(out@),
{
    let ghost built = Seq::new(
        saved_sessions@.len(),
        |i: int| entry_for(saved_sessions@[i], runtimes@, tmux_prefix@),
    );
    let ghost input = saved_sessions@;
    let mut out: Vec<SessionListEntry> = Vec::new();
    let mut rest = saved_sessions;
    let ghost n = input.len();
    assert(n == rest.len());
    let mut done: usize = 0;
    proof {
        assert(rest@ =~= input.skip(0));
        assert(built.take(0).to_multiset() =~= out@.to_multiset()) by {
            built.take(0).to_multiset_ensures();
            out@.to_multiset_ensures();
        }
    }
    while rest.len() > 0
        invariant
            n == input.len(),
            n == built.len(),
            n <= usize::MAX,
            built == Seq::new(
                input.len(),
                |i: int| entry_for(input[i], runtimes@, tmux_prefix@),
            ),
            done + rest.len() == n,
            rest@ == input.skip(done as int),
            out@.to_multiset() == built.take(done as int).to_multiset(),
            entries_sorted(out@),
        decreases rest.len(),
    {
        let ghost old_rest = rest@;
        let saved = rest.remove(0);
        assert(saved == input[done as int]);
        let name = saved.managed_tmux_session_name(tmux_prefix);
        let rt = find_runtime(&runtimes, name.as_str());
        let entry = SessionListEntry::from_saved_session(saved, rt);
        assert(entry == built[done as int]);
        let mut p: usize = 0;
        while p < out.len() && !listed_before_exec(&entry, &out[p])
            invariant
                p <= out.len(),
                forall|k: int| 0 <= k < p ==> !listed_before(entry, #[trigger] out@[k]),
            decreases out.len() - p,
        {
            p = p + 1;
        }
        let ghost old_out = out@;
        out.insert(p, entry);
        proof {
            old_out.insert_ensures(p as int, entry);
            lemma_insert_to_multiset(old_out, p as int, entry);
            assert(built.take(done + 1) =~= built.take(done as int).push(entry));
            built.take(done as int).to_multiset_ensures();
            assert forall|i: int, j: int| 0 <= i < j < out@.len() implies !listed_before(
                #[trigger] out@[j],
                #[trigger] out@[i],
            ) by {
                if j < p {
                    assert(out@[i] == old_out[i] && out@[j] == old_out[j]);
                } else if j == p {
                    assert(out@[i] == old_out[i]);
                } else if i < p {
                    assert(out@[i] == old_out[i] && out@[j] == old_out[j - 1]);
                    assert(!listed_before(old_out[j - 1], old_out[i]));
                } else if i == p {
                    assert(out@[j] == old_out[j - 1]);
                    assert(listed_before(entry, old_out[p as int]));
                    if j - 1 > p {
                        assert(!listed_before(old_out[j - 1], old_out[p as int]));
                    }
                } else {
                    assert(out@[i] == old_out[i - 1] && out@[j] == old_out[j - 1]);
                }
            }
            assert(rest@ =~= input.skip(done + 1));
        }
        done = done + 1;
    }
    proof {
        assert(built.take(n as int) =~= built);
    }
    out
}

} // verus!
