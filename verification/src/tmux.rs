//! What the tool asks of tmux and reads back: the names of managed sessions,
//! the argument lists of the tmux commands it runs, the parsing of their
//! output and of `/proc` status files, and the process tree whose memory a
//! session uses. Running the commands and reading the files is the caller's.
use vstd::prelude::*;

use crate::session::ManagedSessionRuntime;
use crate::text::{
    chars_of, concat2, concat3, contains, contains_seq, copy_str, has_prefix, lines, occurs_at,
    occurs_at_exec, parse_u32, parse_u64, parse_unsigned, parse_usize, slice_string,
    split_lines, split_once_char, split_once_spec, split_whitespace, starts_with, string_views,
    trim, trim_spec, words,
};

verus! {

/// The tmux sessions that the tool manages: those whose names begin with a
/// prefix.
#[derive(Debug, Clone, PartialEq, Eq)]
pub struct Tmux {
    prefix: String,
}

/// Why a tmux operation was refused.
#[derive(Debug, Clone, PartialEq, Eq)]
pub enum TmuxError {
    /// Attaching from inside tmux.
    NestedAttach,
    /// Stopping a session that is not running.
    NotRunning(String),
    /// A restarted session did not stop in time.
    DidNotStop(String),
    /// A restarted session did not show a pane in time.
    NoPane(String),
}

/// The message of a tmux error.
pub open spec fn tmux_error_message(e: TmuxError) -> Seq<char> {
    match e {
        TmuxError::NestedAttach => "tmux attach requires running oc from outside tmux"@,
        TmuxError::NotRunning(name) => "Session '"@ + name@ + "' is not running in tmux"@,
        TmuxError::DidNotStop(name) => "Session '"@ + name@
            + "' did not stop before restart timeout"@,
        TmuxError::NoPane(name) => "Session '"@ + name@
            + "' did not expose a pane before restart timeout"@,
    }
}

impl TmuxError {
    /// The error's message.
    pub fn message(&self) -> (m: String)
        ensures
            m@ == tmux_error_message(*self),
    {
        match self {
            TmuxError::NestedAttach => copy_str("tmux attach requires running oc from outside tmux"),
            TmuxError::NotRunning(name) => concat3(
                "Session '",
                name.as_str(),
                "' is not running in tmux",
            ),
            TmuxError::DidNotStop(name) => concat3(
                "Session '",
                name.as_str(),
                "' did not stop before restart timeout",
            ),
            TmuxError::NoPane(name) => concat3(
                "Session '",
                name.as_str(),
                "' did not expose a pane before restart timeout",
            ),
        }
    }
}

impl Tmux {
    /// The prefix of managed session names.
    pub closed spec fn prefix(self) -> Seq<char> {
        self.prefix@
    }

    /// The sessions whose names begin with `prefix`.
    pub fn new(prefix: String) -> (r: Self)
        ensures
            r.prefix() == prefix@,
    {
        Tmux { prefix }
    }

    /// The tmux name of the session that the tool calls `name`.
    pub fn managed_session_name(&self, name: &str) -> (r: String)
        ensures
            r@ == self.prefix() + name@,
    {
        concat2(self.prefix.as_str(), name)
    }

    /// The prefix of managed session names.
    pub fn managed_session_prefix(&self) -> (r: &str)
        ensures
            r@ == self.prefix(),
    {
        self.prefix.as_str()
    }

    /// The managed sessions that a `list-sessions` listing reports.
    pub fn managed_sessions_from_listing(&self, listing: &str) -> (r: Vec<ManagedSessionRuntime>)
        ensures
            listed_runtimes(r@, managed_lines_spec(lines(listing@), self.prefix())),
    {
        parse_managed_sessions(listing, self.prefix.as_str())
    }
}

/// No two sessions share a tmux session: distinct names give distinct managed
/// names under the same prefix, and a managed name gives back its session's
/// name once the prefix is taken off.
pub proof fn law_managed_names_are_distinct(prefix: Seq<char>, a: Seq<char>, b: Seq<char>)
    ensures
        a != b ==> prefix + a != prefix + b,
        (prefix + a).skip(prefix.len() as int) == a,
{
    assert((prefix + a).skip(prefix.len() as int) =~= a);
    assert((prefix + b).skip(prefix.len() as int) =~= b);
}

/// The target that names exactly the session `name` (no prefix matching).
pub open spec fn exact_session_spec(name: Seq<char>) -> Seq<char> {
    "="@ + name
}

/// The target that names the active pane of exactly the session `name`.
pub open spec fn exact_pane_spec(name: Seq<char>) -> Seq<char> {
    "="@ + name + ":"@
}

/// The target that names exactly the session `name`.
pub fn exact_session_target(name: &str) -> (r: String)
    ensures
        r@ == exact_session_spec(name@),
{
    concat2("=", name)
}

/// The target that names the active pane of exactly the session `name`.
pub fn exact_pane_target(name: &str) -> (r: String)
    ensures
        r@ == exact_pane_spec(name@),
{
    concat3("=", name, ":")
}

fn push_str_arg(args: &mut Vec<String>, s: &str)
    ensures
        string_views(final(args)@) == string_views(old(args)@).push(s@),
{
    let ghost before = args@;
    args.push(copy_str(s));
    assert(string_views(args@) =~= string_views(before).push(s@));
}

fn push_all_args(args: &mut Vec<String>, more: &Vec<String>)
    ensures
        string_views(final(args)@) == string_views(old(args)@) + string_views(more@),
{
    let ghost before = args@;
    let mut i: usize = 0;
    while i < more.len()
        invariant
            i <= more.len(),
            string_views(args@) == string_views(before) + string_views(more@.take(i as int)),
        decreases more.len() - i,
    {
        push_str_arg(args, more[i].as_str());
        assert(string_views(more@.take(i + 1)) =~= string_views(more@.take(i as int)).push(
            more@[i as int]@,
        ));
        i = i + 1;
    }
    assert(more@.take(more.len() as int) =~= more@);
}

/// The arguments of the `tmux new-session` that starts OpenCode detached in
/// `directory`, under `env` with the caller's environment assignments, with
/// `launch_args` after `opencode`.
pub open spec fn new_session_args_spec(
    session_name: Seq<char>,
    directory: Seq<char>,
    environment: Seq<Seq<char>>,
    launch_args: Seq<Seq<char>>,
) -> Seq<Seq<char>> {
    seq!["new-session"@, "-d"@, "-s"@, session_name, "-c"@, directory, "env"@] + environment
        + seq!["opencode"@] + launch_args
}

/// The arguments of the `tmux new-session` that launches OpenCode.
pub fn new_session_args(
    session_name: &str,
    directory: &str,
    environment: &Vec<String>,
    launch_args: &Vec<String>,
) -> (r: Vec<String>)
    ensures
        string_views(r@) == new_session_args_spec(
            session_name@,
            directory@,
            string_views(environment@),
            string_views(launch_args@),
        ),
{
    let mut r: Vec<String> = Vec::new();
    push_str_arg(&mut r, "new-session");
    push_str_arg(&mut r, "-d");
    push_str_arg(&mut r, "-s");
    push_str_arg(&mut r, session_name);
    push_str_arg(&mut r, "-c");
    push_str_arg(&mut r, directory);
    push_str_arg(&mut r, "env");
    push_all_args(&mut r, environment);
    push_str_arg(&mut r, "opencode");
    push_all_args(&mut r, launch_args);
    r
}

/// The `KEY=VALUE` assignment that passes one environment variable on.
pub fn environment_assignment(key: &str, value: &str) -> (r: String)
    ensures
        r@ == key@ + "="@ + value@,
{
    concat3(key, "=", value)
}

/// The arguments of `tmux attach-session` for exactly the session `name`.
pub fn attach_session_args(name: &str) -> (r: Vec<String>)
    ensures
        string_views(r@) == seq!["attach-session"@, "-t"@, exact_session_spec(name@)],
{
    let mut r: Vec<String> = Vec::new();
    push_str_arg(&mut r, "attach-session");
    push_str_arg(&mut r, "-t");
    let t = exact_session_target(name);
    push_str_arg(&mut r, t.as_str());
    r
}

/// The arguments of `tmux has-session` for exactly the session `name`.
pub fn has_session_args(name: &str) -> (r: Vec<String>)
    ensures
        string_views(r@) == seq!["has-session"@, "-t"@, exact_session_spec(name@)],
{
    let mut r: Vec<String> = Vec::new();
    push_str_arg(&mut r, "has-session");
    push_str_arg(&mut r, "-t");
    let t = exact_session_target(name);
    push_str_arg(&mut r, t.as_str());
    r
}

/// The arguments of `tmux kill-session` for exactly the session `name`.
pub fn kill_session_args(name: &str) -> (r: Vec<String>)
    ensures
        string_views(r@) == seq!["kill-session"@, "-t"@, exact_session_spec(name@)],
{
    let mut r: Vec<String> = Vec::new();
    push_str_arg(&mut r, "kill-session");
    push_str_arg(&mut r, "-t");
    let t = exact_session_target(name);
    push_str_arg(&mut r, t.as_str());
    r
}

/// The arguments of `tmux send-keys` that type `keys` into the session's pane.
pub fn send_keys_args(name: &str, keys: &Vec<String>) -> (r: Vec<String>)
    ensures
        string_views(r@) == seq!["send-keys"@, "-t"@, exact_pane_spec(name@)] + string_views(
            keys@,
        ),
{
    let mut r: Vec<String> = Vec::new();
    push_str_arg(&mut r, "send-keys");
    push_str_arg(&mut r, "-t");
    let t = exact_pane_target(name);
    push_str_arg(&mut r, t.as_str());
    push_all_args(&mut r, keys);
    r
}

/// The arguments of the `tmux display-message` that prints `format` for the
/// session's pane.
pub fn display_pane_args(name: &str, format: &str) -> (r: Vec<String>)
    ensures
        string_views(r@) == seq!["display-message"@, "-p"@, "-t"@, exact_pane_spec(name@), format@],
{
    let mut r: Vec<String> = Vec::new();
    push_str_arg(&mut r, "display-message");
    push_str_arg(&mut r, "-p");
    push_str_arg(&mut r, "-t");
    let t = exact_pane_target(name);
    push_str_arg(&mut r, t.as_str());
    push_str_arg(&mut r, format);
    r
}

/// The arguments of the `tmux list-sessions` whose lines give each session's
/// name and attached-client count, separated by a tab.
pub fn list_sessions_args() -> (r: Vec<String>)
    ensures
        string_views(r@) == seq!["list-sessions"@, "-F"@, "#{session_name}\t#{session_attached}"@],
{
    let mut r: Vec<String> = Vec::new();
    push_str_arg(&mut r, "list-sessions");
    push_str_arg(&mut r, "-F");
    push_str_arg(&mut r, "#{session_name}\t#{session_attached}");
    r
}

/// The message of a tmux command that failed: what was attempted, then the
/// command's output and error output.
pub fn command_failure_message(description: &str, stdout: &str, stderr: &str) -> (r: String)
    ensures
        r@ == "failed to "@ + description@ + "\nstdout:\n"@ + stdout@ + "\nstderr:\n"@ + stderr@,
{
    let mut r = concat3("failed to ", description, "\nstdout:\n");
    crate::text::append_str(&mut r, stdout);
    crate::text::append_str(&mut r, "\nstderr:\n");
    crate::text::append_str(&mut r, stderr);
    r
}

/// A `list-sessions` line read as a managed session: its name and attached
/// count, when the line has a tab, the name has the prefix and the count is a
/// number.
pub open spec fn managed_line_spec(line: Seq<char>, prefix: Seq<char>) -> Option<(Seq<char>, nat)> {
    match split_once_spec(line, '\t') {
        None => None,
        Some((name, count)) => if !has_prefix(name, prefix) {
            None
        } else {
            match parse_unsigned(count, usize::MAX as nat) {
                Some(n) => Some((name, n)),
                None => None,
            }
        },
    }
}

/// The managed sessions of a listing's lines, in order.
pub open spec fn managed_lines_spec(ls: Seq<Seq<char>>, prefix: Seq<char>) -> Seq<(Seq<char>, nat)>
    decreases ls.len(),
{
    if ls.len() == 0 {
        Seq::empty()
    } else {
        let rest = managed_lines_spec(ls.drop_last(), prefix);
        match managed_line_spec(ls.last(), prefix) {
            Some(e) => rest.push(e),
            None => rest,
        }
    }
}

/// A runtime record as the listing gives it: name and attached count, with no
/// pane or memory read yet.
pub open spec fn listed_runtime(rt: ManagedSessionRuntime, e: (Seq<char>, nat)) -> bool {
    &&& rt.tmux_session_name@ == e.0
    &&& rt.attached_count as nat == e.1
    &&& rt.pane_pid.is_none()
    &&& rt.memory_bytes.is_none()
    &&& rt.tree_memory_bytes.is_none()
}

/// Runtime records as the listing gives them, one per entry.
pub open spec fn listed_runtimes(rts: Seq<ManagedSessionRuntime>, es: Seq<(Seq<char>, nat)>) -> bool {
    &&& rts.len() == es.len()
    &&& forall|i: int| 0 <= i < rts.len() ==> listed_runtime(#[trigger] rts[i], es[i])
}

/// A `list-sessions` line read as a managed session.
pub fn parse_managed_session_line(line: &str, prefix: &str) -> (r: Option<ManagedSessionRuntime>)
    ensures
        match r {
            Some(rt) => managed_line_spec(line@, prefix@) matches Some(e) && listed_runtime(rt, e),
            None => managed_line_spec(line@, prefix@).is_none(),
        },
{
    let (name, count) = match split_once_char(line, '\t') {
        Some(p) => p,
        None => return None,
    };
    if !starts_with(name.as_str(), prefix) {
        return None;
    }
    let attached_count = match parse_usize(count.as_str()) {
        Some(n) => n,
        None => return None,
    };
    Some(
        ManagedSessionRuntime {
            tmux_session_name: name,
            attached_count,
            pane_pid: None,
            memory_bytes: None,
            tree_memory_bytes: None,
        },
    )
}

/// The managed sessions of a `list-sessions` listing, in order.
pub fn parse_managed_sessions(listing: &str, prefix: &str) -> (r: Vec<ManagedSessionRuntime>)
    ensures
        listed_runtimes(r@, managed_lines_spec(lines(listing@), prefix@)),
{
    let ls = split_lines(listing);
    let ghost lv = string_views(ls@);
    let mut r: Vec<ManagedSessionRuntime> = Vec::new();
    let mut i: usize = 0;
    while i < ls.len()
        invariant
            i <= ls.len(),
            lv == string_views(ls@),
            lv == lines(listing@),
            listed_runtimes(r@, managed_lines_spec(lv.take(i as int), prefix@)),
        decreases ls.len() - i,
    {
        assert(lv.take(i + 1).drop_last() =~= lv.take(i as int));
        assert(lv.take(i + 1).last() == ls@[i as int]@);
        match parse_managed_session_line(ls[i].as_str(), prefix) {
            Some(rt) => {
                r.push(rt);
            },
            None => {},
        }
        i = i + 1;
    }
    assert(lv.take(ls.len() as int) =~= lv);
    r
}

/// The pane's process ID as `display-message -p '#{pane_pid}'` prints it:
/// the trimmed output read as a number.
pub fn parse_pane_pid(output: &str) -> (r: Option<u32>)
    ensures
        match r {
            Some(v) => parse_unsigned(trim_spec(output@), u32::MAX as nat) == Some(v as nat),
            None => parse_unsigned(trim_spec(output@), u32::MAX as nat).is_none(),
        },
{
    let t = trim(output);
    parse_u32(t.as_str())
}

/// The first line that begins with `prefix`, if any.
pub open spec fn first_line_with_prefix(ls: Seq<Seq<char>>, prefix: Seq<char>) -> Option<Seq<char>>
    decreases ls.len(),
{
    if ls.len() == 0 {
        None
    } else if has_prefix(ls[0], prefix) {
        Some(ls[0])
    } else {
        first_line_with_prefix(ls.drop_first(), prefix)
    }
}

/// The resident set size, in kibibytes, that a `/proc/<pid>/status` text
/// reports: the second word of the first `VmRSS:` line, read as a number.
pub open spec fn vmrss_kib_spec(status: Seq<char>) -> Option<nat> {
    match first_line_with_prefix(lines(status), "VmRSS:"@) {
        Some(line) => if words(line).len() >= 2 {
            parse_unsigned(words(line)[1], u64::MAX as nat)
        } else {
            None
        },
        None => None,
    }
}

/// The resident set size, in kibibytes, that a status text reports.
pub fn vmrss_kib(status: &str) -> (r: Option<u64>)
    ensures
        match r {
            Some(v) => vmrss_kib_spec(status@) == Some(v as nat),
            None => vmrss_kib_spec(status@).is_none(),
        },
{
    let ls = split_lines(status);
    let ghost lv = string_views(ls@);
    let mut i: usize = 0;
    assert(lv.skip(0) =~= lv);
    while i < ls.len()
        invariant
            i <= ls.len(),
            lv == string_views(ls@),
            lv == lines(status@),
            first_line_with_prefix(lv.skip(i as int), "VmRSS:"@) == first_line_with_prefix(
                lv,
                "VmRSS:"@,
            ),
        decreases ls.len() - i,
    {
        assert(lv.skip(i as int)[0] == ls@[i as int]@);
        assert(lv.skip(i as int).drop_first() =~= lv.skip(i + 1));
        if starts_with(ls[i].as_str(), "VmRSS:") {
            let ws = split_whitespace(ls[i].as_str());
            if ws.len() < 2 {
                return None;
            }
            assert(string_views(ws@)[1] == ws@[1]@);
            return parse_u64(ws[1].as_str());
        }
        i = i + 1;
    }
    assert(lv.skip(ls.len() as int) =~= Seq::<Seq<char>>::empty());
    None
}

/// The resident set size, in bytes, that a status text reports.
pub open spec fn memory_status_spec(status: Seq<char>) -> Option<nat> {
    match vmrss_kib_spec(status) {
        Some(k) => Some(k * 1024),
        None => None,
    }
}

/// The resident set size, in bytes, that a `/proc/<pid>/status` text
/// reports; the kibibytes must fit in a `u64` once multiplied.
pub fn parse_memory_status(status: &str) -> (r: Option<u64>)
    requires
        vmrss_kib_spec(status@) matches Some(k) ==> k * 1024 <= u64::MAX,
    ensures
        match r {
            Some(v) => memory_status_spec(status@) == Some(v as nat),
            None => memory_status_spec(status@).is_none(),
        },
{
    match vmrss_kib(status) {
        Some(k) => Some(k * 1024),
        None => None,
    }
}

/// The last position at which `p` occurs in `s` at or before `i`, if any.
pub open spec fn last_occurrence(s: Seq<char>, p: Seq<char>, i: int) -> Option<int>
    decreases i + 1,
{
    if i < 0 {
        None
    } else if occurs_at(s, p, i) {
        Some(i)
    } else {
        last_occurrence(s, p, i - 1)
    }
}

/// The parent process ID that a `/proc/<pid>/stat` text reports: the second
/// field after the last `) `, which ends the command name.
pub open spec fn parent_pid_spec(stat: Seq<char>) -> Option<nat> {
    match last_occurrence(stat, ") "@, stat.len() - 2) {
        Some(k) => {
            let fields = words(stat.skip(k + 2));
            if fields.len() >= 2 {
                parse_unsigned(fields[1], u32::MAX as nat)
            } else {
                None
            }
        },
        None => None,
    }
}

fn last_close_paren(cs: &Vec<char>, pat: &Vec<char>) -> (r: Option<usize>)
    requires
        pat@.len() == 2,
        cs.len() >= 2,
    ensures
        match r {
            Some(k) => last_occurrence(cs@, pat@, cs.len() - 2) == Some(k as int) && k + 2
                <= cs.len(),
            None => last_occurrence(cs@, pat@, cs.len() - 2).is_none(),
        },
{
    let mut i: usize = cs.len() - 1;
    while i > 0
        invariant
            pat@.len() == 2,
            cs.len() >= 2,
            0 <= i <= cs.len() - 1,
            last_occurrence(cs@, pat@, i - 1) == last_occurrence(cs@, pat@, cs.len() - 2),
        decreases i,
    {
        if occurs_at_exec(cs, pat, i - 1) {
            return Some(i - 1);
        }
        i = i - 1;
    }
    None
}

/// The parent process ID that a stat text reports.
pub fn parse_process_parent_pid(stat: &str) -> (r: Option<u32>)
    ensures
        match r {
            Some(v) => parent_pid_spec(stat@) == Some(v as nat),
            None => parent_pid_spec(stat@).is_none(),
        },
{
    let cs = chars_of(stat);
    let pat = chars_of(") ");
    proof {
        reveal_strlit(") ");
    }
    if cs.len() < 2 {
        assert(last_occurrence(stat@, ") "@, stat@.len() - 2) == None::<int>);
        return None;
    }
    let k = match last_close_paren(&cs, &pat) {
        Some(k) => k,
        None => return None,
    };
    let rest = slice_string(&cs, k + 2, cs.len());
    assert(rest@ =~= stat@.skip(k + 2));
    let fields = split_whitespace(rest.as_str());
    if fields.len() < 2 {
        return None;
    }
    assert(string_views(fields@)[1] == fields@[1]@);
    parse_u32(fields[1].as_str())
}

/// Whether `x` is `root` or among `pids`.
pub open spec fn in_tree(root: u32, pids: Seq<u32>, x: u32) -> bool {
    x == root || pids.contains(x)
}

/// Whether the process listed at position `k` is a child of the root or of a
/// process listed before it.
pub open spec fn reached_at(root: u32, edges: Seq<(u32, u32)>, pids: Seq<u32>, k: int) -> bool {
    exists|i: int|
        0 <= i < edges.len() && (#[trigger] edges[i]).0 == pids[k] && (edges[i].1 == root
            || exists|j: int| 0 <= j < k && #[trigger] pids[j] == edges[i].1)
}

/// Whether `pids` lists the descendants of `root` under the child-to-parent
/// `edges`: each once, never the root, every child of a listed process (or of
/// the root) listed, and each reached through a parent listed before it (or
/// the root).
pub open spec fn is_process_tree(root: u32, edges: Seq<(u32, u32)>, pids: Seq<u32>) -> bool {
    &&& pids.no_duplicates()
    &&& !pids.contains(root)
    &&& forall|i: int|
        0 <= i < edges.len() && in_tree(root, pids, (#[trigger] edges[i]).1) ==> in_tree(
            root,
            pids,
            edges[i].0,
        )
    &&& forall|k: int| 0 <= k < pids.len() ==> #[trigger] reached_at(root, edges, pids, k)
}

fn contains_pid(pids: &Vec<u32>, x: u32) -> (r: bool)
    ensures
        r == pids@.contains(x),
{
    let mut i: usize = 0;
    while i < pids.len()
        invariant
            i <= pids.len(),
            forall|j: int| 0 <= j < i ==> pids@[j] != x,
        decreases pids.len() - i,
    {
        if pids[i] == x {
            return true;
        }
        i = i + 1;
    }
    false
}

proof fn lemma_tree_bound(root: u32, edges: Seq<(u32, u32)>, pids: Seq<u32>)
    requires
        pids.no_duplicates(),
        forall|k: int| 0 <= k < pids.len() ==> #[trigger] reached_at(root, edges, pids, k),
    ensures
        pids.len() <= edges.len(),
{
    let children = edges.map_values(|e: (u32, u32)| e.0);
    pids.unique_seq_to_set();
    assert(pids.to_set().subset_of(children.to_set())) by {
        assert forall|x: u32| pids.to_set().contains(x) implies children.to_set().contains(x) by {
            let k = choose|k: int| 0 <= k < pids.len() && pids[k] == x;
            assert(reached_at(root, edges, pids, k));
            let i = choose|i: int|
                0 <= i < edges.len() && (#[trigger] edges[i]).0 == pids[k] && (edges[i].1 == root
                    || exists|j: int| 0 <= j < k && #[trigger] pids[j] == edges[i].1);
            assert(children[i] == x);
        }
    }
    children.lemma_cardinality_of_set();
    vstd::set_lib::lemma_len_subset(pids.to_set(), children.to_set());
}

/// The descendants of `root` under the child-to-parent `edges` that a scan of
/// `/proc` gives.
pub fn process_tree_pids(root: u32, edges: &Vec<(u32, u32)>) -> (r: Vec<u32>)
    ensures
        is_process_tree(root, edges@, r@),
{
    let mut pids: Vec<u32> = Vec::new();
    loop
        invariant_except_break
            pids@.no_duplicates(),
            !pids@.contains(root),
            forall|k: int| 0 <= k < pids@.len() ==> #[trigger] reached_at(root, edges@, pids@, k),
        ensures
            is_process_tree(root, edges@, pids@),
        decreases edges@.len() - pids@.len(),
    {
        proof {
            lemma_tree_bound(root, edges@, pids@);
        }
        let ghost start_len = pids@.len();
        let mut changed = false;
        let mut i: usize = 0;
        while i < edges.len()
            invariant
                i <= edges.len(),
                start_len <= pids@.len(),
                changed <==> pids@.len() > start_len,
                pids@.no_duplicates(),
                !pids@.contains(root),
                forall|k: int| 0 <= k < pids@.len() ==> #[trigger] reached_at(root, edges@, pids@, k),
                !changed ==> forall|e: int|
                    0 <= e < i && in_tree(root, pids@, (#[trigger] edges@[e]).1) ==> in_tree(
                        root,
                        pids@,
                        edges@[e].0,
                    ),
            decreases edges.len() - i,
        {
            let (child, parent) = edges[i];
            if (parent == root || contains_pid(&pids, parent)) && child != root && !contains_pid(
                &pids,
                child,
            ) {
                let ghost before = pids@;
                pids.push(child);
                proof {
                    let n = before.len() as int;
                    assert(pids@[n] == child);
                    assert forall|a: int, b: int|
                        0 <= a < pids@.len() && 0 <= b < pids@.len() && a != b implies pids@[a]
                        != pids@[b] by {
                        if a < n && b < n {
                            assert(before[a] != before[b]);
                        }
                    }
                    assert forall|k: int| 0 <= k < pids@.len() implies #[trigger] reached_at(
                        root,
                        edges@,
                        pids@,
                        k,
                    ) by {
                        if k < n {
                            assert(reached_at(root, edges@, before, k));
                            let e = choose|e: int|
                                0 <= e < edges@.len() && (#[trigger] edges@[e]).0 == before[k] && (
                                edges@[e].1 == root || exists|j: int|
                                    0 <= j < k && #[trigger] before[j] == edges@[e].1);
                            if edges@[e].1 != root {
                                let j = choose|j: int| 0 <= j < k && #[trigger] before[j] == edges@[e].1;
                                assert(pids@[j] == edges@[e].1);
                            }
                            assert(edges@[e].0 == pids@[k]);
                        } else {
                            assert(edges@[i as int].0 == pids@[k]);
                            if parent != root {
                                let j = choose|j: int| 0 <= j < n && before[j] == parent;
                                assert(pids@[j] == parent);
                            }
                        }
                    }
                    assert(!pids@.contains(root)) by {
                        if pids@.contains(root) {
                            let k = choose|k: int| 0 <= k < pids@.len() && pids@[k] == root;
                            if k < n {
                                assert(before.contains(root));
                            }
                        }
                    }
                }
                changed = true;
            }
            i = i + 1;
        }
        proof {
            lemma_tree_bound(root, edges@, pids@);
        }
        if !changed {
            break;
        }
    }
    pids
}

/// The sum of a list of amounts.
pub open spec fn sum_amounts(amounts: Seq<u64>) -> nat
    decreases amounts.len(),
{
    if amounts.len() == 0 {
        0
    } else {
        sum_amounts(amounts.drop_last()) + amounts.last() as nat
    }
}

proof fn lemma_sum_prefix(amounts: Seq<u64>, i: int)
    requires
        0 <= i <= amounts.len(),
    ensures
        sum_amounts(amounts.take(i)) <= sum_amounts(amounts),
    decreases amounts.len(),
{
    if i < amounts.len() {
        assert(amounts.drop_last().take(i) =~= amounts.take(i));
        lemma_sum_prefix(amounts.drop_last(), i);
    } else {
        assert(amounts.take(i) =~= amounts);
    }
}

/// The memory of a process tree: that of its root and of each descendant
/// whose status could be read. The total must fit in a `u64`.
pub fn tree_memory_total(root_bytes: u64, descendant_bytes: &Vec<u64>) -> (r: u64)
    requires
        root_bytes + sum_amounts(descendant_bytes@) <= u64::MAX,
    ensures
        r == root_bytes + sum_amounts(descendant_bytes@),
{
    let mut total = root_bytes;
    let mut i: usize = 0;
    while i < descendant_bytes.len()
        invariant
            i <= descendant_bytes.len(),
            root_bytes + sum_amounts(descendant_bytes@) <= u64::MAX,
            total == root_bytes + sum_amounts(descendant_bytes@.take(i as int)),
        decreases descendant_bytes.len() - i,
    {
        assert(descendant_bytes@.take(i + 1).drop_last() =~= descendant_bytes@.take(i as int));
        proof {
            lemma_sum_prefix(descendant_bytes@, i + 1);
        }
        total = total + descendant_bytes[i];
        i = i + 1;
    }
    assert(descendant_bytes@.take(descendant_bytes.len() as int) =~= descendant_bytes@);
    total
}

/// Whether tmux's error output says that no server runs (so that no session
/// does).
pub open spec fn server_unavailable_spec(stderr: Seq<char>) -> bool {
    contains_seq(stderr, "no server running"@) || (contains_seq(stderr, "error connecting to"@)
        && contains_seq(stderr, "No such file or directory"@)) || contains_seq(
        stderr,
        "server exited unexpectedly"@,
    )
}

/// Whether tmux's error output says that no server runs.
pub fn is_tmux_server_unavailable_error(stderr: &str) -> (r: bool)
    ensures
        r == server_unavailable_spec(stderr@),
{
    contains(stderr, "no server running") || (contains(stderr, "error connecting to") && contains(
        stderr,
        "No such file or directory",
    )) || contains(stderr, "server exited unexpectedly")
}

/// Whether tmux's error output says that the session does not exist.
pub fn is_tmux_missing_session_error(stderr: &str) -> (r: bool)
    ensures
        r == contains_seq(stderr@, "can't find session"@),
{
    contains(stderr, "can't find session")
}

} // verus!
