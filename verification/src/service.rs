//! The session service's rules: how a saved session is launched, how legacy
//! aliases are read and imported, which OpenCode session a launch created,
//! and which saved sessions live in a directory. Storage, tmux and the
//! filesystem are the caller's.
use vstd::prelude::*;

use crate::config::RuntimeConfig;
use crate::opencode_db::OpenCodeDb;
use crate::paths::{path_eq, path_eq_spec};
use crate::session::{is_plain_number, NewSessionAlias, SavedSession, SessionError};
use crate::storage::{import_decision_spec, ImportDecision};
use crate::text::{
    append_str, concat3, copy_str, copy_strings, lines, split_lines, split_once_char,
    split_once_spec, split_whitespace, str_eq, string_views, trim, trim_spec, usize_to_string,
    decimal, words,
};
use crate::tmux::Tmux;

verus! {

/// The service that runs the tool's commands with its settings.
#[derive(Debug, Clone)]
pub struct SessionService {
    config: RuntimeConfig,
}

impl SessionService {
    /// The settings that the service runs with.
    pub closed spec fn settings(self) -> RuntimeConfig {
        self.config
    }

    /// A service with these settings.
    pub fn new(config: RuntimeConfig) -> (r: Self)
        ensures
            r.settings() == config,
    {
        SessionService { config }
    }

    /// The settings that the service runs with.
    pub fn config(&self) -> (r: &RuntimeConfig)
        ensures
            *r == self.settings(),
    {
        &self.config
    }

    /// The tmux sessions that the service manages, by its prefix.
    pub fn tmux(&self) -> (r: Tmux)
        ensures
            r.prefix() == self.settings().prefix(),
    {
        Tmux::new(copy_str(self.config.tmux_prefix()))
    }

    /// OpenCode's database, at its configured path.
    pub fn opencode_db(&self) -> (r: OpenCodeDb)
        ensures
            r.path_spec() == self.settings().opencode_db(),
    {
        OpenCodeDb::new(copy_str(self.config.opencode_db_path()))
    }
}

/// Why the service refused an operation.
#[derive(Debug, Clone, PartialEq, Eq)]
pub enum ServiceError {
    /// A session without a captured OpenCode session cannot be restarted.
    NoOpenCodeSessionId(String),
    /// A running session cannot be moved.
    MustStopBeforeMove(String),
    /// A line of the legacy alias file has no tab.
    LegacyLineWithoutTab(String),
    /// A legacy alias has a name that is refused.
    LegacyAlias(SessionError),
}

/// The message of a service error.
pub open spec fn service_error_message(e: ServiceError) -> Seq<char> {
    match e {
        ServiceError::NoOpenCodeSessionId(name) => "Session '"@ + name@
            + "' cannot be restarted because it has no saved OpenCode session ID"@,
        ServiceError::MustStopBeforeMove(name) => "Session '"@ + name@
            + "' must be stopped before moving its directory"@,
        ServiceError::LegacyLineWithoutTab(line) =>
            "Legacy alias line must contain a tab separator: "@ + line@,
        ServiceError::LegacyAlias(e) => crate::session::session_error_message(e),
    }
}

impl ServiceError {
    /// The error's message.
    pub fn message(&self) -> (m: String)
        ensures
            m@ == service_error_message(*self),
    {
        match self {
            ServiceError::NoOpenCodeSessionId(name) => concat3(
                "Session '",
                name.as_str(),
                "' cannot be restarted because it has no saved OpenCode session ID",
            ),
            ServiceError::MustStopBeforeMove(name) => concat3(
                "Session '",
                name.as_str(),
                "' must be stopped before moving its directory",
            ),
            ServiceError::LegacyLineWithoutTab(line) => crate::text::concat2(
                "Legacy alias line must contain a tab separator: ",
                line.as_str(),
            ),
            ServiceError::LegacyAlias(e) => e.message(),
        }
    }
}

/// The arguments that OpenCode is launched with: the saved ones, preceded by
/// `--session` and the captured session ID when there is one.
pub open spec fn launch_args_spec(saved: SavedSession) -> Seq<Seq<char>> {
    match saved.opencode_session_id {
        Some(id) => seq!["--session"@, id@] + string_views(saved.opencode_args@),
        None => string_views(saved.opencode_args@),
    }
}

/// The arguments that OpenCode is launched with for a saved session.
pub fn launch_opencode_args(saved: &SavedSession) -> (r: Vec<String>)
    ensures
        string_views(r@) == launch_args_spec(*saved),
{
    match &saved.opencode_session_id {
        Some(id) => {
            let mut r: Vec<String> = Vec::new();
            r.push(copy_str("--session"));
            r.push(copy_str(id.as_str()));
            let mut i: usize = 0;
            while i < saved.opencode_args.len()
                invariant
                    i <= saved.opencode_args.len(),
                    string_views(r@) == seq!["--session"@, id@] + string_views(
                        saved.opencode_args@.take(i as int),
                    ),
                decreases saved.opencode_args.len() - i,
            {
                let ghost before = r@;
                r.push(copy_str(saved.opencode_args[i].as_str()));
                assert(string_views(r@) =~= string_views(before).push(
                    saved.opencode_args@[i as int]@,
                ));
                assert(string_views(saved.opencode_args@.take(i + 1)) =~= string_views(
                    saved.opencode_args@.take(i as int),
                ).push(saved.opencode_args@[i as int]@));
                i = i + 1;
            }
            assert(saved.opencode_args@.take(saved.opencode_args.len() as int)
                =~= saved.opencode_args@);
            r
        },
        None => {
            let r = copy_strings(&saved.opencode_args);
            r
        },
    }
}

/// Everything needed to launch and attach a saved session.
#[derive(Debug, Clone, PartialEq, Eq)]
pub struct SessionLaunch {
    pub session_name: String,
    pub tmux_session_name: String,
    pub directory: String,
    pub opencode_args: Vec<String>,
}

impl SessionLaunch {
    /// The launch of a saved session under the managed prefix.
    pub fn for_saved_session(tmux: &Tmux, saved: &SavedSession) -> (r: Self)
        ensures
            r.session_name == saved.name,
            r.tmux_session_name@ == tmux.prefix() + saved.name@,
            r.directory == saved.directory,
            string_views(r.opencode_args@) == launch_args_spec(*saved),
    {
        SessionLaunch {
            session_name: saved.name.clone(),
            tmux_session_name: tmux.managed_session_name(saved.name.as_str()),
            directory: saved.directory.clone(),
            opencode_args: launch_opencode_args(saved),
        }
    }
}

/// Restarting needs the captured OpenCode session, which the restarted
/// OpenCode continues.
pub fn check_restartable(saved: &SavedSession) -> (r: Result<(), ServiceError>)
    ensures
        saved.opencode_session_id.is_some() <==> r is Ok,
        r matches Err(e) ==> e == ServiceError::NoOpenCodeSessionId(saved.name),
{
    match &saved.opencode_session_id {
        Some(_) => Ok(()),
        None => Err(ServiceError::NoOpenCodeSessionId(saved.name.clone())),
    }
}

/// Moving needs the session to be stopped.
pub fn check_movable(saved: &SavedSession, running: bool) -> (r: Result<(), ServiceError>)
    ensures
        !running <==> r is Ok,
        r matches Err(e) ==> e == ServiceError::MustStopBeforeMove(saved.name),
{
    if running {
        Err(ServiceError::MustStopBeforeMove(saved.name.clone()))
    } else {
        Ok(())
    }
}

/// A legacy alias line's parts: the name before the first tab, the directory
/// up to the next tab (or to the end), and what follows that tab, if any.
pub open spec fn legacy_line_spec(line: Seq<char>) -> Option<(Seq<char>, Seq<char>, Seq<char>)> {
    match split_once_spec(line, '\t') {
        None => None,
        Some((name, after)) => match split_once_spec(after, '\t') {
            Some((directory, rest)) => Some((name, directory, rest)),
            None => Some((name, after, Seq::empty())),
        },
    }
}

/// Whether the words at `k` are `--session` and its value.
pub open spec fn session_flag_at(ws: Seq<Seq<char>>, k: int) -> bool {
    0 <= k && k + 1 < ws.len() && ws[k] == "--session"@
}

/// Whether `k` is the first place of a `--session` flag with a value.
pub open spec fn is_first_session_flag(ws: Seq<Seq<char>>, k: int) -> bool {
    session_flag_at(ws, k) && forall|j: int| 0 <= j < k ==> !session_flag_at(ws, j)
}

/// The OpenCode session of a legacy line's arguments: the value of their
/// first `--session` flag, if any.
pub open spec fn legacy_session_spec(ws: Seq<Seq<char>>) -> Option<Seq<char>> {
    if exists|k: int| is_first_session_flag(ws, k) {
        let k = choose|k: int| is_first_session_flag(ws, k);
        Some(ws[k + 1])
    } else {
        None
    }
}

/// The OpenCode arguments of a legacy line: its argument words without their
/// first `--session` flag and its value.
pub open spec fn legacy_args_spec(ws: Seq<Seq<char>>) -> Seq<Seq<char>> {
    if exists|k: int| is_first_session_flag(ws, k) {
        let k = choose|k: int| is_first_session_flag(ws, k);
        ws.take(k) + ws.skip(k + 2)
    } else {
        ws
    }
}

proof fn lemma_first_session_flag_unique(ws: Seq<Seq<char>>, k: int)
    requires
        is_first_session_flag(ws, k),
    ensures
        (choose|j: int| is_first_session_flag(ws, j)) == k,
{
    let c = choose|j: int| is_first_session_flag(ws, j);
    assert(is_first_session_flag(ws, c));
    if c < k {
        assert(!session_flag_at(ws, c));
    } else if c > k {
        assert(!session_flag_at(ws, k));
    }
}

/// The OpenCode session and arguments in a legacy line's argument words.
fn legacy_session_and_args(ws: &Vec<String>) -> (r: (Option<String>, Vec<String>))
    ensures
        match r.0 {
            Some(s) => legacy_session_spec(string_views(ws@)) == Some(s@),
            None => legacy_session_spec(string_views(ws@)).is_none(),
        },
        string_views(r.1@) == legacy_args_spec(string_views(ws@)),
{
    let ghost v = string_views(ws@);
    let mut i: usize = 0;
    while ws.len() - i >= 2
        invariant
            v == string_views(ws@),
            i <= ws.len(),
            forall|j: int| 0 <= j < i ==> !session_flag_at(v, j),
        decreases ws.len() - i,
    {
        if str_eq(ws[i].as_str(), "--session") {
            proof {
                assert(v[i as int] == ws@[i as int]@);
                assert(is_first_session_flag(v, i as int));
                lemma_first_session_flag_unique(v, i as int);
            }
            let session = ws[i + 1].clone();
            let mut args: Vec<String> = Vec::new();
            let mut j: usize = 0;
            while j < ws.len()
                invariant
                    v == string_views(ws@),
                    i + 1 < ws.len(),
                    j <= ws.len(),
                    j <= i || j >= i + 2,
                    string_views(args@) == (if j <= i {
                        v.take(j as int)
                    } else {
                        v.take(i as int) + v.subrange(i + 2, j as int)
                    }),
                decreases ws.len() - j,
            {
                if j == i {
                    proof {
                        assert(v.subrange(i + 2, i + 2) =~= Seq::<Seq<char>>::empty());
                        assert(v.take(i as int) + v.subrange(i + 2, i + 2) =~= v.take(i as int));
                    }
                    j = i + 2;
                } else {
                    let ghost before = string_views(args@);
                    args.push(ws[j].clone());
                    proof {
                        assert(string_views(args@) =~= before.push(v[j as int]));
                        if j < i {
                            assert(v.take(j + 1) =~= v.take(j as int).push(v[j as int]));
                        } else {
                            assert(v.take(i as int) + v.subrange(i + 2, j + 1) =~= (v.take(i as int)
                                + v.subrange(i + 2, j as int)).push(v[j as int]));
                        }
                    }
                    j = j + 1;
                }
            }
            proof {
                assert(v.subrange(i + 2, v.len() as int) =~= v.skip(i + 2));
                assert(ws@[i + 1]@ == v[i + 1]);
            }
            return (Some(session), args);
        }
        proof {
            assert(v[i as int] == ws@[i as int]@);
        }
        i = i + 1;
    }
    proof {
        assert forall|k: int| !is_first_session_flag(v, k) by {
            if is_first_session_flag(v, k) {
                assert(session_flag_at(v, k));
            }
        }
    }
    (None, copy_strings(ws))
}

/// A line of the legacy alias file: `name<TAB>directory`, then optionally a
/// tab and OpenCode arguments separated by whitespace, among which
/// `--session <id>` names the OpenCode session.
pub fn parse_legacy_alias_line(line: &str) -> (r: Result<NewSessionAlias, ServiceError>)
    ensures
        match legacy_line_spec(line@) {
            None => r matches Err(ServiceError::LegacyLineWithoutTab(l)) && l@ == line@,
            Some((name, directory, rest)) => if is_plain_number(name) {
                r matches Err(ServiceError::LegacyAlias(SessionError::NumericName(n))) && n@ == name
            } else {
                r matches Ok(a) && alias_of_parts(a, name, directory, rest)
            },
        },
{
    let (name, after) = match split_once_char(line, '\t') {
        Some(p) => p,
        None => return Err(ServiceError::LegacyLineWithoutTab(copy_str(line))),
    };
    let (directory, rest) = match split_once_char(after.as_str(), '\t') {
        Some(p) => p,
        None => (after, String::new()),
    };
    let words = split_whitespace(rest.as_str());
    let (session, args) = legacy_session_and_args(&words);
    match NewSessionAlias::new(name, directory, args) {
        Ok(a) => Ok(a.with_opencode_session_id(session)),
        Err(e) => Err(ServiceError::LegacyAlias(e)),
    }
}

/// Whether `a` is the alias of a legacy line with these parts.
pub open spec fn alias_of_parts(a: NewSessionAlias, name: Seq<char>, directory: Seq<char>, rest: Seq<char>) -> bool {
    &&& a.name@ == name
    &&& a.directory@ == directory
    &&& match a.opencode_session_id {
        Some(s) => legacy_session_spec(words(rest)) == Some(s@),
        None => legacy_session_spec(words(rest)).is_none(),
    }
    &&& string_views(a.opencode_args@) == legacy_args_spec(words(rest))
}

/// The lines of the legacy alias file that hold an alias: those that are not
/// blank.
pub open spec fn legacy_alias_lines(contents: Seq<char>) -> Seq<Seq<char>> {
    lines(contents).filter(|l: Seq<char>| trim_spec(l).len() > 0)
}

/// Whether `a` is the alias of a legacy line.
pub open spec fn alias_of_line(a: NewSessionAlias, line: Seq<char>) -> bool {
    match legacy_line_spec(line) {
        Some((name, directory, rest)) => !is_plain_number(name) && alias_of_parts(a, name, directory, rest),
        None => false,
    }
}

/// Whether `aliases` are the aliases of these lines, in order.
pub open spec fn aliases_of_lines(aliases: Seq<NewSessionAlias>, ls: Seq<Seq<char>>) -> bool {
    &&& aliases.len() == ls.len()
    &&& forall|i: int| 0 <= i < ls.len() ==> alias_of_line(#[trigger] aliases[i], ls[i])
}

/// Whether a line is refused as an alias.
pub open spec fn legacy_line_refused(line: Seq<char>) -> bool {
    match legacy_line_spec(line) {
        None => true,
        Some((name, _, _)) => is_plain_number(name),
    }
}

/// The aliases of the legacy alias file, one per line that is not blank; the
/// first line that is refused refuses the file.
pub fn parse_legacy_aliases(contents: &str) -> (r: Result<Vec<NewSessionAlias>, ServiceError>)
    ensures
        match r {
            Ok(aliases) => aliases_of_lines(aliases@, legacy_alias_lines(contents@)),
            Err(_) => exists|i: int|
                0 <= i < legacy_alias_lines(contents@).len() && legacy_line_refused(
                    #[trigger] legacy_alias_lines(contents@)[i],
                ),
        },
{
    let ls = split_lines(contents);
    let ghost lv = string_views(ls@);
    let ghost pred = |l: Seq<char>| trim_spec(l).len() > 0;
    let mut aliases: Vec<NewSessionAlias> = Vec::new();
    let mut i: usize = 0;
    while i < ls.len()
        invariant
            i <= ls.len(),
            lv == string_views(ls@),
            lv == lines(contents@),
            pred == (|l: Seq<char>| trim_spec(l).len() > 0),
            aliases_of_lines(aliases@, lv.take(i as int).filter(pred)),
        decreases ls.len() - i,
    {
        proof {
            assert(lv.take(i + 1) =~= lv.take(i as int).push(lv[i as int]));
            lv.take(i as int).lemma_filter_push(lv[i as int], pred);
        }
        let t = trim(ls[i].as_str());
        if !t.as_str().is_empty() {
            match parse_legacy_alias_line(ls[i].as_str()) {
                Ok(a) => {
                    let ghost before = aliases@;
                    aliases.push(a);
                    proof {
                        let f = lv.take(i + 1).filter(pred);
                        assert(f == lv.take(i as int).filter(pred).push(lv[i as int]));
                        assert forall|k: int| 0 <= k < f.len() implies alias_of_line(
                            #[trigger] aliases@[k],
                            f[k],
                        ) by {
                            if k < before.len() {
                                assert(aliases@[k] == before[k]);
                                assert(f[k] == lv.take(i as int).filter(pred)[k]);
                            }
                        }
                    }
                },
                Err(e) => {
                    proof {
                        let all = legacy_alias_lines(contents@);
                        let f = lv.take(i + 1).filter(pred);
                        assert(f == lv.take(i as int).filter(pred).push(lv[i as int]));
                        lemma_filter_prefix(lv, i as int + 1, pred);
                        let k = f.len() - 1;
                        assert(all[k] == f[k]);
                        assert(legacy_line_refused(all[k]));
                    }
                    return Err(e);
                },
            }
        }
        i = i + 1;
    }
    assert(lv.take(ls.len() as int) =~= lv);
    Ok(aliases)
}

proof fn lemma_filter_prefix(s: Seq<Seq<char>>, n: int, pred: spec_fn(Seq<char>) -> bool)
    requires
        0 <= n <= s.len(),
    ensures
        s.take(n).filter(pred).len() <= s.filter(pred).len(),
        forall|k: int|
            0 <= k < s.take(n).filter(pred).len() ==> #[trigger] s.filter(pred)[k] == s.take(n).filter(pred)[k],
    decreases s.len() - n,
{
    if n < s.len() {
        lemma_filter_prefix(s, n + 1, pred);
        assert(s.take(n + 1) =~= s.take(n).push(s[n]));
        s.take(n).lemma_filter_push(s[n], pred);
    } else {
        assert(s.take(n) =~= s);
    }
}

/// What an import did to the migration report.
#[derive(Debug, Clone, Copy, PartialEq, Eq, Structural)]
pub enum ImportOutcome {
    Imported,
    Skipped,
    Conflict,
}

/// The outcome that an import decision leads to, once the store did what it
/// asked: an insert imports, an unchanged alias is skipped, a conflict is
/// reported.
pub fn import_outcome(decision: ImportDecision) -> (r: ImportOutcome)
    ensures
        r == match decision {
            ImportDecision::Insert => ImportOutcome::Imported,
            ImportDecision::Unchanged => ImportOutcome::Skipped,
            ImportDecision::Conflict => ImportOutcome::Conflict,
        },
{
    match decision {
        ImportDecision::Insert => ImportOutcome::Imported,
        ImportDecision::Unchanged => ImportOutcome::Skipped,
        ImportDecision::Conflict => ImportOutcome::Conflict,
    }
}

/// What migrating the legacy aliases did: how many were imported, how many
/// were already saved as they are, and the names that conflict.
#[derive(Debug, Clone, PartialEq, Eq)]
pub struct MigrationReport {
    pub imported: usize,
    pub skipped: usize,
    pub conflicts: Vec<String>,
}

impl MigrationReport {
    /// A report of nothing done yet.
    pub fn new() -> (r: Self)
        ensures
            r.imported == 0,
            r.skipped == 0,
            r.conflicts@.len() == 0,
    {
        MigrationReport { imported: 0, skipped: 0, conflicts: Vec::new() }
    }

    /// Counts the outcome of importing the alias `name`.
    pub fn record(&mut self, name: String, outcome: ImportOutcome)
        requires
            old(self).imported < usize::MAX,
            old(self).skipped < usize::MAX,
        ensures
            final(self).imported == old(self).imported + if outcome == ImportOutcome::Imported {
                1int
            } else {
                0int
            },
            final(self).skipped == old(self).skipped + if outcome == ImportOutcome::Skipped {
                1int
            } else {
                0int
            },
            final(self).conflicts@ == if outcome == ImportOutcome::Conflict {
                old(self).conflicts@.push(name)
            } else {
                old(self).conflicts@
            },
    {
        match outcome {
            ImportOutcome::Imported => {
                self.imported = self.imported + 1;
            },
            ImportOutcome::Skipped => {
                self.skipped = self.skipped + 1;
            },
            ImportOutcome::Conflict => {
                self.conflicts.push(name);
            },
        }
    }

    /// The lines that `oc migrate` prints: the counts, then each conflict.
    pub fn summary_lines(&self) -> (r: Vec<String>)
        ensures
            r@.len() == self.conflicts@.len() + 1,
            r@[0]@ == "imported "@ + decimal(self.imported as nat) + " skipped "@ + decimal(
                self.skipped as nat,
            ) + " conflicts "@ + decimal(self.conflicts@.len()),
            forall|i: int|
                0 <= i < self.conflicts@.len() ==> (#[trigger] r@[i + 1])@ == "conflict "@
                    + self.conflicts@[i]@,
    {
        let mut first = copy_str("imported ");
        let t = usize_to_string(self.imported);
        append_str(&mut first, t.as_str());
        append_str(&mut first, " skipped ");
        let t = usize_to_string(self.skipped);
        append_str(&mut first, t.as_str());
        append_str(&mut first, " conflicts ");
        let t = usize_to_string(self.conflicts.len());
        append_str(&mut first, t.as_str());
        let mut r: Vec<String> = Vec::new();
        r.push(first);
        let mut i: usize = 0;
        while i < self.conflicts.len()
            invariant
                i <= self.conflicts.len(),
                r@.len() == i + 1,
                r@[0]@ == "imported "@ + decimal(self.imported as nat) + " skipped "@ + decimal(
                    self.skipped as nat,
                ) + " conflicts "@ + decimal(self.conflicts@.len()),
                forall|k: int|
                    0 <= k < i ==> (#[trigger] r@[k + 1])@ == "conflict "@ + self.conflicts@[k]@,
            decreases self.conflicts.len() - i,
        {
            r.push(crate::text::concat2("conflict ", self.conflicts[i].as_str()));
            i = i + 1;
        }
        r
    }
}

/// The IDs of `after` that are not in `before`, in the order of `after`.
pub open spec fn new_ids_spec(before: Seq<Seq<char>>, after: Seq<Seq<char>>) -> Seq<Seq<char>> {
    after.filter(|id: Seq<char>| !before.contains(id))
}

fn contains_string(v: &Vec<String>, x: &str) -> (r: bool)
    ensures
        r == string_views(v@).contains(x@),
{
    let mut i: usize = 0;
    while i < v.len()
        invariant
            i <= v.len(),
            forall|j: int| 0 <= j < i ==> v@[j]@ != x@,
        decreases v.len() - i,
    {
        if str_eq(v[i].as_str(), x) {
            assert(string_views(v@)[i as int] == x@);
            return true;
        }
        i = i + 1;
    }
    false
}

/// The root sessions that appeared between two lookups.
pub fn new_root_session_ids(before: &Vec<String>, after: &Vec<String>) -> (r: Vec<String>)
    ensures
        string_views(r@) == new_ids_spec(string_views(before@), string_views(after@)),
{
    let ghost b = string_views(before@);
    let ghost pred = |id: Seq<char>| !b.contains(id);
    let mut r: Vec<String> = Vec::new();
    let mut i: usize = 0;
    while i < after.len()
        invariant
            i <= after.len(),
            b == string_views(before@),
            pred == (|id: Seq<char>| !b.contains(id)),
            string_views(r@) == string_views(after@).take(i as int).filter(pred),
        decreases after.len() - i,
    {
        let ghost av = string_views(after@);
        proof {
            assert(av.take(i + 1) =~= av.take(i as int).push(av[i as int]));
            av.take(i as int).lemma_filter_push(av[i as int], pred);
        }
        if !contains_string(before, after[i].as_str()) {
            let ghost before_r = r@;
            r.push(copy_str(after[i].as_str()));
            assert(string_views(r@) =~= string_views(before_r).push(after@[i as int]@));
        }
        i = i + 1;
    }
    assert(string_views(after@).take(after.len() as int) =~= string_views(after@));
    r
}

/// The single ID of a list, if it has exactly one.
pub fn single_id(ids: &Vec<String>) -> (r: Option<String>)
    ensures
        match r {
            Some(s) => ids@.len() == 1 && s@ == ids@[0]@,
            None => ids@.len() != 1,
        },
{
    if ids.len() == 1 {
        Some(copy_str(ids[0].as_str()))
    } else {
        None
    }
}

/// The OpenCode session that a launch created: the one root session that
/// appeared in the directory while the session was launched, if exactly one
/// did.
pub fn captured_session_id(before: &Vec<String>, after: &Vec<String>) -> (r: Option<String>)
    ensures
        match r {
            Some(s) => new_ids_spec(string_views(before@), string_views(after@)) == seq![s@],
            None => new_ids_spec(string_views(before@), string_views(after@)).len() != 1,
        },
{
    let new_ids = new_root_session_ids(before, after);
    let r = single_id(&new_ids);
    proof {
        if r is Some {
            assert(string_views(new_ids@) =~= seq![r.unwrap()@]);
        }
    }
    r
}

/// The saved sessions whose directory is `directory`, in order.
pub open spec fn in_directory(sessions: Seq<SavedSession>, directory: Seq<char>) -> Seq<SavedSession> {
    sessions.filter(|s: SavedSession| path_eq_spec(s.directory@, directory))
}

/// The saved sessions whose directory is `directory`, in order.
pub fn find_saved_sessions_in_directory(sessions: Vec<SavedSession>, directory: &str) -> (r: Vec<
    SavedSession,
>)
    ensures
        r@ == in_directory(sessions@, directory@),
{
    let ghost pred = |s: SavedSession| path_eq_spec(s.directory@, directory@);
    let ghost all = sessions@;
    let total = sessions.len();
    let mut sessions = sessions;
    let mut r: Vec<SavedSession> = Vec::new();
    let mut taken: usize = 0;
    while sessions.len() > 0
        invariant
            pred == (|s: SavedSession| path_eq_spec(s.directory@, directory@)),
            taken + sessions@.len() == all.len(),
            all.len() <= usize::MAX,
            sessions@ == all.skip(taken as int),
            r@ == all.take(taken as int).filter(pred),
        decreases sessions@.len(),
    {
        let s = sessions.remove(0);
        proof {
            assert(s == all[taken as int]);
            assert(all.take(taken + 1) =~= all.take(taken as int).push(s));
            all.take(taken as int).lemma_filter_push(s, pred);
        }
        if path_eq(s.directory.as_str(), directory) {
            r.push(s);
        }
        taken = taken + 1;
        assert(sessions@ =~= all.skip(taken as int));
    }
    assert(all.take(all.len() as int) =~= all);
    r
}

/// The one saved session of the current directory, if there is exactly one:
/// the session that running `oc` there attaches to.
pub fn single_directory_match(matches: Vec<SavedSession>) -> (r: Option<SavedSession>)
    ensures
        match r {
            Some(s) => matches@.len() == 1 && s == matches@[0],
            None => matches@.len() != 1,
        },
{
    if matches.len() == 1 {
        let mut m = matches;
        Some(m.remove(0))
    } else {
        None
    }
}

/// What migration does to the saved aliases (each name's directory and
/// arguments) and to its report when it imports `alias`: the import decision
/// is made against what is saved under the alias's name, an insert saves the
/// alias under that name and counts as imported, an unchanged alias counts as
/// skipped, and a conflict adds the name to the conflicts.
pub open spec fn migration_step(
    state: (Map<Seq<char>, (Seq<char>, Seq<Seq<char>>)>, nat, nat, Seq<Seq<char>>),
    alias: (Seq<char>, Seq<char>, Seq<Seq<char>>),
) -> (Map<Seq<char>, (Seq<char>, Seq<Seq<char>>)>, nat, nat, Seq<Seq<char>>) {
    let (saved, imported, skipped, conflicts) = state;
    let existing = if saved.dom().contains(alias.0) {
        Some(saved[alias.0])
    } else {
        None
    };
    match import_decision_spec(existing, alias.1, alias.2) {
        ImportDecision::Insert => (saved.insert(alias.0, (alias.1, alias.2)), imported + 1, skipped, conflicts),
        ImportDecision::Unchanged => (saved, imported, skipped + 1, conflicts),
        ImportDecision::Conflict => (saved, imported, skipped, conflicts.push(alias.0)),
    }
}

/// Migrating `aliases` in order into the saved aliases `saved`, with every
/// insert succeeding: the saved aliases after, and the numbers imported and
/// skipped and the conflicting names that the report gives.
pub open spec fn migration_spec(
    saved: Map<Seq<char>, (Seq<char>, Seq<Seq<char>>)>,
    aliases: Seq<(Seq<char>, Seq<char>, Seq<Seq<char>>)>,
) -> (Map<Seq<char>, (Seq<char>, Seq<Seq<char>>)>, nat, nat, Seq<Seq<char>>)
    decreases aliases.len(),
{
    if aliases.len() == 0 {
        (saved, 0, 0, Seq::empty())
    } else {
        migration_step(migration_spec(saved, aliases.drop_last()), aliases.last())
    }
}

proof fn lemma_step_keeps(
    state: (Map<Seq<char>, (Seq<char>, Seq<Seq<char>>)>, nat, nat, Seq<Seq<char>>),
    alias: (Seq<char>, Seq<char>, Seq<Seq<char>>),
)
    ensures
        state.0.submap_of(migration_step(state, alias).0),
        migration_step(state, alias).0.dom().contains(alias.0),
        !state.0.dom().contains(alias.0) ==> migration_step(state, alias).0[alias.0] == (alias.1, alias.2),
{
    let next = migration_step(state, alias).0;
    assert forall|k: Seq<char>| #[trigger] state.0.dom().contains(k) implies next.dom().contains(k)
        && next[k] == state.0[k] by {
        if !state.0.dom().contains(alias.0) {
            assert(k != alias.0);
        }
    }
}

proof fn lemma_submap_trans(
    a: Map<Seq<char>, (Seq<char>, Seq<Seq<char>>)>,
    b: Map<Seq<char>, (Seq<char>, Seq<Seq<char>>)>,
    c: Map<Seq<char>, (Seq<char>, Seq<Seq<char>>)>,
)
    requires
        a.submap_of(b),
        b.submap_of(c),
    ensures
        a.submap_of(c),
{
    assert forall|k: Seq<char>| #[trigger] a.dom().contains(k) implies c.dom().contains(k) && c[k] == a[k] by {
        if !b.dom().contains(k) {
            assert(!a.dom().contains(k));
        }
        assert(b.dom().contains(k) && a[k] == b[k]);
        if !c.dom().contains(k) {
            assert(!b.dom().contains(k));
        }
    }
}

/// Migration never overwrites or removes a saved alias: every alias saved
/// before is saved after, with the same directory and arguments.
pub proof fn law_migration_keeps_saved_aliases(
    saved: Map<Seq<char>, (Seq<char>, Seq<Seq<char>>)>,
    aliases: Seq<(Seq<char>, Seq<char>, Seq<Seq<char>>)>,
)
    ensures
        saved.submap_of(migration_spec(saved, aliases).0),
    decreases aliases.len(),
{
    if aliases.len() > 0 {
        law_migration_keeps_saved_aliases(saved, aliases.drop_last());
        let before = migration_spec(saved, aliases.drop_last());
        lemma_step_keeps(before, aliases.last());
        lemma_submap_trans(saved, before.0, migration_spec(saved, aliases).0);
    } else {
        assert(saved.submap_of(saved));
    }
}

proof fn lemma_migration_prefix_kept(
    saved: Map<Seq<char>, (Seq<char>, Seq<Seq<char>>)>,
    aliases: Seq<(Seq<char>, Seq<char>, Seq<Seq<char>>)>,
    k: int,
)
    requires
        0 <= k <= aliases.len(),
    ensures
        migration_spec(saved, aliases.take(k)).0.submap_of(migration_spec(saved, aliases).0),
    decreases aliases.len() - k,
{
    if k < aliases.len() {
        lemma_migration_prefix_kept(saved, aliases, k + 1);
        assert(aliases.take(k + 1).drop_last() =~= aliases.take(k));
        assert(aliases.take(k + 1).last() == aliases[k]);
        let before = migration_spec(saved, aliases.take(k));
        lemma_step_keeps(before, aliases[k]);
        lemma_submap_trans(
            before.0,
            migration_spec(saved, aliases.take(k + 1)).0,
            migration_spec(saved, aliases).0,
        );
    } else {
        assert(aliases.take(k) =~= aliases);
        let m = migration_spec(saved, aliases).0;
        assert(m.submap_of(m));
    }
}

proof fn lemma_second_run(
    saved: Map<Seq<char>, (Seq<char>, Seq<Seq<char>>)>,
    aliases: Seq<(Seq<char>, Seq<char>, Seq<Seq<char>>)>,
    k: int,
)
    requires
        0 <= k <= aliases.len(),
    ensures
        ({
            let first = migration_spec(saved, aliases.take(k));
            let after = migration_spec(saved, aliases).0;
            migration_spec(after, aliases.take(k)) == (after, 0nat, first.1 + first.2, first.3)
        }),
    decreases k,
{
    let after = migration_spec(saved, aliases).0;
    if k > 0 {
        lemma_second_run(saved, aliases, k - 1);
        lemma_migration_prefix_kept(saved, aliases, k);
        let p = aliases.take(k);
        assert(p.drop_last() =~= aliases.take(k - 1));
        let a = p.last();
        let before = migration_spec(saved, aliases.take(k - 1));
        let now = migration_spec(saved, p);
        lemma_step_keeps(before, a);
        assert(after.dom().contains(a.0));
        assert(after[a.0] == now.0[a.0]);
        if before.0.dom().contains(a.0) {
            assert(after[a.0] == before.0[a.0]);
        } else {
            assert(after[a.0] == (a.1, a.2));
        }
    } else {
        assert(aliases.take(0) =~= Seq::<(Seq<char>, Seq<char>, Seq<Seq<char>>)>::empty());
    }
}

/// Migration is idempotent: migrating the same aliases again into what a first
/// run left saved imports nothing, skips every alias that the first run
/// imported or skipped, reports the same conflicts, and changes nothing saved.
pub proof fn law_migration_is_idempotent(
    saved: Map<Seq<char>, (Seq<char>, Seq<Seq<char>>)>,
    aliases: Seq<(Seq<char>, Seq<char>, Seq<Seq<char>>)>,
)
    ensures
        ({
            let first = migration_spec(saved, aliases);
            let second = migration_spec(first.0, aliases);
            &&& second.0 == first.0
            &&& second.1 == 0
            &&& second.2 == first.1 + first.2
            &&& second.3 == first.3
        }),
{
    lemma_second_run(saved, aliases, aliases.len() as int);
    assert(aliases.take(aliases.len() as int) =~= aliases);
}

} // verus!
