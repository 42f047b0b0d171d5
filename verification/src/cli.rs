//! What the command line asks for: the parsed arguments and the action they
//! request, and the version flags handled before parsing.
use vstd::prelude::*;

use crate::text::{
    chars_of, char_is_whitespace, has_prefix, is_whitespace, leading_ws, lines, slice_string,
    split_lines, split_whitespace, starts_with, str_eq, string_views, words,
};

verus! {

/// A shell for which completion scripts are generated.
#[derive(Debug, Clone, Copy, PartialEq, Eq, Structural)]
pub enum CompletionShell {
    Bash,
    Fish,
    Zsh,
}

/// What a run of the tool is asked to do.
#[derive(Debug, Clone, PartialEq, Eq)]
pub enum RequestedAction {
    Completion { shell: CompletionShell },
    New { name: String, dir: Option<String>, opencode_args: Vec<String> },
    Alias { name: String, dir: Option<String>, opencode_args: Vec<String> },
    Unalias { name: String },
    Rm { target: String },
    Stop { target: String },
    Restart { target: String },
    Move { target: String, new_dir: String },
    Migrate,
    AttachTarget { target: String },
    Default,
    List { json: bool },
    DbPath,
    DumpSessionList,
    DumpSessionDebug,
    DumpRuntimeConfig,
    ParseMemoryStatus { path: String },
}

/// A subcommand given on the command line.
#[derive(Debug, Clone, PartialEq, Eq)]
pub enum Command {
    Completion { shell: CompletionShell },
    New { name: String, dir: Option<String>, launch_args: Vec<String> },
    Alias { name: String, dir: Option<String>, launch_args: Vec<String> },
    Unalias { name: String },
    Rm { target: String },
    Stop { target: String },
    Restart { target: String },
    Move { target: String, new_dir: String },
    Migrate,
    List { json: bool },
    DbPath,
    DumpSessionList,
    DumpSessionDebug,
    DumpRuntimeConfig,
    ParseMemoryStatus { path: String },
}

/// The parsed command line: a subcommand, or a bare target, or neither.
#[derive(Debug, Clone, PartialEq, Eq)]
pub struct Cli {
    pub command: Option<Command>,
    pub target: Option<String>,
}

/// The action that a parsed command line requests: each subcommand its own
/// action, a bare target attaching to it, and nothing at all opening the
/// dashboard.
pub open spec fn requested_action_spec(command: Option<Command>, target: Option<String>) -> RequestedAction {
    match (command, target) {
        (Some(Command::Completion { shell }), _) => RequestedAction::Completion { shell },
        (Some(Command::New { name, dir, launch_args }), _) => RequestedAction::New {
            name,
            dir,
            opencode_args: launch_args,
        },
        (Some(Command::Alias { name, dir, launch_args }), _) => RequestedAction::Alias {
            name,
            dir,
            opencode_args: launch_args,
        },
        (Some(Command::Unalias { name }), _) => RequestedAction::Unalias { name },
        (Some(Command::Rm { target }), _) => RequestedAction::Rm { target },
        (Some(Command::Stop { target }), _) => RequestedAction::Stop { target },
        (Some(Command::Restart { target }), _) => RequestedAction::Restart { target },
        (Some(Command::Move { target, new_dir }), _) => RequestedAction::Move { target, new_dir },
        (Some(Command::Migrate), _) => RequestedAction::Migrate,
        (Some(Command::List { json }), _) => RequestedAction::List { json },
        (Some(Command::DbPath), _) => RequestedAction::DbPath,
        (Some(Command::DumpSessionList), _) => RequestedAction::DumpSessionList,
        (Some(Command::DumpSessionDebug), _) => RequestedAction::DumpSessionDebug,
        (Some(Command::DumpRuntimeConfig), _) => RequestedAction::DumpRuntimeConfig,
        (Some(Command::ParseMemoryStatus { path }), _) => RequestedAction::ParseMemoryStatus {
            path,
        },
        (None, Some(target)) => RequestedAction::AttachTarget { target },
        (None, None) => RequestedAction::Default,
    }
}

impl Cli {
    /// The action that the command line requests. A subcommand and a bare
    /// target are never both given (the parser refuses that).
    pub fn requested_action(self) -> (r: RequestedAction)
        requires
            !(self.command.is_some() && self.target.is_some()),
        ensures
            r == requested_action_spec(self.command, self.target),
    {
        match (self.command, self.target) {
            (Some(Command::Completion { shell }), _) => RequestedAction::Completion { shell },
            (Some(Command::New { name, dir, launch_args }), _) => RequestedAction::New {
                name,
                dir,
                opencode_args: launch_args,
            },
            (Some(Command::Alias { name, dir, launch_args }), _) => RequestedAction::Alias {
                name,
                dir,
                opencode_args: launch_args,
            },
            (Some(Command::Unalias { name }), _) => RequestedAction::Unalias { name },
            (Some(Command::Rm { target }), _) => RequestedAction::Rm { target },
            (Some(Command::Stop { target }), _) => RequestedAction::Stop { target },
            (Some(Command::Restart { target }), _) => RequestedAction::Restart { target },
            (Some(Command::Move { target, new_dir }), _) => RequestedAction::Move {
                target,
                new_dir,
            },
            (Some(Command::Migrate), _) => RequestedAction::Migrate,
            (Some(Command::List { json }), _) => RequestedAction::List { json },
            (Some(Command::DbPath), _) => RequestedAction::DbPath,
            (Some(Command::DumpSessionList), _) => RequestedAction::DumpSessionList,
            (Some(Command::DumpSessionDebug), _) => RequestedAction::DumpSessionDebug,
            (Some(Command::DumpRuntimeConfig), _) => RequestedAction::DumpRuntimeConfig,
            (Some(Command::ParseMemoryStatus { path }), _) => RequestedAction::ParseMemoryStatus {
                path,
            },
            (None, Some(target)) => RequestedAction::AttachTarget { target },
            (None, None) => RequestedAction::Default,
        }
    }
}

/// Whether an argument is `--version` or `-V`.
pub open spec fn is_version_flag(arg: Seq<char>) -> bool {
    arg == "--version"@ || arg == "-V"@
}

/// Whether the arguments ask for the plain version line: exactly one
/// argument, a version flag.
pub open spec fn is_version_request_spec(args: Seq<Seq<char>>) -> bool {
    args.len() == 1 && is_version_flag(args[0])
}

/// Whether the arguments ask for the version as JSON: some version flag, some
/// `--json`, and nothing else.
pub open spec fn is_version_json_request_spec(args: Seq<Seq<char>>) -> bool {
    &&& exists|i: int| 0 <= i < args.len() && is_version_flag(#[trigger] args[i])
    &&& exists|i: int| 0 <= i < args.len() && #[trigger] args[i] == "--json"@
    &&& forall|i: int|
        0 <= i < args.len() ==> is_version_flag(#[trigger] args[i]) || args[i] == "--json"@
}

fn is_version_flag_exec(arg: &str) -> (r: bool)
    ensures
        r == is_version_flag(arg@),
{
    str_eq(arg, "--version") || str_eq(arg, "-V")
}

/// Whether the arguments (after the program name) ask for the plain version
/// line.
pub fn is_version_request(args: &Vec<String>) -> (r: bool)
    ensures
        r == is_version_request_spec(crate::text::string_views(args@)),
{
    args.len() == 1 && is_version_flag_exec(args[0].as_str())
}

/// Whether the arguments (after the program name) ask for the version as
/// JSON.
pub fn is_version_json_request(args: &Vec<String>) -> (r: bool)
    ensures
        r == is_version_json_request_spec(crate::text::string_views(args@)),
{
    let ghost a = crate::text::string_views(args@);
    let mut any_version = false;
    let mut any_json = false;
    let mut all_known = true;
    let mut i: usize = 0;
    while i < args.len()
        invariant
            a == crate::text::string_views(args@),
            i <= args.len(),
            any_version == exists|j: int| 0 <= j < i && is_version_flag(#[trigger] a[j]),
            any_json == exists|j: int| 0 <= j < i && #[trigger] a[j] == "--json"@,
            all_known == forall|j: int|
                0 <= j < i ==> is_version_flag(#[trigger] a[j]) || a[j] == "--json"@,
        decreases args.len() - i,
    {
        let v = is_version_flag_exec(args[i].as_str());
        let j = str_eq(args[i].as_str(), "--json");
        assert(a[i as int] == args@[i as int]@);
        if v {
            any_version = true;
        }
        if j {
            any_json = true;
        }
        if !v && !j {
            all_known = false;
        }
        i = i + 1;
        proof {
            if any_version {
                if v {
                    assert(is_version_flag(a[i - 1]));
                }
            }
            if any_json {
                if j {
                    assert(a[i - 1] == "--json"@);
                }
            }
            if !all_known {
                if !v && !j {
                    assert(!(is_version_flag(a[i - 1]) || a[i - 1] == "--json"@));
                }
            }
        }
    }
    any_version && any_json && all_known
}


/// The long description of the command line.
pub fn root_long_about() -> (r: &'static str)
    ensures
        r@ == "Interactive TUI session manager for OpenCode\n\n[TARGET] is a session name or alias to attach to.\n\nWorkflow:\n  Use bare `oc` to open the TUI session manager.\n  Use `oc <name>` to attach to a tracked session."@,
{
    "Interactive TUI session manager for OpenCode\n\n[TARGET] is a session name or alias to attach to.\n\nWorkflow:\n  Use bare `oc` to open the TUI session manager.\n  Use `oc <name>` to attach to a tracked session."
}

/// The examples at the end of the command line's help.
pub open spec fn root_examples_spec() -> Seq<char> {
    "Examples:\n  $ oc                           # Open the TUI session manager\n  $ oc my-project                # Attach to session 'my-project'\n  $ oc new my-project ~/src/foo  # Create a new session\n  $ oc list                      # List all tracked sessions\n  $ oc list --json               # List as JSON (for scripting)"@
}

/// The examples at the end of the command line's help.
pub fn root_examples() -> (r: &'static str)
    ensures
        r@ == root_examples_spec(),
{
    "Examples:\n  $ oc                           # Open the TUI session manager\n  $ oc my-project                # Attach to session 'my-project'\n  $ oc new my-project ~/src/foo  # Create a new session\n  $ oc list                      # List all tracked sessions\n  $ oc list --json               # List as JSON (for scripting)"
}

/// Whether a word is a short flag: a dash and one ASCII letter.
pub open spec fn is_short_flag_spec(word: Seq<char>) -> bool {
    word.len() == 2 && word[0] == '-' && (('a' <= word[1] <= 'z') || ('A' <= word[1] <= 'Z'))
}

/// The words of an example before its comment.
pub open spec fn words_before_comment(ws: Seq<Seq<char>>) -> Seq<Seq<char>>
    decreases ws.len(),
{
    if ws.len() == 0 || (ws[0].len() > 0 && ws[0][0] == '#') {
        Seq::empty()
    } else {
        seq![ws[0]] + words_before_comment(ws.drop_first())
    }
}

/// Whether an example line (one that begins, after indentation, with
/// `$ oc `) uses long flags only after `$ oc`.
pub open spec fn example_line_ok(line: Seq<char>) -> bool {
    let trimmed = line.skip(leading_ws(line) as int);
    has_prefix(trimmed, "$ oc "@) ==> forall|k: int|
        2 <= k < words_before_comment(words(trimmed)).len() ==> !is_short_flag_spec(
            #[trigger] words_before_comment(words(trimmed))[k],
        )
}

/// Whether every example of a help text uses long flags only.
pub open spec fn examples_use_long_flags_spec(help: Seq<char>) -> bool {
    forall|i: int| 0 <= i < lines(help).len() ==> example_line_ok(#[trigger] lines(help)[i])
}

fn is_short_flag(word: &str) -> (r: bool)
    ensures
        r == is_short_flag_spec(word@),
{
    let cs = chars_of(word);
    cs.len() == 2 && cs[0] == '-' && (('a' <= cs[1] && cs[1] <= 'z') || ('A' <= cs[1] && cs[1]
        <= 'Z'))
}

proof fn lemma_words_before_comment_len(ws: Seq<Seq<char>>)
    ensures
        words_before_comment(ws).len() <= ws.len(),
        forall|k: int|
            0 <= k < words_before_comment(ws).len() ==> #[trigger] words_before_comment(ws)[k]
                == ws[k],
        words_before_comment(ws).len() < ws.len() ==> (ws[words_before_comment(ws).len() as int].len()
            > 0 && ws[words_before_comment(ws).len() as int][0] == '#'),
        forall|k: int|
            0 <= k < words_before_comment(ws).len() ==> !(ws[k].len() > 0 && ws[k][0] == '#'),
    decreases ws.len(),
{
    if !(ws.len() == 0 || (ws[0].len() > 0 && ws[0][0] == '#')) {
        lemma_words_before_comment_len(ws.drop_first());
        let rest = words_before_comment(ws.drop_first());
        assert forall|k: int| 0 < k < words_before_comment(ws).len() implies #[trigger] words_before_comment(ws)[k] == ws[k] by {
            assert(words_before_comment(ws)[k] == rest[k - 1]);
            assert(ws.drop_first()[k - 1] == ws[k]);
        }
        assert forall|k: int| 0 < k < words_before_comment(ws).len() implies !(ws[k].len() > 0 && ws[k][0] == '#') by {
            assert(ws.drop_first()[k - 1] == ws[k]);
        }
        if words_before_comment(ws).len() < ws.len() {
            assert(ws.drop_first()[rest.len() as int] == ws[rest.len() as int + 1]);
        }
    }
}

fn example_line_uses_long_flags(line: &str) -> (r: bool)
    ensures
        r == example_line_ok(line@),
{
    let cs = chars_of(line);
    let mut start: usize = 0;
    while start < cs.len() && is_whitespace(cs[start])
        invariant
            cs@ == line@,
            start <= cs.len(),
            forall|k: int| 0 <= k < start ==> char_is_whitespace(#[trigger] cs@[k]),
        decreases cs.len() - start,
    {
        start = start + 1;
    }
    proof {
        crate::text::lemma_leading_ws(line@, start as int);
    }
    let trimmed = slice_string(&cs, start, cs.len());
    assert(trimmed@ =~= line@.skip(leading_ws(line@) as int));
    if !starts_with(trimmed.as_str(), "$ oc ") {
        return true;
    }
    let ws = split_whitespace(trimmed.as_str());
    let ghost wv = string_views(ws@);
    proof {
        lemma_words_before_comment_len(wv);
    }
    let mut i: usize = 0;
    while i < ws.len()
        invariant
            i <= ws.len(),
            wv == string_views(ws@),
            wv == words(line@.skip(leading_ws(line@) as int)),
            has_prefix(line@.skip(leading_ws(line@) as int), "$ oc "@),
            forall|k: int| 0 <= k < i ==> !(wv[k].len() > 0 && wv[k][0] == '#'),
            forall|k: int| 2 <= k < i ==> !is_short_flag_spec(wv[k]),
            words_before_comment(wv).len() <= wv.len(),
            forall|k: int|
                0 <= k < words_before_comment(wv).len() ==> #[trigger] words_before_comment(wv)[k]
                    == wv[k],
            words_before_comment(wv).len() < wv.len() ==> (wv[words_before_comment(wv).len() as int].len()
                > 0 && wv[words_before_comment(wv).len() as int][0] == '#'),
            forall|k: int|
                0 <= k < words_before_comment(wv).len() ==> !(wv[k].len() > 0 && wv[k][0] == '#'),
            i <= words_before_comment(wv).len(),
        decreases ws.len() - i,
    {
        assert(wv[i as int] == ws@[i as int]@);
        let w = chars_of(ws[i].as_str());
        if w.len() > 0 && w[0] == '#' {
            proof {
                assert(words_before_comment(wv).len() == i);
            }
            return true;
        }
        if i >= 2 && is_short_flag(ws[i].as_str()) {
            proof {
                assert(i < words_before_comment(wv).len());
                assert(words_before_comment(wv)[i as int] == wv[i as int]);
            }
            return false;
        }
        i = i + 1;
    }
    proof {
        if words_before_comment(wv).len() < wv.len() {
            assert(words_before_comment(wv).len() >= i);
        }
    }
    true
}

/// Whether every example of a help text uses long flags only after `$ oc`.
pub fn examples_use_long_flags_only(help: &str) -> (r: bool)
    ensures
        r == examples_use_long_flags_spec(help@),
{
    let ls = split_lines(help);
    let ghost lv = string_views(ls@);
    let mut i: usize = 0;
    while i < ls.len()
        invariant
            i <= ls.len(),
            lv == string_views(ls@),
            lv == lines(help@),
            forall|k: int| 0 <= k < i ==> example_line_ok(#[trigger] lv[k]),
        decreases ls.len() - i,
    {
        assert(lv[i as int] == ls@[i as int]@);
        if !example_line_uses_long_flags(ls[i].as_str()) {
            return false;
        }
        i = i + 1;
    }
    true
}

/// Each subcommand requests the action of the same kind, with the same
/// arguments (whatever bare target comes with it); a bare target alone asks
/// to attach to it; nothing at all asks for the default.
pub proof fn law_subcommand_requests_its_own_action(command: Command, target: Option<String>)
    ensures
        ({
            let a = requested_action_spec(Some(command), target);
            match command {
                Command::Completion { shell } => a == RequestedAction::Completion { shell },
                Command::New { name, dir, launch_args } => a == RequestedAction::New {
                    name,
                    dir,
                    opencode_args: launch_args,
                },
                Command::Alias { name, dir, launch_args } => a == RequestedAction::Alias {
                    name,
                    dir,
                    opencode_args: launch_args,
                },
                Command::Unalias { name } => a == RequestedAction::Unalias { name },
                Command::Rm { target: t } => a == RequestedAction::Rm { target: t },
                Command::Stop { target: t } => a == RequestedAction::Stop { target: t },
                Command::Restart { target: t } => a == RequestedAction::Restart { target: t },
                Command::Move { target: t, new_dir } => a == RequestedAction::Move { target: t, new_dir },
                Command::Migrate => a == RequestedAction::Migrate,
                Command::List { json } => a == RequestedAction::List { json },
                Command::DbPath => a == RequestedAction::DbPath,
                Command::DumpSessionList => a == RequestedAction::DumpSessionList,
                Command::DumpSessionDebug => a == RequestedAction::DumpSessionDebug,
                Command::DumpRuntimeConfig => a == RequestedAction::DumpRuntimeConfig,
                Command::ParseMemoryStatus { path } => a == RequestedAction::ParseMemoryStatus { path },
            }
        }),
        match target {
            Some(t) => requested_action_spec(None, target) == RequestedAction::AttachTarget { target: t },
            None => requested_action_spec(None, target) == RequestedAction::Default,
        },
{
}

/// Only the subcommand of its kind requests a session-changing action: a
/// removal comes only from `rm`, a stop only from `stop`, a restart only from
/// `restart`, a move only from `mv`, a new session only from `new`, and each
/// carries the target or name given to that subcommand.
pub proof fn law_actions_come_from_their_own_subcommand(command: Option<Command>, target: Option<String>)
    ensures
        ({
            let a = requested_action_spec(command, target);
            &&& a matches RequestedAction::Rm { target: t } ==> command == Some(Command::Rm { target: t })
            &&& a matches RequestedAction::Stop { target: t } ==> command == Some(
                Command::Stop { target: t },
            )
            &&& a matches RequestedAction::Restart { target: t } ==> command == Some(
                Command::Restart { target: t },
            )
            &&& a matches RequestedAction::Move { target: t, new_dir } ==> command == Some(
                Command::Move { target: t, new_dir },
            )
            &&& a matches RequestedAction::New { name, dir, opencode_args } ==> command == Some(
                Command::New { name, dir, launch_args: opencode_args },
            )
            &&& a matches RequestedAction::Unalias { name } ==> command == Some(Command::Unalias { name })
            &&& a matches RequestedAction::AttachTarget { target: t } ==> command.is_none() && target
                == Some(t)
        }),
{
}

} // verus!
