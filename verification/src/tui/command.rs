//! The commands typed in the dashboard's command mode.
use vstd::prelude::*;

use crate::cli::RequestedAction;
use crate::text::{append_str, concat2, copy_str, split_whitespace, str_eq, string_views, words};

verus! {

/// Why a typed command was refused.
#[derive(Debug, Clone, PartialEq, Eq)]
pub enum CommandParseError {
    Empty,
    UnknownCommand(String),
    MissingArgument(String),
    TooManyArguments(String),
}

/// What a typed command means, in terms of its words.
pub enum ParsedCommand {
    New(Seq<char>),
    Rm(Seq<char>),
    Stop(Seq<char>),
    Restart(Seq<char>),
    Move(Seq<char>, Seq<char>),
    Empty,
    Unknown(Seq<char>),
    Missing(Seq<char>),
    TooMany(Seq<char>),
}

/// The words joined with single spaces.
pub open spec fn join_spaced(ws: Seq<Seq<char>>) -> Seq<char>
    decreases ws.len(),
{
    if ws.len() == 0 {
        seq![]
    } else if ws.len() == 1 {
        ws[0]
    } else {
        join_spaced(ws.drop_last()) + " "@ + ws.last()
    }
}

/// A command that takes exactly one argument.
pub open spec fn single_arg_spec(w: Seq<Seq<char>>, make: spec_fn(Seq<char>) -> ParsedCommand) -> ParsedCommand {
    if w.len() < 2 {
        ParsedCommand::Missing(w[0])
    } else if w.len() > 2 {
        ParsedCommand::TooMany(w[0])
    } else {
        make(w[1])
    }
}

/// What the typed text means: its first word names the command (`new`/`n`,
/// `rm`/`delete`/`d`, `stop`, `restart` take one argument; `mv` takes a target
/// and a directory, the rest of the words joined with spaces).
pub open spec fn parse_command_spec(input: Seq<char>) -> ParsedCommand {
    let w = words(input);
    if w.len() == 0 {
        ParsedCommand::Empty
    } else {
        let c = w[0];
        if c == "new"@ || c == "n"@ {
            single_arg_spec(w, |a: Seq<char>| ParsedCommand::New(a))
        } else if c == "rm"@ || c == "delete"@ || c == "d"@ {
            single_arg_spec(w, |a: Seq<char>| ParsedCommand::Rm(a))
        } else if c == "stop"@ {
            single_arg_spec(w, |a: Seq<char>| ParsedCommand::Stop(a))
        } else if c == "restart"@ {
            single_arg_spec(w, |a: Seq<char>| ParsedCommand::Restart(a))
        } else if c == "mv"@ {
            if w.len() < 3 {
                ParsedCommand::Missing(c)
            } else {
                ParsedCommand::Move(w[1], join_spaced(w.skip(2)))
            }
        } else {
            ParsedCommand::Unknown(c)
        }
    }
}

/// Whether a parse result is what the parsed command says.
pub open spec fn result_matches(r: Result<RequestedAction, CommandParseError>, p: ParsedCommand) -> bool {
    match p {
        ParsedCommand::New(name) => r matches Ok(RequestedAction::New { name: n, dir, opencode_args })
            && n@ == name && dir.is_none() && opencode_args@.len() == 0,
        ParsedCommand::Rm(t) => r matches Ok(RequestedAction::Rm { target }) && target@ == t,
        ParsedCommand::Stop(t) => r matches Ok(RequestedAction::Stop { target }) && target@ == t,
        ParsedCommand::Restart(t) => r matches Ok(RequestedAction::Restart { target }) && target@
            == t,
        ParsedCommand::Move(t, d) => r matches Ok(RequestedAction::Move { target, new_dir })
            && target@ == t && new_dir@ == d,
        ParsedCommand::Empty => r matches Err(CommandParseError::Empty),
        ParsedCommand::Unknown(c) => r matches Err(CommandParseError::UnknownCommand(s)) && s@
            == c,
        ParsedCommand::Missing(c) => r matches Err(CommandParseError::MissingArgument(s)) && s@
            == c,
        ParsedCommand::TooMany(c) => r matches Err(CommandParseError::TooManyArguments(s)) && s@
            == c,
    }
}

fn join_words_from(ws: &Vec<String>, start: usize) -> (out: String)
    requires
        start < ws.len(),
    ensures
        out@ == join_spaced(string_views(ws@).skip(start as int)),
{
    let ghost sv = string_views(ws@);
    let mut out = copy_str(ws[start].as_str());
    let mut i: usize = start + 1;
    proof {
        let t = sv.skip(start as int).take(1);
        assert(t =~= seq![sv[start as int]]);
        assert(join_spaced(t) == t[0]);
    }
    while i < ws.len()
        invariant
            sv == string_views(ws@),
            start < i <= ws.len(),
            out@ == join_spaced(sv.skip(start as int).take(i - start)),
        decreases ws.len() - i,
    {
        proof {
            let t = sv.skip(start as int).take(i - start + 1);
            assert(t.drop_last() =~= sv.skip(start as int).take(i - start));
            assert(t.last() == ws@[i as int]@);
        }
        append_str(&mut out, " ");
        append_str(&mut out, ws[i].as_str());
        i = i + 1;
    }
    assert(sv.skip(start as int).take(ws.len() - start) =~= sv.skip(start as int));
    out
}

fn single_arg(ws: &Vec<String>, command: &str) -> (r: Result<String, CommandParseError>)
    requires
        ws.len() >= 1,
    ensures
        ws.len() < 2 ==> (r matches Err(CommandParseError::MissingArgument(s)) && s@ == command@),
        ws.len() > 2 ==> (r matches Err(CommandParseError::TooManyArguments(s)) && s@ == command@),
        ws.len() == 2 ==> (r matches Ok(a) && a@ == ws@[1]@),
{
    if ws.len() < 2 {
        return Err(CommandParseError::MissingArgument(copy_str(command)));
    }
    if ws.len() > 2 {
        return Err(CommandParseError::TooManyArguments(copy_str(command)));
    }
    Ok(ws[1].clone())
}

/// Parses a typed command.
pub fn parse_command(input: &str) -> (r: Result<RequestedAction, CommandParseError>)
    ensures
        result_matches(r, parse_command_spec(input@)),
{
    let ws = split_whitespace(input);
    let ghost w = words(input@);
    if ws.len() == 0 {
        return Err(CommandParseError::Empty);
    }
    assert(w[0] == ws@[0]@);
    let command = ws[0].as_str();
    if str_eq(command, "new") || str_eq(command, "n") {
        return match single_arg(&ws, command) {
            Ok(name) => Ok(RequestedAction::New { name, dir: None, opencode_args: Vec::new() }),
            Err(e) => Err(e),
        };
    }
    if str_eq(command, "rm") || str_eq(command, "delete") || str_eq(command, "d") {
        return match single_arg(&ws, command) {
            Ok(target) => Ok(RequestedAction::Rm { target }),
            Err(e) => Err(e),
        };
    }
    if str_eq(command, "stop") {
        return match single_arg(&ws, command) {
            Ok(target) => Ok(RequestedAction::Stop { target }),
            Err(e) => Err(e),
        };
    }
    if str_eq(command, "restart") {
        return match single_arg(&ws, command) {
            Ok(target) => Ok(RequestedAction::Restart { target }),
            Err(e) => Err(e),
        };
    }
    if str_eq(command, "mv") {
        if ws.len() < 3 {
            return Err(CommandParseError::MissingArgument(copy_str(command)));
        }
        let target = ws[1].clone();
        let new_dir = join_words_from(&ws, 2);
        return Ok(RequestedAction::Move { target, new_dir });
    }
    Err(CommandParseError::UnknownCommand(copy_str(command)))
}

/// The message shown for a refused command.
pub open spec fn command_error_message(e: CommandParseError) -> Seq<char> {
    match e {
        CommandParseError::Empty => "Enter a command"@,
        CommandParseError::UnknownCommand(c) => "Unknown command: "@ + c@,
        CommandParseError::MissingArgument(c) => "Missing argument for command: "@ + c@,
        CommandParseError::TooManyArguments(c) => "Too many arguments for command: "@ + c@,
    }
}

/// The message shown for a refused command.
pub fn format_command_error(error: CommandParseError) -> (m: String)
    ensures
        m@ == command_error_message(error),
{
    match error {
        CommandParseError::Empty => copy_str("Enter a command"),
        CommandParseError::UnknownCommand(c) => concat2("Unknown command: ", c.as_str()),
        CommandParseError::MissingArgument(c) => concat2(
            "Missing argument for command: ",
            c.as_str(),
        ),
        CommandParseError::TooManyArguments(c) => concat2(
            "Too many arguments for command: ",
            c.as_str(),
        ),
    }
}

} // verus!
