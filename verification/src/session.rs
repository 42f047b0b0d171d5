//! Saved sessions, references to them, their runtime state in tmux and the
//! entries of the merged session list.
use vstd::prelude::*;

use crate::text::{
    append_str, concat2, copy_opt_string, copy_str, i64_to_string, int_decimal, parse_i64,
    parse_i64_spec, parse_u64, parse_unsigned,
};

verus! {

/// A session saved in storage: its dense numeric ID, its unique name, its
/// directory, the OpenCode session ID captured for it (if any) and the extra
/// arguments passed to OpenCode.
#[derive(Debug, Clone, PartialEq, Eq)]
pub struct SavedSession {
    pub id: i64,
    pub name: String,
    pub directory: String,
    pub opencode_session_id: Option<String>,
    pub opencode_args: Vec<String>,
}

/// A session about to be saved; it has no numeric ID yet.
#[derive(Debug, Clone, PartialEq, Eq)]
pub struct NewSessionAlias {
    pub name: String,
    pub directory: String,
    pub opencode_session_id: Option<String>,
    pub opencode_args: Vec<String>,
}

/// Why a session name or reference was refused.
#[derive(Debug, Clone, PartialEq, Eq)]
pub enum SessionError {
    /// The name reads as a plain number, which would clash with numeric IDs.
    NumericName(String),
    /// The reference reads as a number that is not a positive ID.
    NonPositiveId(String),
}

/// A session named either by its numeric ID or by its name.
#[derive(Debug, Clone, PartialEq, Eq)]
pub enum SessionRef {
    NumericId(i64),
    Name(String),
}

/// Whether a session runs in tmux, and whether a client is attached to it.
#[derive(Debug, Clone, Copy, PartialEq, Eq, Structural)]
pub enum SessionStatus {
    RunningAttached,
    RunningDetached,
    Saved,
}

/// What tmux reports of a managed session that is running.
#[derive(Debug, Clone, PartialEq, Eq)]
pub struct ManagedSessionRuntime {
    pub tmux_session_name: String,
    pub attached_count: usize,
    pub pane_pid: Option<u32>,
    pub memory_bytes: Option<u64>,
    pub tree_memory_bytes: Option<u64>,
}

/// A saved session together with its runtime state.
#[derive(Debug, Clone, PartialEq, Eq)]
pub struct SessionListEntry {
    pub saved_session: SavedSession,
    pub status: SessionStatus,
    pub runtime: Option<ManagedSessionRuntime>,
}

/// Whether a name reads as a plain number (what `str::parse::<u64>` accepts).
pub open spec fn is_plain_number(name: Seq<char>) -> bool {
    parse_unsigned(name, u64::MAX as nat).is_some()
}

/// The text of a session error.
pub open spec fn session_error_message(e: SessionError) -> Seq<char> {
    match e {
        SessionError::NumericName(name) => "Session name '"@ + name@
            + "' cannot be a plain number because numeric IDs and names must stay unambiguous"@,
        SessionError::NonPositiveId(input) => "Session ID '"@ + input@
            + "' must be a positive integer"@,
    }
}

/// The session reference that a target string denotes: a positive number is a
/// numeric ID, a number that is not positive is refused, anything else is a
/// name.
pub open spec fn session_ref_spec(input: Seq<char>) -> Option<Result<i64, ()>> {
    match parse_i64_spec(input) {
        Some(v) => if v > 0 {
            Some(Ok(v as i64))
        } else {
            Some(Err(()))
        },
        None => None,
    }
}

/// Names and numeric IDs stay apart: a target that denotes a numeric ID reads
/// as a plain number, so no alias can carry it as its name
/// (`NewSessionAlias::new` refuses such names).
pub proof fn law_numeric_targets_are_never_names(target: Seq<char>)
    requires
        session_ref_spec(target) matches Some(Ok(_)),
    ensures
        is_plain_number(target),
{
}

/// The status that a runtime record gives a saved session.
pub open spec fn status_for(runtime: Option<ManagedSessionRuntime>) -> SessionStatus {
    match runtime {
        Some(rt) => if rt.attached_count > 0 {
            SessionStatus::RunningAttached
        } else {
            SessionStatus::RunningDetached
        },
        None => SessionStatus::Saved,
    }
}

/// The machine-readable name of a status.
pub open spec fn status_str(status: SessionStatus) -> Seq<char> {
    match status {
        SessionStatus::RunningAttached => "running_attached"@,
        SessionStatus::RunningDetached => "running_detached"@,
        SessionStatus::Saved => "saved"@,
    }
}

/// The label of a status shown to people.
pub open spec fn public_label_spec(status: SessionStatus) -> Seq<char> {
    match status {
        SessionStatus::RunningAttached => "attached"@,
        SessionStatus::RunningDetached => "detached"@,
        SessionStatus::Saved => "saved"@,
    }
}

impl SessionError {
    /// The text of the error.
    pub fn message(&self) -> (m: String)
        ensures
            m@ == session_error_message(*self),
    {
        match self {
            SessionError::NumericName(name) => {
                let mut m = concat2("Session name '", name.as_str());
                append_str(
                    &mut m,
                    "' cannot be a plain number because numeric IDs and names must stay unambiguous",
                );
                m
            },
            SessionError::NonPositiveId(input) => {
                let mut m = concat2("Session ID '", input.as_str());
                append_str(&mut m, "' must be a positive integer");
                m
            },
        }
    }
}

impl NewSessionAlias {
    /// A new alias; a name that reads as a plain number is refused.
    pub fn new(name: String, directory: String, opencode_args: Vec<String>) -> (r: Result<
        Self,
        SessionError,
    >)
        ensures
            is_plain_number(name@) ==> r == Err::<Self, SessionError>(
                SessionError::NumericName(name),
            ),
            !is_plain_number(name@) ==> r == Ok::<Self, SessionError>(
                NewSessionAlias { name, directory, opencode_session_id: None, opencode_args },
            ),
    {
        if parse_u64(name.as_str()).is_some() {
            return Err(SessionError::NumericName(name));
        }
        Ok(NewSessionAlias { name, directory, opencode_session_id: None, opencode_args })
    }

    /// The alias with its OpenCode session ID replaced.
    pub fn with_opencode_session_id(self, opencode_session_id: Option<String>) -> (r: Self)
        ensures
            r == (NewSessionAlias { opencode_session_id, ..self }),
    {
        NewSessionAlias { opencode_session_id, ..self }
    }
}

impl SavedSession {
    /// The name of the tmux session that runs this session: the prefix followed
    /// by the session's name.
    pub fn managed_tmux_session_name(&self, prefix: &str) -> (r: String)
        ensures
            r@ == prefix@ + self.name@,
    {
        concat2(prefix, self.name.as_str())
    }
}

impl SessionStatus {
    /// The machine-readable name of the status.
    pub fn as_str(self) -> (r: &'static str)
        ensures
            r@ == status_str(self),
    {
        match self {
            SessionStatus::RunningAttached => "running_attached",
            SessionStatus::RunningDetached => "running_detached",
            SessionStatus::Saved => "saved",
        }
    }

    /// The label of the status shown to people.
    pub fn public_label(self) -> (r: &'static str)
        ensures
            r@ == public_label_spec(self),
    {
        match self {
            SessionStatus::RunningAttached => "attached",
            SessionStatus::RunningDetached => "detached",
            SessionStatus::Saved => "saved",
        }
    }

    /// Whether the status is one of the running ones.
    pub fn is_running(self) -> (r: bool)
        ensures
            r == (self != SessionStatus::Saved),
    {
        !matches!(self, SessionStatus::Saved)
    }
}

impl ManagedSessionRuntime {
    /// A copy of the record.
    pub fn copy(&self) -> (r: Self)
        ensures
            r == *self,
    {
        ManagedSessionRuntime {
            tmux_session_name: self.tmux_session_name.clone(),
            attached_count: self.attached_count,
            pane_pid: self.pane_pid,
            memory_bytes: self.memory_bytes,
            tree_memory_bytes: self.tree_memory_bytes,
        }
    }
}

impl SessionListEntry {
    /// The entry for a saved session: attached when tmux reports a client,
    /// detached when it runs without one, saved when it does not run.
    pub fn from_saved_session(saved_session: SavedSession, runtime: Option<&ManagedSessionRuntime>) -> (r:
        Self)
        ensures
            r.saved_session == saved_session,
            r.runtime == (match runtime {
                Some(rt) => Some(*rt),
                None => None::<ManagedSessionRuntime>,
            }),
            r.status == status_for(r.runtime),
    {
        let (status, runtime) = match runtime {
            Some(rt) => {
                let status = if rt.attached_count > 0 {
                    SessionStatus::RunningAttached
                } else {
                    SessionStatus::RunningDetached
                };
                (status, Some(rt.copy()))
            },
            None => (SessionStatus::Saved, None),
        };
        SessionListEntry { saved_session, status, runtime }
    }

    /// The line that the hidden session dump prints for this entry.
    pub fn debug_dump_line(&self) -> (r: String)
        ensures
            r@ == "id="@ + int_decimal(self.saved_session.id as int) + " name="@
                + self.saved_session.name@ + " dir="@ + self.saved_session.directory@
                + " status="@ + status_str(self.status),
    {
        let mut r = copy_str("id=");
        let id = i64_to_string(self.saved_session.id);
        append_str(&mut r, id.as_str());
        append_str(&mut r, " name=");
        append_str(&mut r, self.saved_session.name.as_str());
        append_str(&mut r, " dir=");
        append_str(&mut r, self.saved_session.directory.as_str());
        append_str(&mut r, " status=");
        append_str(&mut r, self.status.as_str());
        r
    }

    /// The memory that tmux's runtime record reports, if any.
    pub fn runtime_memory_bytes(&self) -> (r: Option<u64>)
        ensures
            r == (match self.runtime {
                Some(rt) => rt.memory_bytes,
                None => None::<u64>,
            }),
    {
        match &self.runtime {
            Some(rt) => rt.memory_bytes,
            None => None,
        }
    }
}

impl SessionRef {
    /// Reads a target: a positive number is a numeric ID, a number that is not
    /// positive is refused, anything else is a name.
    pub fn parse(input: &str) -> (r: Result<Self, SessionError>)
        ensures
            match session_ref_spec(input@) {
                Some(Ok(id)) => r == Ok::<Self, SessionError>(SessionRef::NumericId(id)),
                Some(Err(())) => r matches Err(SessionError::NonPositiveId(s)) && s@ == input@,
                None => r matches Ok(SessionRef::Name(s)) && s@ == input@,
            },
    {
        match parse_i64(input) {
            Some(id) => {
                if id > 0 {
                    Ok(SessionRef::NumericId(id))
                } else {
                    Err(SessionError::NonPositiveId(copy_str(input)))
                }
            },
            None => Ok(SessionRef::Name(copy_str(input))),
        }
    }
}

} // verus!
