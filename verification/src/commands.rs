//! How a command's failure is reported: an attach that fails from an
//! interactive command falls back to the dashboard with a status line, and
//! the error chain is written out as its causes joined by `: `.
use vstd::prelude::*;

use crate::cli::RequestedAction;
use crate::text::{append_str, concat2, concat3, contains, contains_seq, string_views};

verus! {

/// An error chain written out as its messages, outermost first, joined by
/// `: ` (what the alternate form of an error chain prints).
pub open spec fn chain_text(chain: Seq<Seq<char>>) -> Seq<char>
    decreases chain.len(),
{
    if chain.len() == 0 {
        Seq::empty()
    } else if chain.len() == 1 {
        chain[0]
    } else {
        chain_text(chain.drop_last()) + ": "@ + chain.last()
    }
}

/// Whether some cause in the chain says that attaching failed.
pub open spec fn is_attach_failure_spec(chain: Seq<Seq<char>>) -> bool {
    exists|i: int| 0 <= i < chain.len() && contains_seq(#[trigger] chain[i], "failed to attach"@)
}

/// An error chain written out as its messages joined by `: `.
pub fn error_chain_text(chain: &Vec<String>) -> (r: String)
    ensures
        r@ == chain_text(string_views(chain@)),
{
    let ghost cv = string_views(chain@);
    let mut r = String::new();
    let mut i: usize = 0;
    while i < chain.len()
        invariant
            i <= chain.len(),
            cv == string_views(chain@),
            r@ == chain_text(cv.take(i as int)),
        decreases chain.len() - i,
    {
        assert(cv.take(i + 1).drop_last() =~= cv.take(i as int));
        if i > 0 {
            append_str(&mut r, ": ");
        } else {
            assert(r@ =~= Seq::<char>::empty());
        }
        append_str(&mut r, chain[i].as_str());
        i = i + 1;
    }
    assert(cv.take(chain.len() as int) =~= cv);
    r
}

/// Whether some cause in the chain says that attaching failed.
pub fn is_attach_failure(chain: &Vec<String>) -> (r: bool)
    ensures
        r == is_attach_failure_spec(string_views(chain@)),
{
    let mut i: usize = 0;
    while i < chain.len()
        invariant
            i <= chain.len(),
            forall|j: int| 0 <= j < i ==> !contains_seq(#[trigger] chain@[j]@, "failed to attach"@),
        decreases chain.len() - i,
    {
        if contains(chain[i].as_str(), "failed to attach") {
            assert(string_views(chain@)[i as int] == chain@[i as int]@);
            return true;
        }
        i = i + 1;
    }
    assert forall|j: int| 0 <= j < string_views(chain@).len() implies !contains_seq(
        #[trigger] string_views(chain@)[j],
        "failed to attach"@,
    ) by {
        assert(string_views(chain@)[j] == chain@[j]@);
    }
    false
}

/// The session that an interactive command attaches to: the target of a bare
/// target or of `mv`, the name of `new`; other commands do not attach.
pub open spec fn attach_subject(action: RequestedAction) -> Option<Seq<char>> {
    match action {
        RequestedAction::AttachTarget { target } => Some(target@),
        RequestedAction::New { name, .. } => Some(name@),
        RequestedAction::Move { target, .. } => Some(target@),
        _ => None,
    }
}

/// The status line with which the dashboard opens when an interactive
/// command failed to attach: `Attach failed for <session>: <error>`; `None`
/// when the failure is not an attach failure or the command does not attach.
pub fn interactive_attach_failure_status(action: &RequestedAction, chain: &Vec<String>) -> (r:
    Option<String>)
    ensures
        match r {
            Some(s) => is_attach_failure_spec(string_views(chain@)) && (attach_subject(*action)
                matches Some(subject) && s@ == "Attach failed for "@ + subject + ": "@ + chain_text(
                string_views(chain@),
            )),
            None => !is_attach_failure_spec(string_views(chain@)) || attach_subject(*action) is None,
        },
{
    if !is_attach_failure(chain) {
        return None;
    }
    let subject: &str = match action {
        RequestedAction::AttachTarget { target } => target.as_str(),
        RequestedAction::New { name, .. } => name.as_str(),
        RequestedAction::Move { target, .. } => target.as_str(),
        _ => return None,
    };
    let mut s = concat3("Attach failed for ", subject, ": ");
    let t = error_chain_text(chain);
    append_str(&mut s, t.as_str());
    Some(s)
}

/// What attaching to the one session of the current directory came to.
#[derive(Debug, Clone, PartialEq, Eq)]
pub enum AutoAttachResult {
    /// It attached.
    Attached,
    /// It failed to attach: the dashboard opens with this status line.
    FallbackToDashboard(Option<String>),
    /// No single session lives in the directory.
    NoMatch,
}

/// What attaching to the session `name` came to: success is `Attached`; an
/// attach failure opens the dashboard with `Auto-attach failed for <name>:
/// <error>`; any other failure is returned as it is.
pub fn auto_attach_outcome(name: &str, activation: Result<(), Vec<String>>) -> (r: Result<
    AutoAttachResult,
    Vec<String>,
>)
    ensures
        match activation {
            Ok(()) => r == Ok::<AutoAttachResult, Vec<String>>(AutoAttachResult::Attached),
            Err(chain) => if is_attach_failure_spec(string_views(chain@)) {
                r matches Ok(AutoAttachResult::FallbackToDashboard(Some(s))) && s@
                    == "Auto-attach failed for "@ + name@ + ": "@ + chain_text(string_views(chain@))
            } else {
                r == Err::<AutoAttachResult, Vec<String>>(chain)
            },
        },
{
    match activation {
        Ok(()) => Ok(AutoAttachResult::Attached),
        Err(chain) => {
            if is_attach_failure(&chain) {
                let mut s = concat3("Auto-attach failed for ", name, ": ");
                let t = error_chain_text(&chain);
                append_str(&mut s, t.as_str());
                Ok(AutoAttachResult::FallbackToDashboard(Some(s)))
            } else {
                Err(chain)
            }
        },
    }
}

} // verus!
