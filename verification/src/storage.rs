//! The rules of the session store: dense, gap-filling numeric IDs, what an
//! imported alias does to an existing one, the errors that the store
//! reports, and the JSON text in which OpenCode arguments are kept. Running
//! the SQL is the caller's.
use vstd::prelude::*;

use crate::paths::{is_same_directory, same_directory};
use crate::session::{NewSessionAlias, SavedSession};
use crate::text::{concat2, concat3, copy_str, i64_to_string, int_decimal, str_eq, string_views};

verus! {

/// The failure that `serde_json` reports.
#[verifier::external_type_specification]
#[verifier::external_body]
pub struct ExSerdeJsonError(serde_json::Error);

/// The lowercase hexadecimal digit of `n` (below sixteen).
pub open spec fn hex_digit(n: nat) -> char {
    if n < 10 {
        (48 + n) as char
    } else {
        (87 + n) as char
    }
}

/// How `c` is written inside a JSON string: a quote and a backslash after a
/// backslash; the backspace, tab, line feed, form feed and carriage return as
/// `\b`, `\t`, `\n`, `\f` and `\r`; the other controls below 0x20 as `\u00`
/// and two lowercase hex digits; any other character as itself.
pub open spec fn json_escaped_char(c: char) -> Seq<char> {
    if c == '"' || c == '\\' {
        seq!['\\', c]
    } else if c == '\u{8}' {
        seq!['\\', 'b']
    } else if c == '\t' {
        seq!['\\', 't']
    } else if c == '\n' {
        seq!['\\', 'n']
    } else if c == '\u{c}' {
        seq!['\\', 'f']
    } else if c == '\r' {
        seq!['\\', 'r']
    } else if (c as u32) < 0x20 {
        seq!['\\', 'u', '0', '0', hex_digit((c as u32 / 16) as nat), hex_digit((c as u32 % 16) as nat)]
    } else {
        seq![c]
    }
}

/// The characters of `s`, each written as inside a JSON string.
pub open spec fn json_escaped(s: Seq<char>) -> Seq<char>
    decreases s.len(),
{
    if s.len() == 0 {
        Seq::empty()
    } else {
        json_escaped(s.drop_last()) + json_escaped_char(s.last())
    }
}

/// `s` as a JSON string: escaped, between quotes.
pub open spec fn json_string(s: Seq<char>) -> Seq<char> {
    seq!['"'] + json_escaped(s) + seq!['"']
}

/// The JSON strings of `items`, separated by commas.
pub open spec fn json_string_items(items: Seq<Seq<char>>) -> Seq<char>
    decreases items.len(),
{
    if items.len() == 0 {
        Seq::empty()
    } else if items.len() == 1 {
        json_string(items[0])
    } else {
        json_string_items(items.drop_last()) + seq![','] + json_string(items.last())
    }
}

/// A list of strings as compact JSON: its strings, separated by commas, between
/// square brackets.
pub open spec fn json_string_list(items: Seq<Seq<char>>) -> Seq<char> {
    seq!['['] + json_string_items(items) + seq![']']
}

/// The list of strings that `serde_json::from_str` reads from a text, or none
/// when the text is not a JSON array of strings.
pub uninterp spec fn strings_from_json(json: Seq<char>) -> Option<Seq<Seq<char>>>;

/// Calls `serde_json::to_string` on the list; it succeeds, and returns the
/// list as compact JSON, its strings escaped as serde_json's escape table
/// does. It cannot fail here: the writer is an in-memory buffer, and strings
/// serialize without error.
#[verifier::external_body]
fn json_to_string(args: &Vec<String>) -> (r: Result<String, serde_json::Error>)
    ensures
        r is Ok,
        r matches Ok(s) ==> s@ == json_string_list(string_views(args@)),
{
    serde_json::to_string(args)
}

/// Calls `serde_json::from_str` for a list of strings; it succeeds exactly when
/// the name above has a list for the text, and then gives that list. A text
/// that serde_json wrote for a list reads back as that list.
#[verifier::external_body]
fn json_from_str(json: &str) -> (r: Result<Vec<String>, serde_json::Error>)
    ensures
        match r {
            Ok(v) => strings_from_json(json@) == Some(string_views(v@)),
            Err(_) => strings_from_json(json@).is_none(),
        },
        match r {
            Ok(v) => forall|items: Seq<Seq<char>>|
                #[trigger] json_string_list(items) == json@ ==> string_views(v@) == items,
            Err(_) => forall|items: Seq<Seq<char>>| #[trigger] json_string_list(items) != json@,
        },
{
    serde_json::from_str(json)
}

/// Why the store refused an operation.
#[derive(Debug, Clone, PartialEq, Eq)]
pub enum StorageError {
    /// An alias of this name exists.
    AliasExists(String),
    /// No alias has this name.
    AliasNotFound(String),
    /// No session has this numeric ID.
    SessionNotFound(i64),
    /// An imported alias differs from the saved one of the same name.
    ConflictingImport(String),
    /// The database refused the row for another reason.
    RowRejected(String),
    /// The database path has no parent directory.
    NoParentDirectory(String),
    /// The OpenCode arguments could not be written as JSON (a list of strings
    /// always can be, so the store never reports this).
    SerializeArguments,
    /// The stored OpenCode arguments are not a JSON list of strings.
    DeserializeArguments(String),
}

/// The message of a store error.
pub open spec fn storage_error_message(e: StorageError) -> Seq<char> {
    match e {
        StorageError::AliasExists(name) => "Session alias '"@ + name@ + "' already exists"@,
        StorageError::AliasNotFound(name) => "Session alias '"@ + name@ + "' not found"@,
        StorageError::SessionNotFound(id) => "Session "@ + int_decimal(id as int) + " not found"@,
        StorageError::ConflictingImport(name) => "Session alias '"@ + name@
            + "' already exists with different values"@,
        StorageError::RowRejected(name) => "Failed to save session alias '"@ + name@
            + "' because storage rejected the row"@,
        StorageError::NoParentDirectory(path) => "Session database path "@ + path@
            + " has no parent directory"@,
        StorageError::SerializeArguments => "failed to serialize OpenCode args"@,
        StorageError::DeserializeArguments(json) =>
            "failed to deserialize OpenCode args from stored JSON: "@ + json@,
    }
}

impl StorageError {
    /// The error's message.
    pub fn message(&self) -> (m: String)
        ensures
            m@ == storage_error_message(*self),
    {
        match self {
            StorageError::AliasExists(name) => concat3(
                "Session alias '",
                name.as_str(),
                "' already exists",
            ),
            StorageError::AliasNotFound(name) => concat3(
                "Session alias '",
                name.as_str(),
                "' not found",
            ),
            StorageError::SessionNotFound(id) => {
                let n = i64_to_string(*id);
                concat3("Session ", n.as_str(), " not found")
            },
            StorageError::ConflictingImport(name) => concat3(
                "Session alias '",
                name.as_str(),
                "' already exists with different values",
            ),
            StorageError::RowRejected(name) => concat3(
                "Failed to save session alias '",
                name.as_str(),
                "' because storage rejected the row",
            ),
            StorageError::NoParentDirectory(path) => concat3(
                "Session database path ",
                path.as_str(),
                " has no parent directory",
            ),
            StorageError::SerializeArguments => copy_str("failed to serialize OpenCode args"),
            StorageError::DeserializeArguments(json) => concat2(
                "failed to deserialize OpenCode args from stored JSON: ",
                json.as_str(),
            ),
        }
    }
}

/// The OpenCode arguments as the JSON text that the store keeps; writing them
/// always succeeds.
pub fn serialize_opencode_args(args: &Vec<String>) -> (r: Result<String, StorageError>)
    ensures
        r is Ok,
        match r {
            Ok(s) => s@ == json_string_list(string_views(args@)),
            Err(e) => e == StorageError::SerializeArguments,
        },
{
    match json_to_string(args) {
        Ok(s) => Ok(s),
        Err(_) => Err(StorageError::SerializeArguments),
    }
}

/// The OpenCode arguments that a stored JSON text holds.
pub fn deserialize_opencode_args(json: &str) -> (r: Result<Vec<String>, StorageError>)
    ensures
        match r {
            Ok(v) => strings_from_json(json@) == Some(string_views(v@)),
            Err(e) => strings_from_json(json@).is_none() && (e matches StorageError::DeserializeArguments(
                t,
            ) && t@ == json@),
        },
        match r {
            Ok(v) => forall|items: Seq<Seq<char>>|
                #[trigger] json_string_list(items) == json@ ==> string_views(v@) == items,
            Err(_) => forall|items: Seq<Seq<char>>| #[trigger] json_string_list(items) != json@,
        },
{
    match json_from_str(json) {
        Ok(v) => Ok(v),
        Err(_) => Err(StorageError::DeserializeArguments(copy_str(json))),
    }
}

fn contains_id(ids: &Vec<i64>, x: i64) -> (r: bool)
    ensures
        r == ids@.contains(x),
{
    let mut i: usize = 0;
    while i < ids.len()
        invariant
            i <= ids.len(),
            forall|j: int| 0 <= j < i ==> ids@[j] != x,
        decreases ids.len() - i,
    {
        if ids[i] == x {
            return true;
        }
        i = i + 1;
    }
    false
}

/// Whether `r` is the ID that the store gives a new session: 1 when 1 is
/// free, else one more than the smallest used ID whose successor is free.
pub open spec fn is_next_session_id(ids: Seq<i64>, r: i64) -> bool {
    if !ids.contains(1) {
        r == 1
    } else {
        &&& exists|k: int| 0 <= k < ids.len() && ids[k] + 1 == r
        &&& !ids.contains(r)
        &&& forall|k: int|
            0 <= k < ids.len() && successor_free(ids, ids[k] as int) ==> r <= #[trigger] ids[k] + 1
    }
}

/// Whether no ID in use is one more than `c`.
pub open spec fn successor_free(ids: Seq<i64>, c: int) -> bool {
    forall|j: int| 0 <= j < ids.len() ==> ids[j] != c + 1
}

proof fn lemma_max_exists(ids: Seq<i64>) -> (m: int)
    requires
        ids.len() > 0,
    ensures
        0 <= m < ids.len(),
        forall|k: int| 0 <= k < ids.len() ==> ids[k] <= ids[m],
    decreases ids.len(),
{
    if ids.len() == 1 {
        0
    } else {
        let m0 = lemma_max_exists(ids.drop_last());
        assert(forall|k: int| 0 <= k < ids.len() - 1 ==> ids[k] == ids.drop_last()[k]);
        if ids.last() > ids[m0] {
            (ids.len() - 1) as int
        } else {
            m0
        }
    }
}

/// The ID for a new session, given the IDs in use: 1 when 1 is free, else
/// one more than the smallest used ID whose successor is free.
pub fn next_session_id(ids: &Vec<i64>) -> (r: i64)
    requires
        forall|k: int| 0 <= k < ids@.len() ==> ids@[k] < i64::MAX,
    ensures
        is_next_session_id(ids@, r),
{
    if !contains_id(ids, 1) {
        return 1;
    }
    let ghost m = lemma_max_exists(ids@);
    let mut best: Option<i64> = None;
    let mut i: usize = 0;
    while i < ids.len()
        invariant
            i <= ids.len(),
            forall|k: int| 0 <= k < ids@.len() ==> ids@[k] < i64::MAX,
            ids@.contains(1),
            0 <= m < ids@.len(),
            forall|k: int| 0 <= k < ids@.len() ==> ids@[k] <= ids@[m],
            match best {
                Some(b) => {
                    &&& ids@.contains(b)
                    &&& b < i64::MAX
                    &&& successor_free(ids@, b as int)
                    &&& forall|k: int|
                        0 <= k < i && successor_free(ids@, ids@[k] as int) ==> b <= #[trigger] ids@[k]
                },
                None => forall|k: int| 0 <= k < i ==> !successor_free(ids@, #[trigger] ids@[k] as int),
            },
        decreases ids.len() - i,
    {
        let c = ids[i];
        let taken = contains_id(ids, c + 1);
        proof {
            if taken {
                let j = choose|j: int| 0 <= j < ids@.len() && ids@[j] == c + 1;
                assert(!successor_free(ids@, c as int));
            }
        }
        if !taken {
            match best {
                Some(b) => {
                    if c < b {
                        best = Some(c);
                    }
                },
                None => {
                    best = Some(c);
                },
            }
        }
        i = i + 1;
    }
    match best {
        Some(b) => {
            proof {
                let kb = choose|k: int| 0 <= k < ids@.len() && ids@[k] == b;
                assert(ids@[kb] + 1 == b + 1);
                if ids@.contains((b + 1) as i64) {
                    let j = choose|j: int| 0 <= j < ids@.len() && ids@[j] == (b + 1) as i64;
                    assert(ids@[j] != b + 1);
                }
            }
            b + 1
        },
        None => {
            proof {
                assert(!successor_free(ids@, ids@[m] as int));
            }
            1
        },
    }
}

/// The ID that the store gives a new session fills the first gap: when every
/// ID in use is positive, it is the least positive integer not in use.
pub proof fn law_next_session_id_fills_first_gap(ids: Seq<i64>, r: i64)
    requires
        forall|k: int| 0 <= k < ids.len() ==> ids[k] >= 1,
        is_next_session_id(ids, r),
    ensures
        r >= 1,
        !ids.contains(r),
        forall|n: i64| 1 <= n < r ==> ids.contains(n),
{
    if ids.contains(1) {
        let j = choose|j: int| 0 <= j < ids.len() && ids[j] + 1 == r;
        assert(ids[j] >= 1);
    }
    assert forall|n: i64| 1 <= n < r implies ids.contains(n) by {
        lemma_no_gap_below(ids, r, n);
    }
}

proof fn lemma_no_gap_below(ids: Seq<i64>, r: i64, n: i64)
    requires
        forall|k: int| 0 <= k < ids.len() ==> ids[k] >= 1,
        is_next_session_id(ids, r),
        1 <= n < r,
    ensures
        ids.contains(n),
    decreases n,
{
    if !ids.contains(n) {
        if n == 1 {
            assert(!ids.contains(1));
        } else {
            lemma_no_gap_below(ids, r, (n - 1) as i64);
            let k = choose|k: int| 0 <= k < ids.len() && ids[k] == (n - 1) as i64;
            assert(successor_free(ids, ids[k] as int));
            assert(r <= ids[k] + 1);
        }
    }
}

/// What importing an alias does, given the saved alias of the same name.
#[derive(Debug, Clone, Copy, PartialEq, Eq, Structural)]
pub enum ImportDecision {
    /// No alias has the name: the imported one is saved.
    Insert,
    /// The saved alias has the same directory and arguments: nothing changes.
    Unchanged,
    /// The saved alias differs: the import is refused.
    Conflict,
}

fn strings_equal(a: &Vec<String>, b: &Vec<String>) -> (r: bool)
    ensures
        r == (string_views(a@) == string_views(b@)),
{
    if a.len() != b.len() {
        assert(string_views(a@).len() != string_views(b@).len());
        return false;
    }
    let mut i: usize = 0;
    while i < a.len()
        invariant
            a.len() == b.len(),
            i <= a.len(),
            forall|k: int| 0 <= k < i ==> a@[k]@ == b@[k]@,
        decreases a.len() - i,
    {
        if !str_eq(a[i].as_str(), b[i].as_str()) {
            assert(string_views(a@)[i as int] != string_views(b@)[i as int]);
            return false;
        }
        i = i + 1;
    }
    assert(string_views(a@) =~= string_views(b@));
    true
}

/// What importing an alias with this directory and these arguments does, given
/// the directory and arguments saved under its name, if any: an insert when
/// nothing is saved; nothing when the same directory and arguments are saved;
/// a conflict otherwise.
pub open spec fn import_decision_spec(
    existing: Option<(Seq<char>, Seq<Seq<char>>)>,
    directory: Seq<char>,
    args: Seq<Seq<char>>,
) -> ImportDecision {
    match existing {
        None => ImportDecision::Insert,
        Some(e) => if same_directory(e.0, directory) && e.1 == args {
            ImportDecision::Unchanged
        } else {
            ImportDecision::Conflict
        },
    }
}

/// The directory and arguments of a saved alias, as an import compares them.
pub open spec fn saved_entry(e: SavedSession) -> (Seq<char>, Seq<Seq<char>>) {
    (e.directory@, string_views(e.opencode_args@))
}

/// What importing `alias` does when `existing` is the saved alias of its
/// name, if any.
pub fn import_decision(existing: Option<&SavedSession>, alias: &NewSessionAlias) -> (r: ImportDecision)
    ensures
        r == import_decision_spec(
            match existing {
                None => None,
                Some(e) => Some(saved_entry(*e)),
            },
            alias.directory@,
            string_views(alias.opencode_args@),
        ),
{
    match existing {
        None => ImportDecision::Insert,
        Some(e) => {
            let same = is_same_directory(e.directory.as_str(), alias.directory.as_str());
            if same && strings_equal(&e.opencode_args, &alias.opencode_args) {
                ImportDecision::Unchanged
            } else {
                ImportDecision::Conflict
            }
        },
    }
}

} // verus!
