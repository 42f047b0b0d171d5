//! The path queries that the library asks of std, with their results named,
//! and joining paths as std's `Path::join` does on Unix.
use vstd::prelude::*;

use crate::text::{append_str, chars_of, copy_str, str_eq};

verus! {

/// The final component of a path, as std's `Path::file_name` gives it.
pub uninterp spec fn path_file_name_spec(path: Seq<char>) -> Option<Seq<char>>;

/// The path without its final component, as std's `Path::parent` gives it.
pub uninterp spec fn path_parent_spec(path: Seq<char>) -> Option<Seq<char>>;

/// Whether two paths are equal as std's `Path` compares them (component by
/// component).
pub uninterp spec fn path_eq_spec(a: Seq<char>, b: Seq<char>) -> bool;

/// Calls std's `Path::file_name` on `path`; the result is the name above
/// applied to `path`. What the final component is (how separators, `.` and
/// `..` are treated) is left to std and not stated.
#[verifier::external_body]
pub fn path_file_name(path: &str) -> (r: Option<String>)
    ensures
        match r {
            Some(s) => path_file_name_spec(path@) == Some(s@),
            None => path_file_name_spec(path@).is_none(),
        },
{
    std::path::Path::new(path).file_name().and_then(|name| name.to_str()).map(String::from)
}

/// Calls std's `Path::parent` on `path`; the result is the name above applied
/// to `path`. Which prefix std takes for the parent is not stated.
#[verifier::external_body]
pub fn path_parent(path: &str) -> (r: Option<String>)
    ensures
        match r {
            Some(s) => path_parent_spec(path@) == Some(s@),
            None => path_parent_spec(path@).is_none(),
        },
{
    std::path::Path::new(path).parent().map(|parent| parent.display().to_string())
}

/// Compares two paths with std's `Path` equality; the result is the name above
/// applied to both. Since `Path` equality is an equivalence (`Path` implements
/// `Eq`), equal texts give equal paths and the order of the two does not
/// matter; when other texts compare equal is not stated.
#[verifier::external_body]
pub fn path_eq(a: &str, b: &str) -> (r: bool)
    ensures
        r == path_eq_spec(a@, b@),
        r == path_eq_spec(b@, a@),
        a@ == b@ ==> r,
{
    std::path::Path::new(a) == std::path::Path::new(b)
}

/// Whether two paths name the same directory: the same text, or the same path
/// as std's `Path` compares them.
pub open spec fn same_directory(a: Seq<char>, b: Seq<char>) -> bool {
    a == b || path_eq_spec(a, b)
}

/// Whether two paths name the same directory. The answer does not depend on
/// the order of the two, and equal texts always do.
pub fn is_same_directory(a: &str, b: &str) -> (r: bool)
    ensures
        r == same_directory(a@, b@),
        r == same_directory(b@, a@),
{
    str_eq(a, b) || path_eq(a, b)
}

/// Whether a path is absolute on Unix: it begins at the root.
pub open spec fn is_absolute_spec(path: Seq<char>) -> bool {
    path.len() > 0 && path[0] == '/'
}

/// `rest` joined onto `base` as std's `Path::join` does on Unix: an absolute
/// `rest` replaces `base`; otherwise a separator is put between them unless
/// `base` is empty or already ends with one.
pub open spec fn path_join_spec(base: Seq<char>, rest: Seq<char>) -> Seq<char> {
    if is_absolute_spec(rest) {
        rest
    } else if base.len() > 0 && base.last() != '/' {
        base + "/"@ + rest
    } else {
        base + rest
    }
}

/// Whether `path` is absolute.
pub fn is_absolute(path: &str) -> (r: bool)
    ensures
        r == is_absolute_spec(path@),
{
    let cs = chars_of(path);
    cs.len() > 0 && cs[0] == '/'
}

/// `rest` joined onto `base`.
pub fn path_join(base: &str, rest: &str) -> (r: String)
    ensures
        r@ == path_join_spec(base@, rest@),
{
    if is_absolute(rest) {
        return copy_str(rest);
    }
    let cs = chars_of(base);
    let mut out = copy_str(base);
    if cs.len() > 0 && cs[cs.len() - 1] != '/' {
        append_str(&mut out, "/");
    }
    append_str(&mut out, rest);
    proof {
        reveal_strlit("/");
    }
    out
}

} // verus!
