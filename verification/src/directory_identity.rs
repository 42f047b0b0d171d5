//! How a session directory is written down and compared: `~` stands for the
//! home directory, and relative paths are taken from the current directory.
//! The home and current directories are handed in by the caller.
use vstd::prelude::*;

use crate::paths::{
    is_absolute, is_absolute_spec, is_same_directory, path_join, path_join_spec, same_directory,
};
use crate::text::{chars_of, copy_str, has_prefix, slice_string, str_eq};

verus! {

/// Why a directory could not be made absolute.
#[derive(Debug, Clone, Copy, PartialEq, Eq, Structural)]
pub enum DirectoryError {
    /// The path is relative and the current directory is unknown.
    CurrentDirectoryUnavailable,
}

impl DirectoryError {
    /// The error's message.
    pub fn message(&self) -> (m: String)
        ensures
            m@ == "failed to determine current working directory"@,
    {
        copy_str("failed to determine current working directory")
    }
}

/// The view of an optional string slice.
pub open spec fn opt_str_view(s: Option<&str>) -> Option<Seq<char>> {
    match s {
        Some(v) => Some(v@),
        None => None,
    }
}

/// `path` with a leading `~` replaced by the home directory: `~` alone is the
/// home directory and `~/rest` is `rest` joined onto it. Without a home
/// directory, or without a leading `~`, the path is unchanged.
pub open spec fn expand_home_spec(path: Seq<char>, home: Option<Seq<char>>) -> Seq<char> {
    if path == "~"@ {
        match home {
            Some(h) => h,
            None => path,
        }
    } else if has_prefix(path, "~/"@) {
        match home {
            Some(h) => path_join_spec(h, path.skip(2)),
            None => path,
        }
    } else {
        path
    }
}

/// The directory as it is stored: `~` expanded, and a relative path joined
/// onto the current directory; an error when that is needed and unknown.
pub open spec fn storage_directory_spec(
    path: Seq<char>,
    home: Option<Seq<char>>,
    current_directory: Option<Seq<char>>,
) -> Option<Seq<char>> {
    let expanded = expand_home_spec(path, home);
    if is_absolute_spec(expanded) {
        Some(expanded)
    } else {
        match current_directory {
            Some(c) => Some(path_join_spec(c, expanded)),
            None => None,
        }
    }
}

/// The directory as it is compared: as stored, or, when the current directory
/// is unknown, expanded and left relative.
pub open spec fn match_directory_spec(
    path: Seq<char>,
    home: Option<Seq<char>>,
    current_directory: Option<Seq<char>>,
) -> Seq<char> {
    match storage_directory_spec(path, home, current_directory) {
        Some(d) => d,
        None => expand_home_spec(path, home),
    }
}

/// Whether two directories are the same once both are normalized for
/// comparison: the same text, or the same path.
pub open spec fn directories_match_spec(
    left: Seq<char>,
    right: Seq<char>,
    home: Option<Seq<char>>,
    current_directory: Option<Seq<char>>,
) -> bool {
    same_directory(
        match_directory_spec(left, home, current_directory),
        match_directory_spec(right, home, current_directory),
    )
}

/// `path` with a leading `~` replaced by the home directory.
pub fn expand_home_directory(path: &str, home: Option<&str>) -> (r: String)
    ensures
        r@ == expand_home_spec(path@, opt_str_view(home)),
{
    proof {
        reveal_strlit("~");
        reveal_strlit("~/");
    }
    if str_eq(path, "~") {
        return match home {
            Some(h) => copy_str(h),
            None => copy_str(path),
        };
    }
    let cs = chars_of(path);
    if cs.len() >= 2 && cs[0] == '~' && cs[1] == '/' {
        assert(has_prefix(path@, "~/"@)) by {
            assert(path@.take(2) =~= "~/"@);
        }
        return match home {
            Some(h) => {
                let rest = slice_string(&cs, 2, cs.len());
                assert(rest@ =~= path@.skip(2));
                path_join(h, rest.as_str())
            },
            None => copy_str(path),
        };
    }
    assert(!has_prefix(path@, "~/"@)) by {
        if has_prefix(path@, "~/"@) {
            assert(path@.take(2)[0] == '~');
            assert(path@.take(2)[1] == '/');
        }
    }
    copy_str(path)
}

/// The directory as it is stored.
pub fn normalize_directory_for_storage(
    path: &str,
    home: Option<&str>,
    current_directory: Option<&str>,
) -> (r: Result<String, DirectoryError>)
    ensures
        match r {
            Ok(d) => storage_directory_spec(path@, opt_str_view(home), opt_str_view(current_directory))
                == Some(d@),
            Err(_) => storage_directory_spec(
                path@,
                opt_str_view(home),
                opt_str_view(current_directory),
            ).is_none(),
        },
{
    let expanded = expand_home_directory(path, home);
    if is_absolute(expanded.as_str()) {
        return Ok(expanded);
    }
    match current_directory {
        Some(c) => Ok(path_join(c, expanded.as_str())),
        None => Err(DirectoryError::CurrentDirectoryUnavailable),
    }
}

/// The directory as it is compared.
pub fn normalize_directory_for_match(
    path: &str,
    home: Option<&str>,
    current_directory: Option<&str>,
) -> (r: String)
    ensures
        r@ == match_directory_spec(path@, opt_str_view(home), opt_str_view(current_directory)),
{
    match normalize_directory_for_storage(path, home, current_directory) {
        Ok(d) => d,
        Err(_) => expand_home_directory(path, home),
    }
}

/// Whether two directories name the same place once normalized. The answer
/// does not depend on the order of the two, and directories with the same
/// normal form (a directory and itself among them) always match.
pub fn directories_match(
    left: &str,
    right: &str,
    home: Option<&str>,
    current_directory: Option<&str>,
) -> (r: bool)
    ensures
        r == directories_match_spec(
            left@,
            right@,
            opt_str_view(home),
            opt_str_view(current_directory),
        ),
        r == directories_match_spec(
            right@,
            left@,
            opt_str_view(home),
            opt_str_view(current_directory),
        ),
        match_directory_spec(left@, opt_str_view(home), opt_str_view(current_directory))
            == match_directory_spec(right@, opt_str_view(home), opt_str_view(current_directory)) ==> r,
        left@ == right@ ==> r,
{
    let l = normalize_directory_for_match(left, home, current_directory);
    let r = normalize_directory_for_match(right, home, current_directory);
    is_same_directory(l.as_str(), r.as_str())
}

/// Whether `path` is the home directory; never without a home directory.
pub fn is_home_directory(path: &str, home: Option<&str>, current_directory: Option<&str>) -> (r:
    bool)
    ensures
        r == match home {
            Some(h) => directories_match_spec(
                path@,
                h@,
                opt_str_view(home),
                opt_str_view(current_directory),
            ),
            None => false,
        },
{
    match home {
        Some(h) => directories_match(path, h, home, current_directory),
        None => false,
    }
}

} // verus!
