//! Where the tool keeps its files and how it names its tmux sessions: each
//! setting from its environment variable when set, else a default under the
//! home directory.
use vstd::prelude::*;

use crate::paths::{path_join, path_join_spec};
use crate::text::{append_str, concat2, copy_str};

verus! {

/// The settings that the tool runs with.
#[derive(Debug, Clone, PartialEq, Eq)]
pub struct RuntimeConfig {
    legacy_aliases_path: String,
    session_db_path: String,
    tmux_prefix: String,
    opencode_db_path: String,
}

/// Why the settings could not be resolved.
#[derive(Debug, Clone, Copy, PartialEq, Eq, Structural)]
pub enum ConfigError {
    /// `HOME` is not set.
    HomeNotSet,
}

impl ConfigError {
    /// The error's message.
    pub fn message(&self) -> (m: String)
        ensures
            m@ == "HOME must be set so oc can resolve default paths"@,
    {
        copy_str("HOME must be set so oc can resolve default paths")
    }
}

/// The default of the legacy alias file, under the home directory.
pub open spec fn default_legacy_aliases_path() -> Seq<char> {
    ".config/oc/aliases"@
}

/// The default of the session database, under the home directory.
pub open spec fn default_session_db_path() -> Seq<char> {
    ".config/oc/oc.db"@
}

/// The default of the OpenCode database, under the home directory.
pub open spec fn default_opencode_db_path() -> Seq<char> {
    ".local/share/opencode/opencode.db"@
}

/// The default prefix of the tmux sessions that the tool manages.
pub open spec fn default_tmux_prefix() -> Seq<char> {
    "oc-"@
}

/// A setting from its variable when set, else its default under `home`.
pub open spec fn setting_or_default(
    value: Option<String>,
    home: Seq<char>,
    default: Seq<char>,
) -> Seq<char> {
    match value {
        Some(v) => v@,
        None => path_join_spec(home, default),
    }
}

fn resolve_path(value: Option<String>, home: &str, default: &str) -> (r: String)
    ensures
        r@ == setting_or_default(value, home@, default@),
{
    match value {
        Some(v) => v,
        None => path_join(home, default),
    }
}

impl RuntimeConfig {
    /// The legacy alias file.
    pub closed spec fn legacy_aliases(self) -> Seq<char> {
        self.legacy_aliases_path@
    }

    /// The session database.
    pub closed spec fn session_db(self) -> Seq<char> {
        self.session_db_path@
    }

    /// The tmux session prefix.
    pub closed spec fn prefix(self) -> Seq<char> {
        self.tmux_prefix@
    }

    /// The OpenCode database.
    pub closed spec fn opencode_db(self) -> Seq<char> {
        self.opencode_db_path@
    }

    /// The settings from the environment's values: `HOME`,
    /// `OC_LEGACY_ALIASES_FILE`, `OC_ALIASES_FILE`, `OC_TMUX_PREFIX` and
    /// `OC_OPENCODE_DB`. `HOME` must be set, even when every path is given.
    pub fn from_environment(
        home: Option<String>,
        legacy_aliases_file: Option<String>,
        aliases_file: Option<String>,
        tmux_prefix: Option<String>,
        opencode_db: Option<String>,
    ) -> (r: Result<Self, ConfigError>)
        ensures
            home.is_none() <==> r is Err,
            match (r, home) {
                (Ok(c), Some(h)) => {
                    &&& c.legacy_aliases() == setting_or_default(
                        legacy_aliases_file,
                        h@,
                        default_legacy_aliases_path(),
                    )
                    &&& c.session_db() == setting_or_default(
                        aliases_file,
                        h@,
                        default_session_db_path(),
                    )
                    &&& c.prefix() == match tmux_prefix {
                        Some(p) => p@,
                        None => default_tmux_prefix(),
                    }
                    &&& c.opencode_db() == setting_or_default(
                        opencode_db,
                        h@,
                        default_opencode_db_path(),
                    )
                },
                _ => true,
            },
    {
        let home = match home {
            Some(h) => h,
            None => return Err(ConfigError::HomeNotSet),
        };
        proof {
            reveal_strlit(".config/oc/aliases");
            reveal_strlit(".config/oc/oc.db");
            reveal_strlit(".local/share/opencode/opencode.db");
            reveal_strlit("oc-");
        }
        let legacy_aliases_path = resolve_path(
            legacy_aliases_file,
            home.as_str(),
            ".config/oc/aliases",
        );
        let session_db_path = resolve_path(aliases_file, home.as_str(), ".config/oc/oc.db");
        let opencode_db_path = resolve_path(
            opencode_db,
            home.as_str(),
            ".local/share/opencode/opencode.db",
        );
        let tmux_prefix = match tmux_prefix {
            Some(p) => p,
            None => copy_str("oc-"),
        };
        Ok(RuntimeConfig { legacy_aliases_path, session_db_path, tmux_prefix, opencode_db_path })
    }

    /// The legacy alias file.
    pub fn legacy_aliases_path(&self) -> (r: &str)
        ensures
            r@ == self.legacy_aliases(),
    {
        self.legacy_aliases_path.as_str()
    }

    /// The session database.
    pub fn session_db_path(&self) -> (r: &str)
        ensures
            r@ == self.session_db(),
    {
        self.session_db_path.as_str()
    }

    /// The prefix of the tmux sessions that the tool manages.
    pub fn tmux_prefix(&self) -> (r: &str)
        ensures
            r@ == self.prefix(),
    {
        self.tmux_prefix.as_str()
    }

    /// The OpenCode database.
    pub fn opencode_db_path(&self) -> (r: &str)
        ensures
            r@ == self.opencode_db(),
    {
        self.opencode_db_path.as_str()
    }

    /// The lines that the runtime-config dump prints, one `key=value` per
    /// setting; the session database keeps its historical key `aliases_file`.
    pub fn debug_dump_lines(&self) -> (r: Vec<String>)
        ensures
            r@.len() == 4,
            r@[0]@ == "legacy_aliases_file="@ + self.legacy_aliases(),
            r@[1]@ == "aliases_file="@ + self.session_db(),
            r@[2]@ == "tmux_prefix="@ + self.prefix(),
            r@[3]@ == "opencode_db="@ + self.opencode_db(),
    {
        let mut r: Vec<String> = Vec::new();
        r.push(concat2("legacy_aliases_file=", self.legacy_aliases_path.as_str()));
        r.push(concat2("aliases_file=", self.session_db_path.as_str()));
        r.push(concat2("tmux_prefix=", self.tmux_prefix.as_str()));
        r.push(concat2("opencode_db=", self.opencode_db_path.as_str()));
        r
    }
}

} // verus!
