//! Where Mula keeps its files, from what the environment says: the
//! configuration under `$XDG_CONFIG_HOME`, and the favorites and the log
//! under `$XDG_STATE_HOME`, each falling back to the directory under `$HOME`
//! that the platform keeps such files in. An empty variable counts as unset.

use vstd::prelude::*;

use crate::text::{chars_of, push_str, string_of};

verus! {

/// `base` with `part` joined on behind a separator, as `PathBuf::push` joins
/// a relative part onto a path that is not empty.
pub open spec fn joined_spec(base: Seq<char>, part: Seq<char>) -> Seq<char> {
    if base.len() > 0 && base.last() == '/' { base + part } else { base + "/"@ + part }
}

/// A variable's value, unless it is unset or empty.
pub open spec fn set_value(v: Option<Seq<char>>) -> Option<Seq<char>> {
    match v {
        Some(s) => if s.len() > 0 { Some(s) } else { None },
        None => None,
    }
}

/// The value of an optional string, for the contracts.
pub open spec fn opt_view(v: Option<String>) -> Option<Seq<char>> {
    match v {
        Some(s) => Some(s@),
        None => None,
    }
}

/// `base` joined with `part`.
pub fn joined(base: &str, part: &str) -> (p: String)
    requires
        base@.len() > 0,
    ensures
        p@ == joined_spec(base@, part@),
{
    let mut out = chars_of(base);
    if out[out.len() - 1] != '/' {
        push_str(&mut out, "/");
    }
    push_str(&mut out, part);
    string_of(out.as_slice())
}

/// The value of `v` when it is set and not empty.
fn nonempty(v: &Option<String>) -> (s: Option<&String>)
    ensures
        match s {
            Some(x) => set_value(opt_view(*v)) == Some(x@),
            None => set_value(opt_view(*v)) is None,
        },
{
    match v {
        Some(s) => if chars_of(s.as_str()).len() > 0 { Some(s) } else { None },
        None => None,
    }
}

/// Where the configuration is read from: `$XDG_CONFIG_HOME/mula/config.toml`,
/// else `$HOME/.config/mula/config.toml`, and nowhere without a home.
pub open spec fn config_file_spec(xdg_config: Option<Seq<char>>, home: Option<Seq<char>>) -> Option<Seq<char>> {
    let dir = match set_value(xdg_config) {
        Some(d) => Some(d),
        None => match set_value(home) {
            Some(h) => Some(joined_spec(h, ".config"@)),
            None => None,
        },
    };
    match dir {
        Some(d) => Some(joined_spec(joined_spec(d, "mula"@), "config.toml"@)),
        None => None,
    }
}

pub fn config_file(xdg_config: &Option<String>, home: &Option<String>) -> (p: Option<String>)
    ensures
        opt_view(p) == config_file_spec(opt_view(*xdg_config), opt_view(*home)),
{
    proof {
        reveal_strlit(".config");
        reveal_strlit("mula");
    }
    let dir = match nonempty(xdg_config) {
        Some(d) => string_of(chars_of(d.as_str()).as_slice()),
        None => match nonempty(home) {
            Some(h) => joined(h.as_str(), ".config"),
            None => {
                return None;
            },
        },
    };
    let mula = joined(dir.as_str(), "mula");
    Some(joined(mula.as_str(), "config.toml"))
}

/// The directory state is kept in: `$XDG_STATE_HOME`, else the platform's
/// own under `$HOME`, and nowhere without a home.
pub open spec fn state_dir_spec(xdg_state: Option<Seq<char>>, home: Option<Seq<char>>, macos: bool) -> Option<Seq<char>> {
    match set_value(xdg_state) {
        Some(d) => Some(d),
        None => match set_value(home) {
            Some(h) => Some(joined_spec(h, if macos { "Library/Application Support"@ } else { ".local/state"@ })),
            None => None,
        },
    }
}

/// Where the favorites are kept: `mula/favorites.toml` under the state
/// directory. A file of its own rather than a table in the configuration,
/// since rewriting a file someone edits by hand would cost them their
/// comments.
pub fn favorites_file(xdg_state: &Option<String>, home: &Option<String>, macos: bool) -> (p: Option<String>)
    ensures
        opt_view(p) == match state_dir_spec(opt_view(*xdg_state), opt_view(*home), macos) {
            Some(d) => Some(joined_spec(joined_spec(d, "mula"@), "favorites.toml"@)),
            None => None,
        },
{
    proof {
        reveal_strlit("Library/Application Support");
        reveal_strlit(".local/state");
    }
    let dir = match nonempty(xdg_state) {
        Some(d) => string_of(chars_of(d.as_str()).as_slice()),
        None => match nonempty(home) {
            Some(h) => joined(h.as_str(), if macos { "Library/Application Support" } else { ".local/state" }),
            None => {
                return None;
            },
        },
    };
    let mula = joined(dir.as_str(), "mula");
    Some(joined(mula.as_str(), "favorites.toml"))
}

/// Where a log goes: `$XDG_STATE_HOME/mula`, or the directory the platform
/// keeps logs or state in under `$HOME`, and nowhere without a home.
pub open spec fn log_dir_spec(xdg_state: Option<Seq<char>>, home: Option<Seq<char>>, macos: bool) -> Option<Seq<char>> {
    match set_value(xdg_state) {
        Some(d) => Some(joined_spec(d, "mula"@)),
        None => match set_value(home) {
            Some(h) => Some(joined_spec(h, if macos { "Library/Logs/mula"@ } else { ".local/state/mula"@ })),
            None => None,
        },
    }
}

pub fn log_dir(xdg_state: &Option<String>, home: &Option<String>, macos: bool) -> (p: Option<String>)
    ensures
        opt_view(p) == log_dir_spec(opt_view(*xdg_state), opt_view(*home), macos),
{
    match nonempty(xdg_state) {
        Some(d) => Some(joined(d.as_str(), "mula")),
        None => match nonempty(home) {
            Some(h) => Some(joined(h.as_str(), if macos { "Library/Logs/mula" } else { ".local/state/mula" })),
            None => None,
        },
    }
}

} // verus!
