//! XDG base directories, anchored to the `obayebar` subdirectory.
//!
//! The environment is read by the caller and handed in, so each directory is
//! a function of the variables it depends on.
use vstd::prelude::*;
use crate::path::{join, join_str, opt_view};
use crate::text::chars_of;

verus! {

/// The subdirectory every obayebar path lives under.
pub const APP_DIR: &'static str = "obayebar";

/// `$<env_var>/obayebar` when that variable is set and non-empty, otherwise
/// `$HOME/<home_subpath>/obayebar`, otherwise nothing.
pub open spec fn resolve_spec(
    env_value: Option<Seq<char>>,
    home: Option<Seq<char>>,
    home_subpath: Seq<char>,
) -> Option<Seq<char>> {
    if env_value is Some && env_value->0.len() > 0 {
        Some(join(env_value->0, APP_DIR@))
    } else if home is Some {
        Some(join(join(home->0, home_subpath), APP_DIR@))
    } else {
        None
    }
}

/// The view of an optional owned string.
pub open spec fn opt_string_view(o: Option<String>) -> Option<Seq<char>> {
    match o {
        Some(s) => Some(s@),
        None => None,
    }
}

fn resolve(env_value: Option<&str>, home: Option<&str>, home_subpath: &str) -> (out: Option<
    String,
>)
    ensures
        opt_string_view(out) == resolve_spec(opt_view(env_value), opt_view(home), home_subpath@),
{
    if let Some(base) = env_value {
        let cs = chars_of(base);
        if cs.len() > 0 {
            return Some(join_str(base, APP_DIR));
        }
    }
    match home {
        Some(h) => {
            let first = join_str(h, home_subpath);
            Some(join_str(first.as_str(), APP_DIR))
        },
        None => None,
    }
}

/// `$XDG_CONFIG_HOME/obayebar` or `$HOME/.config/obayebar`.
pub fn config_dir(xdg_config_home: Option<&str>, home: Option<&str>) -> (out: Option<String>)
    ensures
        opt_string_view(out) == resolve_spec(
            opt_view(xdg_config_home),
            opt_view(home),
            ".config"@,
        ),
{
    resolve(xdg_config_home, home, ".config")
}

/// `$XDG_CACHE_HOME/obayebar` or `$HOME/.cache/obayebar`.
pub fn cache_dir(xdg_cache_home: Option<&str>, home: Option<&str>) -> (out: Option<String>)
    ensures
        opt_string_view(out) == resolve_spec(
            opt_view(xdg_cache_home),
            opt_view(home),
            ".cache"@,
        ),
{
    resolve(xdg_cache_home, home, ".cache")
}

/// `$XDG_DATA_HOME/obayebar` or `$HOME/.local/share/obayebar`.
pub fn data_dir(xdg_data_home: Option<&str>, home: Option<&str>) -> (out: Option<String>)
    ensures
        opt_string_view(out) == resolve_spec(
            opt_view(xdg_data_home),
            opt_view(home),
            ".local/share"@,
        ),
{
    resolve(xdg_data_home, home, ".local/share")
}

/// `$XDG_RUNTIME_DIR/obayebar`, or nothing when the variable is unset or
/// empty: there is deliberately no `$HOME` fallback for private files.
pub open spec fn runtime_dir_spec(xdg_runtime_dir: Option<Seq<char>>) -> Option<Seq<char>> {
    if xdg_runtime_dir is Some && xdg_runtime_dir->0.len() > 0 {
        Some(join(xdg_runtime_dir->0, APP_DIR@))
    } else {
        None
    }
}

/// Exec twin of [`runtime_dir_spec`].
pub fn runtime_dir(xdg_runtime_dir: Option<&str>) -> (out: Option<String>)
    ensures
        opt_string_view(out) == runtime_dir_spec(opt_view(xdg_runtime_dir)),
{
    if let Some(base) = xdg_runtime_dir {
        let cs = chars_of(base);
        if cs.len() > 0 {
            return Some(join_str(base, APP_DIR));
        }
    }
    None
}

} // verus!
