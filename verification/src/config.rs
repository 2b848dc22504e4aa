//! Configuration data and the well-known per-installation paths.
//!
//! Path lookups that depend on the environment (the home directory)
//! take it as a plain value, so every derived path is a pure function
//! of it.

use vstd::prelude::*;
use crate::strutil::{concat_str, copy_str, starts_with, substr};
use vstd::string::StrSliceExecFns;

verus! {

/// How the daemon resolves a conflicting target path.
#[derive(Clone, Copy, PartialEq, Eq, Structural, Debug)]
pub enum ConflictResolution {
    Backup,
    Skip,
    Overwrite,
}

/// The daemon's auto-sync settings.
#[derive(Clone, Debug)]
pub struct AutoSyncConfig {
    pub enabled: bool,
    pub auto_link_new_packages: bool,
    pub auto_git_pull: bool,
    pub conflict_resolution: ConflictResolution,
    pub debounce_ms: u64,
}

/// The default of the boolean settings.
pub fn default_true() -> (r: bool)
    ensures
        r,
{
    true
}

/// The default debounce window, in milliseconds.
pub fn default_debounce_ms() -> (r: u64)
    ensures
        r == 1000,
{
    1000
}

impl Default for AutoSyncConfig {
    /// Auto-sync defaults: everything enabled, backup on conflict, a
    /// one-second debounce window.
    fn default() -> (c: AutoSyncConfig)
        ensures
            c.enabled,
            c.auto_link_new_packages,
            c.auto_git_pull,
            c.conflict_resolution == ConflictResolution::Backup,
            c.debounce_ms == 1000,
    {
        AutoSyncConfig {
            enabled: true,
            auto_link_new_packages: true,
            auto_git_pull: true,
            conflict_resolution: ConflictResolution::Backup,
            debounce_ms: 1000,
        }
    }
}

/// The configuration: the two watched roots and the sync settings.
#[derive(Clone, Debug)]
pub struct Config {
    pub stow_dir: String,
    pub target_dir: String,
    pub packages: Vec<String>,
    pub secrets_enabled: bool,
    pub auto_sync: AutoSyncConfig,
}

impl Config {
    /// The default configuration for a given home directory: packages
    /// under `~/.dotfiles`, linked into the home directory itself.
    pub fn default_for_home(home: &str) -> (c: Config)
        ensures
            c.stow_dir@ == home@ + "/.dotfiles"@,
            c.target_dir@ == home@,
            c.packages@.len() == 0,
            c.secrets_enabled,
            c.auto_sync.enabled,
            c.auto_sync.auto_link_new_packages,
            c.auto_sync.auto_git_pull,
            c.auto_sync.conflict_resolution == ConflictResolution::Backup,
            c.auto_sync.debounce_ms == 1000,
    {
        Config {
            stow_dir: concat_str(copy_str(home), "/.dotfiles"),
            target_dir: copy_str(home),
            packages: Vec::new(),
            secrets_enabled: true,
            auto_sync: AutoSyncConfig::default(),
        }
    }
}

/// The configuration directory under a home directory.
pub fn config_dir(home: &str) -> (r: String)
    ensures
        r@ == home@ + "/.config/slinky"@,
{
    concat_str(copy_str(home), "/.config/slinky")
}

/// The configuration file's path under a home directory.
pub fn config_path(home: &str) -> (r: String)
    ensures
        r@ == home@ + "/.config/slinky"@ + "/config.toml"@,
{
    concat_str(config_dir(home), "/config.toml")
}

/// The daemon's PID marker file.
pub fn daemon_pid_path(home: &str) -> (r: String)
    ensures
        r@ == home@ + "/.config/slinky"@ + "/daemon.pid"@,
{
    concat_str(config_dir(home), "/daemon.pid")
}

/// The daemon's log file.
pub fn daemon_log_path(home: &str) -> (r: String)
    ensures
        r@ == home@ + "/.config/slinky"@ + "/daemon.log"@,
{
    concat_str(config_dir(home), "/daemon.log")
}

/// The directories under a home directory where a dotfiles tree is
/// looked for, in probing order.
pub fn stow_dir_candidates(home: &str) -> (r: Vec<String>)
    ensures
        r@.len() == 5,
        r@[0]@ == home@ + "/.dotfiles"@,
        r@[1]@ == home@ + "/dotfiles"@,
        r@[2]@ == home@ + "/.config/dotfiles"@,
        r@[3]@ == home@ + "/code/dotfiles"@,
        r@[4]@ == home@ + "/projects/dotfiles"@,
{
    let mut v: Vec<String> = Vec::new();
    v.push(concat_str(copy_str(home), "/.dotfiles"));
    v.push(concat_str(copy_str(home), "/dotfiles"));
    v.push(concat_str(copy_str(home), "/.config/dotfiles"));
    v.push(concat_str(copy_str(home), "/code/dotfiles"));
    v.push(concat_str(copy_str(home), "/projects/dotfiles"));
    v
}

/// `path` with a leading `~/` replaced by the home directory, when one
/// is known.
pub open spec fn expand_tilde_spec(path: Seq<char>, home: Option<Seq<char>>) -> Seq<char> {
    if "~/"@.is_prefix_of(path) && home is Some {
        home.unwrap() + "/"@ + path.skip(2)
    } else {
        path
    }
}

/// Expand a leading `~/` to the home directory.
pub fn expand_tilde(path: &str, home: Option<&String>) -> (r: String)
    ensures
        r@ == expand_tilde_spec(
            path@,
            match home {
                Some(h) => Some(h@),
                None => None,
            },
        ),
{
    if starts_with(path, "~/") {
        match home {
            Some(h) => {
                proof {
                    reveal_strlit("~/");
                }
                let n = path.unicode_len();
                let rest = substr(path, 2, n);
                concat_str(concat_str(copy_str(h.as_str()), "/"), rest.as_str())
            }
            None => copy_str(path),
        }
    } else {
        copy_str(path)
    }
}

} // verus!
