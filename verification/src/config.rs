//! The shape of `$XDG_CONFIG_HOME/obayebar/config.toml`, and what each value
//! falls back to. Reading and parsing the file is the caller's; this module
//! describes what the file may say.
use vstd::prelude::*;
use crate::path::{expand_tilde, expand_tilde_spec, join, join_str, opt_view};
use crate::xdg::{config_dir, resolve_spec};
use crate::text::owned;

verus! {

/// Default wallpaper directory.
pub const DEFAULT_WALLPAPER_DIR: &'static str = "~/Images/wallpapers/enabled";

/// Default rotation interval.
pub const DEFAULT_INTERVAL: &'static str = "30m";

/// Default base config for the lock screen: the user's own file, never a
/// vendored template.
pub const DEFAULT_HYPRLOCK_CONF: &'static str = "~/.config/hypr/hyprlock.conf";

/// Blur passes of the lock screen's backgrounds when the file names none.
pub const DEFAULT_BLUR_PASSES: u32 = 1;

/// Blur size of the lock screen's backgrounds when the file names none.
pub const DEFAULT_BLUR_SIZE: u32 = 3;

/// The whole file. Every section is optional.
#[derive(Debug, Clone, PartialEq, Eq)]
pub struct Config {
    pub gitlab: GitlabConfig,
    pub wallpaper: WallpaperConfig,
    pub lock: LockConfig,
}

#[derive(Debug, Clone, PartialEq, Eq)]
pub struct GitlabConfig {
    pub enable: bool,
    pub url: Option<String>,
}

#[derive(Debug, Clone, PartialEq, Eq)]
pub struct WallpaperConfig {
    pub enable: bool,
    /// Where to look for images. `~` is expanded.
    pub directory: Option<String>,
    /// How often to rotate: `"30m"`, `"2h"`, or `"off"`.
    pub interval: Option<String>,
}

#[derive(Debug, Clone, PartialEq, Eq)]
pub struct LockConfig {
    pub enable: bool,
    /// Base hyprlock config to extend. `~` is expanded.
    pub config: Option<String>,
    /// Blur applied to the generated per-monitor backgrounds.
    pub blur_passes: Option<u32>,
    pub blur_size: Option<u32>,
}

/// Blur of the lock screen's backgrounds.
#[derive(Debug, Clone, Copy, PartialEq, Eq, Structural)]
pub struct Blur {
    pub passes: u32,
    pub size: u32,
}

impl Default for Blur {
    fn default() -> (b: Blur)
        ensures
            b == (Blur { passes: DEFAULT_BLUR_PASSES, size: DEFAULT_BLUR_SIZE }),
    {
        Blur { passes: DEFAULT_BLUR_PASSES, size: DEFAULT_BLUR_SIZE }
    }
}

impl Default for GitlabConfig {
    fn default() -> (c: GitlabConfig)
        ensures
            !c.enable && c.url is None,
    {
        GitlabConfig { enable: false, url: None }
    }
}

impl Default for WallpaperConfig {
    fn default() -> (c: WallpaperConfig)
        ensures
            !c.enable && c.directory is None && c.interval is None,
    {
        WallpaperConfig { enable: false, directory: None, interval: None }
    }
}

impl Default for LockConfig {
    fn default() -> (c: LockConfig)
        ensures
            !c.enable && c.config is None && c.blur_passes is None && c.blur_size is None,
    {
        LockConfig { enable: false, config: None, blur_passes: None, blur_size: None }
    }
}

impl Default for Config {
    fn default() -> (c: Config)
        ensures
            !c.gitlab.enable && c.gitlab.url is None,
            !c.wallpaper.enable && c.wallpaper.directory is None && c.wallpaper.interval is None,
            !c.lock.enable && c.lock.config is None && c.lock.blur_passes is None
                && c.lock.blur_size is None,
    {
        Config {
            gitlab: GitlabConfig::default(),
            wallpaper: WallpaperConfig::default(),
            lock: LockConfig::default(),
        }
    }
}

/// The configured value, or the default.
pub open spec fn or_default(o: Option<String>, default: Seq<char>) -> Seq<char> {
    match o {
        Some(s) => s@,
        None => default,
    }
}

impl WallpaperConfig {
    /// The configured directory, tilde-expanded against `home`, or the
    /// default.
    pub fn directory(&self, home: Option<&str>) -> (d: String)
        ensures
            d@ == expand_tilde_spec(or_default(self.directory, DEFAULT_WALLPAPER_DIR@), opt_view(home)),
    {
        match &self.directory {
            Some(d) => expand_tilde(d.as_str(), home),
            None => expand_tilde(DEFAULT_WALLPAPER_DIR, home),
        }
    }

    /// The configured interval string, or the default.
    pub fn interval(&self) -> (i: &str)
        ensures
            i@ == or_default(self.interval, DEFAULT_INTERVAL@),
    {
        match &self.interval {
            Some(i) => i.as_str(),
            None => DEFAULT_INTERVAL,
        }
    }
}

impl LockConfig {
    /// The base hyprlock config path, tilde-expanded against `home`, or the
    /// default.
    pub fn config_path(&self, home: Option<&str>) -> (p: String)
        ensures
            p@ == expand_tilde_spec(or_default(self.config, DEFAULT_HYPRLOCK_CONF@), opt_view(home)),
    {
        match &self.config {
            Some(c) => expand_tilde(c.as_str(), home),
            None => expand_tilde(DEFAULT_HYPRLOCK_CONF, home),
        }
    }

    /// Blur settings for the generated backgrounds: each value the file
    /// names, the default for the other.
    pub fn blur(&self) -> (b: Blur)
        ensures
            b.passes == match self.blur_passes {
                Some(p) => p,
                None => DEFAULT_BLUR_PASSES,
            },
            b.size == match self.blur_size {
                Some(s) => s,
                None => DEFAULT_BLUR_SIZE,
            },
    {
        let default = Blur::default();
        Blur {
            passes: match self.blur_passes {
                Some(p) => p,
                None => default.passes,
            },
            size: match self.blur_size {
                Some(s) => s,
                None => default.size,
            },
        }
    }
}

/// Path to the config file, or `None` when no config directory can be
/// determined from `$XDG_CONFIG_HOME` and `$HOME`.
pub fn config_file_path(xdg_config_home: Option<&str>, home: Option<&str>) -> (p: Option<String>)
    ensures
        match p {
            Some(p) => resolve_spec(opt_view(xdg_config_home), opt_view(home), ".config"@) matches Some(
                d,
            ) && p@ == join(d, "config.toml"@),
            None => resolve_spec(opt_view(xdg_config_home), opt_view(home), ".config"@) is None,
        },
{
    match config_dir(xdg_config_home, home) {
        Some(d) => Some(join_str(d.as_str(), "config.toml")),
        None => None,
    }
}

} // verus!
