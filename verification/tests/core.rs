use obayebar::config::{Blur, Config, LockConfig, WallpaperConfig, config_file_path};
use obayebar::control::{BarCommand, Command, ControlError, socket_path, BAR_SOCKET};
use obayebar::hypr::{
    is_monitor_event, oriented_size, reject_empty, take_event_names, EventBatch, MonitorInfo,
};
use obayebar::path::{expand_tilde, file_name};
use obayebar::xdg::{cache_dir, config_dir, data_dir, runtime_dir};

// --- control ---

#[test]
fn bar_commands_round_trip_through_the_wire_form() {
    assert_eq!(
        BarCommand::parse(BarCommand::LauncherToggle.as_str()),
        Some(BarCommand::LauncherToggle)
    );
}

#[test]
fn control_unknown_commands_are_rejected_rather_than_guessed() {
    for bad in ["", "launcher", "LAUNCHER-TOGGLE", "launcher-toggle now"] {
        assert_eq!(BarCommand::parse(bad), None, "{bad:?}");
    }
}

#[test]
fn control_trailing_whitespace_is_tolerated() {
    assert_eq!(
        BarCommand::parse("launcher-toggle\n"),
        Some(BarCommand::LauncherToggle)
    );
}

#[test]
fn commands_round_trip_through_the_wire_form() {
    for cmd in [Command::Next, Command::Reload] {
        assert_eq!(Command::parse(cmd.as_str()), Some(cmd));
    }
}

#[test]
fn wallpaper_control_trailing_whitespace_is_tolerated() {
    assert_eq!(Command::parse("next\n"), Some(Command::Next));
    assert_eq!(Command::parse("  reload  \r\n"), Some(Command::Reload));
}

#[test]
fn wallpaper_control_unknown_commands_are_rejected_rather_than_guessed() {
    for bad in ["", "NEXT", "nex", "rotate", "next please"] {
        assert_eq!(Command::parse(bad), None, "{bad:?}");
    }
}

#[test]
fn the_socket_lives_in_the_runtime_dir_only() {
    assert_eq!(
        socket_path(BAR_SOCKET, Some("/run/user/1000")),
        Some("/run/user/1000/obayebar/bar.sock".to_string())
    );
    assert_eq!(socket_path(BAR_SOCKET, None), None);
    assert_eq!(socket_path(BAR_SOCKET, Some("")), None);
}

#[test]
fn control_errors_read_like_the_daemon_says_them() {
    assert_eq!(ControlError::NoRuntimeDir.message(), "XDG_RUNTIME_DIR is unset");
    assert_eq!(
        ControlError::io("sending the command", "broken pipe").message(),
        "sending the command: broken pipe"
    );
    assert_eq!(
        ControlError::AlreadyBound("/run/x.sock".to_string()).message(),
        "another process is already listening on /run/x.sock"
    );
}

// --- hypr ---

#[test]
fn even_transforms_keep_the_axes() {
    for t in [0, 2, 4, 6] {
        assert_eq!(oriented_size(2560, 1440, t), (2560, 1440), "{t}");
    }
}

#[test]
fn odd_transforms_swap_the_axes() {
    for t in [1, 3, 5, 7] {
        assert_eq!(oriented_size(2560, 1440, t), (1440, 2560), "{t}");
    }
}

fn monitor(name: &str, mirror_of: &str) -> MonitorInfo {
    MonitorInfo {
        name: name.to_string(),
        mirror_of: mirror_of.to_string(),
        ..MonitorInfo::default()
    }
}

#[test]
fn usable_excludes_disabled_and_mirrors() {
    let mut m = monitor("DP-1", "none");
    assert!(m.is_usable());
    m.disabled = true;
    assert!(!m.is_usable(), "a disabled output has nothing to draw on");
    m.disabled = false;
    m.mirror_of = "DP-2".to_string();
    assert!(!m.is_usable(), "a mirror shows its source's contents");
}

#[test]
fn absent_mirror_of_is_treated_as_not_mirroring() {
    let m = monitor("DP-1", "");
    assert!(m.is_usable());
}

#[test]
fn the_stable_key_prefers_the_description() {
    let mut m = monitor("DP-9", "none");
    assert_eq!(m.stable_key(), "DP-9");
    m.description = "Dell TBQ5L".to_string();
    assert_eq!(m.stable_key(), "Dell TBQ5L");
}

#[test]
fn empty_monitor_list_reads_as_unknown() {
    assert!(reject_empty(Vec::new()).is_none());
    assert_eq!(reject_empty(vec![MonitorInfo::default()]).map(|v| v.len()), Some(1));
}

#[test]
fn every_topology_event_is_a_monitor_event() {
    for name in [
        "monitoradded",
        "monitoraddedv2",
        "monitorremoved",
        "monitorremovedv2",
        "monitorlayoutchanged",
        "configreloaded",
    ] {
        assert!(is_monitor_event(name), "{name}");
    }
}

#[test]
fn window_noise_is_not_a_monitor_event() {
    for name in ["windowtitle", "activewindow", "workspace", "focusedmon", ""] {
        assert!(!is_monitor_event(name), "{name}");
    }
}

#[test]
fn whole_lines_yield_their_event_names() {
    let mut pending = Vec::new();
    let names = take_event_names(&mut pending, b"monitoradded>>DP-3\nworkspace>>2\n");
    assert_eq!(names, vec!["monitoradded", "workspace"]);
    assert_eq!(pending, Vec::<u8>::new());
}

#[test]
fn a_line_split_across_reads_is_not_lost() {
    let mut pending = Vec::new();
    assert_eq!(take_event_names(&mut pending, b"monitorad"), Vec::<String>::new());
    let names = take_event_names(&mut pending, b"dedv2>>1,DP-3,desc\n");
    assert_eq!(names, vec!["monitoraddedv2"]);
    assert!(EventBatch { names, closed: false }.has_monitor_event());
}

#[test]
fn a_line_without_a_payload_separator_is_dropped() {
    let mut pending = Vec::new();
    assert_eq!(take_event_names(&mut pending, b"garbage\n"), Vec::<String>::new());
}

#[test]
fn a_line_with_invalid_utf8_keeps_its_name() {
    let mut pending = Vec::new();
    let names = take_event_names(&mut pending, b"workspace>>\xff\xfe\n");
    assert_eq!(names, vec!["workspace"]);
}

// --- xdg and paths ---

#[test]
fn absolute_and_relative_paths_are_untouched() {
    assert_eq!(expand_tilde("/etc/x", Some("/home/me")), "/etc/x");
    assert_eq!(expand_tilde("a/b", Some("/home/me")), "a/b");
}

#[test]
fn leading_tilde_expands() {
    let expanded = expand_tilde("~/a/b", Some("/home/me"));
    assert!(!expanded.starts_with('~'));
    assert!(expanded.ends_with("a/b"));
    assert_eq!(expanded, "/home/me/a/b");
}

#[test]
fn tilde_inside_a_path_is_a_normal_character() {
    assert_eq!(expand_tilde("/tmp/~backup/x", Some("/home/me")), "/tmp/~backup/x");
}

#[test]
fn a_tilde_without_home_is_left_alone() {
    assert_eq!(expand_tilde("~/a", None), "~/a");
    assert_eq!(expand_tilde("~/a", Some("")), "~/a");
}

#[test]
fn the_base_directories_prefer_their_variable_then_home() {
    assert_eq!(config_dir(Some("/x"), Some("/home/me")), Some("/x/obayebar".to_string()));
    assert_eq!(config_dir(Some(""), Some("/home/me")), Some("/home/me/.config/obayebar".to_string()));
    assert_eq!(cache_dir(None, Some("/home/me")), Some("/home/me/.cache/obayebar".to_string()));
    assert_eq!(data_dir(None, Some("/home/me")), Some("/home/me/.local/share/obayebar".to_string()));
    assert_eq!(data_dir(None, None), None);
    assert_eq!(runtime_dir(Some("/run/user/1")), Some("/run/user/1/obayebar".to_string()));
    assert_eq!(runtime_dir(Some("")), None);
}

#[test]
fn the_file_name_is_the_last_component() {
    assert_eq!(file_name("/usr/bin/alacritty").as_deref(), Some("alacritty"));
    assert_eq!(file_name("foot").as_deref(), Some("foot"));
    assert_eq!(file_name("dir/").as_deref(), Some("dir"));
    assert_eq!(file_name("a/./").as_deref(), Some("a"));
    assert_eq!(file_name("a/.."), None);
    assert_eq!(file_name("/"), None);
    assert_eq!(file_name("."), None);
    assert_eq!(file_name(""), None);
}

// --- config ---

#[test]
fn defaults_fill_in_what_the_file_leaves_out() {
    let config = Config::default();
    assert_eq!(config.wallpaper.interval(), "30m");
    assert_eq!(
        config.wallpaper.directory(Some("/home/me")),
        "/home/me/Images/wallpapers/enabled"
    );
    assert_eq!(
        config.lock.config_path(Some("/home/me")),
        "/home/me/.config/hypr/hyprlock.conf"
    );
    assert_eq!(config.lock.blur(), Blur { passes: 1, size: 3 });
}

#[test]
fn blur_fields_are_independent_of_each_other() {
    let lock = LockConfig {
        blur_passes: Some(4),
        ..LockConfig::default()
    };
    assert_eq!(lock.blur(), Blur { passes: 4, size: 3 });
    let lock = LockConfig {
        blur_size: Some(9),
        ..LockConfig::default()
    };
    assert_eq!(lock.blur(), Blur { passes: 1, size: 9 });
}

#[test]
fn configured_values_are_used_and_expanded() {
    let wallpaper = WallpaperConfig {
        directory: Some("~/pics".to_string()),
        interval: Some("2h".to_string()),
        ..WallpaperConfig::default()
    };
    assert_eq!(wallpaper.directory(Some("/home/me")), "/home/me/pics");
    assert_eq!(wallpaper.interval(), "2h");
}

#[test]
fn the_config_file_sits_in_the_config_dir() {
    assert_eq!(
        config_file_path(None, Some("/home/me")),
        Some("/home/me/.config/obayebar/config.toml".to_string())
    );
    assert_eq!(config_file_path(None, None), None);
}

#[test]
fn a_split_read_gives_what_one_read_gives() {
    let bytes: &[u8] = b"monitoradded>>DP-3\nworkspace>>2\nmonitorremoved>>DP-3\nfocus";
    for cut in 0..=bytes.len() {
        let mut whole = Vec::new();
        let at_once = take_event_names(&mut whole, bytes);
        let mut split = Vec::new();
        let mut names = take_event_names(&mut split, &bytes[..cut]);
        names.extend(take_event_names(&mut split, &bytes[cut..]));
        assert_eq!(names, at_once, "cut at {cut}");
        assert_eq!(split, whole, "cut at {cut}");
    }
}
