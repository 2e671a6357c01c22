use obayebar::bar::config::{install, normalize_host, resolved, CliOverrides, Resolved};
use obayebar::bar::hyprland::{
    assemble_state,
    classify_event, escape_regex, focus_window, focus_window_class, focus_window_class_matching,
    focus_workspace, read_event, switch_workspace, EventAction, LineEvent, WindowInfo,
};
use obayebar::bar::media_panel::{chip_label, format_time, label, MAX_LABEL_CHARS};
use obayebar::bar::rotated_text::{rotate_ccw, truncate_with_ellipsis};
use obayebar::config::{Config, GitlabConfig};
use obayebar::file_uri::local_path;
use obayebar::media::player::{PlaybackStatus, Player, Track, Capabilities};
use obayebar::media::selection::{Rotation, Selection};

// --- hyprland ---

#[test]
fn a_workspace_is_focused_through_the_lua_dispatcher() {
    assert_eq!(focus_workspace(3), "hl.dsp.focus({workspace = 3})");
}

#[test]
fn a_class_selector_is_anchored_and_escaped() {
    assert_eq!(
        focus_window_class_matching(&format!("^(?i){}$", escape_regex("org.mozilla.firefox"))),
        r"hl.dsp.focus({window = [==[class:^(?i)org\.mozilla\.firefox$]==]})"
    );
}

#[test]
fn regex_metacharacters_in_a_name_stay_literal() {
    assert_eq!(escape_regex("Foo (beta) [1]+"), r"Foo \(beta\) \[1\]\+");
}

#[test]
fn active_window_is_parsed_from_the_payload() {
    assert_eq!(classify_event("activewindow"), EventAction::ActiveWindow);
}

#[test]
fn monitor_topology_events_force_a_refresh() {
    for name in [
        "monitoradded",
        "monitoraddedv2",
        "monitorremoved",
        "monitorremovedv2",
        "monitorlayoutchanged",
        "configreloaded",
    ] {
        assert_eq!(classify_event(name), EventAction::Refresh, "{name}");
    }
}

#[test]
fn workspace_moves_between_monitors_force_a_refresh() {
    assert_eq!(classify_event("moveworkspace"), EventAction::Refresh);
    assert_eq!(classify_event("moveworkspacev2"), EventAction::Refresh);
}

#[test]
fn workspace_and_window_events_force_a_refresh() {
    for name in [
        "workspace",
        "workspacev2",
        "createworkspace",
        "createworkspacev2",
        "destroyworkspace",
        "destroyworkspacev2",
        "focusedmon",
        "focusedmonv2",
        "openwindow",
        "closewindow",
        "movewindow",
        "movewindowv2",
        "changefloatingmode",
        "urgent",
    ] {
        assert_eq!(classify_event(name), EventAction::Refresh, "{name}");
    }
}

#[test]
fn high_frequency_noise_is_ignored() {
    for name in ["windowtitle", "windowtitlev2", "activewindowv2", "submap"] {
        assert_eq!(classify_event(name), EventAction::Ignore, "{name}");
    }
}

#[test]
fn unknown_events_are_ignored_rather_than_refreshing() {
    assert_eq!(classify_event("somethinghyprlandaddedlater"), EventAction::Ignore);
    assert_eq!(classify_event(""), EventAction::Ignore);
}

#[test]
fn the_dispatchers_for_clicks_and_notifications() {
    assert_eq!(switch_workspace(-2), "hl.dsp.focus({workspace = -2})");
    assert_eq!(
        focus_window("Spotify"),
        "hl.dsp.focus({window = [==[class:(?i).*Spotify.*]==]})"
    );
    assert_eq!(
        focus_window_class("org.x"),
        r"hl.dsp.focus({window = [==[class:^(?i)org\.x$]==]})"
    );
}

#[test]
fn event_lines_become_what_the_bar_does() {
    assert_eq!(
        read_event("activewindow>>firefox,Some, page"),
        Some(LineEvent::ActiveWindow(Some(WindowInfo {
            class: "firefox".to_string(),
            title: "Some, page".to_string(),
        })))
    );
    assert_eq!(read_event("activewindow>>,"), Some(LineEvent::ActiveWindow(None)));
    assert_eq!(read_event("activewindow>>nocomma"), Some(LineEvent::ActiveWindow(None)));
    assert_eq!(read_event("workspace>>2"), Some(LineEvent::Refresh));
    assert_eq!(read_event("windowtitle>>x"), None);
    assert_eq!(read_event("no separator"), None);
}

// --- text for the bar ---

#[test]
fn short_text_is_untouched() {
    assert_eq!(truncate_with_ellipsis("abc", 3), "abc");
}

#[test]
fn long_text_ends_in_an_ellipsis_within_the_limit() {
    assert_eq!(truncate_with_ellipsis("abcdef", 4), "abc\u{2026}");
}

#[test]
fn truncation_counts_characters_not_bytes() {
    assert_eq!(truncate_with_ellipsis("\u{e9}\u{e9}\u{e9}", 3), "\u{e9}\u{e9}\u{e9}");
    assert_eq!(truncate_with_ellipsis("\u{e9}\u{e9}\u{e9}\u{e9}", 3), "\u{e9}\u{e9}\u{2026}");
}

#[test]
fn times_are_formatted_like_a_player_does() {
    assert_eq!(format_time(0), "0:00");
    assert_eq!(format_time(187), "3:07");
    assert_eq!(format_time(3723), "1:02:03");
}

fn test_player(bus: &str, status: PlaybackStatus) -> Player {
    Player {
        bus_name: bus.to_string(),
        identity: bus.to_string(),
        status,
        track: Track::default(),
        capabilities: Capabilities::default(),
        loop_status: None,
        shuffle: None,
    }
}

#[test]
fn the_chip_counts_players_only_when_there_are_others() {
    let players = ["a", "b", "c"].map(|bus| test_player(bus, PlaybackStatus::Paused));
    let mut selection = Selection::default();
    selection.observe(&players);
    assert_eq!(chip_label("Spotify", None), "Spotify");
    assert_eq!(chip_label("Spotify", selection.rotation(&players)), "Spotify \u{b7} 3/3");
    assert_eq!(chip_label("x", Some(Rotation { index: 1, total: 2 })), "x \u{b7} 1/2");
}

fn track(title: &str, artists: &[&str]) -> Track {
    Track {
        title: Some(title.to_string()).filter(|t| !t.is_empty()),
        artists: artists.iter().map(ToString::to_string).collect(),
        ..Track::default()
    }
}

#[test]
fn title_and_artists_are_joined_with_a_dash() {
    assert_eq!(label(&track("Song", &["A", "B"]), "mpv"), "Song \u{2014} A, B");
}

#[test]
fn a_track_without_artists_shows_its_title() {
    assert_eq!(label(&track("Song", &[]), "mpv"), "Song");
}

#[test]
fn a_track_without_title_shows_the_player() {
    assert_eq!(label(&track("", &["A"]), "Spotify"), "Spotify");
}

#[test]
fn long_labels_are_truncated() {
    let long = "x".repeat(MAX_LABEL_CHARS * 2);
    let shown = label(&track(&long, &["A"]), "mpv");
    assert_eq!(shown.chars().count(), MAX_LABEL_CHARS);
    assert!(shown.ends_with('\u{2026}'));
}

// --- the bar's configuration ---

fn file_with(enable: bool, url: Option<&str>) -> Config {
    Config {
        gitlab: GitlabConfig { enable, url: url.map(ToString::to_string) },
        ..Config::default()
    }
}

#[test]
fn cli_enable_beats_file() {
    let r = Resolved::from_parts(
        &file_with(false, None),
        &CliOverrides { gitlab_enable: Some(true), ..CliOverrides::default() },
        None,
    );
    assert!(r.gitlab_enable());
}

#[test]
fn cli_url_beats_file() {
    let r = Resolved::from_parts(
        &file_with(false, Some("https://from-file")),
        &CliOverrides { gitlab_url: Some("https://from-cli".to_string()), ..CliOverrides::default() },
        Some("https://from-env"),
    );
    assert_eq!(r.gitlab_host(), "https://from-cli");
}

#[test]
fn file_url_used_when_cli_absent() {
    let r = Resolved::from_parts(&file_with(false, Some("https://from-file")), &CliOverrides::default(), None);
    assert_eq!(r.gitlab_host(), "https://from-file");
}

#[test]
fn default_host_when_nothing_set() {
    let r = Resolved::from_parts(&Config::default(), &CliOverrides::default(), None);
    assert_eq!(r.gitlab_host(), "https://gitlab.com");
}

#[test]
fn host_trailing_slash_trimmed() {
    let r = Resolved::from_parts(&file_with(false, Some("https://example.com/")), &CliOverrides::default(), None);
    assert_eq!(r.gitlab_host(), "https://example.com");
}

#[test]
fn the_environment_sits_between_the_flag_and_the_file() {
    let file = file_with(false, Some("https://from-file"));
    let r = Resolved::from_parts(&file, &CliOverrides::default(), Some("  https://from-env//  "));
    assert_eq!(r.gitlab_host(), "https://from-env");
    let r = Resolved::from_parts(&file, &CliOverrides::default(), Some("   "));
    assert_eq!(r.gitlab_host(), "https://from-file");
    assert_eq!(normalize_host(" https://x/// "), "https://x");
}

#[test]
fn the_first_install_is_the_one_that_counts() {
    let mut slot = None;
    assert_eq!(resolved(&slot).gitlab_host(), "");
    install(&mut slot, &file_with(true, None), &CliOverrides::default(), None);
    install(&mut slot, &file_with(false, Some("https://other")), &CliOverrides::default(), None);
    assert!(resolved(&slot).gitlab_enable());
    assert_eq!(resolved(&slot).gitlab_host(), "https://gitlab.com");
}

// --- local file names ---

#[test]
fn a_file_uri_is_percent_decoded() {
    assert_eq!(
        local_path("file:///home/me/My%20Pics/a.png").as_deref(),
        Some("/home/me/My Pics/a.png")
    );
}

#[test]
fn a_plain_absolute_path_is_used_as_is() {
    assert_eq!(local_path("/home/me/pic.png").as_deref(), Some("/home/me/pic.png"));
}

#[test]
fn a_file_uri_naming_another_host_is_rejected() {
    assert_eq!(local_path("file://otherhost/x"), None);
}

#[test]
fn an_http_url_is_rejected() {
    assert_eq!(local_path("http://example.com/pic.png"), None);
}

#[test]
fn a_relative_path_or_icon_name_is_rejected() {
    assert_eq!(local_path("icons/pic.png"), None);
    assert_eq!(local_path("firefox"), None);
}

#[test]
fn rotate_ccw_maps_pixels_and_colour() {
    let alpha = [10, 0, 0, 0, 0, 20];
    let rgba = rotate_ccw(&alpha, 3, 2, [1, 2, 3]);

    assert_eq!(rgba.len(), 2 * 3 * 4);
    let pixel = |x: usize, y: usize| {
        let idx = (y * 2 + x) * 4;
        rgba.get(idx..idx + 4)
    };

    assert_eq!(pixel(0, 2), Some(&[1u8, 2, 3, 10][..]));
    assert_eq!(pixel(1, 0), Some(&[1u8, 2, 3, 20][..]));
    assert_eq!(pixel(1, 2), Some(&[0u8, 0, 0, 0][..]));
}

#[test]
fn rotating_a_short_buffer_leaves_the_missing_pixels_clear() {
    let rgba = rotate_ccw(&[7], 2, 2, [9, 9, 9]);
    assert_eq!(rgba.len(), 16);
    assert_eq!(&rgba[8..12], &[9, 9, 9, 7]);
    assert!(rgba[..8].iter().chain(&rgba[12..]).all(|&b| b == 0));
}

fn monitor_on(name: &str, focused: bool, workspace: i32) -> obayebar::hypr::MonitorInfo {
    obayebar::hypr::MonitorInfo {
        name: name.to_string(),
        focused,
        active_workspace: obayebar::hypr::MonitorWorkspace { id: workspace },
        ..obayebar::hypr::MonitorInfo::default()
    }
}

#[test]
fn the_focused_monitor_is_the_first_focused_or_else_the_first() {
    let st = assemble_state(
        &vec![monitor_on("DP-1", false, 1), monitor_on("DP-2", true, 4), monitor_on("DP-3", true, 7)],
        Vec::new(),
        None,
    );
    assert_eq!(st.focused_monitor, "DP-2");
    assert_eq!(st.monitors, vec!["DP-1", "DP-2", "DP-3"]);
    assert_eq!(
        st.active_workspaces,
        vec![("DP-1".to_string(), 1), ("DP-2".to_string(), 4), ("DP-3".to_string(), 7)]
    );

    let unfocused = assemble_state(&vec![monitor_on("A", false, 1), monitor_on("B", false, 2)], Vec::new(), None);
    assert_eq!(unfocused.focused_monitor, "A");
    assert_eq!(assemble_state(&Vec::new(), Vec::new(), None).focused_monitor, "");
}

#[test]
fn a_window_without_a_class_is_no_active_window() {
    let blank = WindowInfo { class: String::new(), title: "x".to_string() };
    assert_eq!(assemble_state(&Vec::new(), Vec::new(), Some(blank)).active_window, None);
    let term = WindowInfo { class: "foot".to_string(), title: "~".to_string() };
    assert_eq!(assemble_state(&Vec::new(), Vec::new(), Some(term.clone())).active_window, Some(term));
}

#[test]
fn a_limit_of_zero_leaves_nothing() {
    assert_eq!(truncate_with_ellipsis("abc", 0), "");
    assert_eq!(truncate_with_ellipsis("", 0), "");
}

// --- the event stream ---

use obayebar::bar::hyprland::{
    stream_step, StreamAction, StreamEvent, StreamState, RECONNECT_DELAY_MS, RETRY_DELAY_MS,
};

#[test]
fn a_missing_socket_dir_or_snapshot_is_retried_after_a_pause() {
    assert_eq!(
        stream_step(StreamState::Starting, StreamEvent::NoSocketDir),
        (StreamState::Starting, StreamAction::Retry { delay_ms: RETRY_DELAY_MS })
    );
    assert_eq!(
        stream_step(StreamState::Starting, StreamEvent::NoSnapshot),
        (StreamState::Starting, StreamAction::Retry { delay_ms: 2000 })
    );
}

#[test]
fn a_snapshot_is_published_even_when_the_event_socket_fails() {
    assert_eq!(
        stream_step(StreamState::Starting, StreamEvent::ConnectFailed),
        (StreamState::Starting, StreamAction::PublishAfter { delay_ms: RETRY_DELAY_MS })
    );
    assert_eq!(
        stream_step(StreamState::Starting, StreamEvent::Connected),
        (StreamState::Streaming, StreamAction::Publish)
    );
}

#[test]
fn a_closed_socket_reconnects_without_publishing() {
    assert_eq!(
        stream_step(StreamState::Streaming, StreamEvent::Closed),
        (StreamState::Starting, StreamAction::Retry { delay_ms: RECONNECT_DELAY_MS })
    );
    assert_eq!(RECONNECT_DELAY_MS, 500);
}

#[test]
fn each_line_of_the_stream_asks_for_what_it_names() {
    let step = |line: &str| stream_step(StreamState::Streaming, StreamEvent::Line(line.to_string()));
    assert_eq!(step("monitoraddedv2>>2,DP-3,Dell\n"), (StreamState::Streaming, StreamAction::Refresh));
    assert_eq!(step("windowtitle>>5e1f\n"), (StreamState::Streaming, StreamAction::ReadLine));
    assert_eq!(step("no arrows here"), (StreamState::Streaming, StreamAction::ReadLine));
    assert_eq!(
        step("  activewindow>>kitty,~/src\n"),
        (
            StreamState::Streaming,
            StreamAction::ActiveWindow(Some(WindowInfo {
                class: "kitty".to_string(),
                title: "~/src".to_string()
            }))
        )
    );
    assert_eq!(step("activewindow>>,\n"), (StreamState::Streaming, StreamAction::ActiveWindow(None)));
}

#[test]
fn a_file_uri_that_decodes_to_no_text_names_no_path() {
    assert_eq!(local_path("file:///tmp/%FF.png"), None);
    assert_eq!(local_path("file:///tmp/%C3%A9.png").as_deref(), Some("/tmp/\u{e9}.png"));
}
