use freedesktop_desktop_entry as fde;
use obayebar::launcher::desktop_entry::{
    convert, launch_argv, sanitize_exec, terminal_argv, DesktopEntry, LaunchError, ParsedEntry,
};
use obayebar::launcher::{rank, Launcher, LauncherEvent, Message};
use obayebar::launcher::icons::{
    accept_cached, cache_dir, cached_id, decode_raster, is_svg, pixels_file, source_file, RGBA_LEN,
};

#[test]
fn sanitize_exec_strips_field_codes() {
    assert_eq!(sanitize_exec("firefox %u"), "firefox");
    assert_eq!(sanitize_exec("code %F --new-window"), "code --new-window");
    assert_eq!(sanitize_exec("app %f %U %i"), "app");
}

#[test]
fn sanitize_exec_preserves_normal_args() {
    assert_eq!(sanitize_exec("myapp --flag value"), "myapp --flag value");
}

#[test]
fn sanitize_exec_strips_non_standard_field_codes() {
    assert_eq!(sanitize_exec("app %w %X %somethingnew"), "app");
}

#[test]
fn sanitize_exec_unescapes_a_literal_percent() {
    assert_eq!(sanitize_exec("app %% --rate"), "app % --rate");
}

#[test]
fn sanitize_exec_strips_flatpak_forwarding_markers() {
    assert_eq!(
        sanitize_exec("/usr/bin/flatpak run --branch=stable --file-forwarding org.x.App @@u %U @@"),
        "/usr/bin/flatpak run --branch=stable --file-forwarding org.x.App"
    );
}

#[test]
fn sanitize_exec_keeps_quoting_for_the_shell() {
    assert_eq!(
        sanitize_exec(r#"/bin/sh -c "exec /opt/app/bin/app --profile=default" %u"#),
        r#"/bin/sh -c "exec /opt/app/bin/app --profile=default""#
    );
}

#[test]
fn sanitize_exec_collapses_runs_of_whitespace() {
    assert_eq!(sanitize_exec("  a \t\n b  "), "a b");
    assert_eq!(sanitize_exec(""), "");
}

#[test]
fn terminal_argv_uses_dash_e_by_default() {
    assert_eq!(
        terminal_argv("/usr/bin/alacritty", "htop"),
        vec!["/usr/bin/alacritty", "-e", "sh", "-c", "htop"]
    );
}

#[test]
fn terminal_argv_passes_bare_command_to_foot_and_kitty() {
    assert_eq!(terminal_argv("foot", "htop"), vec!["foot", "sh", "-c", "htop"]);
    assert_eq!(
        terminal_argv("/nix/store/abc/bin/kitty", "ranger"),
        vec!["/nix/store/abc/bin/kitty", "sh", "-c", "ranger"]
    );
}

#[test]
fn terminal_argv_uses_wezterm_start_subcommand() {
    assert_eq!(terminal_argv("wezterm", "btop"), vec!["wezterm", "start", "--", "sh", "-c", "btop"]);
}

#[test]
fn launch_invalid_command() {
    assert!(launch_argv("", false, None).is_err());
    assert!(launch_argv("   ", false, None).is_err());
}

#[test]
fn a_terminal_entry_needs_an_emulator() {
    assert_eq!(launch_argv("htop", true, None), Err(LaunchError::NoTerminal));
    assert_eq!(
        launch_argv("htop", true, Some("foot")),
        Ok(vec!["foot".to_string(), "sh".to_string(), "-c".to_string(), "htop".to_string()])
    );
    assert_eq!(
        launch_argv("firefox", false, None),
        Ok(vec!["sh".to_string(), "-c".to_string(), "firefox".to_string()])
    );
    assert_eq!(LaunchError::EmptyExec.message(), "empty Exec");
}

#[test]
fn a_cached_icon_is_reused_only_for_the_source_it_came_from() {
    let raw = vec![7_u8; RGBA_LEN];
    assert_eq!(accept_cached("/store/a/icon.png", "/store/a/icon.png", raw.clone()), Some(raw.clone()));
    assert_eq!(accept_cached("/store/a/icon.png", "/store/b/icon.png", raw), None);
}

#[test]
fn a_truncated_cache_file_is_rejected() {
    assert_eq!(accept_cached("/icon.png", "/icon.png", vec![1, 2, 3]), None);
}

#[test]
fn cache_files_are_named_by_the_whole_desktop_id() {
    assert_eq!(pixels_file("org.mozilla.firefox"), "org.mozilla.firefox.rgba");
    assert_eq!(source_file("org.mozilla.firefox"), "org.mozilla.firefox.path");
    assert_eq!(cached_id("org.mozilla.firefox.rgba").as_deref(), Some("org.mozilla.firefox"));
    assert_eq!(cached_id("org.mozilla.firefox.path").as_deref(), Some("org.mozilla.firefox"));
    assert_eq!(cached_id("notes.txt"), None);
    assert_eq!(cache_dir(None, Some("/home/me")).as_deref(), Some("/home/me/.cache/obayebar/icons"));
}

/// Parse `contents` as if it were the file at `path`, which is what decides
/// the desktop ID, and read off what `convert` looks at. `TryExec` is probed
/// as the absolute path the tests give.
fn parse_for(path: &str, contents: &str, locales: &[String]) -> ParsedEntry {
    let e = fde::DesktopEntry::from_str(std::path::PathBuf::from(path), contents, Some(locales))
        .unwrap_or_else(|e| panic!("{path} should parse: {e:?}"));
    ParsedEntry {
        appid: e.appid.clone(),
        kind: e.type_().map(ToString::to_string),
        no_display: e.no_display(),
        hidden: e.hidden(),
        try_exec_found: e.try_exec().map(|t| std::path::Path::new(t).is_file()),
        only_show_in: e.only_show_in().map(|l| l.into_iter().map(ToString::to_string).collect()),
        not_show_in: e.not_show_in().map(|l| l.into_iter().map(ToString::to_string).collect()),
        name: e.name(locales).map(|n| n.into_owned()),
        exec_line: e.exec().map(ToString::to_string),
        comment: e.comment(locales).map(|c| c.into_owned()),
        keywords: e
            .keywords(locales)
            .unwrap_or_default()
            .into_iter()
            .map(|k| k.into_owned())
            .collect(),
        icon: e.icon().map(ToString::to_string),
        terminal: e.terminal(),
    }
}

fn parse(path: &str, contents: &str) -> ParsedEntry {
    parse_for(path, contents, &[String::from("en")])
}

fn convert_default(path: &str, contents: &str) -> Option<DesktopEntry> {
    convert(&parse(path, contents), None)
}

#[test]
fn a_plain_application_entry_is_listed() {
    let entry = convert_default(
        "/usr/share/applications/test.desktop",
        "[Desktop Entry]\nType=Application\nName=Test App\nExec=test-app %u\nComment=A test\nKeywords=testing;demo;\n",
    )
    .unwrap_or_else(|| panic!("should be listed"));

    assert_eq!(entry.id, "test");
    assert_eq!(entry.name, "Test App");
    assert_eq!(entry.exec_line, "test-app");
    assert_eq!(entry.comment.as_deref(), Some("A test"));
    assert!(entry.search_text.contains("test app"));
    assert!(entry.search_text.contains("testing"));
    assert!(entry.search_text.contains("demo"));
}

#[test]
fn a_nested_directory_becomes_a_dashed_desktop_id() {
    let entry = convert_default(
        "/usr/share/applications/kde/settings.desktop",
        "[Desktop Entry]\nType=Application\nName=Settings\nExec=settings\n",
    )
    .unwrap_or_else(|| panic!("should be listed"));
    assert_eq!(entry.id, "kde-settings");
}

#[test]
fn hidden_and_nodisplay_entries_are_skipped() {
    assert!(convert_default(
        "/a/applications/h.desktop",
        "[Desktop Entry]\nType=Application\nName=H\nExec=h\nNoDisplay=true\n",
    )
    .is_none());
    assert!(convert_default(
        "/a/applications/h.desktop",
        "[Desktop Entry]\nType=Application\nName=H\nExec=h\nHidden=true\n",
    )
    .is_none());
}

#[test]
fn non_application_entries_are_skipped() {
    assert!(convert_default(
        "/a/applications/link.desktop",
        "[Desktop Entry]\nType=Link\nName=A Link\nURL=https://example.com\n",
    )
    .is_none());
}

#[test]
fn an_entry_whose_tryexec_is_missing_is_skipped() {
    assert!(convert_default(
        "/a/applications/ghost.desktop",
        "[Desktop Entry]\nType=Application\nName=Ghost\nExec=ghost\nTryExec=/nonexistent/ghost\n",
    )
    .is_none());
    assert!(convert_default(
        "/a/applications/real.desktop",
        "[Desktop Entry]\nType=Application\nName=Real\nExec=real\nTryExec=/bin/sh\n",
    )
    .is_some());
}

#[test]
fn only_show_in_and_not_show_in_follow_the_current_desktop() {
    let gnome_only = "[Desktop Entry]\nType=Application\nName=G\nExec=g\nOnlyShowIn=GNOME;\n";
    let not_hyprland = "[Desktop Entry]\nType=Application\nName=N\nExec=n\nNotShowIn=Hyprland;\n";
    let hypr = vec![String::from("hyprland")];

    assert!(convert(&parse_for("/a/applications/g.desktop", gnome_only, &[]), Some(&hypr)).is_none());
    assert!(convert(&parse_for("/a/applications/n.desktop", not_hyprland, &[]), Some(&hypr)).is_none());
    assert!(convert(
        &parse_for("/a/applications/g.desktop", gnome_only, &[]),
        Some(&vec![String::from("gnome")])
    )
    .is_some());
}

#[test]
fn without_a_current_desktop_show_in_keys_are_ignored() {
    assert!(convert_default(
        "/a/applications/g.desktop",
        "[Desktop Entry]\nType=Application\nName=G\nExec=g\nOnlyShowIn=GNOME;\n",
    )
    .is_some());
}

#[test]
fn a_localized_name_is_preferred_over_the_default() {
    let locales = [String::from("fr_FR")];
    let entry = convert(
        &parse_for(
            "/a/applications/l.desktop",
            "[Desktop Entry]\nType=Application\nName=Files\nName[fr]=Fichiers\nExec=files\n",
            &locales,
        ),
        None,
    )
    .unwrap_or_else(|| panic!("should be listed"));
    assert_eq!(entry.name, "Fichiers");
}

#[test]
fn the_terminal_flag_is_read() {
    let tui = convert_default(
        "/a/applications/htop.desktop",
        "[Desktop Entry]\nType=Application\nName=htop\nExec=htop\nTerminal=true\n",
    )
    .unwrap_or_else(|| panic!("should be listed"));
    assert!(tui.terminal, "Terminal=true must be recorded");

    let gui = convert_default(
        "/a/applications/gui.desktop",
        "[Desktop Entry]\nType=Application\nName=Gui\nExec=gui\n",
    )
    .unwrap_or_else(|| panic!("should be listed"));
    assert!(!gui.terminal);
}

#[test]
fn an_entry_without_an_exec_line_is_not_listed() {
    assert!(convert_default(
        "/a/applications/noexec.desktop",
        "[Desktop Entry]\nType=Application\nName=No Exec\n",
    )
    .is_none());
}

#[test]
fn the_search_text_is_the_name_comment_and_keywords_lowercased() {
    let entry = convert_default(
        "/a/applications/s.desktop",
        "[Desktop Entry]\nType=Application\nName=Foo Bar\nExec=foo\nComment=Does THINGS\nKeywords=One;TWO\n",
    )
    .unwrap_or_else(|| panic!("should be listed"));
    assert_eq!(entry.search_text, "foo bar does things one two");
}

#[test]
fn show_in_lists_compare_without_ascii_case() {
    let entry = parse_for(
        "/a/applications/k.desktop",
        "[Desktop Entry]\nType=Application\nName=K\nExec=k\nOnlyShowIn=KDE;XFCE;\n",
        &[],
    );
    assert!(convert(&entry, Some(&vec![String::from("xfce")])).is_some());
    assert!(convert(&entry, Some(&vec![String::from("gnome"), String::from("Kde")])).is_some());
    assert!(convert(&entry, Some(&vec![String::from("kd")])).is_none());
}

fn entry(id: &str, name: &str) -> DesktopEntry {
    DesktopEntry {
        id: id.to_string(),
        name: name.to_string(),
        exec_line: id.to_string(),
        icon: None,
        comment: None,
        terminal: false,
        search_text: name.to_lowercase(),
    }
}

fn launcher(entries: Vec<DesktopEntry>, counts: &[(&str, u32)]) -> Launcher<u8> {
    let mut launcher = Launcher::new(counts.iter().map(|(id, n)| ((*id).to_string(), *n)).collect());
    launcher.set_entries(entries);
    launcher
}

fn visible_names(launcher: &Launcher<u8>) -> Vec<&str> {
    launcher
        .filtered()
        .iter()
        .filter_map(|&idx| launcher.entries().get(idx))
        .map(|e| e.name.as_str())
        .collect()
}

fn selected_id(launcher: &Launcher<u8>) -> Option<&str> {
    launcher.selected_entry().map(|e| e.id.as_str())
}

#[test]
fn an_empty_query_ranks_by_launch_frequency_then_name() {
    let launcher = launcher(
        vec![entry("alpha", "Alpha"), entry("beta", "Beta"), entry("gamma", "Gamma")],
        &[("gamma", 5), ("beta", 5)],
    );
    assert_eq!(visible_names(&launcher), ["Beta", "Gamma", "Alpha"]);
}

#[test]
fn a_query_filters_to_matches_only() {
    let mut launcher = launcher(vec![entry("firefox", "Firefox"), entry("gimp", "GIMP")], &[]);
    launcher.update(Message::SearchChanged("fire".into()));
    assert_eq!(visible_names(&launcher), ["Firefox"]);
}

#[test]
fn frequency_breaks_a_tie_between_equally_good_matches() {
    let mut launcher = launcher(vec![entry("code", "Code"), entry("code-oss", "Code")], &[("code-oss", 10)]);
    launcher.update(Message::SearchChanged("code".into()));
    assert_eq!(selected_id(&launcher).unwrap_or_default(), "code-oss");
}

#[test]
fn a_rescan_keeps_the_selected_application() {
    let mut launcher = launcher(
        vec![entry("a", "Alpha"), entry("b", "Beta"), entry("c", "Gamma")],
        &[],
    );
    launcher.handle_event(LauncherEvent::ArrowDown);
    assert_eq!(selected_id(&launcher), Some("b"));

    launcher.set_entries(vec![
        entry("new", "Aardvark"),
        entry("a", "Alpha"),
        entry("b", "Beta"),
        entry("c", "Gamma"),
    ]);
    assert_eq!(selected_id(&launcher), Some("b"));
}

#[test]
fn a_rescan_that_removes_the_selection_falls_back_to_the_top() {
    let mut launcher = launcher(vec![entry("a", "Alpha"), entry("b", "Beta")], &[]);
    launcher.handle_event(LauncherEvent::ArrowDown);
    launcher.set_entries(vec![entry("a", "Alpha")]);
    assert_eq!(selected_id(&launcher), Some("a"));
}

#[test]
fn arrow_keys_stay_within_the_list() {
    let mut launcher = launcher(vec![entry("a", "Alpha"), entry("b", "Beta")], &[]);
    launcher.handle_event(LauncherEvent::ArrowUp);
    assert_eq!(launcher.selected(), 0, "up at the top must not underflow");

    for _ in 0..5 {
        launcher.handle_event(LauncherEvent::ArrowDown);
    }
    assert_eq!(launcher.selected(), 1, "down at the bottom must not overrun");
}

#[test]
fn escape_dismisses_and_enter_launches_nothing_when_there_are_no_matches() {
    let mut launcher = launcher(vec![entry("a", "Alpha")], &[]);
    assert!(launcher.handle_event(LauncherEvent::Escape).dismiss);

    launcher.update(Message::SearchChanged("zzzz".into()));
    assert!(!launcher.handle_event(LauncherEvent::Enter).dismiss);
}

#[test]
fn reopening_clears_the_previous_query() {
    let mut launcher = launcher(vec![entry("a", "Alpha"), entry("b", "Beta")], &[]);
    launcher.update(Message::SearchChanged("bet".into()));
    assert_eq!(visible_names(&launcher), ["Beta"]);

    launcher.reset();
    assert_eq!(visible_names(&launcher), ["Alpha", "Beta"]);
    assert_eq!(launcher.selected(), 0);
}

#[test]
fn icons_for_entries_that_disappeared_are_dropped() {
    let mut launcher = launcher(vec![entry("a", "Alpha"), entry("b", "Beta")], &[]);
    launcher.set_icons(vec![("a".to_string(), 1_u8), ("b".to_string(), 2)]);
    launcher.set_entries(vec![entry("a", "Alpha")]);
    assert_eq!(launcher.icons().len(), 1);
    assert!(launcher.icons().iter().any(|(id, _)| id == "a"));
}

#[test]
fn an_unfocus_before_the_surface_was_ever_focused_is_ignored() {
    let mut launcher = launcher(vec![entry("a", "Alpha")], &[]);
    assert!(!launcher.handle_event(LauncherEvent::Unfocused).dismiss);

    launcher.handle_event(LauncherEvent::Focused);
    assert!(launcher.handle_event(LauncherEvent::Unfocused).dismiss);
}

#[test]
fn enter_launches_the_selection_and_counts_it() {
    let mut launcher = launcher(vec![entry("a", "Alpha"), entry("b", "Beta")], &[("b", 2)]);
    assert_eq!(visible_names(&launcher), ["Beta", "Alpha"]);
    launcher.handle_event(LauncherEvent::ArrowDown);
    let response = launcher.handle_event(LauncherEvent::Enter);
    assert!(response.dismiss);
    assert_eq!(response.launch, Some(0));
    assert!(launcher.launch_counts().iter().any(|(id, n)| id == "a" && *n == 1));
    assert!(launcher.launch_counts().iter().any(|(id, n)| id == "b" && *n == 2));
}

#[test]
fn a_launch_message_for_a_missing_entry_launches_nothing() {
    let mut launcher = launcher(vec![entry("a", "Alpha")], &[]);
    let response = launcher.update(Message::Launch(7));
    assert!(response.dismiss);
    assert_eq!(response.launch, None);
    assert!(launcher.launch_counts().is_empty());
}

#[test]
fn a_count_at_its_limit_stays_there() {
    let mut launcher = launcher(vec![entry("a", "Alpha")], &[("a", u32::MAX)]);
    launcher.update(Message::Launch(0));
    assert_eq!(launcher.launch_counts(), &vec![("a".to_string(), u32::MAX)]);
}

#[test]
fn ranking_with_no_query_sorts_names_without_case() {
    let entries = vec![entry("z", "zebra"), entry("m", "Mango"), entry("a", "apple")];
    assert_eq!(rank(&entries, &Vec::new(), ""), vec![2, 1, 0]);
}

#[test]
fn ranking_keeps_the_order_of_equal_entries() {
    let entries = vec![entry("x", "Same"), entry("y", "Same"), entry("z", "Same")];
    assert_eq!(rank(&entries, &Vec::new(), ""), vec![0, 1, 2]);
    assert_eq!(rank(&entries, &Vec::new(), "same"), vec![0, 1, 2]);
}

#[test]
fn an_svg_is_told_by_its_extension_in_any_case() {
    assert!(is_svg("/usr/share/icons/hicolor/scalable/apps/firefox.svg"));
    assert!(is_svg("Logo.SVG"));
    assert!(is_svg("/icons/dir.svg/"));
    assert!(!is_svg("/icons/.svg"));
    assert!(!is_svg("/icons/firefox.svgz"));
    assert!(!is_svg("/icons/firefox.png"));
    assert!(!is_svg("/icons/svg"));
}

#[test]
fn a_raster_icon_decodes_to_one_icon_sized_frame() {
    let buf = image::RgbImage::from_pixel(64, 32, image::Rgb([9, 8, 7]));
    let mut out = std::io::Cursor::new(Vec::new());
    buf.write_to(&mut out, image::ImageFormat::Png).unwrap();
    let raw = decode_raster(&out.into_inner()).unwrap_or_else(|| panic!("should decode"));
    assert_eq!(raw.len(), RGBA_LEN);
    assert!(decode_raster(b"<svg/>").is_none());
}

// --- which files of a scan are listed ---

use obayebar::launcher::desktop_entry::{first_of_each_id, is_desktop_file};

#[test]
fn only_desktop_files_are_read() {
    assert!(is_desktop_file("/usr/share/applications/firefox.desktop"));
    assert!(!is_desktop_file("/usr/share/applications/firefox.desktop.bak"));
    assert!(!is_desktop_file("/usr/share/applications/.desktop"));
    assert!(!is_desktop_file("/usr/share/applications/mimeinfo.cache"));
    assert!(!is_desktop_file("/usr/share/applications/x.DESKTOP"));
}

#[test]
fn the_first_entry_of_each_id_wins() {
    let ids = vec![
        Some("firefox.desktop".to_string()),
        None,
        Some("kitty.desktop".to_string()),
        Some("firefox.desktop".to_string()),
        Some("kitty.desktop".to_string()),
        Some("vim.desktop".to_string()),
    ];
    assert_eq!(first_of_each_id(&ids), vec![true, false, true, false, false, true]);
    assert!(first_of_each_id(&Vec::new()).is_empty());
}

// --- the list a scan gives ---

use obayebar::launcher::index_entries;

#[test]
fn the_highest_priority_directory_wins_a_duplicate_id() {
    let local = parse("/home/me/.local/share/applications/editor.desktop", "[Desktop Entry]\nType=Application\nName=Mine\nExec=mine\n");
    let system = parse("/usr/share/applications/editor.desktop", "[Desktop Entry]\nType=Application\nName=System\nExec=sys\n");
    let hidden = parse(
        "/home/me/.local/share/applications/gone.desktop",
        "[Desktop Entry]\nType=Application\nName=Gone\nExec=gone\nHidden=true\n",
    );
    let shadowed = parse("/usr/share/applications/gone.desktop", "[Desktop Entry]\nType=Application\nName=Shown\nExec=x\n");
    let other = parse("/usr/share/applications/beta.desktop", "[Desktop Entry]\nType=Application\nName=Beta\nExec=b\n");
    let entries = index_entries(vec![Some(local), None, Some(system), Some(hidden), Some(shadowed), Some(other)], None);
    let names: Vec<&str> = entries.iter().map(|e| e.name.as_str()).collect();
    // A hidden entry still shadows the same ID further down; the rest are
    // sorted by name.
    assert_eq!(names, vec!["Beta", "Mine"]);
}

#[test]
fn a_scan_with_nothing_readable_lists_nothing() {
    assert!(index_entries(vec![None, None], None).is_empty());
}

// --- watching the application directories ---

use obayebar::launcher::watch::{
    is_relevant, record_watch, watch_step, watch_targets, WatchAction, WatchEvent, WatchState, QUIET_MS,
};

#[test]
fn an_ordinary_directory_is_watched_whole() {
    let dirs = vec![("/scratch/applications".to_string(), true, Vec::new())];
    assert_eq!(watch_targets(&dirs), vec![("/scratch/applications".to_string(), None)]);
}

#[test]
fn a_directory_that_does_not_exist_is_not_watched() {
    let dirs = vec![("/scratch/nothing/applications".to_string(), false, Vec::new())];
    assert!(watch_targets(&dirs).is_empty());
}

#[test]
fn a_symlink_on_the_path_adds_a_watch_on_its_parent() {
    let dirs = vec![(
        "/scratch/current/share/applications".to_string(),
        true,
        vec!["/scratch/current".to_string()],
    )];
    let targets = watch_targets(&dirs);
    assert!(targets.contains(&("/scratch/current/share/applications".to_string(), None)), "{targets:?}");
    assert!(targets.contains(&("/scratch".to_string(), Some("current".to_string()))), "{targets:?}");
}

#[test]
fn a_symlink_at_the_root_is_watched_in_the_root() {
    let dirs = vec![("/run/current-system/sw/share/applications".to_string(), false, vec!["/run".to_string()])];
    assert_eq!(watch_targets(&dirs), vec![("/".to_string(), Some("run".to_string()))]);
}

#[test]
fn duplicate_directories_are_watched_once() {
    let apps = ("/scratch/applications".to_string(), true, Vec::new());
    assert_eq!(watch_targets(&vec![apps.clone(), apps]).len(), 1);
}

#[test]
fn only_the_named_entry_matters_for_a_symlink_watch() {
    let mut watched = Vec::new();
    record_watch(&mut watched, 1, Some("current-system".to_string()));
    assert!(is_relevant(&watched, 1, Some("current-system")));
    assert!(!is_relevant(&watched, 1, Some("something-else")));
    assert!(!is_relevant(&watched, 1, None));
    assert!(!is_relevant(&watched, 2, Some("current-system")));
    // The same directory under a whole-directory target: the broader watch
    // wins, and anything counts.
    record_watch(&mut watched, 1, None);
    assert_eq!(watched, vec![(1, None)]);
    assert!(is_relevant(&watched, 1, None));
    record_watch(&mut watched, 1, Some("current-system".to_string()));
    assert_eq!(watched, vec![(1, None)]);
}

#[test]
fn a_burst_waits_for_quiet_before_one_rescan() {
    let watched = vec![(1, None), (2, Some("current".to_string()))];
    let ev = |wd: u64, name: Option<&str>| WatchEvent::Event { wd, name: name.map(str::to_string) };
    assert_eq!(watch_step(&watched, WatchState::Starting, WatchEvent::Watching), (WatchState::Waiting, WatchAction::ReadNext));
    assert_eq!(watch_step(&watched, WatchState::Waiting, ev(2, Some("other"))), (WatchState::Waiting, WatchAction::ReadNext));
    assert_eq!(watch_step(&watched, WatchState::Waiting, ev(2, Some("current"))), (WatchState::Settling, WatchAction::AwaitQuiet));
    assert_eq!(watch_step(&watched, WatchState::Settling, ev(1, Some("a.desktop"))), (WatchState::Settling, WatchAction::AwaitQuiet));
    assert_eq!(watch_step(&watched, WatchState::Settling, WatchEvent::StreamError), (WatchState::Settling, WatchAction::AwaitQuiet));
    assert_eq!(watch_step(&watched, WatchState::Settling, WatchEvent::QuietElapsed), (WatchState::Starting, WatchAction::Rescan));
    assert_eq!(watch_step(&watched, WatchState::Settling, WatchEvent::StreamEnded), (WatchState::Starting, WatchAction::Rescan));
    assert_eq!(QUIET_MS, 400);
}

#[test]
fn nothing_to_watch_or_a_failing_stream_stops_watching() {
    let none: Vec<(u64, Option<String>)> = Vec::new();
    assert_eq!(watch_step(&none, WatchState::Starting, WatchEvent::Watching), (WatchState::Starting, WatchAction::StopWatching));
    let watched = vec![(1, None)];
    assert_eq!(watch_step(&watched, WatchState::Waiting, WatchEvent::StreamError), (WatchState::Waiting, WatchAction::StopWatching));
    assert_eq!(watch_step(&watched, WatchState::Waiting, WatchEvent::StreamEnded), (WatchState::Waiting, WatchAction::StopWatching));
    assert_eq!(watch_step(&watched, WatchState::Waiting, WatchEvent::Event { wd: 9, name: None }), (WatchState::Waiting, WatchAction::ReadNext));
}
