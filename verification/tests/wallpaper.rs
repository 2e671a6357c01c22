use obayebar::control::Command;
use obayebar::wallpaper::cli::{parse, Args, Error};
use obayebar::wallpaper::decode::{pack_bgra, prepare, DecodeError};
use obayebar::wallpaper::image::is_supported_image;
use obayebar::wallpaper::settle::{Pass, Settle, FIRST_DELAY, GRACE, MAX_DELAY};
use obayebar::wallpaper::state::{accept, default_path, State, VERSION};

fn parse_args(args: &[&str]) -> Result<Args, Error> {
    parse(args.iter().map(|s| (*s).to_string()).collect())
}

// --- the command line ---

#[test]
fn no_arguments_is_the_default_daemon() {
    let args = parse_args(&[]).unwrap();
    assert_eq!(args, Args::default());
    assert!(args.command.is_none());
}

#[test]
fn wallpaper_cli_separate_and_joined_values_both_work() {
    let a = parse_args(&["--directory", "/pics"]).unwrap();
    let b = parse_args(&["--directory=/pics"]).unwrap();
    assert_eq!(a.directory.as_deref(), Some("/pics"));
    assert_eq!(a, b);
}

#[test]
fn short_flags_work() {
    let args = parse_args(&["-d", "/pics", "-i", "45s"]).unwrap();
    assert_eq!(args.directory.as_deref(), Some("/pics"));
    assert_eq!(args.interval.as_deref(), Some("45s"));
}

#[test]
fn wallpaper_cli_each_value_flag_lands_in_its_own_field() {
    let args = parse_args(&["--interval", "2h", "--directory", "/pics"]).unwrap();
    assert_eq!(args.interval.as_deref(), Some("2h"));
    assert_eq!(args.directory.as_deref(), Some("/pics"));
}

#[test]
fn a_missing_or_empty_value_is_rejected() {
    assert!(matches!(parse_args(&["--directory"]), Err(Error::Usage(_))));
    assert!(matches!(parse_args(&["--interval"]), Err(Error::Usage(_))));
    assert!(matches!(parse_args(&["-d", "  "]), Err(Error::Usage(_))));
}

#[test]
fn the_error_names_the_flag_the_user_typed() {
    let Err(Error::Usage(message)) = parse_args(&["--interval"]) else {
        panic!("expected a usage error");
    };
    assert!(message.contains("--interval"), "got {message:?}");
}

#[test]
fn wallpaper_cli_unknown_arguments_are_rejected() {
    assert!(matches!(parse_args(&["--wat"]), Err(Error::Usage(_))));
    assert!(matches!(parse_args(&["positional"]), Err(Error::Usage(_))));
}

#[test]
fn wallpaper_cli_help_and_version_exit_zero() {
    assert!(matches!(parse_args(&["--help"]), Err(Error::Exit(_))));
    assert!(matches!(parse_args(&["-h"]), Err(Error::Exit(_))));
    assert!(matches!(parse_args(&["-V"]), Err(Error::Exit(_))));
}

#[test]
fn client_commands_parse() {
    assert_eq!(parse_args(&["--next"]).unwrap().command, Some(Command::Next));
    assert_eq!(parse_args(&["--reload"]).unwrap().command, Some(Command::Reload));
}

#[test]
fn conflicting_commands_are_rejected() {
    assert!(matches!(parse_args(&["--next", "--reload"]), Err(Error::Usage(_))));
}

#[test]
fn a_repeated_command_is_harmless() {
    assert_eq!(parse_args(&["--next", "--next"]).unwrap().command, Some(Command::Next));
}

#[test]
fn client_commands_refuse_daemon_options() {
    assert!(matches!(parse_args(&["--next", "--directory", "/pics"]), Err(Error::Usage(_))));
    assert!(matches!(parse_args(&["--next", "--once"]), Err(Error::Usage(_))));
}

// --- settling ---

#[test]
fn a_complete_pass_schedules_nothing() {
    let mut settle = Settle::default();
    assert_eq!(settle.schedule(Pass::Complete, 1_000), None);
}

#[test]
fn an_incomplete_pass_backs_off_up_to_the_ceiling() {
    let mut settle = Settle::default();
    let now = 1_000;
    let mut seen = Vec::new();
    for _ in 0..8 {
        let delay = settle.schedule(Pass::Waiting, now).unwrap();
        settle.fired();
        seen.push(delay);
    }
    assert_eq!(seen.first(), Some(&FIRST_DELAY));
    assert!(seen.windows(2).all(|pair| matches!(pair, [a, b] if b >= a)), "{seen:?}");
    assert_eq!(seen.last(), Some(&MAX_DELAY));
    assert_eq!(seen, vec![250, 500, 1000, 2000, 4000, 4000, 4000, 4000]);
}

#[test]
fn only_one_follow_up_is_ever_in_flight() {
    let mut settle = Settle::default();
    let now = 1_000;
    assert!(settle.schedule(Pass::Waiting, now).is_some());
    assert_eq!(settle.schedule(Pass::Waiting, now), None);
    settle.fired();
    assert!(settle.schedule(Pass::Waiting, now).is_some());
}

#[test]
fn chasing_stops_after_the_grace_and_starts_fresh_next_time() {
    let mut settle = Settle::default();
    let start = 1_000;
    assert!(settle.schedule(Pass::Waiting, start).is_some());
    settle.fired();
    let expired = start + GRACE + 1_000;
    assert_eq!(settle.schedule(Pass::Waiting, expired), None);
    settle.fired();
    assert_eq!(settle.schedule(Pass::Waiting, expired), Some(FIRST_DELAY));
}

#[test]
fn a_complete_pass_resets_the_backoff() {
    let mut settle = Settle::default();
    let now = 1_000;
    assert!(settle.schedule(Pass::Waiting, now).is_some());
    settle.fired();
    assert!(settle.schedule(Pass::Waiting, now).unwrap() > FIRST_DELAY);
    settle.fired();
    assert_eq!(settle.schedule(Pass::Complete, now), None);
    assert_eq!(settle.schedule(Pass::Waiting, now), Some(FIRST_DELAY));
}

#[test]
fn a_clock_at_its_end_still_gets_a_deadline() {
    let mut settle = Settle::default();
    assert_eq!(settle.schedule(Pass::Waiting, u64::MAX), None);
}

// --- the kept state ---

#[test]
fn default_is_current_and_empty() {
    let state = State::default();
    assert!(state.is_current());
    assert!(state.monitors.is_empty());
    assert_eq!(state.cursor, 0);
}

#[test]
fn rejects_a_different_version() {
    let state = State { version: VERSION.wrapping_add(1), ..State::default() };
    assert!(accept(state).is_none());
    assert!(accept(State::default()).is_some());
}

#[test]
fn previous_exposes_the_monitor_map() {
    let state = State {
        monitors: vec![
            ("DP-9".to_string(), "/w/a.jpg".to_string()),
            ("eDP-1".to_string(), "/w/b.png".to_string()),
        ],
        ..State::default()
    };
    let previous = state.previous();
    assert_eq!(
        previous.iter().find(|(k, _)| k == "DP-9").map(|(_, v)| v.as_str()),
        Some("/w/a.jpg")
    );
    assert_eq!(previous.len(), 2);
}

#[test]
fn the_state_file_lives_in_the_data_dir() {
    assert_eq!(
        default_path(None, Some("/home/me")),
        Some("/home/me/.local/share/obayebar/wallpapers.json".to_string())
    );
    assert_eq!(default_path(Some("/d"), None), Some("/d/obayebar/wallpapers.json".to_string()));
    assert_eq!(default_path(None, None), None);
}

// --- identifying and packing images ---

const PNG_MAGIC: &[u8] = b"\x89PNG\r\n\x1a\n\x00\x00\x00\x0dIHDR";
const JPEG_MAGIC: &[u8] = b"\xff\xd8\xff\xe0\x00\x10JFIF\x00";
const GIF_MAGIC: &[u8] = b"GIF89a\x01\x00\x01\x00";

#[test]
fn identifies_by_content_not_extension() {
    assert!(is_supported_image(PNG_MAGIC));
    assert!(is_supported_image(JPEG_MAGIC));
    assert!(is_supported_image(GIF_MAGIC));
    assert!(is_supported_image(b"BM\x00\x00"));
}

#[test]
fn rejects_formats_that_are_not_compiled_in() {
    assert!(!is_supported_image(b"RIFF\x00\x00\x00\x00WEBPVP8 "));
    assert!(!is_supported_image(b"hello, this is not an image"));
}

#[test]
fn tiny_and_empty_files_do_not_panic() {
    assert!(!is_supported_image(b""));
    assert!(!is_supported_image(b"\x89P"));
}

#[test]
fn packing_swaps_red_and_blue_and_makes_alpha_opaque() {
    let mut px = vec![10, 20, 30, 0, 1, 2, 3, 128, 9];
    pack_bgra(&mut px);
    assert_eq!(px, vec![30, 20, 10, 255, 3, 2, 1, 255, 9]);
}

/// A solid-colour PNG, encoded in memory.
fn png(w: u32, h: u32, rgb: [u8; 3]) -> Vec<u8> {
    let buf = image::RgbImage::from_pixel(w, h, image::Rgb(rgb));
    let mut out = std::io::Cursor::new(Vec::new());
    buf.write_to(&mut out, image::ImageFormat::Png).unwrap();
    out.into_inner()
}

#[test]
fn decodes_regardless_of_extension() {
    let out = prepare("/w/lying.jpe", Ok(png(8, 8, [10, 20, 30])), 4, 4).unwrap();
    assert_eq!((out.width, out.height), (4, 4));
    assert_eq!(out.path, "/w/lying.jpe");
}

#[test]
fn scales_to_exactly_the_requested_size() {
    let out = prepare("/w/wide.png", Ok(png(100, 10, [0, 0, 0])), 40, 40).unwrap();
    assert_eq!((out.width, out.height), (40, 40));
    assert_eq!(out.bgra.len(), 40 * 40 * 4);
}

#[test]
fn emits_opaque_bgra_in_that_byte_order() {
    let out = prepare("/w/red.png", Ok(png(4, 4, [255, 0, 0])), 2, 2).unwrap();
    assert_eq!(&out.bgra[0..4], &[0, 0, 255, 255], "little-endian Argb8888 is B,G,R,A in memory");
    assert!(out.bgra.chunks(4).all(|px| px[3] == 0xFF), "wallpapers must be fully opaque");
}

#[test]
fn rejects_a_zero_sized_output() {
    assert!(prepare("/w/a.png", Ok(png(4, 4, [1, 2, 3])), 0, 10).is_err());
    assert!(prepare("/w/a.png", Ok(png(4, 4, [1, 2, 3])), 10, 0).is_err());
}

#[test]
fn reports_a_missing_file_as_a_read_error() {
    let missing = "/tmp/obayebar-decode-test-nope.png";
    assert!(matches!(
        prepare(missing, Err("No such file or directory".to_string()), 4, 4),
        Err(DecodeError::Read { .. })
    ));
}

#[test]
fn reports_a_non_image_as_a_decode_error() {
    assert!(matches!(
        prepare("/w/notes.png", Ok(b"this is not an image".to_vec()), 4, 4),
        Err(DecodeError::Decode { .. })
    ));
}

#[test]
fn a_zero_sized_output_is_refused_before_the_read_is_looked_at() {
    assert!(matches!(
        prepare("/w/a.png", Err("denied".to_string()), 0, 4),
        Err(DecodeError::Empty { .. })
    ));
}

// --- monitor keys of a kept state ---

fn state_keyed(keys: &[&str]) -> State {
    State {
        monitors: keys.iter().map(|k| ((*k).to_string(), format!("/w/{k}.png"))).collect(),
        ..State::default()
    }
}

#[test]
fn a_state_with_ascending_keys_is_accepted() {
    assert!(accept(state_keyed(&["A", "B", "Dell U2518D"])).is_some());
    assert!(accept(state_keyed(&["DP-1"])).is_some());
    assert!(accept(state_keyed(&["ab", "abc"])).is_some(), "a prefix sorts first");
}

#[test]
fn a_state_with_a_repeated_or_unordered_key_is_refused() {
    assert!(accept(state_keyed(&["A", "A"])).is_none());
    assert!(accept(state_keyed(&["B", "A"])).is_none());
    assert!(accept(state_keyed(&["abc", "ab"])).is_none());
}

// --- buffer sizing and redraws ---

use obayebar::wallpaper::render::{buffer_size, draw_size, needs_draw};

#[test]
fn a_zero_sized_surface_gets_no_buffer() {
    assert_eq!(buffer_size((0, 1504), 2, Some((2256, 1504)), true), None);
    assert_eq!(buffer_size((1504, 0), 1, None, false), None);
}

#[test]
fn with_a_viewport_the_buffer_has_the_size_of_the_panel() {
    // A 2256x1504 panel at integer scale 2 would otherwise get 2256x1504 * 2
    // on a 1128x752 surface, three times the pixels the panel has.
    assert_eq!(buffer_size((1128, 752), 2, Some((2256, 1504)), true), Some((2256, 1504)));
}

#[test]
fn without_a_viewport_or_a_mode_the_surface_is_scaled() {
    assert_eq!(buffer_size((1128, 752), 2, Some((2256, 1504)), false), Some((2256, 1504)));
    assert_eq!(buffer_size((1920, 1200), 2, Some((2256, 1504)), false), Some((3840, 2400)));
    assert_eq!(buffer_size((1920, 1080), 3, None, true), Some((5760, 3240)));
}

#[test]
fn a_scale_below_one_counts_as_one() {
    assert_eq!(buffer_size((1920, 1080), 0, None, false), Some((1920, 1080)));
    assert_eq!(buffer_size((1920, 1080), -3, None, false), Some((1920, 1080)));
}

#[test]
fn an_overflowing_buffer_size_is_refused() {
    assert_eq!(buffer_size((u32::MAX / 2 + 1, 10), 2, None, false), None);
    assert_eq!(buffer_size((10, u32::MAX), 2, None, false), None);
}

#[test]
fn the_same_picture_at_the_same_size_is_not_drawn_again() {
    let drawn = Some(("/w/a.png".to_string(), 2256, 1504));
    assert!(!needs_draw(&drawn, "/w/a.png", 2256, 1504));
    assert!(needs_draw(&drawn, "/w/a.png", 1920, 1504));
    assert!(needs_draw(&drawn, "/w/a.png", 2256, 1080));
    assert!(needs_draw(&drawn, "/w/b.png", 2256, 1504));
    assert!(needs_draw(&None, "/w/a.png", 2256, 1504));
}

#[test]
fn drawing_waits_for_a_configure_and_a_picture() {
    let wanted = Some("/w/a.png".to_string());
    assert_eq!(draw_size(false, (1920, 1080), 1, None, false, &wanted, &None), None);
    assert_eq!(draw_size(true, (1920, 1080), 1, None, false, &None, &None), None);
    assert_eq!(draw_size(true, (0, 1080), 1, None, false, &wanted, &None), None);
    assert_eq!(draw_size(true, (1920, 1080), 1, None, false, &wanted, &None), Some((1920, 1080)));
    let drawn = Some(("/w/a.png".to_string(), 1920, 1080));
    assert_eq!(draw_size(true, (1920, 1080), 1, None, false, &wanted, &drawn), None);
    assert_eq!(draw_size(true, (1920, 1080), 2, None, false, &wanted, &drawn), Some((3840, 2160)));
}

// --- identifying files by content ---

#[test]
fn formats_this_build_does_not_decode_are_refused() {
    assert!(!is_supported_image(b"II*\x00rest of a tiff"));
    assert!(!is_supported_image(b"MM\x00*"));
    assert!(!is_supported_image(b"P6\n4 4\n255\n"));
    assert!(!is_supported_image(b"qoif...."));
    assert!(!is_supported_image(b"\x00\x00\x00\x1cftypavif"));
    assert!(!is_supported_image(b"RIFF"), "too short to be a WebP, and no other format");
    assert!(is_supported_image(b"GIF87a...."));
    assert!(!is_supported_image(b"GIF88a"));
}

// --- following an uncovered monitor ---

#[test]
fn a_chase_that_outlives_its_grace_starts_over_fresh() {
    let mut s = Settle::default();
    let delays: Vec<Option<u64>> = (0..8)
        .map(|_| {
            let d = s.schedule(Pass::Waiting, 1_000);
            s.fired();
            d
        })
        .collect();
    assert_eq!(
        delays,
        vec![Some(250), Some(500), Some(1000), Some(2000), Some(4000), Some(4000), Some(4000), Some(4000)]
    );
    assert_eq!(s.schedule(Pass::Waiting, 1_000 + GRACE), None);
    assert_eq!(s.schedule(Pass::Waiting, 1_000 + GRACE), Some(FIRST_DELAY));
    s.fired();
    assert_eq!(s.schedule(Pass::Waiting, 1_000 + 2 * GRACE - 1), Some(2 * FIRST_DELAY));
    s.fired();
    assert_eq!(s.schedule(Pass::Waiting, 1_000 + 2 * GRACE), None);
}

// --- which picture goes on which monitor ---

use obayebar::hypr::MonitorInfo;
use obayebar::wallpaper::rotation::{
    begin_pass, finish_pass, same_items, trigger_for, Assignment, Idle, Pending, Trigger,
};

fn monitor(name: &str, description: &str) -> MonitorInfo {
    MonitorInfo {
        name: name.to_string(),
        description: description.to_string(),
        mirror_of: "none".to_string(),
        ..MonitorInfo::default()
    }
}

fn strings(names: &[&str]) -> Vec<String> {
    names.iter().map(|s| (*s).to_string()).collect()
}

fn state_with(monitors: &[(&str, &str)], order: &[&str], cursor: usize) -> State {
    State {
        version: VERSION,
        monitors: monitors.iter().map(|(k, v)| ((*k).to_string(), (*v).to_string())).collect(),
        order: strings(order),
        cursor,
    }
}

/// A stand-in for the shuffle, which is not part of this library: any
/// reordering of the pool will do; this one reverses it.
fn shuffle(available: &[String]) -> Vec<String> {
    available.iter().rev().cloned().collect()
}

/// A stand-in for the dealing, which is not part of this library: deal the
/// order from the cursor, wrapping round, and skip a picture once when it is
/// the one the monitor already shows.
fn deal(pending: &Pending, previous: &State, order: &[String], cursor: usize) -> (Vec<(String, String)>, usize) {
    let mut at = cursor;
    let mut dealt = Vec::new();
    for key in &pending.needs {
        let current = previous.monitors.iter().find(|(k, _)| k == key).map(|(_, p)| p.clone());
        let mut pick = order[at % order.len()].clone();
        if order.len() > 1 && current.as_ref() == Some(&pick) {
            at += 1;
            pick = order[at % order.len()].clone();
        }
        dealt.push((key.clone(), pick));
        at += 1;
    }
    (dealt, at % order.len())
}

fn decide(monitors: &[MonitorInfo], available: &[String], previous: &State, trigger: Trigger) -> Result<Assignment, Idle> {
    let pending = begin_pass(&monitors.to_vec(), &available.to_vec(), previous, trigger)?;
    let shuffled = if pending.keep_order { None } else { Some(shuffle(available)) };
    let (order, cursor) = match &shuffled {
        Some(s) => (s.clone(), 0),
        None => (previous.order.clone(), previous.cursor),
    };
    let dealt = if pending.needs.is_empty() { None } else { Some(deal(&pending, previous, &order, cursor)) };
    finish_pass(pending, previous, &available.to_vec(), shuffled, dealt)
}

fn port<'a>(a: &'a Assignment, name: &str) -> Option<&'a str> {
    a.by_port.iter().find(|(p, _)| p == name).map(|(_, w)| w.as_str())
}

#[test]
fn no_usable_monitors_is_idle() {
    let mut mirrored = monitor("DP-2", "B");
    mirrored.mirror_of = "DP-1".to_string();
    let mut off = monitor("DP-3", "C");
    off.disabled = true;
    assert_eq!(
        decide(&[mirrored, off], &strings(&["a"]), &State::default(), Trigger::Restore),
        Err(Idle::NoMonitors)
    );
}

#[test]
fn no_wallpapers_is_idle() {
    assert_eq!(decide(&[monitor("DP-1", "A")], &[], &State::default(), Trigger::Restore), Err(Idle::NoWallpapers));
}

#[test]
fn first_run_assigns_every_monitor() {
    let out = decide(
        &[monitor("DP-1", "A"), monitor("DP-2", "B")],
        &strings(&["x", "y", "z"]),
        &State::default(),
        Trigger::Restore,
    )
    .unwrap();
    assert_eq!(out.by_port.len(), 2);
    assert!(port(&out, "DP-1").is_some());
    assert!(port(&out, "DP-2").is_some());
    // Keyed by description on disk, by port for the renderer.
    assert!(out.state.monitors.iter().any(|(k, _)| k == "A"));
}

#[test]
fn restore_keeps_what_each_monitor_had() {
    let previous = state_with(&[("A", "x"), ("B", "y")], &["x", "y", "z"], 2);
    let pending = begin_pass(
        &vec![monitor("DP-1", "A"), monitor("DP-2", "B")],
        &strings(&["x", "y", "z"]),
        &previous,
        Trigger::Restore,
    )
    .unwrap();
    assert!(pending.needs.is_empty(), "a restore deals nothing");
    let out = decide(
        &[monitor("DP-1", "A"), monitor("DP-2", "B")],
        &strings(&["x", "y", "z"]),
        &previous,
        Trigger::Restore,
    )
    .unwrap();
    assert_eq!(port(&out, "DP-1"), Some("x"));
    assert_eq!(port(&out, "DP-2"), Some("y"));
    assert_eq!(out.state.cursor, previous.cursor, "a restore consumes nothing");
}

#[test]
fn restore_survives_a_port_reshuffle() {
    let previous = state_with(&[("A", "x"), ("B", "y")], &["x", "y", "z"], 2);
    let out = decide(
        &[monitor("DP-2", "A"), monitor("DP-1", "B")],
        &strings(&["x", "y", "z"]),
        &previous,
        Trigger::Restore,
    )
    .unwrap();
    assert_eq!(port(&out, "DP-2"), Some("x"));
    assert_eq!(port(&out, "DP-1"), Some("y"));
    assert_eq!(out.state.cursor, previous.cursor, "nothing was consumed");
}

#[test]
fn hotplug_fills_only_the_new_monitor() {
    let previous = state_with(&[("A", "x")], &["x", "y", "z"], 1);
    let pending = begin_pass(
        &vec![monitor("DP-1", "A"), monitor("DP-2", "B")],
        &strings(&["x", "y", "z"]),
        &previous,
        Trigger::Hotplug,
    )
    .unwrap();
    assert_eq!(pending.needs, strings(&["B"]));
    let out = decide(
        &[monitor("DP-1", "A"), monitor("DP-2", "B")],
        &strings(&["x", "y", "z"]),
        &previous,
        Trigger::Hotplug,
    )
    .unwrap();
    assert_eq!(port(&out, "DP-1"), Some("x"), "the existing monitor must not flicker");
    assert!(port(&out, "DP-2").is_some());
}

#[test]
fn a_rotation_deals_to_every_monitor() {
    let previous = state_with(&[("A", "x"), ("B", "y")], &["x", "y", "z"], 0);
    let pending = begin_pass(
        &vec![monitor("DP-1", "A"), monitor("DP-2", "B")],
        &strings(&["x", "y", "z"]),
        &previous,
        Trigger::Rotate,
    )
    .unwrap();
    assert_eq!(pending.needs, strings(&["A", "B"]));
    assert!(pending.kept.is_empty());
    assert!(pending.keep_order);
}

#[test]
fn a_vanished_file_is_replaced_even_on_restore() {
    let previous = state_with(&[("A", "gone")], &["x", "y"], 0);
    let out = decide(&[monitor("DP-1", "A")], &strings(&["x", "y"]), &previous, Trigger::Restore).unwrap();
    let assigned = port(&out, "DP-1").unwrap();
    assert!(assigned == "x" || assigned == "y");
}

#[test]
fn a_changed_pool_is_shuffled_anew() {
    let previous = state_with(&[("A", "x")], &["x", "y"], 1);
    let pending =
        begin_pass(&vec![monitor("DP-1", "A")], &strings(&["x", "y", "brand-new"]), &previous, Trigger::Rotate).unwrap();
    assert!(!pending.keep_order);
    let shrunk =
        begin_pass(&vec![monitor("DP-1", "A")], &strings(&["x"]), &previous, Trigger::Rotate).unwrap();
    assert!(!shrunk.keep_order);
    let doubled = begin_pass(&vec![monitor("DP-1", "A")], &strings(&["x", "x"]), &state_with(&[], &["x", "y"], 0), Trigger::Rotate).unwrap();
    assert!(!doubled.keep_order, "the same count of the same pictures, not merely the same names");
    let empty = begin_pass(&vec![monitor("DP-1", "A")], &strings(&["x"]), &State::default(), Trigger::Restore).unwrap();
    assert!(!empty.keep_order, "no order kept yet");
}

#[test]
fn rotate_changes_every_monitor() {
    let previous = state_with(&[("A", "x"), ("B", "y")], &["x", "y", "z"], 0);
    let out = decide(
        &[monitor("DP-1", "A"), monitor("DP-2", "B")],
        &strings(&["x", "y", "z"]),
        &previous,
        Trigger::Rotate,
    )
    .unwrap();
    assert_eq!(out.by_port.len(), 2);
    assert_ne!(port(&out, "DP-1"), Some("x"));
    assert_ne!(port(&out, "DP-2"), Some("y"));
}

#[test]
fn a_changed_pool_reshuffles_and_resets_the_cursor() {
    let previous = state_with(&[("A", "x")], &["x", "y"], 1);
    let out = decide(&[monitor("DP-1", "A")], &strings(&["x", "y", "brand-new"]), &previous, Trigger::Rotate).unwrap();
    assert_eq!(out.state.order.len(), 3);
    let mut sorted = out.state.order;
    sorted.sort();
    assert_eq!(sorted, strings(&["brand-new", "x", "y"]));
}

#[test]
fn the_order_and_cursor_are_chosen_by_the_pool() {
    let previous = state_with(&[("A", "x"), ("B", "y")], &["y", "z", "x"], 2);
    let pending = begin_pass(
        &vec![monitor("DP-1", "A"), monitor("DP-2", "B")],
        &strings(&["x", "y", "z"]),
        &previous,
        Trigger::Restore,
    )
    .unwrap();
    assert!(pending.keep_order);
    // Same pool, nothing dealt: the kept order and cursor stay.
    let out = finish_pass(pending, &previous, &strings(&["x", "y", "z"]), None, None).unwrap();
    assert_eq!(out.state.order, strings(&["y", "z", "x"]));
    assert_eq!(out.state.cursor, 2);

    // A changed pool takes the fresh shuffle, counted from its head.
    let pending = begin_pass(&vec![monitor("DP-1", "A")], &strings(&["x", "y"]), &previous, Trigger::Restore).unwrap();
    assert!(!pending.keep_order);
    let out = finish_pass(pending, &previous, &strings(&["x", "y"]), Some(strings(&["y", "x"])), None).unwrap();
    assert_eq!(out.state.order, strings(&["y", "x"]));
    assert_eq!(out.state.cursor, 0);

    // Dealing moves the cursor.
    let pending = begin_pass(&vec![monitor("DP-1", "C")], &strings(&["x", "y", "z"]), &previous, Trigger::Hotplug).unwrap();
    assert_eq!(pending.needs, strings(&["C"]));
    let out = finish_pass(pending, &previous, &strings(&["x", "y", "z"]), None, Some((vec![("C".to_string(), "x".to_string())], 0))).unwrap();
    assert_eq!(out.state.cursor, 0);
    assert_eq!(port(&out, "DP-1"), Some("x"));
}

#[test]
fn same_items_counts_each_picture() {
    assert!(same_items(&strings(&["a", "b", "a"]), &strings(&["a", "a", "b"])));
    assert!(!same_items(&strings(&["a", "b"]), &strings(&["a", "a"])));
    assert!(!same_items(&strings(&["a"]), &strings(&["a", "a"])));
    assert!(same_items(&strings(&[]), &strings(&[])));
}

#[test]
fn a_reordered_pool_of_the_same_files_is_not_a_change() {
    let previous = state_with(&[("A", "y")], &["y", "x"], 1);
    let out = decide(&[monitor("DP-1", "A")], &strings(&["x", "y"]), &previous, Trigger::Rotate).unwrap();
    assert_eq!(out.state.order, strings(&["y", "x"]), "cursor context preserved");
}

#[test]
fn a_monitor_without_a_description_still_gets_a_wallpaper() {
    let out = decide(&[monitor("DP-1", "")], &strings(&["x"]), &State::default(), Trigger::Restore).unwrap();
    assert!(port(&out, "DP-1").is_some());
    // Falls back to keying on the port name.
    assert!(out.state.monitors.iter().any(|(k, _)| k == "DP-1"));
}

#[test]
fn a_pass_keeps_its_state_in_key_order() {
    let out = decide(
        &[monitor("DP-1", "Zed"), monitor("DP-2", "Alpha"), monitor("DP-3", "Mid")],
        &strings(&["x", "y", "z"]),
        &State::default(),
        Trigger::Restore,
    )
    .unwrap();
    let keys: Vec<&str> = out.state.monitors.iter().map(|(k, _)| k.as_str()).collect();
    assert_eq!(keys, vec!["Alpha", "Mid", "Zed"]);
    let ports: Vec<&str> = out.by_port.iter().map(|(p, _)| p.as_str()).collect();
    assert_eq!(ports, vec!["DP-1", "DP-2", "DP-3"]);
    assert!(accept(out.state).is_some());
}

#[test]
fn dealing_nothing_to_a_monitor_is_idle() {
    let pending = begin_pass(&vec![monitor("DP-1", "A")], &strings(&["x"]), &State::default(), Trigger::Restore).unwrap();
    assert!(!pending.keep_order);
    assert_eq!(
        finish_pass(pending, &State::default(), &strings(&["x"]), Some(strings(&["x"])), Some((Vec::new(), 0))),
        Err(Idle::NoWallpapers)
    );
}

#[test]
fn daemon_commands_ask_for_their_pass() {
    assert_eq!(trigger_for(Command::Next), Trigger::Rotate);
    assert_eq!(trigger_for(Command::Reload), Trigger::Restore);
}
