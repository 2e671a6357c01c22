use obayebar::media::art::{decode, hex_byte, percent_decode, Art, ArtCache, ArtSource, Cover, CACHE_CAPACITY};
use obayebar::media::art_cache::ArtCache as LruArtCache;
use obayebar::media::controls::{Controls, PlayPause, SeekTarget};
use obayebar::media::player::{
    fallback_identity, is_player_name, parse_player, parse_track, resolve_read, snapshot, Capabilities,
    MetadataProps, PlayerProps, Command, LoopStatus,
    PlaybackStatus, Player, PlayerEntry, Track,
};
use obayebar::media::selection::{Rotation, Selection};
use obayebar::media::state::{command_for, Action, MediaState, Trigger};

fn test_player(bus: &str, status: PlaybackStatus) -> Player {
    Player {
        bus_name: bus.to_string(),
        identity: bus.to_string(),
        status,
        track: Track::default(),
        capabilities: Capabilities::default(),
        loop_status: None,
        shuffle: None,
    }
}

// --- players ---

#[test]
fn a_title_less_track_falls_back_to_the_players_identity() {
    let p = Player { identity: "Spotify".to_string(), ..test_player("b", PlaybackStatus::Stopped) };
    assert_eq!(p.title(), "Spotify");
}

#[test]
fn no_artists_means_no_artist_line() {
    assert_eq!(Track::default().artists_line(), None);
    let t = Track { artists: vec!["A".to_string(), "B".to_string()], ..Track::default() };
    assert_eq!(t.artists_line().as_deref(), Some("A, B"));
}

#[test]
fn fallback_identity_is_the_first_name_segment() {
    assert_eq!(fallback_identity("org.mpris.MediaPlayer2.firefox.instance_1_42"), "firefox");
    assert_eq!(fallback_identity("org.mpris.MediaPlayer2.mpv"), "mpv");
    assert_eq!(fallback_identity("weird"), "weird");
}

#[test]
fn unknown_status_strings_are_rejected() {
    assert_eq!(PlaybackStatus::parse("Paused"), Some(PlaybackStatus::Paused));
    assert_eq!(PlaybackStatus::parse("Buffering"), None);
    assert_eq!(LoopStatus::parse("Track"), Some(LoopStatus::Track));
    assert_eq!(LoopStatus::parse("track"), None);
}

#[test]
fn loop_status_cycles_through_all_three() {
    assert_eq!(LoopStatus::Off.next(), LoopStatus::Track);
    assert_eq!(LoopStatus::Track.next(), LoopStatus::Playlist);
    assert_eq!(LoopStatus::Playlist.next(), LoopStatus::Off);
}

#[test]
fn loop_status_round_trips_through_its_wire_name() {
    for status in [LoopStatus::Off, LoopStatus::Track, LoopStatus::Playlist] {
        assert_eq!(LoopStatus::parse(status.as_str()), Some(status));
    }
    assert_eq!(LoopStatus::Off.as_str(), "None");
}

#[test]
fn playerctld_is_not_a_player() {
    assert!(is_player_name("org.mpris.MediaPlayer2.spotify"));
    assert!(!is_player_name("org.mpris.MediaPlayer2.playerctld"));
    assert!(!is_player_name("org.freedesktop.Notifications"));
}

fn entry(owner: &str, player: Option<Player>) -> PlayerEntry {
    PlayerEntry { owner: owner.to_string(), player }
}

#[test]
fn a_successful_read_replaces_whatever_was_there() {
    let fresh = test_player("a", PlaybackStatus::Playing);
    let resolved = resolve_read(None, ":1.1", Some(fresh.clone()));
    assert_eq!(resolved.player, Some(fresh));
}

#[test]
fn a_failed_read_keeps_the_previous_player_under_the_same_owner() {
    let previous = entry(":1.1", Some(test_player("a", PlaybackStatus::Playing)));
    let resolved = resolve_read(Some(&previous), ":1.1", None);
    assert_eq!(resolved.player, previous.player);
}

#[test]
fn a_failed_read_under_a_new_owner_is_unread() {
    let previous = entry(":1.1", Some(test_player("a", PlaybackStatus::Playing)));
    let resolved = resolve_read(Some(&previous), ":1.2", None);
    assert_eq!(resolved.player, None);
    assert_eq!(resolved.owner, ":1.2");
}

// --- which player is shown ---

fn player(bus: &str, status: PlaybackStatus) -> Player {
    test_player(bus, status)
}

fn active_bus(selection: &Selection, players: &[Player]) -> Option<String> {
    selection.active(players).map(|p| p.bus_name.clone())
}

#[test]
fn no_players_means_no_active_player() {
    let mut selection = Selection::default();
    selection.observe(&[]);
    assert_eq!(active_bus(&selection, &[]), None);
}

#[test]
fn falls_back_to_the_last_player_seen() {
    let mut selection = Selection::default();
    selection.observe(&[player("a", PlaybackStatus::Paused)]);
    let both = [player("a", PlaybackStatus::Paused), player("b", PlaybackStatus::Stopped)];
    selection.observe(&both);
    assert_eq!(active_bus(&selection, &both), Some("b".to_string()));
}

#[test]
fn the_most_recent_player_to_start_wins() {
    let mut selection = Selection::default();
    let a_plays = [player("a", PlaybackStatus::Playing), player("b", PlaybackStatus::Paused)];
    selection.observe(&a_plays);
    assert_eq!(active_bus(&selection, &a_plays), Some("a".to_string()));
    let both_play = [player("a", PlaybackStatus::Playing), player("b", PlaybackStatus::Playing)];
    selection.observe(&both_play);
    assert_eq!(active_bus(&selection, &both_play), Some("b".to_string()));
}

#[test]
fn pausing_keeps_the_player_active() {
    let mut selection = Selection::default();
    selection.observe(&[player("a", PlaybackStatus::Playing), player("b", PlaybackStatus::Paused)]);
    let paused = [player("a", PlaybackStatus::Paused), player("b", PlaybackStatus::Paused)];
    selection.observe(&paused);
    assert_eq!(active_bus(&selection, &paused), Some("a".to_string()));
}

#[test]
fn a_vanished_active_player_hands_over() {
    let mut selection = Selection::default();
    selection.observe(&[player("a", PlaybackStatus::Paused), player("b", PlaybackStatus::Playing)]);
    let left = [player("a", PlaybackStatus::Paused)];
    selection.observe(&left);
    assert_eq!(active_bus(&selection, &left), Some("a".to_string()));
}

#[test]
fn cycling_pins_the_next_player_and_wraps() {
    let mut selection = Selection::default();
    let players = [
        player("a", PlaybackStatus::Playing),
        player("b", PlaybackStatus::Paused),
        player("c", PlaybackStatus::Paused),
    ];
    selection.observe(&players);
    selection.cycle(&players);
    assert_eq!(active_bus(&selection, &players), Some("b".to_string()));
    selection.cycle(&players);
    assert_eq!(active_bus(&selection, &players), Some("c".to_string()));
    selection.cycle(&players);
    assert_eq!(active_bus(&selection, &players), Some("a".to_string()));
}

#[test]
fn a_lone_player_has_no_rotation() {
    let mut selection = Selection::default();
    assert_eq!(selection.rotation(&[]), None);
    let alone = [player("a", PlaybackStatus::Playing)];
    selection.observe(&alone);
    assert_eq!(selection.rotation(&alone), None);
}

#[test]
fn the_rotation_follows_the_active_player() {
    let mut selection = Selection::default();
    let players = [
        player("a", PlaybackStatus::Playing),
        player("b", PlaybackStatus::Paused),
        player("c", PlaybackStatus::Paused),
    ];
    selection.observe(&players);
    assert_eq!(selection.rotation(&players), Some(Rotation { index: 1, total: 3 }));
    selection.cycle(&players);
    assert_eq!(selection.rotation(&players), Some(Rotation { index: 2, total: 3 }));
}

#[test]
fn a_pin_survives_updates_until_another_player_starts() {
    let mut selection = Selection::default();
    let players = [
        player("a", PlaybackStatus::Playing),
        player("b", PlaybackStatus::Paused),
        player("c", PlaybackStatus::Paused),
    ];
    selection.observe(&players);
    selection.cycle(&players);
    selection.observe(&players);
    assert_eq!(active_bus(&selection, &players), Some("b".to_string()));
    let c_starts = [
        player("a", PlaybackStatus::Playing),
        player("b", PlaybackStatus::Paused),
        player("c", PlaybackStatus::Playing),
    ];
    selection.observe(&c_starts);
    assert_eq!(active_bus(&selection, &c_starts), Some("c".to_string()));
}

#[test]
fn the_pinned_player_starting_keeps_its_pin() {
    let mut selection = Selection::default();
    let players = [player("a", PlaybackStatus::Playing), player("b", PlaybackStatus::Paused)];
    selection.observe(&players);
    selection.cycle(&players);
    let b_starts = [player("a", PlaybackStatus::Playing), player("b", PlaybackStatus::Playing)];
    selection.observe(&b_starts);
    assert_eq!(active_bus(&selection, &b_starts), Some("b".to_string()));
}

#[test]
fn a_relaunched_player_does_not_steal_the_active_one_it_never_started() {
    let mut selection = Selection::default();
    selection.observe(&[
        player("spotify", PlaybackStatus::Playing),
        player("firefox", PlaybackStatus::Paused),
    ]);
    let firefox_starts = [
        player("spotify", PlaybackStatus::Playing),
        player("firefox", PlaybackStatus::Playing),
    ];
    selection.observe(&firefox_starts);
    let firefox_quits = [player("spotify", PlaybackStatus::Playing)];
    selection.observe(&firefox_quits);
    assert_eq!(active_bus(&selection, &firefox_quits), Some("spotify".to_string()));
    let firefox_relaunches_paused = [
        player("spotify", PlaybackStatus::Playing),
        player("firefox", PlaybackStatus::Paused),
    ];
    selection.observe(&firefox_relaunches_paused);
    assert_eq!(active_bus(&selection, &firefox_relaunches_paused), Some("spotify".to_string()));
}

#[test]
fn a_disappearing_pin_is_dropped_rather_than_reclaimed_on_relaunch() {
    let mut selection = Selection::default();
    let players = [player("firefox", PlaybackStatus::Playing), player("spotify", PlaybackStatus::Paused)];
    selection.observe(&players);
    selection.cycle(&players);
    assert_eq!(active_bus(&selection, &players), Some("spotify".to_string()));
    let spotify_quits = [player("firefox", PlaybackStatus::Playing)];
    selection.observe(&spotify_quits);
    assert_eq!(active_bus(&selection, &spotify_quits), Some("firefox".to_string()));
    let spotify_relaunches_paused = [
        player("firefox", PlaybackStatus::Playing),
        player("spotify", PlaybackStatus::Paused),
    ];
    selection.observe(&spotify_relaunches_paused);
    assert_eq!(active_bus(&selection, &spotify_relaunches_paused), Some("firefox".to_string()));
}

// --- controls ---

fn capable(capabilities: Capabilities) -> Player {
    Player {
        capabilities,
        loop_status: Some(LoopStatus::Track),
        shuffle: Some(false),
        track: Track {
            id: Some("/track/1".to_string()),
            length: Some(200_000_000),
            ..Track::default()
        },
        ..test_player("org.mpris.MediaPlayer2.test", PlaybackStatus::Playing)
    }
}

#[test]
fn a_fully_capable_player_shows_every_control() {
    let controls = Controls::for_player(&capable(Capabilities::all()));
    assert_eq!(
        controls,
        Controls {
            previous: true,
            next: true,
            play_pause: Some(PlayPause::Pause),
            loop_status: Some(LoopStatus::Track),
            shuffle: Some(false),
            seek: Some(SeekTarget { track: "/track/1".to_string(), length: 200_000_000 }),
        }
    );
}

#[test]
fn unsupported_skips_are_hidden() {
    let controls = Controls::for_player(&capable(Capabilities { go_previous: false, ..Capabilities::all() }));
    assert!(!controls.previous);
    assert!(controls.next);
    let controls = Controls::for_player(&capable(Capabilities { go_next: false, ..Capabilities::all() }));
    assert!(controls.previous);
    assert!(!controls.next);
}

#[test]
fn play_pause_needs_either_capability() {
    let neither = Capabilities { play: false, pause: false, ..Capabilities::all() };
    assert_eq!(Controls::for_player(&capable(neither)).play_pause, None);
    let pause_only = Capabilities { control: true, pause: true, ..Capabilities::none() };
    assert_eq!(Controls::for_player(&capable(pause_only)).play_pause, Some(PlayPause::Pause));
    let mut paused = capable(Capabilities { control: true, play: true, ..Capabilities::none() });
    paused.status = PlaybackStatus::Paused;
    assert_eq!(Controls::for_player(&paused).play_pause, Some(PlayPause::Play));
}

#[test]
fn absent_loop_and_shuffle_are_hidden() {
    let mut p = capable(Capabilities::all());
    p.loop_status = None;
    p.shuffle = None;
    let controls = Controls::for_player(&p);
    assert_eq!(controls.loop_status, None);
    assert_eq!(controls.shuffle, None);
}

#[test]
fn a_player_that_cannot_be_controlled_shows_nothing() {
    let controls = Controls::for_player(&capable(Capabilities { control: false, ..Capabilities::all() }));
    assert_eq!(controls, Controls::default());
}

#[test]
fn seeking_needs_the_capability_a_track_id_and_a_length() {
    assert_eq!(
        Controls::for_player(&capable(Capabilities { seek: false, ..Capabilities::all() })).seek,
        None
    );
    let mut no_id = capable(Capabilities::all());
    no_id.track.id = None;
    assert_eq!(Controls::for_player(&no_id).seek, None);
    let mut no_length = capable(Capabilities::all());
    no_length.track.length = None;
    assert_eq!(Controls::for_player(&no_length).seek, None);
}

#[test]
fn an_action_becomes_its_command_only_when_offered() {
    let controls = Controls::for_player(&capable(Capabilities::all()));
    assert_eq!(command_for(&controls, Action::CycleLoop), Some(Command::SetLoopStatus(LoopStatus::Playlist)));
    assert_eq!(command_for(&controls, Action::ToggleShuffle), Some(Command::SetShuffle(true)));
    assert_eq!(
        command_for(&controls, Action::Seek(3_000_000)),
        Some(Command::SetPosition { track: "/track/1".to_string(), position: 3_000_000 })
    );
    assert_eq!(command_for(&Controls::default(), Action::Next), None);
}

// --- cover art ---

#[test]
fn file_urls_become_decoded_paths() {
    assert_eq!(
        ArtSource::parse("file:///home/me/My%20Music/cover%C3%A9.jpg"),
        Some(ArtSource::File("/home/me/My Music/cover\u{e9}.jpg".to_string()))
    );
    assert_eq!(
        ArtSource::parse("file://localhost/a%2Fb.png"),
        Some(ArtSource::File("/a/b.png".to_string()))
    );
}

#[test]
fn http_urls_are_fetched_as_given() {
    for url in ["https://i.scdn.co/image/ab67", "http://localhost/a%20b.png"] {
        assert_eq!(ArtSource::parse(url), Some(ArtSource::Http(url.to_string())));
    }
}

#[test]
fn other_schemes_are_not_supported() {
    assert_eq!(ArtSource::parse("data:image/png;base64,AAAA"), None);
    assert_eq!(ArtSource::parse("/no/scheme.png"), None);
}

#[test]
fn malformed_escapes_are_kept_literally() {
    assert_eq!(percent_decode("100%"), "100%");
    assert_eq!(percent_decode("%zz%4"), "%zz%4");
    assert_eq!(percent_decode("a%2Fb"), "a/b");
    assert_eq!(percent_decode("%ff"), "\u{fffd}");
}

#[test]
fn hex_digits_of_either_case_spell_a_byte() {
    assert_eq!(hex_byte(b'2', b'F'), Some(0x2f));
    assert_eq!(hex_byte(b'a', b'0'), Some(0xa0));
    assert_eq!(hex_byte(b'g', b'0'), None);
}

fn loaded() -> Art {
    Art::Loaded(Cover { width: 1, height: 1, pixels: vec![0; 4] })
}

#[test]
fn media_art_a_url_is_requested_once_until_it_lands() {
    let mut cache = ArtCache::default();
    assert!(cache.request("a"));
    assert!(!cache.request("a"));
    cache.insert("a".to_string(), loaded());
    assert!(!cache.request("a"));
    assert!(matches!(cache.get("a"), Some(Art::Loaded(_))));
}

#[test]
fn media_art_a_failed_fetch_is_not_retried() {
    let mut cache = ArtCache::default();
    assert!(cache.request("a"));
    cache.insert("a".to_string(), Art::Failed);
    assert!(!cache.request("a"));
    assert!(matches!(cache.get("a"), Some(Art::Failed)));
}

#[test]
fn media_art_a_new_track_can_be_requested_while_another_is_pending() {
    let mut cache = ArtCache::default();
    assert!(cache.request("a"));
    assert!(cache.request("b"));
}

#[test]
fn the_oldest_cover_is_evicted_past_capacity() {
    let mut cache = ArtCache::default();
    for i in 0..=CACHE_CAPACITY {
        cache.insert(i.to_string(), loaded());
    }
    assert!(cache.get("0").is_none());
    assert!(cache.get("1").is_some());
    assert!(cache.get(&CACHE_CAPACITY.to_string()).is_some());
}

#[test]
fn garbage_does_not_decode() {
    assert!(decode(b"not an image").is_none());
}

#[test]
fn a_real_image_decodes_to_rgba() {
    let mut bytes = std::io::Cursor::new(Vec::new());
    image::RgbaImage::new(4, 2).write_to(&mut bytes, image::ImageFormat::Png).unwrap();
    let cover = decode(&bytes.into_inner()).unwrap();
    assert_eq!((cover.width, cover.height), (4, 2));
    assert_eq!(cover.pixels.len(), 4 * 2 * 4);
}

#[test]
fn decoding_downscales_large_covers_keeping_the_aspect() {
    let mut bytes = std::io::Cursor::new(Vec::new());
    image::RgbaImage::new(2048, 1024).write_to(&mut bytes, image::ImageFormat::Png).unwrap();
    let cover = decode(&bytes.into_inner()).unwrap();
    assert_eq!((cover.width, cover.height), (512, 256));
}

// --- the LRU cover cache ---

#[test]
fn art_cache_a_url_is_requested_once_until_it_lands() {
    let mut cache = LruArtCache::new();
    assert!(cache.request("a"));
    assert!(!cache.request("a"));
    cache.insert("a".to_string(), loaded());
    assert!(!cache.request("a"));
    assert!(matches!(cache.peek("a"), Some(Art::Loaded(_))));
}

#[test]
fn art_cache_a_failed_fetch_is_not_retried() {
    let mut cache = LruArtCache::new();
    assert!(cache.request("a"));
    cache.insert("a".to_string(), Art::Failed);
    assert!(!cache.request("a"));
    assert!(matches!(cache.peek("a"), Some(Art::Failed)));
}

#[test]
fn art_cache_a_new_track_can_be_requested_while_another_is_pending() {
    let mut cache = LruArtCache::new();
    assert!(cache.request("a"));
    assert!(cache.request("b"));
}

#[test]
fn an_older_pending_url_is_not_requested_again() {
    let mut cache = LruArtCache::new();
    assert!(cache.request("a"));
    assert!(cache.request("b"));
    assert!(!cache.request("a"));
}

#[test]
fn the_least_recently_used_cover_is_evicted_past_capacity() {
    let mut cache = LruArtCache::new();
    for i in 0..=CACHE_CAPACITY {
        cache.insert(i.to_string(), loaded());
    }
    assert!(cache.peek("0").is_none());
    assert!(cache.peek("1").is_some());
    assert!(cache.peek(&CACHE_CAPACITY.to_string()).is_some());
}

#[test]
fn touching_the_oldest_cover_saves_it_from_eviction() {
    let mut cache = LruArtCache::new();
    for i in 0..CACHE_CAPACITY {
        cache.insert(i.to_string(), loaded());
    }
    assert!(!cache.request("0"));
    cache.insert(CACHE_CAPACITY.to_string(), loaded());
    assert!(cache.peek("0").is_some());
    assert!(cache.peek("1").is_none());
}

// --- the media state ---

fn with_art(bus: &str, status: PlaybackStatus, art: Option<&str>) -> Player {
    Player {
        track: Track { art_url: art.map(ToString::to_string), length: Some(100_000_000), ..Track::default() },
        ..test_player(bus, status)
    }
}

fn bus(trigger: Option<Trigger<'_>>) -> Option<&str> {
    match trigger {
        Some(Trigger::Player(p)) => Some(p.bus_name.as_str()),
        Some(Trigger::Idle) | None => None,
    }
}

#[test]
fn mod_no_player_shows_the_idle_icon_only_when_asked() {
    assert_eq!(MediaState::new(true).trigger(), Some(Trigger::Idle));
    assert_eq!(MediaState::new(false).trigger(), None);
}

#[test]
fn mod_a_paused_player_shows_only_when_asked() {
    let paused = vec![with_art("a", PlaybackStatus::Paused, None)];
    let mut shown = MediaState::new(true);
    shown.update(paused.clone());
    assert_eq!(bus(shown.trigger()), Some("a"));
    let mut hidden = MediaState::new(false);
    hidden.update(paused);
    assert_eq!(hidden.trigger(), None);
}

#[test]
fn mod_a_playing_player_always_shows() {
    for show_when_idle in [true, false] {
        let mut media = MediaState::new(show_when_idle);
        media.update(vec![
            with_art("a", PlaybackStatus::Stopped, None),
            with_art("b", PlaybackStatus::Playing, None),
        ]);
        assert_eq!(bus(media.trigger()), Some("b"));
    }
}

#[test]
fn mod_any_playing_player_keeps_the_entry_up() {
    let mut media = MediaState::new(false);
    media.update(vec![
        with_art("a", PlaybackStatus::Playing, None),
        with_art("b", PlaybackStatus::Paused, None),
    ]);
    media.cycle_player();
    assert_eq!(bus(media.trigger()), Some("b"));
}

#[test]
fn mod_nothing_is_shown_without_players() {
    let mut media = MediaState::new(true);
    assert_eq!(media.update(Vec::new()), None);
    assert!(media.active().is_none());
}

#[test]
fn mod_the_active_cover_is_requested_once() {
    let mut media = MediaState::new(true);
    let players = vec![with_art("a", PlaybackStatus::Paused, Some("file:///a.png"))];
    assert_eq!(media.update(players.clone()), Some("file:///a.png".to_string()));
    assert_eq!(media.update(players), None);
}

#[test]
fn mod_a_loaded_cover_is_shown_for_its_track_only() {
    let mut media = MediaState::new(true);
    media.update(vec![with_art("a", PlaybackStatus::Paused, Some("u1"))]);
    media.art_loaded("u1".to_string(), loaded());
    assert!(media.art().is_some());
    let next = media.update(vec![with_art("a", PlaybackStatus::Paused, Some("u2"))]);
    assert_eq!(next, Some("u2".to_string()));
    assert!(media.art().is_none());
}

#[test]
fn mod_a_failed_cover_shows_no_art() {
    let mut media = MediaState::new(true);
    media.update(vec![with_art("a", PlaybackStatus::Paused, Some("u1"))]);
    media.art_loaded("u1".to_string(), Art::Failed);
    assert!(media.art().is_none());
}

#[test]
fn mod_cycling_requests_the_new_players_cover() {
    let mut media = MediaState::new(true);
    media.update(vec![
        with_art("a", PlaybackStatus::Playing, Some("ua")),
        with_art("b", PlaybackStatus::Paused, Some("ub")),
    ]);
    assert_eq!(media.cycle_player(), Some("ub".to_string()));
    assert_eq!(media.active().map(|p| p.bus_name.as_str()), Some("b"));
}

fn commanded(media: &MediaState, action: Action) -> Option<String> {
    media.apply(action).map(|(bus, command)| format!("{bus} {command:?}"))
}

fn controllable(bus: &str, status: PlaybackStatus) -> Player {
    Player { capabilities: Capabilities::all(), ..test_player(bus, status) }
}

#[test]
fn mod_no_player_takes_no_command() {
    let media = MediaState::new(true);
    assert_eq!(commanded(&media, Action::PlayPause), None);
}

#[test]
fn mod_transport_actions_go_to_the_active_player() {
    let mut media = MediaState::new(true);
    media.update(vec![controllable("a", PlaybackStatus::Playing)]);
    assert_eq!(commanded(&media, Action::PlayPause), Some("a PlayPause".to_string()));
    assert_eq!(commanded(&media, Action::Next), Some("a Next".to_string()));
    assert_eq!(commanded(&media, Action::Previous), Some("a Previous".to_string()));
}

#[test]
fn an_unsupported_control_is_silently_ignored() {
    let mut media = MediaState::new(true);
    media.update(vec![with_art("a", PlaybackStatus::Playing, None)]);
    assert_eq!(commanded(&media, Action::PlayPause), None);
    assert_eq!(commanded(&media, Action::Next), None);
    assert_eq!(commanded(&media, Action::Previous), None);
}

#[test]
fn mod_loop_and_shuffle_move_to_their_next_state() {
    let mut media = MediaState::new(true);
    let mut p = controllable("a", PlaybackStatus::Playing);
    p.loop_status = Some(LoopStatus::Playlist);
    p.shuffle = Some(true);
    media.update(vec![p]);
    assert_eq!(
        media.apply(Action::CycleLoop),
        Some(("a".to_string(), Command::SetLoopStatus(LoopStatus::Off)))
    );
    assert_eq!(commanded(&media, Action::ToggleShuffle), Some("a SetShuffle(false)".to_string()));
}

#[test]
fn mod_absent_loop_and_shuffle_take_no_command() {
    let mut media = MediaState::new(true);
    media.update(vec![controllable("a", PlaybackStatus::Playing)]);
    assert_eq!(commanded(&media, Action::CycleLoop), None);
    assert_eq!(commanded(&media, Action::ToggleShuffle), None);
}

#[test]
fn mod_seeking_addresses_the_current_track() {
    let mut media = MediaState::new(true);
    let mut p = controllable("a", PlaybackStatus::Playing);
    media.update(vec![p.clone()]);
    assert_eq!(commanded(&media, Action::Seek(3_000_000)), None);
    p.track.id = Some("/t/1".to_string());
    p.track.length = Some(100_000_000);
    media.update(vec![p]);
    let (bus, command) = media.apply(Action::Seek(3_000_000)).unzip();
    assert_eq!(bus.as_deref(), Some("a"));
    assert!(matches!(
        command,
        Some(Command::SetPosition { track, position }) if track == "/t/1" && position == 3_000_000
    ));
}

#[test]
fn snapshot_skips_unread_entries() {
    let players = vec![
        ("a".to_string(), entry(":1.1", None)),
        ("b".to_string(), entry(":1.2", Some(test_player("b", PlaybackStatus::Playing)))),
    ];
    assert_eq!(snapshot(&players).len(), 1);
    assert_eq!(snapshot(&players)[0].bus_name, "b");
}

#[test]
fn small_covers_keep_their_size() {
    let mut bytes = std::io::Cursor::new(Vec::new());
    image::RgbaImage::new(64, 64).write_to(&mut bytes, image::ImageFormat::Png).unwrap();
    assert_eq!(decode(&bytes.into_inner()).map(|c| (c.width, c.height)), Some((64, 64)));
}

// --- reading MPRIS properties ---

use std::collections::HashMap;
use zbus::zvariant::{Dict, ObjectPath, OwnedObjectPath, OwnedValue, Value};

fn owned(value: Value<'_>) -> OwnedValue {
    OwnedValue::try_from(value).unwrap_or_else(|e| unreachable!("{e}"))
}

fn metadata(entries: Vec<(&str, Value<'static>)>) -> OwnedValue {
    let map: HashMap<String, Value<'static>> =
        entries.into_iter().map(|(k, v)| (k.to_string(), v)).collect();
    owned(Value::from(Dict::from(map)))
}

fn props(entries: Vec<(&str, OwnedValue)>) -> HashMap<String, OwnedValue> {
    entries.into_iter().map(|(k, v)| (k.to_string(), v)).collect()
}

/// What the D-Bus side reads off the values: each at its specified type or
/// the looser one some players send.
fn as_bool(value: &OwnedValue) -> Option<bool> {
    value.downcast_ref::<bool>().ok()
}

fn as_string(value: &OwnedValue) -> Option<String> {
    value.downcast_ref::<String>().ok()
}

fn as_strings(value: &OwnedValue) -> Vec<String> {
    as_string(value).map_or_else(
        || value.try_clone().and_then(Vec::<String>::try_from).unwrap_or_default(),
        |single| vec![single],
    )
}

fn as_micros(value: &OwnedValue) -> Option<u64> {
    value
        .downcast_ref::<i64>()
        .ok()
        .and_then(|signed| u64::try_from(signed).ok())
        .or_else(|| value.downcast_ref::<u64>().ok())
}

fn as_object_path(value: &OwnedValue) -> Option<String> {
    value
        .downcast_ref::<ObjectPath<'_>>()
        .ok()
        .map(|path| path.as_str().to_string())
        .or_else(|| {
            as_string(value)
                .and_then(|raw| OwnedObjectPath::try_from(raw).ok())
                .map(|path| path.as_str().to_string())
        })
}

fn metadata_props(metadata: &OwnedValue) -> Option<MetadataProps> {
    let map = metadata.try_clone().and_then(HashMap::<String, OwnedValue>::try_from).ok()?;
    let get = |key: &str| map.get(key);
    Some(MetadataProps {
        track_id: get("mpris:trackid").and_then(as_object_path),
        title: get("xesam:title").and_then(as_string),
        artists: get("xesam:artist").map(as_strings).unwrap_or_default(),
        length: get("mpris:length").and_then(as_micros),
        art_url: get("mpris:artUrl").and_then(as_string),
    })
}

fn player_props(props: &HashMap<String, OwnedValue>) -> PlayerProps {
    let get = |key: &str| props.get(key);
    PlayerProps {
        playback_status: get("PlaybackStatus").and_then(as_string),
        metadata: get("Metadata").and_then(metadata_props),
        can_go_next: get("CanGoNext").and_then(as_bool),
        can_go_previous: get("CanGoPrevious").and_then(as_bool),
        can_play: get("CanPlay").and_then(as_bool),
        can_pause: get("CanPause").and_then(as_bool),
        can_seek: get("CanSeek").and_then(as_bool),
        can_control: get("CanControl").and_then(as_bool),
        loop_status: get("LoopStatus").and_then(as_string),
        shuffle: get("Shuffle").and_then(as_bool),
    }
}

fn track_of(value: &OwnedValue) -> Track {
    metadata_props(value).map(|m| parse_track(&m)).unwrap_or_default()
}

fn full_props() -> HashMap<String, OwnedValue> {
    props(vec![
        ("PlaybackStatus", owned(Value::from("Playing"))),
        (
            "Metadata",
            metadata(vec![
                ("xesam:title", Value::from("Song")),
                ("xesam:artist", Value::from(vec!["A", "B"])),
                ("mpris:length", Value::from(180_000_000_i64)),
                ("mpris:artUrl", Value::from("file:///tmp/cover.png")),
                (
                    "mpris:trackid",
                    Value::from(ObjectPath::try_from("/org/mpd/Track/1").unwrap_or_else(|e| unreachable!("{e}"))),
                ),
            ]),
        ),
        ("Position", owned(Value::from(42_000_000_i64))),
        ("Rate", owned(Value::from(1.5_f64))),
        ("CanGoNext", owned(Value::from(true))),
        ("CanGoPrevious", owned(Value::from(false))),
        ("CanPlay", owned(Value::from(true))),
        ("CanPause", owned(Value::from(true))),
        ("CanSeek", owned(Value::from(true))),
        ("CanControl", owned(Value::from(true))),
        ("LoopStatus", owned(Value::from("Playlist"))),
        ("Shuffle", owned(Value::from(true))),
    ])
}

#[test]
fn parses_every_player_property() {
    let p = parse_player("org.mpris.MediaPlayer2.mpd", "Music Player Daemon", &player_props(&full_props()));
    assert_eq!(p.identity, "Music Player Daemon");
    assert_eq!(p.status, PlaybackStatus::Playing);
    assert_eq!(p.track.title.as_deref(), Some("Song"));
    assert_eq!(p.track.artists, vec!["A".to_string(), "B".to_string()]);
    assert_eq!(p.track.length, Some(180_000_000));
    assert_eq!(p.track.art_url.as_deref(), Some("file:///tmp/cover.png"));
    assert_eq!(p.track.id.as_deref(), Some("/org/mpd/Track/1"));
    assert!(p.capabilities.go_next);
    assert!(!p.capabilities.go_previous);
    assert!(p.capabilities.seek);
    assert_eq!(p.loop_status, Some(LoopStatus::Playlist));
    assert_eq!(p.shuffle, Some(true));
}

#[test]
fn optional_properties_stay_absent() {
    let p = parse_player("b", "b", &player_props(&props(vec![])));
    assert_eq!(p.status, PlaybackStatus::Stopped);
    assert_eq!(p.loop_status, None);
    assert_eq!(p.shuffle, None);
    assert_eq!(p.track, Track::default());
    assert_eq!(p.capabilities, Capabilities::default());
}

#[test]
fn metadata_tolerates_the_loose_types_players_send() {
    let track = track_of(&metadata(vec![
        ("xesam:artist", Value::from("Solo")),
        ("mpris:length", Value::from(5_000_000_u64)),
        ("mpris:trackid", Value::from("/org/chromium/Track/9")),
    ]));
    assert_eq!(track.artists, vec!["Solo".to_string()]);
    assert_eq!(track.artists_line().as_deref(), Some("Solo"));
    assert_eq!(track.length, Some(5_000_000));
    assert_eq!(track.id.as_deref(), Some("/org/chromium/Track/9"));
}

#[test]
fn the_no_track_id_is_no_id() {
    let track = track_of(&metadata(vec![(
        "mpris:trackid",
        Value::from("/org/mpris/MediaPlayer2/TrackList/NoTrack"),
    )]));
    assert_eq!(track.id, None);
}

#[test]
fn a_negative_or_zero_length_is_unknown() {
    let track = track_of(&metadata(vec![("mpris:length", Value::from(0_i64))]));
    assert_eq!(track.length, None);
    let negative = track_of(&metadata(vec![("mpris:length", Value::from(-5_i64))]));
    assert_eq!(negative.length, None);
}

#[test]
fn an_unknown_status_reads_as_stopped_and_an_empty_title_as_none() {
    let p = parse_player(
        "b",
        "b",
        &PlayerProps {
            playback_status: Some("Buffering".to_string()),
            metadata: Some(MetadataProps { title: Some(String::new()), ..MetadataProps::default() }),
            can_play: Some(false),
            ..PlayerProps::default()
        },
    );
    assert_eq!(p.status, PlaybackStatus::Stopped);
    assert_eq!(p.track.title, None);
    assert!(!p.capabilities.play);
}

// --- the same media state, as the bar's older media module tested it ---

#[test]
fn media_no_player_shows_the_idle_icon_only_when_asked() {
    assert_eq!(MediaState::new(true).trigger(), Some(Trigger::Idle));
    assert_eq!(MediaState::new(false).trigger(), None);
}

#[test]
fn media_a_paused_player_shows_only_when_asked() {
    let paused = vec![with_art("a", PlaybackStatus::Paused, None)];
    let mut shown = MediaState::new(true);
    shown.update(paused.clone());
    assert_eq!(bus(shown.trigger()), Some("a"));
    let mut hidden = MediaState::new(false);
    hidden.update(paused);
    assert_eq!(hidden.trigger(), None);
}

#[test]
fn media_a_playing_player_always_shows() {
    for show_when_idle in [true, false] {
        let mut media = MediaState::new(show_when_idle);
        media.update(vec![
            with_art("a", PlaybackStatus::Stopped, None),
            with_art("b", PlaybackStatus::Playing, None),
        ]);
        assert_eq!(bus(media.trigger()), Some("b"));
    }
}

#[test]
fn media_any_playing_player_keeps_the_entry_up() {
    let mut media = MediaState::new(false);
    media.update(vec![
        with_art("a", PlaybackStatus::Playing, None),
        with_art("b", PlaybackStatus::Paused, None),
    ]);
    media.cycle_player();
    assert_eq!(bus(media.trigger()), Some("b"));
}

#[test]
fn media_nothing_is_shown_without_players() {
    let mut media = MediaState::new(true);
    assert_eq!(media.update(Vec::new()), None);
    assert!(media.active().is_none());
}

#[test]
fn media_the_active_cover_is_requested_once() {
    let mut media = MediaState::new(true);
    let players = vec![with_art("a", PlaybackStatus::Paused, Some("file:///a.png"))];
    assert_eq!(media.update(players.clone()), Some("file:///a.png".to_string()));
    assert_eq!(media.update(players), None);
}

#[test]
fn media_a_loaded_cover_is_shown_for_its_track_only() {
    let mut media = MediaState::new(true);
    media.update(vec![with_art("a", PlaybackStatus::Paused, Some("u1"))]);
    media.art_loaded("u1".to_string(), loaded());
    assert!(media.art().is_some());
    let next = media.update(vec![with_art("a", PlaybackStatus::Paused, Some("u2"))]);
    assert_eq!(next, Some("u2".to_string()));
    assert!(media.art().is_none());
}

#[test]
fn media_a_failed_cover_shows_no_art() {
    let mut media = MediaState::new(true);
    media.update(vec![with_art("a", PlaybackStatus::Paused, Some("u1"))]);
    media.art_loaded("u1".to_string(), Art::Failed);
    assert!(media.art().is_none());
}

#[test]
fn media_cycling_requests_the_new_players_cover() {
    let mut media = MediaState::new(true);
    media.update(vec![
        with_art("a", PlaybackStatus::Playing, Some("ua")),
        with_art("b", PlaybackStatus::Paused, Some("ub")),
    ]);
    assert_eq!(media.cycle_player(), Some("ub".to_string()));
    assert_eq!(media.active().map(|p| p.bus_name.as_str()), Some("b"));
}

#[test]
fn media_no_player_takes_no_command() {
    let media = MediaState::new(true);
    assert_eq!(commanded(&media, Action::PlayPause), None);
}

#[test]
fn media_absent_loop_and_shuffle_take_no_command() {
    let mut media = MediaState::new(true);
    media.update(vec![with_art("a", PlaybackStatus::Playing, None)]);
    assert_eq!(commanded(&media, Action::CycleLoop), None);
    assert_eq!(commanded(&media, Action::ToggleShuffle), None);
}
