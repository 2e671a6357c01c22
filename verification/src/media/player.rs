//! MPRIS players as the bar sees them: which bus names are players, the
//! wire names of their states, and what a read of one becomes.
use vstd::prelude::*;
use crate::cli::{after_prefix, has_prefix, strip_prefix};
use crate::text::{chars_of, eq_lit, find_char, index_of, join, join_with, owned, slice_chars, str_eq, string_of, strings_view};

verus! {

/// Prefix of every MPRIS bus name.
pub const MPRIS_PREFIX: &'static str = "org.mpris.MediaPlayer2.";

/// `playerctld` re-exports whichever player last had focus under its own
/// MPRIS name, which is not a player to list alongside the one it mirrors.
pub const PLAYERCTLD: &'static str = "org.mpris.MediaPlayer2.playerctld";

/// The track id MPRIS reserves for "no track".
pub const NO_TRACK: &'static str = "/org/mpris/MediaPlayer2/TrackList/NoTrack";

/// Whether `name` is a real MPRIS player rather than an aggregator.
pub open spec fn is_player_name_spec(name: Seq<char>) -> bool {
    has_prefix(name, MPRIS_PREFIX@) && name != PLAYERCTLD@
}

pub fn is_player_name(name: &str) -> (b: bool)
    ensures
        b == is_player_name_spec(name@),
{
    let prefixed = match strip_prefix(name, MPRIS_PREFIX) {
        Some(_) => true,
        None => false,
    };
    prefixed && !str_eq(name, PLAYERCTLD)
}

#[derive(Debug, Clone, Copy, PartialEq, Eq, Structural)]
pub enum PlaybackStatus {
    Playing,
    Paused,
    Stopped,
}

impl PlaybackStatus {
    /// The status a `PlaybackStatus` property names; anything else is none.
    pub open spec fn parse_spec(raw: Seq<char>) -> Option<PlaybackStatus> {
        if raw == "Playing"@ {
            Some(PlaybackStatus::Playing)
        } else if raw == "Paused"@ {
            Some(PlaybackStatus::Paused)
        } else if raw == "Stopped"@ {
            Some(PlaybackStatus::Stopped)
        } else {
            None
        }
    }

    pub fn parse(raw: &str) -> (r: Option<PlaybackStatus>)
        ensures
            r == PlaybackStatus::parse_spec(raw@),
    {
        let cs = chars_of(raw);
        if eq_lit(cs.as_slice(), "Playing") {
            Some(PlaybackStatus::Playing)
        } else if eq_lit(cs.as_slice(), "Paused") {
            Some(PlaybackStatus::Paused)
        } else if eq_lit(cs.as_slice(), "Stopped") {
            Some(PlaybackStatus::Stopped)
        } else {
            None
        }
    }
}

#[derive(Debug, Clone, Copy, PartialEq, Eq, Structural)]
pub enum LoopStatus {
    Off,
    Track,
    Playlist,
}

impl LoopStatus {
    /// The wire name of a loop status.
    pub open spec fn wire(self) -> Seq<char> {
        match self {
            LoopStatus::Off => "None"@,
            LoopStatus::Track => "Track"@,
            LoopStatus::Playlist => "Playlist"@,
        }
    }

    /// The status whose wire name is `raw`, if any.
    pub open spec fn parse_spec(raw: Seq<char>) -> Option<LoopStatus> {
        if raw == LoopStatus::Off.wire() {
            Some(LoopStatus::Off)
        } else if raw == LoopStatus::Track.wire() {
            Some(LoopStatus::Track)
        } else if raw == LoopStatus::Playlist.wire() {
            Some(LoopStatus::Playlist)
        } else {
            None
        }
    }

    pub fn parse(raw: &str) -> (r: Option<LoopStatus>)
        ensures
            r == LoopStatus::parse_spec(raw@),
    {
        let cs = chars_of(raw);
        if eq_lit(cs.as_slice(), LoopStatus::Off.as_str()) {
            Some(LoopStatus::Off)
        } else if eq_lit(cs.as_slice(), LoopStatus::Track.as_str()) {
            Some(LoopStatus::Track)
        } else if eq_lit(cs.as_slice(), LoopStatus::Playlist.as_str()) {
            Some(LoopStatus::Playlist)
        } else {
            None
        }
    }

    pub fn as_str(self) -> (s: &'static str)
        ensures
            s@ == self.wire(),
    {
        match self {
            LoopStatus::Off => "None",
            LoopStatus::Track => "Track",
            LoopStatus::Playlist => "Playlist",
        }
    }

    /// The state the loop button moves to: None, Track, Playlist, None.
    pub open spec fn next_spec(self) -> LoopStatus {
        match self {
            LoopStatus::Off => LoopStatus::Track,
            LoopStatus::Track => LoopStatus::Playlist,
            LoopStatus::Playlist => LoopStatus::Off,
        }
    }

    pub fn next(self) -> (n: LoopStatus)
        ensures
            n == self.next_spec(),
    {
        match self {
            LoopStatus::Off => LoopStatus::Track,
            LoopStatus::Track => LoopStatus::Playlist,
            LoopStatus::Playlist => LoopStatus::Off,
        }
    }
}

/// Every loop status reads back from its own wire name.
pub proof fn lemma_loop_status_round_trip(status: LoopStatus)
    ensures
        LoopStatus::parse_spec(status.wire()) == Some(status),
{
    reveal_strlit("None");
    reveal_strlit("Track");
    reveal_strlit("Playlist");
    assert("None"@.len() == 4 && "Track"@.len() == 5 && "Playlist"@.len() == 8);
}

/// Pressing the loop button three times comes back where it started, and
/// visits every status on the way.
pub proof fn lemma_loop_status_cycle(status: LoopStatus)
    ensures
        status.next_spec().next_spec().next_spec() == status,
        status.next_spec() != status,
        status.next_spec().next_spec() != status,
{
}

/// The `Can*` properties of a player.
#[derive(Debug, Clone, Copy, PartialEq, Eq, Structural)]
pub struct Capabilities {
    pub go_next: bool,
    pub go_previous: bool,
    pub play: bool,
    pub pause: bool,
    pub seek: bool,
    pub control: bool,
}

impl Capabilities {
    /// A player that can do nothing.
    pub fn none() -> (c: Capabilities)
        ensures
            !c.go_next && !c.go_previous && !c.play && !c.pause && !c.seek && !c.control,
    {
        Capabilities {
            go_next: false,
            go_previous: false,
            play: false,
            pause: false,
            seek: false,
            control: false,
        }
    }

    /// A player that can do everything.
    pub fn all() -> (c: Capabilities)
        ensures
            c.go_next && c.go_previous && c.play && c.pause && c.seek && c.control,
    {
        Capabilities {
            go_next: true,
            go_previous: true,
            play: true,
            pause: true,
            seek: true,
            control: true,
        }
    }
}

impl Default for Capabilities {
    fn default() -> (c: Capabilities)
        ensures
            !c.go_next && !c.go_previous && !c.play && !c.pause && !c.seek && !c.control,
    {
        Capabilities::none()
    }
}

/// The metadata of the current track. Lengths are microseconds.
#[derive(Debug, PartialEq, Eq)]
pub struct Track {
    /// The track's object path; never the reserved no-track id.
    pub id: Option<String>,
    pub title: Option<String>,
    pub artists: Vec<String>,
    pub length: Option<u64>,
    pub art_url: Option<String>,
}

impl Default for Track {
    fn default() -> (t: Track)
        ensures
            t.id is None && t.title is None && t.artists@.len() == 0 && t.length is None
                && t.art_url is None,
    {
        Track { id: None, title: None, artists: Vec::new(), length: None, art_url: None }
    }
}

impl Track {
    /// The artists, joined for display; `None` when there are none.
    pub fn artists_line(&self) -> (line: Option<String>)
        ensures
            match line {
                Some(l) => self.artists@.len() > 0 && l@ == join(strings_view(self.artists@), ", "@),
                None => self.artists@.len() == 0,
            },
    {
        if self.artists.len() == 0 {
            return None;
        }
        Some(join_with(&self.artists, ", "))
    }
}

/// A player on the bus, as last read. Its position sample lives with the
/// caller, which extrapolates it against a clock.
#[derive(Debug, PartialEq, Eq)]
pub struct Player {
    pub bus_name: String,
    pub identity: String,
    pub status: PlaybackStatus,
    pub track: Track,
    pub capabilities: Capabilities,
    /// `None` when the player does not implement the optional property.
    pub loop_status: Option<LoopStatus>,
    /// `None` when the player does not implement the optional property.
    pub shuffle: Option<bool>,
}

impl Player {
    pub fn is_playing(&self) -> (b: bool)
        ensures
            b == (self.status == PlaybackStatus::Playing),
    {
        self.status == PlaybackStatus::Playing
    }

    /// The track's title, or the player's identity while it has none.
    pub fn title(&self) -> (t: &str)
        ensures
            t@ == match self.track.title {
                Some(title) => title@,
                None => self.identity@,
            },
    {
        match &self.track.title {
            Some(title) => title.as_str(),
            None => self.identity.as_str(),
        }
    }
}

pub open spec fn opt_str(o: Option<String>) -> Option<Seq<char>> {
    match o {
        Some(s) => Some(s@),
        None => None,
    }
}

/// A [`Track`] as values.
pub struct TrackModel {
    pub id: Option<Seq<char>>,
    pub title: Option<Seq<char>>,
    pub artists: Seq<Seq<char>>,
    pub length: Option<u64>,
    pub art_url: Option<Seq<char>>,
}

impl View for Track {
    type V = TrackModel;

    open spec fn view(&self) -> TrackModel {
        TrackModel {
            id: opt_str(self.id),
            title: opt_str(self.title),
            artists: strings_view(self.artists@),
            length: self.length,
            art_url: opt_str(self.art_url),
        }
    }
}

/// A [`Player`] as values.
pub struct PlayerModel {
    pub bus_name: Seq<char>,
    pub identity: Seq<char>,
    pub status: PlaybackStatus,
    pub track: TrackModel,
    pub capabilities: Capabilities,
    pub loop_status: Option<LoopStatus>,
    pub shuffle: Option<bool>,
}

impl View for Player {
    type V = PlayerModel;

    open spec fn view(&self) -> PlayerModel {
        PlayerModel {
            bus_name: self.bus_name@,
            identity: self.identity@,
            status: self.status,
            track: self.track@,
            capabilities: self.capabilities,
            loop_status: self.loop_status,
            shuffle: self.shuffle,
        }
    }
}

impl Clone for Track {
    fn clone(&self) -> (t: Track)
        ensures
            t@ == self@,
    {
        let artists = self.artists.clone();
        assert(artists@ =~= self.artists@);
        Track {
            id: self.id.clone(),
            title: self.title.clone(),
            artists,
            length: self.length,
            art_url: self.art_url.clone(),
        }
    }
}

impl Clone for Player {
    fn clone(&self) -> (p: Player)
        ensures
            p@ == self@,
    {
        Player {
            bus_name: self.bus_name.clone(),
            identity: self.identity.clone(),
            status: self.status,
            track: self.track.clone(),
            capabilities: self.capabilities,
            loop_status: self.loop_status,
            shuffle: self.shuffle,
        }
    }
}

/// The view of an optional player.
pub open spec fn opt_player(p: Option<Player>) -> Option<PlayerModel> {
    match p {
        Some(p) => Some(p@),
        None => None,
    }
}

/// The name to show for a player whose `Identity` could not be read: the
/// first dot-separated segment after the MPRIS prefix, or the whole name.
pub open spec fn fallback_identity_spec(bus_name: Seq<char>) -> Seq<char> {
    if has_prefix(bus_name, MPRIS_PREFIX@) {
        let rest = after_prefix(bus_name, MPRIS_PREFIX@);
        match index_of(rest, '.') {
            Some(k) => rest.take(k),
            None => rest,
        }
    } else {
        bus_name
    }
}

pub fn fallback_identity(bus_name: &str) -> (name: String)
    ensures
        name@ == fallback_identity_spec(bus_name@),
{
    match strip_prefix(bus_name, MPRIS_PREFIX) {
        Some(rest) => {
            let cs = chars_of(rest.as_str());
            match find_char(cs.as_slice(), '.') {
                Some(k) => {
                    assert(cs@.subrange(0, k as int) == rest@.take(k as int));
                    string_of(slice_chars(cs.as_slice(), 0, k).as_slice())
                },
                None => rest,
            }
        },
        None => owned(bus_name),
    }
}

/// A player on the bus, with the unique name that owns it, and the last
/// successful read (kept until a read under the same owner replaces it).
#[derive(Debug, Clone, PartialEq, Eq)]
pub struct PlayerEntry {
    pub owner: String,
    pub player: Option<Player>,
}

/// What an entry becomes after one read attempt: the fresh player on
/// success; on failure, the previous read if the owner is unchanged, and
/// unread otherwise, since a new owner's silence says nothing about what the
/// old one was playing.
pub fn resolve_read(previous: Option<&PlayerEntry>, owner: &str, read: Option<Player>) -> (t: PlayerEntry)
    ensures
        t.owner@ == owner@,
        opt_player(t.player) == match read {
            Some(p) => Some(p@),
            None => match previous {
                Some(prev) => if prev.owner@ == owner@ {
                    opt_player(prev.player)
                } else {
                    None
                },
                None => None,
            },
        },
{
    let kept = match previous {
        Some(prev) => if str_eq(prev.owner.as_str(), owner) {
            match &prev.player {
                Some(p) => Some(p.clone()),
                None => None,
            }
        } else {
            None
        },
        None => None,
    };
    PlayerEntry {
        owner: owner.to_owned(),
        player: match read {
            Some(p) => Some(p),
            None => kept,
        },
    }
}

/// The `Metadata` entries of a player, each read at the type the MPRIS
/// specification gives it or the looser one some players send, and absent
/// when it is missing or of neither type.
#[derive(Debug, Clone, Default, PartialEq, Eq)]
pub struct MetadataProps {
    /// `mpris:trackid`, as an object path.
    pub track_id: Option<String>,
    /// `xesam:title`.
    pub title: Option<String>,
    /// `xesam:artist`: a list, or a bare string taken as a list of one.
    pub artists: Vec<String>,
    /// `mpris:length` in microseconds: a non-negative signed or an unsigned
    /// count.
    pub length: Option<u64>,
    /// `mpris:artUrl`.
    pub art_url: Option<String>,
}

/// The properties of `org.mpris.MediaPlayer2.Player` that a [`Player`] is
/// made of, each absent when it is missing or of another type.
#[derive(Debug, Clone, Default, PartialEq, Eq)]
pub struct PlayerProps {
    pub playback_status: Option<String>,
    /// `Metadata`, when it is a dictionary keyed by strings.
    pub metadata: Option<MetadataProps>,
    pub can_go_next: Option<bool>,
    pub can_go_previous: Option<bool>,
    pub can_play: Option<bool>,
    pub can_pause: Option<bool>,
    pub can_seek: Option<bool>,
    pub can_control: Option<bool>,
    pub loop_status: Option<String>,
    pub shuffle: Option<bool>,
}

/// A non-empty string, else none.
pub open spec fn non_empty(o: Option<String>) -> Option<Seq<char>> {
    match o {
        Some(s) => if s@.len() > 0 {
            Some(s@)
        } else {
            None
        },
        None => None,
    }
}

/// The track `Metadata` describes: the no-track id is no id, an empty title
/// or art URL is none, and a zero length is unknown.
pub open spec fn parse_track_spec(m: MetadataProps) -> TrackModel {
    TrackModel {
        id: match m.track_id {
            Some(id) => if id@ == NO_TRACK@ {
                None
            } else {
                Some(id@)
            },
            None => None,
        },
        title: non_empty(m.title),
        artists: strings_view(m.artists@),
        length: match m.length {
            Some(n) => if n == 0 {
                None
            } else {
                Some(n)
            },
            None => None,
        },
        art_url: non_empty(m.art_url),
    }
}

fn keep_non_empty(o: &Option<String>) -> (r: Option<String>)
    ensures
        opt_str(r) == non_empty(*o),
{
    match o {
        Some(s) => if s.as_str().is_empty() {
            None
        } else {
            Some(s.clone())
        },
        None => None,
    }
}

/// Build a [`Track`] from its `Metadata`.
pub fn parse_track(m: &MetadataProps) -> (t: Track)
    ensures
        t@ == parse_track_spec(*m),
{
    let id = match &m.track_id {
        Some(id) => if str_eq(id.as_str(), NO_TRACK) {
            None
        } else {
            Some(id.clone())
        },
        None => None,
    };
    let length = match m.length {
        Some(n) => if n == 0 {
            None
        } else {
            Some(n)
        },
        None => None,
    };
    let artists = m.artists.clone();
    assert(artists@ =~= m.artists@);
    Track { id, title: keep_non_empty(&m.title), artists, length, art_url: keep_non_empty(&m.art_url) }
}

/// The player the properties describe: a status that is missing or unknown
/// reads as stopped, a capability counts only when it is present and true,
/// missing metadata is an empty track, and the optional loop and shuffle
/// properties stay absent when they are.
pub open spec fn parse_player_spec(bus_name: Seq<char>, identity: Seq<char>, p: PlayerProps) -> PlayerModel {
    PlayerModel {
        bus_name,
        identity,
        status: match p.playback_status {
            Some(raw) => match PlaybackStatus::parse_spec(raw@) {
                Some(s) => s,
                None => PlaybackStatus::Stopped,
            },
            None => PlaybackStatus::Stopped,
        },
        track: match p.metadata {
            Some(m) => parse_track_spec(m),
            None => TrackModel { id: None, title: None, artists: seq![], length: None, art_url: None },
        },
        capabilities: Capabilities {
            go_next: p.can_go_next == Some(true),
            go_previous: p.can_go_previous == Some(true),
            play: p.can_play == Some(true),
            pause: p.can_pause == Some(true),
            seek: p.can_seek == Some(true),
            control: p.can_control == Some(true),
        },
        loop_status: match p.loop_status {
            Some(raw) => LoopStatus::parse_spec(raw@),
            None => None,
        },
        shuffle: p.shuffle,
    }
}

fn is_true(o: Option<bool>) -> (b: bool)
    ensures
        b == (o == Some(true)),
{
    match o {
        Some(v) => v,
        None => false,
    }
}

/// Build a [`Player`] from the properties of its bus name.
pub fn parse_player(bus_name: &str, identity: &str, props: &PlayerProps) -> (p: Player)
    ensures
        p@ == parse_player_spec(bus_name@, identity@, *props),
{
    let status = match &props.playback_status {
        Some(raw) => match PlaybackStatus::parse(raw.as_str()) {
            Some(s) => s,
            None => PlaybackStatus::Stopped,
        },
        None => PlaybackStatus::Stopped,
    };
    let track = match &props.metadata {
        Some(m) => parse_track(m),
        None => {
            let t = Track::default();
            assert(strings_view(t.artists@) =~= Seq::<Seq<char>>::empty());
            t
        },
    };
    let capabilities = Capabilities {
        go_next: is_true(props.can_go_next),
        go_previous: is_true(props.can_go_previous),
        play: is_true(props.can_play),
        pause: is_true(props.can_pause),
        seek: is_true(props.can_seek),
        control: is_true(props.can_control),
    };
    let loop_status = match &props.loop_status {
        Some(raw) => LoopStatus::parse(raw.as_str()),
        None => None,
    };
    let p = Player {
        bus_name: owned(bus_name),
        identity: owned(identity),
        status,
        track,
        capabilities,
        loop_status,
        shuffle: props.shuffle,
    };
    p
}

/// The players that have been read, in the order of their entries.
pub open spec fn snapshot_spec(entries: Seq<(Seq<char>, Option<PlayerModel>)>) -> Seq<PlayerModel>
    decreases entries.len(),
{
    if entries.len() == 0 {
        seq![]
    } else {
        let rest = snapshot_spec(entries.drop_last());
        match entries.last().1 {
            Some(p) => rest.push(p),
            None => rest,
        }
    }
}

/// The view of the entries, by bus name.
pub open spec fn entries_view(entries: Seq<(String, PlayerEntry)>) -> Seq<(Seq<char>, Option<PlayerModel>)> {
    entries.map_values(|e: (String, PlayerEntry)| (e.0@, opt_player(e.1.player)))
}

/// Every player that has been read, skipping entries with no read yet.
pub fn snapshot(entries: &Vec<(String, PlayerEntry)>) -> (players: Vec<Player>)
    ensures
        players@.map_values(|p: Player| p@) == snapshot_spec(entries_view(entries@)),
{
    let ghost ev = entries_view(entries@);
    let mut players: Vec<Player> = Vec::new();
    let mut i: usize = 0;
    while i < entries.len()
        invariant
            i <= entries.len(),
            ev == entries_view(entries@),
            players@.map_values(|p: Player| p@) == snapshot_spec(ev.take(i as int)),
        decreases entries.len() - i,
    {
        assert(ev.take(i + 1).drop_last() == ev.take(i as int));
        assert(ev.take(i + 1).last() == ev[i as int]);
        let ghost before = players@.map_values(|p: Player| p@);
        if let Some(p) = &entries[i].1.player {
            let copy = p.clone();
            players.push(copy);
            assert(players@.map_values(|p: Player| p@) =~= before.push(ev[i as int].1->0));
        }
        i += 1;
    }
    assert(ev.take(entries.len() as int) == ev);
    players
}

/// A command for a player.
#[derive(Debug, Clone, PartialEq, Eq)]
pub enum Command {
    PlayPause,
    Next,
    Previous,
    /// Seek the track with this id to a position in microseconds.
    SetPosition { track: String, position: u64 },
    SetLoopStatus(LoopStatus),
    SetShuffle(bool),
}

/// A [`Command`] as values.
pub enum CommandModel {
    PlayPause,
    Next,
    Previous,
    SetPosition(Seq<char>, u64),
    SetLoopStatus(LoopStatus),
    SetShuffle(bool),
}

impl View for Command {
    type V = CommandModel;

    open spec fn view(&self) -> CommandModel {
        match self {
            Command::PlayPause => CommandModel::PlayPause,
            Command::Next => CommandModel::Next,
            Command::Previous => CommandModel::Previous,
            Command::SetPosition { track, position } => CommandModel::SetPosition(track@, *position),
            Command::SetLoopStatus(s) => CommandModel::SetLoopStatus(*s),
            Command::SetShuffle(b) => CommandModel::SetShuffle(*b),
        }
    }
}

} // verus!
