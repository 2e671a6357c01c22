//! Everything the bar keeps about media playback between messages: the
//! players the service reported, which one is shown, and their covers. The
//! slider's animation and the position clock stay with the caller.
use vstd::prelude::*;
use crate::media::art::{Art, ArtModel, Cover};
use crate::media::art_cache::{ArtCache, ArtCacheModel, find, insert_spec, request_spec};
use crate::media::controls::{Controls, ControlsModel, controls_spec};
use crate::media::player::{Command, CommandModel, PlaybackStatus, Player};
use crate::media::selection::{Selection, SelectionModel, active_index, cycle_spec, empty_model, observe_spec, roster};
use crate::text::owned;

verus! {

/// What the panel asks of the active player. A seek is to a position in
/// microseconds.
#[derive(Debug, Clone, Copy, PartialEq, Eq, Structural)]
pub enum Action {
    PlayPause,
    Next,
    Previous,
    CycleLoop,
    ToggleShuffle,
    Seek(u64),
}

/// The command an action becomes, given the controls the player offers:
/// none when the control is absent.
pub open spec fn command_spec(c: ControlsModel, action: Action) -> Option<CommandModel> {
    match action {
        Action::PlayPause => if c.play_pause is Some {
            Some(CommandModel::PlayPause)
        } else {
            None
        },
        Action::Next => if c.next {
            Some(CommandModel::Next)
        } else {
            None
        },
        Action::Previous => if c.previous {
            Some(CommandModel::Previous)
        } else {
            None
        },
        Action::CycleLoop => match c.loop_status {
            Some(s) => Some(CommandModel::SetLoopStatus(s.next_spec())),
            None => None,
        },
        Action::ToggleShuffle => match c.shuffle {
            Some(b) => Some(CommandModel::SetShuffle(!b)),
            None => None,
        },
        Action::Seek(position) => match c.seek {
            Some((track, _)) => Some(CommandModel::SetPosition(track, position)),
            None => None,
        },
    }
}

/// The command `action` becomes for a player offering `controls`.
pub fn command_for(controls: &Controls, action: Action) -> (c: Option<Command>)
    ensures
        match c {
            Some(c) => command_spec(controls@, action) == Some(c@),
            None => command_spec(controls@, action) is None,
        },
{
    match action {
        Action::PlayPause => if controls.play_pause.is_some() {
            Some(Command::PlayPause)
        } else {
            None
        },
        Action::Next => if controls.next {
            Some(Command::Next)
        } else {
            None
        },
        Action::Previous => if controls.previous {
            Some(Command::Previous)
        } else {
            None
        },
        Action::CycleLoop => match controls.loop_status {
            Some(s) => Some(Command::SetLoopStatus(s.next())),
            None => None,
        },
        Action::ToggleShuffle => match controls.shuffle {
            Some(b) => Some(Command::SetShuffle(!b)),
            None => None,
        },
        Action::Seek(position) => match &controls.seek {
            Some(seek) => Some(Command::SetPosition { track: seek.track.clone(), position }),
            None => None,
        },
    }
}

/// What the bar shows for media.
#[derive(Debug, Clone, Copy, PartialEq, Eq)]
pub enum Trigger<'a> {
    /// The icon alone: no player to name.
    Idle,
    Player(&'a Player),
}

/// The media state as values.
pub struct MediaModel {
    pub players: Seq<Player>,
    pub selection: SelectionModel,
    pub art: ArtCacheModel,
    pub show_when_idle: bool,
}

pub struct MediaState {
    players: Vec<Player>,
    selection: Selection,
    art: ArtCache,
    /// `[media].show_when_idle`: keep the bar entry while nothing plays.
    show_when_idle: bool,
}

impl View for MediaState {
    type V = MediaModel;

    closed spec fn view(&self) -> MediaModel {
        MediaModel {
            players: self.players@,
            selection: self.selection@,
            art: self.art@,
            show_when_idle: self.show_when_idle,
        }
    }
}

/// Asking for the shown player's cover: the URL to fetch, when the shown
/// track has one that is neither cached nor on its way.
pub open spec fn follow_spec(m: MediaModel) -> (ArtCacheModel, Option<Seq<char>>) {
    match active_index(m.selection, roster(m.players)) {
        Some(i) => match m.players[i].track.art_url {
            Some(url) => {
                let (art, fetch) = request_spec(m.art, url@);
                (art, if fetch {
                    Some(url@)
                } else {
                    None
                })
            },
            None => (m.art, None),
        },
        None => (m.art, None),
    }
}

/// Whether any player of `players` is playing.
pub open spec fn any_playing(players: Seq<Player>) -> bool {
    exists|i: int| 0 <= i < players.len() && #[trigger] players[i].status == PlaybackStatus::Playing
}

/// The cached cover of the shown track, if any.
pub open spec fn shown_art(m: MediaModel) -> Option<ArtModel> {
    match active_index(m.selection, roster(m.players)) {
        Some(i) => match m.players[i].track.art_url {
            Some(url) => match find(m.art.entries, url@) {
                Some(k) => Some(m.art.entries[k].1),
                None => None,
            },
            None => None,
        },
        None => None,
    }
}

pub open spec fn opt_url(o: Option<String>) -> Option<Seq<char>> {
    match o {
        Some(s) => Some(s@),
        None => None,
    }
}

impl MediaState {
    /// The art cache is well formed.
    pub closed spec fn wf(&self) -> bool {
        self.art.wf()
    }

    pub fn new(show_when_idle: bool) -> (m: MediaState)
        ensures
            m.wf(),
            m@.players.len() == 0,
            m@.selection == empty_model(),
            m@.art.entries.len() == 0,
            m@.art.pending.len() == 0,
            m@.show_when_idle == show_when_idle,
    {
        MediaState {
            players: Vec::new(),
            selection: Selection::default(),
            art: ArtCache::new(),
            show_when_idle,
        }
    }

    fn follow_active(&mut self) -> (fetch: Option<String>)
        requires
            old(self).wf(),
        ensures
            final(self).wf(),
            final(self)@.players == old(self)@.players,
            final(self)@.selection == old(self)@.selection,
            final(self)@.show_when_idle == old(self)@.show_when_idle,
            (final(self)@.art, opt_url(fetch)) == follow_spec(old(self)@),
    {
        let url = match self.selection.active(self.players.as_slice()) {
            Some(p) => match &p.track.art_url {
                Some(u) => Some(u.clone()),
                None => None,
            },
            None => None,
        };
        match url {
            Some(u) => if self.art.request(u.as_str()) {
                Some(u)
            } else {
                None
            },
            None => None,
        }
    }

    /// Adopt a snapshot from the service. Returns a cover URL to fetch when
    /// the shown track has one that is not cached yet.
    pub fn update(&mut self, players: Vec<Player>) -> (fetch: Option<String>)
        requires
            old(self).wf(),
        ensures
            final(self).wf(),
            final(self)@.players == players@,
            final(self)@.selection == observe_spec(old(self)@.selection, roster(players@)),
            final(self)@.show_when_idle == old(self)@.show_when_idle,
            (final(self)@.art, opt_url(fetch)) == follow_spec(
                MediaModel {
                    players: players@,
                    selection: observe_spec(old(self)@.selection, roster(players@)),
                    ..old(self)@
                },
            ),
    {
        self.selection.observe(players.as_slice());
        self.players = players;
        self.follow_active()
    }

    /// Show the next player. Returns a cover URL to fetch, as [`Self::update`].
    pub fn cycle_player(&mut self) -> (fetch: Option<String>)
        requires
            old(self).wf(),
        ensures
            final(self).wf(),
            final(self)@.players == old(self)@.players,
            final(self)@.selection == cycle_spec(old(self)@.selection, roster(old(self)@.players)),
            final(self)@.show_when_idle == old(self)@.show_when_idle,
            (final(self)@.art, opt_url(fetch)) == follow_spec(
                MediaModel {
                    selection: cycle_spec(old(self)@.selection, roster(old(self)@.players)),
                    ..old(self)@
                },
            ),
    {
        self.selection.cycle(self.players.as_slice());
        self.follow_active()
    }

    /// A cover fetch finished.
    pub fn art_loaded(&mut self, url: String, art: Art)
        requires
            old(self).wf(),
        ensures
            final(self).wf(),
            final(self)@ == (MediaModel { art: insert_spec(old(self)@.art, url@, art@), ..old(self)@ }),
    {
        self.art.insert(url, art);
    }

    /// The player shown, if any.
    pub fn active(&self) -> (p: Option<&Player>)
        ensures
            match active_index(self@.selection, roster(self@.players)) {
                Some(i) => p == Some(&self@.players[i]),
                None => p is None,
            },
    {
        self.selection.active(self.players.as_slice())
    }

    /// The command `action` sends, and the player it goes to: `None` when
    /// there is no active player or it does not support the action.
    pub fn apply(&self, action: Action) -> (r: Option<(String, Command)>)
        ensures
            match active_index(self@.selection, roster(self@.players)) {
                Some(i) => match command_spec(controls_spec(self@.players[i]), action) {
                    Some(c) => match r {
                        Some((bus, command)) => bus@ == self@.players[i].bus_name@ && command@ == c,
                        None => false,
                    },
                    None => r is None,
                },
                None => r is None,
            },
    {
        let player = match self.active() {
            Some(p) => p,
            None => return None,
        };
        let controls = Controls::for_player(player);
        match command_for(&controls, action) {
            Some(command) => Some((player.bus_name.clone(), command)),
            None => None,
        }
    }

    /// The bar entry: the active player while one plays, and otherwise only
    /// when `show_when_idle` asks for it. `None` when the entry should not
    /// show at all.
    pub fn trigger(&self) -> (t: Option<Trigger<'_>>)
        ensures
            match active_index(self@.selection, roster(self@.players)) {
                Some(i) => if any_playing(self@.players) || self@.show_when_idle {
                    t == Some(Trigger::Player(&self@.players[i]))
                } else {
                    t is None
                },
                None => if self@.show_when_idle {
                    t == Some(Trigger::Idle)
                } else {
                    t is None
                },
            },
    {
        let mut playing = false;
        let mut i: usize = 0;
        while i < self.players.len()
            invariant
                i <= self.players.len(),
                playing == exists|j: int| 0 <= j < i && #[trigger] self.players@[j].status
                    == PlaybackStatus::Playing,
            decreases self.players.len() - i,
        {
            if self.players[i].is_playing() {
                playing = true;
            }
            i += 1;
        }
        match self.active() {
            Some(p) => if playing || self.show_when_idle {
                Some(Trigger::Player(p))
            } else {
                None
            },
            None => if self.show_when_idle {
                Some(Trigger::Idle)
            } else {
                None
            },
        }
    }

    /// The controls the panel shows for the active player.
    pub fn controls(&self) -> (c: Controls)
        ensures
            c@ == match active_index(self@.selection, roster(self@.players)) {
                Some(i) => controls_spec(self@.players[i]),
                None => crate::media::controls::no_controls(),
            },
    {
        match self.active() {
            Some(p) => Controls::for_player(p),
            None => Controls::default(),
        }
    }

    pub fn players(&self) -> (p: &[Player])
        ensures
            p@ == self@.players,
    {
        self.players.as_slice()
    }

    /// The active track's cover, once it has loaded.
    pub fn art(&self) -> (c: Option<&Cover>)
        ensures
            match c {
                Some(cover) => shown_art(self@) == Some(
                    ArtModel::Loaded(cover.width, cover.height, cover.pixels@),
                ),
                None => !(shown_art(self@) matches Some(ArtModel::Loaded(_, _, _))),
            },
    {
        let player = match self.active() {
            Some(p) => p,
            None => return None,
        };
        let url = match &player.track.art_url {
            Some(u) => u,
            None => return None,
        };
        match self.art.peek(url.as_str()) {
            Some(Art::Loaded(cover)) => Some(cover),
            _ => None,
        }
    }
}

} // verus!
