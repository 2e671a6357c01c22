//! What the panel offers for the active player, and what pressing it sends.
use vstd::prelude::*;
use crate::media::player::{LoopStatus, PlaybackStatus, Player, opt_str};
use crate::text::owned;

verus! {

#[derive(Debug, Clone, Copy, PartialEq, Eq, Structural)]
pub enum PlayPause {
    Play,
    Pause,
}

/// What seeking needs: `SetPosition` is addressed to a track id, and the
/// slider maps onto a known length (microseconds).
#[derive(Debug, Clone, PartialEq, Eq)]
pub struct SeekTarget {
    pub track: String,
    pub length: u64,
}

/// The controls the panel shows. A control the player does not support is
/// absent rather than disabled.
#[derive(Debug, Clone, PartialEq, Eq)]
pub struct Controls {
    pub previous: bool,
    pub next: bool,
    pub play_pause: Option<PlayPause>,
    pub loop_status: Option<LoopStatus>,
    pub shuffle: Option<bool>,
    pub seek: Option<SeekTarget>,
}

/// [`Controls`] as values.
pub struct ControlsModel {
    pub previous: bool,
    pub next: bool,
    pub play_pause: Option<PlayPause>,
    pub loop_status: Option<LoopStatus>,
    pub shuffle: Option<bool>,
    pub seek: Option<(Seq<char>, u64)>,
}

impl View for Controls {
    type V = ControlsModel;

    open spec fn view(&self) -> ControlsModel {
        ControlsModel {
            previous: self.previous,
            next: self.next,
            play_pause: self.play_pause,
            loop_status: self.loop_status,
            shuffle: self.shuffle,
            seek: match self.seek {
                Some(s) => Some((s.track@, s.length)),
                None => None,
            },
        }
    }
}

/// No control at all.
pub open spec fn no_controls() -> ControlsModel {
    ControlsModel {
        previous: false,
        next: false,
        play_pause: None,
        loop_status: None,
        shuffle: None,
        seek: None,
    }
}

impl Default for Controls {
    fn default() -> (c: Controls)
        ensures
            c@ == no_controls(),
    {
        Controls {
            previous: false,
            next: false,
            play_pause: None,
            loop_status: None,
            shuffle: None,
            seek: None,
        }
    }
}

/// What the panel offers for `p`: nothing for a player that takes no
/// command; otherwise each skip it supports, play or pause (whichever it is
/// not doing) when it can do either, its loop and shuffle states when it has
/// them, and seeking when it can seek a track with an id and a length.
pub open spec fn controls_spec(p: Player) -> ControlsModel {
    let caps = p.capabilities;
    if !caps.control {
        no_controls()
    } else {
        ControlsModel {
            previous: caps.go_previous,
            next: caps.go_next,
            play_pause: if caps.play || caps.pause {
                Some(
                    if p.status == PlaybackStatus::Playing {
                        PlayPause::Pause
                    } else {
                        PlayPause::Play
                    },
                )
            } else {
                None
            },
            loop_status: p.loop_status,
            shuffle: p.shuffle,
            seek: if caps.seek && p.track.id is Some && p.track.length is Some {
                Some((p.track.id->0@, p.track.length->0))
            } else {
                None
            },
        }
    }
}

impl Controls {
    pub fn for_player(player: &Player) -> (c: Controls)
        ensures
            c@ == controls_spec(*player),
    {
        let caps = player.capabilities;
        if !caps.control {
            return Controls::default();
        }
        Controls {
            previous: caps.go_previous,
            next: caps.go_next,
            play_pause: if caps.play || caps.pause {
                Some(
                    if player.is_playing() {
                        PlayPause::Pause
                    } else {
                        PlayPause::Play
                    },
                )
            } else {
                None
            },
            loop_status: player.loop_status,
            shuffle: player.shuffle,
            seek: if caps.seek {
                match (&player.track.id, player.track.length) {
                    (Some(id), Some(length)) => Some(SeekTarget { track: id.clone(), length }),
                    _ => None,
                }
            } else {
                None
            },
        }
    }
}

} // verus!
