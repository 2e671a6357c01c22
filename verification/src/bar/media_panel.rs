//! The words of the media panel and the bar's media entry.
use vstd::prelude::*;
use crate::bar::rotated_text::{truncate_spec, truncate_with_ellipsis};
use crate::media::player::Track;
use crate::media::selection::Rotation;
use crate::text::{decimal, decimal2, join, owned, push_decimal, push_decimal2, push_str, strings_view};

verus! {

/// Longest label the bar shows before truncating it.
pub const MAX_LABEL_CHARS: usize = 28;

/// A time as a player shows it: `m:ss`, or `h:mm:ss` from an hour on.
pub open spec fn format_time_spec(secs: nat) -> Seq<char> {
    let hours = secs / 3600;
    let minutes = secs / 60 % 60;
    let seconds = secs % 60;
    if hours > 0 {
        decimal(hours) + ":"@ + decimal2(minutes) + ":"@ + decimal2(seconds)
    } else {
        decimal(minutes) + ":"@ + decimal2(seconds)
    }
}

/// Format `secs` whole seconds like a player does.
pub fn format_time(secs: u64) -> (out: String)
    ensures
        out@ == format_time_spec(secs as nat),
{
    let hours = secs / 3600;
    let minutes = secs / 60 % 60;
    let seconds = secs % 60;
    let mut out = String::new();
    if hours > 0 {
        push_decimal(&mut out, hours);
        push_str(&mut out, ":");
        push_decimal2(&mut out, minutes);
    } else {
        push_decimal(&mut out, minutes);
    }
    push_str(&mut out, ":");
    push_decimal2(&mut out, seconds);
    out
}

/// The player's name, followed by its place among the others when there
/// are others.
pub open spec fn chip_label_spec(identity: Seq<char>, rotation: Option<Rotation>) -> Seq<char> {
    match rotation {
        Some(r) => identity + " \u{b7} "@ + decimal(r.index as nat) + "/"@ + decimal(r.total as nat),
        None => identity,
    }
}

pub fn chip_label(identity: &str, rotation: Option<Rotation>) -> (out: String)
    ensures
        out@ == chip_label_spec(identity@, rotation),
{
    let mut out = owned(identity);
    if let Some(r) = rotation {
        push_str(&mut out, " \u{b7} ");
        push_decimal(&mut out, r.index as u64);
        push_str(&mut out, "/");
        push_decimal(&mut out, r.total as u64);
    }
    out
}

/// "title — artists" for the bar; the title alone without artists, and the
/// player's name while the track has no title; cut to
/// [`MAX_LABEL_CHARS`].
pub open spec fn label_spec(track: Track, identity: Seq<char>) -> Seq<char> {
    let full = match track.title {
        Some(t) => if t@.len() == 0 {
            identity
        } else if track.artists@.len() == 0 {
            t@
        } else {
            t@ + " \u{2014} "@ + join(strings_view(track.artists@), ", "@)
        },
        None => identity,
    };
    truncate_spec(full, MAX_LABEL_CHARS as nat)
}

pub fn label(track: &Track, identity: &str) -> (out: String)
    ensures
        out@ == label_spec(*track, identity@),
{
    let full = match &track.title {
        Some(t) => if t.as_str().is_empty() {
            owned(identity)
        } else {
            match track.artists_line() {
                None => t.clone(),
                Some(artists) => {
                    let mut f = t.clone();
                    push_str(&mut f, " \u{2014} ");
                    push_str(&mut f, artists.as_str());
                    f
                },
            }
        },
        None => owned(identity),
    };
    truncate_with_ellipsis(full.as_str(), MAX_LABEL_CHARS)
}

} // verus!
