//! Keeping the application list current without polling: which
//! directories to watch, which change events count, and when to rescan.
//!
//! Each application directory is watched whole. A rebuild that swaps a
//! symlink on the path to one (`/run/current-system`, `~/.nix-profile`)
//! changes no entry, and a watch follows a symlink when it is added, so the
//! parent of each such symlink is watched too, for that symlink's name
//! alone. A burst of changes is let finish before one rescan.
use vstd::prelude::*;
use crate::text::{chars_of, owned, slice_chars, str_eq, string_of, strings_view};
use crate::launcher::desktop_entry::opt_string;
use crate::path::{last_index_of, opt_view};

verus! {

/// How long, in milliseconds, the watched directories must stay quiet after
/// a relevant change before the rescan: an install touches many entries in a
/// burst.
pub const QUIET_MS: u64 = 400;

/// A watch target as values: a directory, and the one name in it that
/// matters, or none when all of it does.
pub type TargetModel = (Seq<char>, Option<Seq<char>>);

/// The parent and name of a symlink path as the caller builds it: absolute,
/// from normal components joined by single separators. None for a path with
/// no separator or nothing after its last one.
pub open spec fn split_link(p: Seq<char>) -> Option<(Seq<char>, Seq<char>)> {
    match last_index_of(p, '/') {
        Some(k) => if k + 1 < p.len() {
            Some((if k == 0 { "/"@ } else { p.take(k) }, p.skip(k + 1)))
        } else {
            None
        },
        None => None,
    }
}

/// `t` with `x` added last unless it is there already.
pub open spec fn push_new(t: Seq<TargetModel>, x: TargetModel) -> Seq<TargetModel> {
    if t.contains(x) {
        t
    } else {
        t.push(x)
    }
}

/// `t` with the parent of each of `links` added, for the link's name.
pub open spec fn add_links(t: Seq<TargetModel>, links: Seq<Seq<char>>) -> Seq<TargetModel>
    decreases links.len(),
{
    if links.len() == 0 {
        t
    } else {
        let before = add_links(t, links.drop_last());
        match split_link(links.last()) {
            Some((parent, name)) => push_new(before, (parent, Some(name))),
            None => before,
        }
    }
}

/// What to watch for `dirs`, each given as the directory, whether it is a
/// directory, and the symlinks on its path, outermost first: each existing
/// directory whole, and each symlink's parent for the symlink's name, in
/// order of first appearance, each target once.
pub open spec fn targets_spec(dirs: Seq<(Seq<char>, bool, Seq<Seq<char>>)>) -> Seq<TargetModel>
    decreases dirs.len(),
{
    if dirs.len() == 0 {
        Seq::empty()
    } else {
        let before = targets_spec(dirs.drop_last());
        let d = dirs.last();
        add_links(if d.1 { push_new(before, (d.0, None)) } else { before }, d.2)
    }
}

proof fn lemma_push_new(t: Seq<TargetModel>, x: TargetModel, y: TargetModel)
    ensures
        push_new(t, x).contains(x),
        t.contains(y) ==> push_new(t, x).contains(y),
        push_new(t, x).contains(y) ==> (t.contains(y) || y == x),
        t.no_duplicates() ==> push_new(t, x).no_duplicates(),
{
    if !t.contains(x) {
        let n = t.push(x);
        assert(n[t.len() as int] == x);
        if t.contains(y) {
            let i = choose|i: int| 0 <= i < t.len() && t[i] == y;
            assert(n[i] == y);
        }
        if n.contains(y) && y != x {
            let i = choose|i: int| 0 <= i < n.len() && n[i] == y;
            assert(t[i] == y);
        }
        if t.no_duplicates() {
            assert forall|i: int, j: int| 0 <= i < n.len() && 0 <= j < n.len() && i != j implies n[i] != n[j] by {
                if i == t.len() {
                    assert(n[j] == t[j]);
                } else if j == t.len() {
                    assert(n[i] == t[i]);
                }
            }
        }
    }
}

/// The target that watches the symlink `l`: its parent, for its name.
pub open spec fn link_target(l: Seq<char>) -> TargetModel {
    match split_link(l) {
        Some((parent, name)) => (parent, Some(name)),
        None => (l, None),
    }
}

proof fn lemma_add_links(t: Seq<TargetModel>, links: Seq<Seq<char>>, y: TargetModel)
    ensures
        t.contains(y) ==> add_links(t, links).contains(y),
        forall|k: int|
            0 <= k < links.len() && split_link(#[trigger] links[k]) is Some ==> add_links(t, links).contains(
                link_target(links[k]),
            ),
        t.no_duplicates() ==> add_links(t, links).no_duplicates(),
    decreases links.len(),
{
    if links.len() > 0 {
        let l0 = links.drop_last();
        let before = add_links(t, l0);
        lemma_add_links(t, l0, y);
        if split_link(links.last()) is Some {
            let x = link_target(links.last());
            assert(add_links(t, links) == push_new(before, x));
            lemma_push_new(before, x, y);
            assert forall|k: int|
                0 <= k < links.len() && split_link(#[trigger] links[k]) is Some implies add_links(t, links).contains(
                link_target(links[k]),
            ) by {
                if k < links.len() - 1 {
                    assert(links[k] == l0[k]);
                    lemma_add_links(t, l0, link_target(links[k]));
                    lemma_push_new(before, x, link_target(links[k]));
                } else {
                    lemma_push_new(before, x, x);
                }
            }
        } else {
            assert forall|k: int|
                0 <= k < links.len() && split_link(#[trigger] links[k]) is Some implies add_links(t, links).contains(
                link_target(links[k]),
            ) by {
                assert(k < links.len() - 1);
                assert(links[k] == l0[k]);
            }
        }
    }
}

/// What keeps the list current is watched: every existing application
/// directory, whole; and for every symlink on the path to one, at any depth,
/// the symlink's parent, for the symlink's name. Each target is watched once.
pub proof fn lemma_every_directory_and_symlink_is_watched(dirs: Seq<(Seq<char>, bool, Seq<Seq<char>>)>)
    ensures
        forall|i: int| 0 <= i < dirs.len() && (#[trigger] dirs[i]).1 ==> targets_spec(dirs).contains((dirs[i].0, None)),
        forall|i: int, k: int|
            0 <= i < dirs.len() && 0 <= k < dirs[i].2.len() && split_link(#[trigger] dirs[i].2[k]) is Some
                ==> targets_spec(dirs).contains(link_target(dirs[i].2[k])),
        targets_spec(dirs).no_duplicates(),
    decreases dirs.len(),
{
    if dirs.len() > 0 {
        let d0 = dirs.drop_last();
        lemma_every_directory_and_symlink_is_watched(d0);
        let before = targets_spec(d0);
        let d = dirs.last();
        let mid = if d.1 { push_new(before, (d.0, None)) } else { before };
        if d.1 {
            lemma_push_new(before, (d.0, None), (d.0, None));
        }
        lemma_add_links(mid, d.2, (d.0, None));
        assert forall|i: int| 0 <= i < dirs.len() && (#[trigger] dirs[i]).1 implies targets_spec(dirs).contains(
            (dirs[i].0, None),
        ) by {
            if i < dirs.len() - 1 {
                assert(dirs[i] == d0[i]);
                lemma_push_new(before, (d.0, None), (dirs[i].0, None));
                lemma_add_links(mid, d.2, (dirs[i].0, None));
            }
        }
        assert forall|i: int, k: int|
            0 <= i < dirs.len() && 0 <= k < dirs[i].2.len() && split_link(#[trigger] dirs[i].2[k]) is Some
                implies targets_spec(dirs).contains(link_target(dirs[i].2[k])) by {
            if i < dirs.len() - 1 {
                assert(dirs[i] == d0[i]);
                assert(d0[i].2[k] == dirs[i].2[k]);
                lemma_push_new(before, (d.0, None), link_target(dirs[i].2[k]));
                lemma_add_links(mid, d.2, link_target(dirs[i].2[k]));
            } else {
                assert(d.2[k] == dirs[i].2[k]);
            }
        }
    } else {
        assert(targets_spec(dirs).len() == 0);
    }
}

/// The view of the directories handed to [`watch_targets`].
pub open spec fn dirs_view(v: Seq<(String, bool, Vec<String>)>) -> Seq<(Seq<char>, bool, Seq<Seq<char>>)> {
    v.map_values(|d: (String, bool, Vec<String>)| (d.0@, d.1, strings_view(d.2@)))
}

/// The view of watch targets.
pub open spec fn targets_view(v: Seq<(String, Option<String>)>) -> Seq<TargetModel> {
    v.map_values(|t: (String, Option<String>)| (t.0@, opt_string(t.1)))
}

fn split(p: &str) -> (r: Option<(String, String)>)
    ensures
        match r {
            Some((a, b)) => split_link(p@) == Some((a@, b@)),
            None => split_link(p@) is None,
        },
{
    let cs = chars_of(p);
    let mut k = cs.len();
    assert(cs@.take(k as int) == cs@);
    while k > 0 && cs[k - 1] != '/'
        invariant
            k <= cs.len(),
            last_index_of(cs@, '/') == last_index_of(cs@.take(k as int), '/'),
        decreases k,
    {
        assert(cs@.take(k as int).drop_last() == cs@.take(k - 1));
        k -= 1;
    }
    if k == 0 {
        assert(cs@.take(0) == Seq::<char>::empty());
        return None;
    }
    assert(last_index_of(cs@.take(k as int), '/') == Some(k - 1));
    if k == cs.len() {
        return None;
    }
    let parent = if k == 1 {
        proof {
            reveal_strlit("/");
        }
        owned("/")
    } else {
        let s = string_of(slice_chars(cs.as_slice(), 0, k - 1).as_slice());
        assert(s@ == cs@.take(k - 1));
        s
    };
    let name = string_of(slice_chars(cs.as_slice(), k, cs.len()).as_slice());
    assert(name@ == cs@.skip(k as int));
    Some((parent, name))
}

fn same_target(a: &(String, Option<String>), b: &(String, Option<String>)) -> (r: bool)
    ensures
        r == (targets_view(seq![*a])[0] == targets_view(seq![*b])[0]),
{
    let same_name = match (&a.1, &b.1) {
        (Some(x), Some(y)) => str_eq(x.as_str(), y.as_str()),
        (None, None) => true,
        _ => false,
    };
    str_eq(a.0.as_str(), b.0.as_str()) && same_name
}

fn push_target(t: &mut Vec<(String, Option<String>)>, x: (String, Option<String>))
    ensures
        targets_view(final(t)@) == push_new(targets_view(old(t)@), targets_view(seq![x])[0]),
{
    let ghost tv = targets_view(t@);
    let ghost xv = targets_view(seq![x])[0];
    let mut i: usize = 0;
    while i < t.len()
        invariant
            i <= t.len(),
            tv == targets_view(t@),
            tv == targets_view(old(t)@),
            xv == targets_view(seq![x])[0],
            forall|j: int| 0 <= j < i ==> tv[j] != xv,
        decreases t.len() - i,
    {
        assert(targets_view(seq![t@[i as int]])[0] == tv[i as int]);
        if same_target(&t[i], &x) {
            assert(tv.contains(xv)) by {
                assert(tv[i as int] == xv);
            }
            return;
        }
        i += 1;
    }
    assert(!tv.contains(xv));
    t.push(x);
    assert(targets_view(t@) =~= tv.push(xv));
}

/// What to watch so that `dirs` staying current is observable; see
/// [`targets_spec`]. Each entry of `dirs` is a directory, whether it is one,
/// and the symlinks on its path, all as read from the file system.
pub fn watch_targets(dirs: &Vec<(String, bool, Vec<String>)>) -> (t: Vec<(String, Option<String>)>)
    ensures
        targets_view(t@) == targets_spec(dirs_view(dirs@)),
{
    let ghost dv = dirs_view(dirs@);
    let mut t: Vec<(String, Option<String>)> = Vec::new();
    let mut i: usize = 0;
    while i < dirs.len()
        invariant
            i <= dirs.len(),
            dv == dirs_view(dirs@),
            targets_view(t@) == targets_spec(dv.take(i as int)),
        decreases dirs.len() - i,
    {
        assert(dv.take(i + 1).drop_last() == dv.take(i as int));
        assert(dv.take(i + 1).last() == dv[i as int]);
        let d = &dirs[i];
        if d.1 {
            push_target(&mut t, (owned(d.0.as_str()), None));
        }
        let ghost start = targets_view(t@);
        let ghost links = strings_view(d.2@);
        let mut j: usize = 0;
        while j < d.2.len()
            invariant
                j <= d.2.len(),
                links == strings_view(d.2@),
                targets_view(t@) == add_links(start, links.take(j as int)),
            decreases d.2.len() - j,
        {
            assert(links.take(j + 1).drop_last() == links.take(j as int));
            assert(links.take(j + 1).last() == d.2@[j as int]@);
            match split(d.2[j].as_str()) {
                Some((parent, name)) => {
                    push_target(&mut t, (parent, Some(name)));
                },
                None => {},
            }
            j += 1;
        }
        assert(links.take(j as int) == links);
        i += 1;
    }
    assert(dv.take(i as int) == dv);
    t
}

/// The watches held, as values: each watch descriptor with the one name it
/// is for, or none when the whole directory counts.
pub type WatchedModel = Seq<(u64, Option<Seq<char>>)>;

pub open spec fn watched_view(v: Seq<(u64, Option<String>)>) -> WatchedModel {
    v.map_values(|w: (u64, Option<String>)| (w.0, opt_string(w.1)))
}

/// The first entry for descriptor `wd` at or after `i`.
pub open spec fn entry_of(w: WatchedModel, wd: u64, i: int) -> Option<int>
    decreases w.len() - i,
{
    if i < 0 || i >= w.len() {
        None
    } else if w[i].0 == wd {
        Some(i)
    } else {
        entry_of(w, wd, i + 1)
    }
}

/// A watch added for `name`: a descriptor seen before (the same directory
/// under two targets) keeps one entry, and the broader, whole-directory
/// watch wins; a new descriptor gets its entry.
pub open spec fn recorded(w: WatchedModel, wd: u64, name: Option<Seq<char>>) -> WatchedModel {
    match entry_of(w, wd, 0) {
        Some(k) => if name is None {
            w.update(k, (wd, None))
        } else {
            w
        },
        None => w.push((wd, name)),
    }
}

/// Record that adding a watch gave descriptor `wd` for `name`.
pub fn record_watch(watched: &mut Vec<(u64, Option<String>)>, wd: u64, name: Option<String>)
    ensures
        watched_view(final(watched)@) == recorded(
            watched_view(old(watched)@),
            wd,
            opt_string(name),
        ),
{
    let ghost w = watched_view(watched@);
    let mut i: usize = 0;
    while i < watched.len()
        invariant
            i <= watched.len(),
            w == watched_view(watched@),
            w == watched_view(old(watched)@),
            entry_of(w, wd, 0) == entry_of(w, wd, i as int),
        decreases watched.len() - i,
    {
        assert(w[i as int].0 == watched@[i as int].0);
        if watched[i].0 == wd {
            if name.is_none() {
                watched.set(i, (wd, None));
                assert(watched_view(watched@) =~= w.update(i as int, (wd, None)));
            }
            return;
        }
        i += 1;
    }
    let ghost nv = opt_string(name);
    watched.push((wd, name));
    assert(watched_view(watched@) =~= w.push((wd, nv)));
}

/// Whether a change event on `wd` about `name` counts: anything in a
/// directory watched whole, including the directory itself going; in the
/// parent of a symlink, only that symlink, so that the churn of a busy
/// directory like `/run` starts no rescan; nothing on a descriptor not held.
pub open spec fn relevant_spec(w: WatchedModel, wd: u64, name: Option<Seq<char>>) -> bool {
    match entry_of(w, wd, 0) {
        Some(k) => match w[k].1 {
            None => true,
            Some(wanted) => name == Some(wanted),
        },
        None => false,
    }
}

/// Whether a change event on `wd` about `name` counts; see
/// [`relevant_spec`].
pub fn is_relevant(watched: &Vec<(u64, Option<String>)>, wd: u64, name: Option<&str>) -> (b: bool)
    ensures
        b == relevant_spec(
            watched_view(watched@),
            wd,
            opt_view(name),
        ),
{
    let ghost w = watched_view(watched@);
    let mut i: usize = 0;
    while i < watched.len()
        invariant
            i <= watched.len(),
            w == watched_view(watched@),
            entry_of(w, wd, 0) == entry_of(w, wd, i as int),
        decreases watched.len() - i,
    {
        assert(w[i as int].0 == watched@[i as int].0);
        if watched[i].0 == wd {
            return match (&watched[i].1, name) {
                (None, _) => true,
                (Some(wanted), Some(n)) => str_eq(wanted.as_str(), n),
                (Some(_), None) => false,
            };
        }
        i += 1;
    }
    false
}

/// Where the wait for a change stands.
#[derive(Debug, Clone, Copy, PartialEq, Eq, Structural)]
pub enum WatchState {
    /// Adding the watches.
    Starting,
    /// Reading events until a relevant one.
    Waiting,
    /// A relevant change came; letting the burst finish.
    Settling,
}

/// What the caller reports.
#[derive(Debug, Clone, PartialEq, Eq)]
pub enum WatchEvent {
    /// The watches are added.
    Watching,
    /// A change event on `wd`, about `name` when it names an entry.
    Event { wd: u64, name: Option<String> },
    /// Reading events failed.
    StreamError,
    /// The event stream ended.
    StreamEnded,
    /// [`QUIET_MS`] passed with no event.
    QuietElapsed,
}

/// What to do next.
#[derive(Debug, Clone, Copy, PartialEq, Eq, Structural)]
pub enum WatchAction {
    /// Read the next event.
    ReadNext,
    /// Wait for the next event, or for [`QUIET_MS`] of quiet, whichever
    /// comes first.
    AwaitQuiet,
    /// Scan the application directories again, then watch afresh.
    Rescan,
    /// Stop: nothing can be watched, and the list stays as scanned.
    StopWatching,
}

/// The next state and action: with no watch held there is nothing to wait
/// for; the first relevant event starts the quiet wait, which every further
/// event (a failed read too) restarts, until the quiet passes or the stream
/// ends, and then the list is rescanned; a failing or ending stream before
/// any relevant event stops the watching.
pub open spec fn watch_step_spec(w: WatchedModel, state: WatchState, event: WatchEvent) -> (WatchState, WatchAction) {
    match state {
        WatchState::Starting => if w.len() == 0 {
            (WatchState::Starting, WatchAction::StopWatching)
        } else {
            (WatchState::Waiting, WatchAction::ReadNext)
        },
        WatchState::Waiting => match event {
            WatchEvent::Event { wd, name } => if relevant_spec(
                w,
                wd,
                opt_string(name),
            ) {
                (WatchState::Settling, WatchAction::AwaitQuiet)
            } else {
                (WatchState::Waiting, WatchAction::ReadNext)
            },
            _ => (WatchState::Waiting, WatchAction::StopWatching),
        },
        WatchState::Settling => match event {
            WatchEvent::QuietElapsed | WatchEvent::StreamEnded => (WatchState::Starting, WatchAction::Rescan),
            _ => (WatchState::Settling, WatchAction::AwaitQuiet),
        },
    }
}

/// Whether `event` is what the work of `state` reports.
pub open spec fn reported_in(state: WatchState, event: WatchEvent) -> bool {
    match state {
        WatchState::Starting => event is Watching,
        WatchState::Waiting => event is Event || event is StreamError || event is StreamEnded,
        WatchState::Settling => !(event is Watching),
    }
}

/// One step of waiting for a change; see [`watch_step_spec`].
pub fn watch_step(watched: &Vec<(u64, Option<String>)>, state: WatchState, event: WatchEvent) -> (r: (
    WatchState,
    WatchAction,
))
    requires
        reported_in(state, event),
    ensures
        r == watch_step_spec(watched_view(watched@), state, event),
{
    match state {
        WatchState::Starting => if watched.len() == 0 {
            (WatchState::Starting, WatchAction::StopWatching)
        } else {
            (WatchState::Waiting, WatchAction::ReadNext)
        },
        WatchState::Waiting => match event {
            WatchEvent::Event { wd, name } => {
                let relevant = match &name {
                    Some(n) => is_relevant(watched, wd, Some(n.as_str())),
                    None => is_relevant(watched, wd, None),
                };
                if relevant {
                    (WatchState::Settling, WatchAction::AwaitQuiet)
                } else {
                    (WatchState::Waiting, WatchAction::ReadNext)
                }
            },
            _ => (WatchState::Waiting, WatchAction::StopWatching),
        },
        WatchState::Settling => match event {
            WatchEvent::QuietElapsed | WatchEvent::StreamEnded => (WatchState::Starting, WatchAction::Rescan),
            _ => (WatchState::Settling, WatchAction::AwaitQuiet),
        },
    }
}

} // verus!
