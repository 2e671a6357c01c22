//! Which player the bar and the panel show.
//!
//! The player that most recently started playing wins; before any player has
//! played, the one that appeared last. Cycling from the panel chip pins a
//! player, and the pin holds until some other player starts playing or the
//! pinned player itself disappears.
use vstd::prelude::*;
use crate::media::player::{PlaybackStatus, Player};
use crate::text::str_eq;

verus! {

/// A snapshot of the players as the selection reads it: bus name and status,
/// in the snapshot's order.
pub open spec fn roster(players: Seq<Player>) -> Seq<(Seq<char>, PlaybackStatus)> {
    players.map_values(|p: Player| (p.bus_name@, p.status))
}

/// The first index at or after `i` whose entry is named `key`.
pub open spec fn find_key_from(s: Seq<(Seq<char>, PlaybackStatus)>, key: Seq<char>, i: int) -> Option<
    int,
>
    decreases s.len() - i,
{
    if i < 0 || i >= s.len() {
        None
    } else if s[i].0 == key {
        Some(i)
    } else {
        find_key_from(s, key, i + 1)
    }
}

/// The first entry named `key`.
pub open spec fn find_key(s: Seq<(Seq<char>, PlaybackStatus)>, key: Seq<char>) -> Option<int> {
    find_key_from(s, key, 0)
}

/// Whether the snapshot `r` has a player named `key`.
pub open spec fn present(r: Seq<(Seq<char>, PlaybackStatus)>, key: Seq<char>) -> bool {
    find_key(r, key) is Some
}

/// The status remembered for `key`.
pub open spec fn status_of(s: Seq<(Seq<char>, PlaybackStatus)>, key: Seq<char>) -> Option<
    PlaybackStatus,
> {
    match find_key(s, key) {
        Some(i) => Some(s[i].1),
        None => None,
    }
}

/// Remember `status` for `key`: in place when it is known, at the end
/// otherwise.
pub open spec fn set_status(
    s: Seq<(Seq<char>, PlaybackStatus)>,
    key: Seq<char>,
    status: PlaybackStatus,
) -> Seq<(Seq<char>, PlaybackStatus)> {
    match find_key(s, key) {
        Some(i) => s.update(i, (key, status)),
        None => s.push((key, status)),
    }
}

/// `s` without the name `key`.
pub open spec fn without_name(s: Seq<Seq<char>>, key: Seq<char>) -> Seq<Seq<char>>
    decreases s.len(),
{
    if s.len() == 0 {
        s
    } else if s.last() == key {
        without_name(s.drop_last(), key)
    } else {
        without_name(s.drop_last(), key).push(s.last())
    }
}

/// The names of `s` that the snapshot `r` still has.
pub open spec fn keep_present_names(s: Seq<Seq<char>>, r: Seq<(Seq<char>, PlaybackStatus)>) -> Seq<
    Seq<char>,
>
    decreases s.len(),
{
    if s.len() == 0 {
        s
    } else if present(r, s.last()) {
        keep_present_names(s.drop_last(), r).push(s.last())
    } else {
        keep_present_names(s.drop_last(), r)
    }
}

/// The entries of `s` whose name the snapshot `r` still has.
pub open spec fn keep_present_entries(
    s: Seq<(Seq<char>, PlaybackStatus)>,
    r: Seq<(Seq<char>, PlaybackStatus)>,
) -> Seq<(Seq<char>, PlaybackStatus)>
    decreases s.len(),
{
    if s.len() == 0 {
        s
    } else if present(r, s.last().0) {
        keep_present_entries(s.drop_last(), r).push(s.last())
    } else {
        keep_present_entries(s.drop_last(), r)
    }
}

/// A name that the snapshot `r` still has, or none.
pub open spec fn keep_if_present(o: Option<Seq<char>>, r: Seq<(Seq<char>, PlaybackStatus)>) -> Option<
    Seq<char>,
> {
    match o {
        Some(k) => if present(r, k) {
            Some(k)
        } else {
            None
        },
        None => None,
    }
}

/// What a [`Selection`] remembers.
pub struct SelectionModel {
    /// The last status seen for each player.
    pub statuses: Seq<(Seq<char>, PlaybackStatus)>,
    /// Bus names in the order they started playing, most recent last.
    pub started: Seq<Seq<char>>,
    /// The player that appeared most recently.
    pub last_seen: Option<Seq<char>>,
    /// The player cycling chose.
    pub pinned: Option<Seq<char>>,
}

/// Nothing seen yet.
pub open spec fn empty_model() -> SelectionModel {
    SelectionModel { statuses: seq![], started: seq![], last_seen: None, pinned: None }
}

/// One player of a snapshot noticed: an appearance makes it the last seen,
/// a start (playing now, not playing before) moves it to the end of the
/// started list and drops a pin on any other player.
pub open spec fn observe_one(m: SelectionModel, bus: Seq<char>, status: PlaybackStatus) -> SelectionModel {
    let previous = status_of(m.statuses, bus);
    let statuses = set_status(m.statuses, bus, status);
    let last_seen = if previous is None {
        Some(bus)
    } else {
        m.last_seen
    };
    if status == PlaybackStatus::Playing && previous != Some(PlaybackStatus::Playing) {
        SelectionModel {
            statuses,
            started: without_name(m.started, bus).push(bus),
            last_seen,
            pinned: if m.pinned == Some(bus) {
                m.pinned
            } else {
                None
            },
        }
    } else {
        SelectionModel { statuses, started: m.started, last_seen, pinned: m.pinned }
    }
}

/// Every player of `r` noticed, in order.
pub open spec fn observe_all(m: SelectionModel, r: Seq<(Seq<char>, PlaybackStatus)>) -> SelectionModel
    decreases r.len(),
{
    if r.len() == 0 {
        m
    } else {
        let before = observe_all(m, r.drop_last());
        observe_one(before, r.last().0, r.last().1)
    }
}

/// Every reference to a player that `r` no longer has, forgotten.
pub open spec fn prune(m: SelectionModel, r: Seq<(Seq<char>, PlaybackStatus)>) -> SelectionModel {
    SelectionModel {
        statuses: keep_present_entries(m.statuses, r),
        started: keep_present_names(m.started, r),
        last_seen: keep_if_present(m.last_seen, r),
        pinned: keep_if_present(m.pinned, r),
    }
}

/// [`Selection::observe`]: notice every player of the snapshot, then forget
/// the ones it no longer has.
pub open spec fn observe_spec(m: SelectionModel, r: Seq<(Seq<char>, PlaybackStatus)>) -> SelectionModel {
    prune(observe_all(m, r), r)
}

/// The most recent starter that `r` still has.
pub open spec fn latest_present(started: Seq<Seq<char>>, r: Seq<(Seq<char>, PlaybackStatus)>) -> Option<
    int,
>
    decreases started.len(),
{
    if started.len() == 0 {
        None
    } else {
        match find_key(r, started.last()) {
            Some(i) => Some(i),
            None => latest_present(started.drop_last(), r),
        }
    }
}

/// The first player of `r` that is playing, from `i` on.
pub open spec fn first_playing_from(r: Seq<(Seq<char>, PlaybackStatus)>, i: int) -> Option<int>
    decreases r.len() - i,
{
    if i < 0 || i >= r.len() {
        None
    } else if r[i].1 == PlaybackStatus::Playing {
        Some(i)
    } else {
        first_playing_from(r, i + 1)
    }
}

/// Where in `r` the player shown stands: the pinned one, else the most
/// recent starter, else the last to appear, else the first playing, else the
/// first at all.
pub open spec fn active_index(m: SelectionModel, r: Seq<(Seq<char>, PlaybackStatus)>) -> Option<int> {
    let pinned = match m.pinned {
        Some(k) => find_key(r, k),
        None => None,
    };
    if pinned is Some {
        pinned
    } else if latest_present(m.started, r) is Some {
        latest_present(m.started, r)
    } else if (match m.last_seen {
        Some(k) => find_key(r, k),
        None => None,
    }) is Some {
        find_key(r, m.last_seen->0)
    } else if first_playing_from(r, 0) is Some {
        first_playing_from(r, 0)
    } else if r.len() > 0 {
        Some(0)
    } else {
        None
    }
}

/// The active player's place: the first entry with its name.
pub open spec fn active_position(m: SelectionModel, r: Seq<(Seq<char>, PlaybackStatus)>) -> Option<int> {
    match active_index(m, r) {
        Some(i) => find_key(r, r[i].0),
        None => None,
    }
}

/// [`Selection::cycle`]: pin the player after the active one, wrapping
/// around to the first.
pub open spec fn cycle_spec(m: SelectionModel, r: Seq<(Seq<char>, PlaybackStatus)>) -> SelectionModel {
    let next = match active_position(m, r) {
        Some(i) => if i + 1 < r.len() {
            Some(i + 1)
        } else if r.len() > 0 {
            Some(0)
        } else {
            None
        },
        None => if r.len() > 0 {
            Some(0)
        } else {
            None
        },
    };
    SelectionModel {
        pinned: match next {
            Some(j) => Some(r[j].0),
            None => None,
        },
        ..m
    }
}


proof fn lemma_find_key_from(s: Seq<(Seq<char>, PlaybackStatus)>, key: Seq<char>, i: int)
    requires
        0 <= i,
    ensures
        match find_key_from(s, key, i) {
            Some(j) => i <= j < s.len() && s[j].0 == key && forall|k: int| i <= k < j ==> s[k].0 != key,
            None => forall|k: int| i <= k < s.len() ==> s[k].0 != key,
        },
    decreases s.len() - i,
{
    if i < s.len() && s[i].0 != key {
        lemma_find_key_from(s, key, i + 1);
    }
}

proof fn lemma_first_playing_from(r: Seq<(Seq<char>, PlaybackStatus)>, i: int)
    requires
        0 <= i,
    ensures
        match first_playing_from(r, i) {
            Some(j) => i <= j < r.len(),
            None => true,
        },
    decreases r.len() - i,
{
    if i < r.len() && r[i].1 != PlaybackStatus::Playing {
        lemma_first_playing_from(r, i + 1);
    }
}

proof fn lemma_latest_present(started: Seq<Seq<char>>, r: Seq<(Seq<char>, PlaybackStatus)>)
    ensures
        match latest_present(started, r) {
            Some(j) => 0 <= j < r.len(),
            None => true,
        },
    decreases started.len(),
{
    if started.len() > 0 {
        lemma_find_key_from(r, started.last(), 0);
        lemma_latest_present(started.drop_last(), r);
    }
}

/// There is a player to show exactly when the snapshot has any player, and
/// it is one of them.
pub proof fn lemma_active_is_a_player(m: SelectionModel, r: Seq<(Seq<char>, PlaybackStatus)>)
    ensures
        (active_index(m, r) is Some) == (r.len() > 0),
        match active_index(m, r) {
            Some(i) => 0 <= i < r.len(),
            None => true,
        },
        match active_position(m, r) {
            Some(i) => 0 <= i < r.len() && r[i].0 == r[active_index(m, r)->0].0,
            None => r.len() == 0,
        },
{
    if let Some(k) = m.pinned {
        lemma_find_key_from(r, k, 0);
    }
    if let Some(k) = m.last_seen {
        lemma_find_key_from(r, k, 0);
    }
    lemma_latest_present(m.started, r);
    lemma_first_playing_from(r, 0);
    if let Some(i) = active_index(m, r) {
        lemma_find_key_from(r, r[i].0, 0);
    }
}

proof fn lemma_kept_names_present(s: Seq<Seq<char>>, r: Seq<(Seq<char>, PlaybackStatus)>)
    ensures
        forall|k: int| 0 <= k < keep_present_names(s, r).len() ==> present(r, #[trigger] keep_present_names(s, r)[k]),
    decreases s.len(),
{
    if s.len() > 0 {
        let rest = keep_present_names(s.drop_last(), r);
        lemma_kept_names_present(s.drop_last(), r);
        if present(r, s.last()) {
            assert forall|k: int| 0 <= k < rest.push(s.last()).len() implies present(
                r,
                #[trigger] rest.push(s.last())[k],
            ) by {
                if k < rest.len() {
                    assert(rest.push(s.last())[k] == rest[k]);
                }
            }
        }
    }
}

proof fn lemma_kept_entries_present(
    s: Seq<(Seq<char>, PlaybackStatus)>,
    r: Seq<(Seq<char>, PlaybackStatus)>,
)
    ensures
        forall|k: int| 0 <= k < keep_present_entries(s, r).len() ==> present(r, #[trigger] keep_present_entries(s, r)[k].0),
    decreases s.len(),
{
    if s.len() > 0 {
        let rest = keep_present_entries(s.drop_last(), r);
        lemma_kept_entries_present(s.drop_last(), r);
        if present(r, s.last().0) {
            assert forall|k: int| 0 <= k < rest.push(s.last()).len() implies present(
                r,
                #[trigger] rest.push(s.last())[k].0,
            ) by {
                if k < rest.len() {
                    assert(rest.push(s.last())[k] == rest[k]);
                }
            }
        }
    }
}

/// After a snapshot is observed, nothing the selection remembers names a
/// player the snapshot does not have.
pub proof fn lemma_observe_forgets_the_absent(m: SelectionModel, r: Seq<(Seq<char>, PlaybackStatus)>)
    ensures
        ({
            let n = observe_spec(m, r);
            &&& forall|k: int| 0 <= k < n.statuses.len() ==> present(r, #[trigger] n.statuses[k].0)
            &&& forall|k: int| 0 <= k < n.started.len() ==> present(r, #[trigger] n.started[k])
            &&& (n.last_seen matches Some(b) ==> present(r, b))
            &&& (n.pinned matches Some(b) ==> present(r, b))
        }),
{
    let g = observe_all(m, r);
    lemma_kept_entries_present(g.statuses, r);
    lemma_kept_names_present(g.started, r);
}

/// No two players of a snapshot share a bus name.
pub open spec fn distinct_names(r: Seq<(Seq<char>, PlaybackStatus)>) -> bool {
    forall|i: int, j: int| 0 <= i < j < r.len() ==> r[i].0 != r[j].0
}

proof fn lemma_find_distinct(r: Seq<(Seq<char>, PlaybackStatus)>, j: int)
    requires
        distinct_names(r),
        0 <= j < r.len(),
    ensures
        find_key(r, r[j].0) == Some(j),
{
    lemma_find_key_from(r, r[j].0, 0);
}

/// Cycling moves the shown player to the next one in the snapshot, and
/// from the last back to the first.
pub proof fn lemma_cycle_moves_to_the_next(m: SelectionModel, r: Seq<(Seq<char>, PlaybackStatus)>)
    requires
        distinct_names(r),
        r.len() > 0,
    ensures
        active_index(m, r) is Some,
        active_index(cycle_spec(m, r), r) == Some((active_index(m, r)->0 + 1) % (r.len() as int)),
{
    lemma_active_is_a_player(m, r);
    let i = active_index(m, r)->0;
    lemma_find_distinct(r, i);
    let j = if i + 1 < r.len() {
        i + 1
    } else {
        0
    };
    lemma_find_distinct(r, j);
    let n = r.len() as int;
    if i + 1 < n {
        assert((i + 1) % n == i + 1) by (nonlinear_arith)
            requires
                0 <= i + 1 < n,
        ;
    } else {
        assert(i + 1 == n);
        assert(n % n == 0) by (nonlinear_arith)
            requires
                n > 0,
        ;
    }
}

/// The rotation counts from one and never past the number of players.
pub proof fn lemma_rotation_in_range(m: SelectionModel, r: Seq<(Seq<char>, PlaybackStatus)>)
    requires
        r.len() >= 2,
    ensures
        active_position(m, r) is Some,
        1 <= active_position(m, r)->0 + 1 <= r.len(),
{
    lemma_active_is_a_player(m, r);
}

/// A pin holds through any snapshot that still has the pinned player and in
/// which no other player is playing.
pub proof fn lemma_pin_holds(m: SelectionModel, r: Seq<(Seq<char>, PlaybackStatus)>, p: Seq<char>)
    requires
        m.pinned == Some(p),
        present(r, p),
        forall|k: int| 0 <= k < r.len() && r[k].0 != p ==> r[k].1 != PlaybackStatus::Playing,
    ensures
        observe_spec(m, r).pinned == Some(p),
{
    lemma_pin_holds_all(m, r, p);
}

proof fn lemma_pin_holds_all(m: SelectionModel, r: Seq<(Seq<char>, PlaybackStatus)>, p: Seq<char>)
    requires
        m.pinned == Some(p),
        forall|k: int| 0 <= k < r.len() && r[k].0 != p ==> r[k].1 != PlaybackStatus::Playing,
    ensures
        observe_all(m, r).pinned == Some(p),
    decreases r.len(),
{
    if r.len() > 0 {
        lemma_pin_holds_all(m, r.drop_last(), p);
    }
}

/// A player that starts playing is shown, unless a pin on another player
/// holds; and a start drops a pin on any other player.
pub proof fn lemma_a_start_takes_over(m: SelectionModel, bus: Seq<char>, status: PlaybackStatus)
    requires
        status == PlaybackStatus::Playing,
        status_of(m.statuses, bus) != Some(PlaybackStatus::Playing),
    ensures
        observe_one(m, bus, status).started.last() == bus,
        observe_one(m, bus, status).pinned is None || observe_one(m, bus, status).pinned == Some(bus),
{
}

/// Where the active player sits among several, in cycling order: the
/// `index`th, counted from one, of `total`.
#[derive(Debug, Clone, Copy, PartialEq, Eq, Structural)]
pub struct Rotation {
    pub index: usize,
    pub total: usize,
}

/// Which player the bar and the panel show.
#[derive(Debug)]
pub struct Selection {
    statuses: Vec<(String, PlaybackStatus)>,
    started: Vec<String>,
    last_seen: Option<String>,
    pinned: Option<String>,
}

pub open spec fn entries_view(v: Seq<(String, PlaybackStatus)>) -> Seq<(Seq<char>, PlaybackStatus)> {
    v.map_values(|e: (String, PlaybackStatus)| (e.0@, e.1))
}

pub open spec fn names_view(v: Seq<String>) -> Seq<Seq<char>> {
    v.map_values(|s: String| s@)
}

pub open spec fn opt_name(o: Option<String>) -> Option<Seq<char>> {
    match o {
        Some(s) => Some(s@),
        None => None,
    }
}

impl View for Selection {
    type V = SelectionModel;

    closed spec fn view(&self) -> SelectionModel {
        SelectionModel {
            statuses: entries_view(self.statuses@),
            started: names_view(self.started@),
            last_seen: opt_name(self.last_seen),
            pinned: opt_name(self.pinned),
        }
    }
}

impl Default for Selection {
    fn default() -> (s: Selection)
        ensures
            s@ == empty_model(),
    {
        let s = Selection { statuses: Vec::new(), started: Vec::new(), last_seen: None, pinned: None };
        assert(s@.statuses =~= seq![]);
        assert(s@.started =~= seq![]);
        s
    }
}

fn find_player(players: &[Player], bus: &str) -> (r: Option<usize>)
    ensures
        match r {
            Some(i) => find_key(roster(players@), bus@) == Some(i as int) && i < players.len(),
            None => find_key(roster(players@), bus@) is None,
        },
{
    let ghost ro = roster(players@);
    let mut i: usize = 0;
    while i < players.len()
        invariant
            i <= players.len(),
            ro == roster(players@),
            find_key(ro, bus@) == find_key_from(ro, bus@, i as int),
        decreases players.len() - i,
    {
        assert(ro[i as int].0 == players@[i as int].bus_name@);
        if str_eq(players[i].bus_name.as_str(), bus) {
            return Some(i);
        }
        i += 1;
    }
    None
}

fn find_entry(entries: &Vec<(String, PlaybackStatus)>, bus: &str) -> (r: Option<usize>)
    ensures
        match r {
            Some(i) => find_key(entries_view(entries@), bus@) == Some(i as int) && i < entries.len(),
            None => find_key(entries_view(entries@), bus@) is None,
        },
{
    let ghost ev = entries_view(entries@);
    let mut i: usize = 0;
    while i < entries.len()
        invariant
            i <= entries.len(),
            ev == entries_view(entries@),
            find_key(ev, bus@) == find_key_from(ev, bus@, i as int),
        decreases entries.len() - i,
    {
        if str_eq(entries[i].0.as_str(), bus) {
            return Some(i);
        }
        i += 1;
    }
    None
}

fn first_playing(players: &[Player]) -> (r: Option<usize>)
    ensures
        match r {
            Some(i) => first_playing_from(roster(players@), 0) == Some(i as int) && i < players.len(),
            None => first_playing_from(roster(players@), 0) is None,
        },
{
    let ghost ro = roster(players@);
    let mut i: usize = 0;
    while i < players.len()
        invariant
            i <= players.len(),
            ro == roster(players@),
            first_playing_from(ro, 0) == first_playing_from(ro, i as int),
        decreases players.len() - i,
    {
        if players[i].is_playing() {
            return Some(i);
        }
        i += 1;
    }
    None
}

fn present_in(players: &[Player], bus: &str) -> (b: bool)
    ensures
        b == present(roster(players@), bus@),
{
    find_player(players, bus).is_some()
}

fn clone_name(s: &String) -> (c: String)
    ensures
        c@ == s@,
{
    s.clone()
}

impl Selection {
    /// Record a fresh snapshot, noticing appearances and starts, and forget
    /// every reference to a player no longer in it.
    pub fn observe(&mut self, players: &[Player])
        ensures
            final(self)@ == observe_spec(old(self)@, roster(players@)),
    {
        let ghost r = roster(players@);
        let ghost start = self@;
        let mut k: usize = 0;
        while k < players.len()
            invariant
                k <= players.len(),
                r == roster(players@),
                self@ == observe_all(start, r.take(k as int)),
            decreases players.len() - k,
        {
            let ghost before = self@;
            assert(r.take(k + 1).drop_last() == r.take(k as int));
            assert(r.take(k + 1).last() == (players@[k as int].bus_name@, players@[k as int].status));
            let bus = &players[k].bus_name;
            let status = players[k].status;
            let previous = match find_entry(&self.statuses, bus.as_str()) {
                Some(i) => {
                    let p = self.statuses[i].1;
                    self.statuses.set(i, (clone_name(bus), status));
                    assert(entries_view(self.statuses@) =~= before.statuses.update(
                        i as int,
                        (bus@, status),
                    ));
                    Some(p)
                },
                None => {
                    self.statuses.push((clone_name(bus), status));
                    assert(entries_view(self.statuses@) =~= before.statuses.push((bus@, status)));
                    None
                },
            };
            if previous.is_none() {
                self.last_seen = Some(clone_name(bus));
            }
            let was_playing = match previous {
                Some(PlaybackStatus::Playing) => true,
                _ => false,
            };
            if status == PlaybackStatus::Playing && !was_playing {
                self.remove_started(bus.as_str());
                self.started.push(clone_name(bus));
                assert(names_view(self.started@) =~= without_name(before.started, bus@).push(bus@));
                let keep = match &self.pinned {
                    Some(p) => str_eq(p.as_str(), bus.as_str()),
                    None => false,
                };
                if !keep {
                    self.pinned = None;
                }
            }
            k += 1;
        }
        assert(r.take(players.len() as int) == r);
        let ghost gathered = self@;
        self.prune_statuses(players);
        self.prune_started(players);
        let keep_seen = match &self.last_seen {
            Some(b) => present_in(players, b.as_str()),
            None => false,
        };
        if !keep_seen {
            self.last_seen = None;
        }
        let keep_pin = match &self.pinned {
            Some(b) => present_in(players, b.as_str()),
            None => false,
        };
        if !keep_pin {
            self.pinned = None;
        }
        assert(self@.statuses == prune(gathered, r).statuses);
        assert(self@.started == prune(gathered, r).started);
    }

    fn remove_started(&mut self, bus: &str)
        ensures
            names_view(final(self).started@) == without_name(names_view(old(self).started@), bus@),
            final(self).statuses == old(self).statuses,
            final(self).last_seen == old(self).last_seen,
            final(self).pinned == old(self).pinned,
    {
        let ghost old_names = names_view(self.started@);
        let mut kept: Vec<String> = Vec::new();
        let mut i: usize = 0;
        while i < self.started.len()
            invariant
                i <= self.started.len(),
                old_names == names_view(self.started@),
                names_view(kept@) == without_name(old_names.take(i as int), bus@),
            decreases self.started.len() - i,
        {
            assert(old_names.take(i + 1).drop_last() == old_names.take(i as int));
            if !str_eq(self.started[i].as_str(), bus) {
                let ghost prev = kept@;
                kept.push(clone_name(&self.started[i]));
                assert(names_view(kept@) =~= names_view(prev).push(old_names[i as int]));
            }
            i += 1;
        }
        assert(old_names.take(i as int) == old_names);
        self.started = kept;
    }

    fn prune_statuses(&mut self, players: &[Player])
        ensures
            entries_view(final(self).statuses@) == keep_present_entries(
                entries_view(old(self).statuses@),
                roster(players@),
            ),
            final(self).started == old(self).started,
            final(self).last_seen == old(self).last_seen,
            final(self).pinned == old(self).pinned,
    {
        let ghost old_entries = entries_view(self.statuses@);
        let ghost r = roster(players@);
        let mut kept: Vec<(String, PlaybackStatus)> = Vec::new();
        let mut i: usize = 0;
        while i < self.statuses.len()
            invariant
                i <= self.statuses.len(),
                old_entries == entries_view(self.statuses@),
                r == roster(players@),
                entries_view(kept@) == keep_present_entries(old_entries.take(i as int), r),
            decreases self.statuses.len() - i,
        {
            assert(old_entries.take(i + 1).drop_last() == old_entries.take(i as int));
            if present_in(players, self.statuses[i].0.as_str()) {
                let ghost prev = kept@;
                kept.push((clone_name(&self.statuses[i].0), self.statuses[i].1));
                assert(entries_view(kept@) =~= entries_view(prev).push(old_entries[i as int]));
            }
            i += 1;
        }
        assert(old_entries.take(i as int) == old_entries);
        self.statuses = kept;
    }

    fn prune_started(&mut self, players: &[Player])
        ensures
            names_view(final(self).started@) == keep_present_names(
                names_view(old(self).started@),
                roster(players@),
            ),
            final(self).statuses == old(self).statuses,
            final(self).last_seen == old(self).last_seen,
            final(self).pinned == old(self).pinned,
    {
        let ghost old_names = names_view(self.started@);
        let ghost r = roster(players@);
        let mut kept: Vec<String> = Vec::new();
        let mut i: usize = 0;
        while i < self.started.len()
            invariant
                i <= self.started.len(),
                old_names == names_view(self.started@),
                r == roster(players@),
                names_view(kept@) == keep_present_names(old_names.take(i as int), r),
            decreases self.started.len() - i,
        {
            assert(old_names.take(i + 1).drop_last() == old_names.take(i as int));
            if present_in(players, self.started[i].as_str()) {
                let ghost prev = kept@;
                kept.push(clone_name(&self.started[i]));
                assert(names_view(kept@) =~= names_view(prev).push(old_names[i as int]));
            }
            i += 1;
        }
        assert(old_names.take(i as int) == old_names);
        self.started = kept;
    }

    fn latest(&self, players: &[Player]) -> (r: Option<usize>)
        ensures
            match r {
                Some(i) => latest_present(self@.started, roster(players@)) == Some(i as int) && i
                    < players.len(),
                None => latest_present(self@.started, roster(players@)) is None,
            },
    {
        let ghost names = self@.started;
        let ghost ro = roster(players@);
        let mut n = self.started.len();
        assert(names.take(n as int) == names);
        while n > 0
            invariant
                n <= self.started.len(),
                names == self@.started,
                ro == roster(players@),
                latest_present(names, ro) == latest_present(names.take(n as int), ro),
            decreases n,
        {
            assert(names.take(n as int).drop_last() == names.take(n - 1));
            assert(names.take(n as int).last() == self.started@[n - 1]@);
            if let Some(i) = find_player(players, self.started[n - 1].as_str()) {
                return Some(i);
            }
            n -= 1;
        }
        None
    }

    fn active_at(&self, players: &[Player]) -> (r: Option<usize>)
        ensures
            match r {
                Some(i) => active_index(self@, roster(players@)) == Some(i as int) && i < players.len(),
                None => active_index(self@, roster(players@)) is None,
            },
    {
        if let Some(p) = &self.pinned {
            if let Some(i) = find_player(players, p.as_str()) {
                return Some(i);
            }
        }
        if let Some(i) = self.latest(players) {
            return Some(i);
        }
        if let Some(b) = &self.last_seen {
            if let Some(i) = find_player(players, b.as_str()) {
                return Some(i);
            }
        }
        if let Some(i) = first_playing(players) {
            return Some(i);
        }
        if players.len() > 0 {
            Some(0)
        } else {
            None
        }
    }

    /// The player to show, if there is any player at all.
    pub fn active<'a>(&self, players: &'a [Player]) -> (p: Option<&'a Player>)
        ensures
            match active_index(self@, roster(players@)) {
                Some(i) => p == Some(&players@[i]),
                None => p is None,
            },
    {
        match self.active_at(players) {
            Some(i) => Some(&players[i]),
            None => None,
        }
    }

    fn position(&self, players: &[Player]) -> (r: Option<usize>)
        ensures
            match r {
                Some(i) => active_position(self@, roster(players@)) == Some(i as int) && i
                    < players.len(),
                None => active_position(self@, roster(players@)) is None,
            },
    {
        match self.active_at(players) {
            Some(i) => {
                assert(roster(players@)[i as int].0 == players@[i as int].bus_name@);
                find_player(players, players[i].bus_name.as_str())
            },
            None => None,
        }
    }

    /// Pin the player after the active one, wrapping around.
    pub fn cycle(&mut self, players: &[Player])
        ensures
            final(self)@ == cycle_spec(old(self)@, roster(players@)),
    {
        let next = match self.position(players) {
            Some(i) => if i + 1 < players.len() {
                Some(i + 1)
            } else if players.len() > 0 {
                Some(0)
            } else {
                None
            },
            None => if players.len() > 0 {
                Some(0)
            } else {
                None
            },
        };
        self.pinned = match next {
            Some(j) => Some(clone_name(&players[j].bus_name)),
            None => None,
        };
    }

    /// The active player's place among the others; `None` unless there is
    /// another player to cycle to.
    pub fn rotation(&self, players: &[Player]) -> (r: Option<Rotation>)
        ensures
            r == if players@.len() < 2 {
                None
            } else {
                match active_position(self@, roster(players@)) {
                    Some(i) => Some(Rotation { index: (i + 1) as usize, total: players@.len() as usize }),
                    None => None,
                }
            },
    {
        let total = players.len();
        if total < 2 {
            return None;
        }
        match self.position(players) {
            Some(i) => Some(Rotation { index: i + 1, total }),
            None => None,
        }
    }
}

} // verus!
