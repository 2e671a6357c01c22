//! The application launcher: desktop entries, how they are ranked against
//! what the user types, and how the selection moves.
//!
//! Drawing and scrolling belong to the surface that shows the list; what is
//! here is the state it draws: the query, the ranked entries, the selection,
//! the launch counts, and what each key does to them.
pub mod desktop_entry;
pub mod icons;
pub mod watch;

use fuzzy_matcher::FuzzyMatcher;
use vstd::prelude::*;
use crate::launcher::desktop_entry::{
    convert, convert_spec, copy_opt, first_of_each_id, first_with_id, id_views, opt_string, DesktopEntry, DesktopEntryModel,
    ParsedEntry,
};
use crate::text::strings_view;
use crate::text::{chars_eq, chars_of, lex_lt, lex_less, lowercase, owned, str_eq, to_lowercase};

verus! {

pub const LAUNCHER_WIDTH: u32 = 600;

pub const LAUNCHER_HEIGHT: u32 = 500;

/// Layer-shell namespace of the launcher surface.
pub const NAMESPACE: &'static str = "obayebar-launcher";

/// How many ranked entries the list shows, and so how far the selection can
/// move down.
pub const MAX_VISIBLE_ENTRIES: usize = 50;

/// The cap on the launch count that boosts a fuzzy match.
pub const FREQUENCY_CAP: u32 = 20;

/// What each counted launch adds to a fuzzy score, up to the cap.
pub const FREQUENCY_WEIGHT: i64 = 5;

/// What the skim fuzzy matcher, with its default settings, scores `choice`
/// against `pattern`; `None` when `pattern` does not match at all.
pub uninterp spec fn skim_score(choice: Seq<char>, pattern: Seq<char>) -> Option<i64>;

/// `SkimMatcherV2::default().fuzzy_match(choice, pattern)`. The source
/// scores an empty pattern 0 before looking at the choice.
#[verifier::external_body]
fn fuzzy_score(choice: &str, pattern: &str) -> (r: Option<i64>)
    ensures
        r == skim_score(choice@, pattern@),
        pattern@.len() == 0 ==> r == Some(0i64),
{
    fuzzy_matcher::skim::SkimMatcherV2::default().fuzzy_match(choice, pattern)
}

/// The view of the launch counts.
pub open spec fn counts_view(v: Seq<(String, u32)>) -> Seq<(Seq<char>, u32)> {
    v.map_values(|p: (String, u32)| (p.0@, p.1))
}

/// The view of the entries.
pub open spec fn entries_view(v: Seq<DesktopEntry>) -> Seq<DesktopEntryModel> {
    v.map_values(|e: DesktopEntry| e@)
}

/// How often `id` was launched: the first count recorded for it, 0 when none
/// is.
pub open spec fn count_of(counts: Seq<(Seq<char>, u32)>, id: Seq<char>) -> u32
    decreases counts.len(),
{
    if counts.len() == 0 {
        0
    } else if counts[0].0 == id {
        counts[0].1
    } else {
        count_of(counts.drop_first(), id)
    }
}

/// `n + 1`, held at `u32::MAX`.
pub open spec fn sat_inc(n: u32) -> u32 {
    if n == u32::MAX {
        n
    } else {
        (n + 1) as u32
    }
}

/// The counts after one more launch of `id`.
pub open spec fn bumped(counts: Seq<(Seq<char>, u32)>, id: Seq<char>) -> Seq<(Seq<char>, u32)>
    decreases counts.len(),
{
    if counts.len() == 0 {
        seq![(id, 1u32)]
    } else if counts[0].0 == id {
        counts.update(0, (id, sat_inc(counts[0].1)))
    } else {
        seq![counts[0]] + bumped(counts.drop_first(), id)
    }
}

/// A fuzzy score raised by the launch count, capped, so that frequency breaks
/// ties without burying a much better match.
pub open spec fn boosted(score: i64, count: u32) -> int {
    let bonus = (if count < FREQUENCY_CAP {
        count as int
    } else {
        FREQUENCY_CAP as int
    }) * FREQUENCY_WEIGHT;
    if score + bonus > i64::MAX {
        i64::MAX as int
    } else {
        score + bonus
    }
}

/// Between two equally good fuzzy matches, the one launched more often
/// ranks ahead, up to the cap.
pub proof fn lemma_frequency_breaks_ties(score: i64, more: u32, fewer: u32)
    requires
        fewer < more,
        fewer < FREQUENCY_CAP,
        score + FREQUENCY_CAP * FREQUENCY_WEIGHT <= i64::MAX,
    ensures
        boosted(score, more) > boosted(score, fewer),
{
}

/// Frequency cannot bury a much better match: a score ahead by more than
/// the largest boost stays ahead whatever the launch counts.
pub proof fn lemma_frequency_is_capped(better: i64, worse: i64, c1: u32, c2: u32)
    requires
        better > worse + FREQUENCY_CAP * FREQUENCY_WEIGHT,
    ensures
        boosted(better, c1) > boosted(worse, c2),
{
}

/// Whether `e` is listed for `query`: every entry for an empty query, the
/// fuzzy matches otherwise.
pub open spec fn listed(e: DesktopEntryModel, query: Seq<char>) -> bool {
    query.len() == 0 || skim_score(e.search_text, query) is Some
}

/// What `e` is ranked by: launch count then lowercased name for an empty
/// query, the boosted fuzzy score otherwise.
pub open spec fn rank_key(
    e: DesktopEntryModel,
    counts: Seq<(Seq<char>, u32)>,
    query: Seq<char>,
) -> (int, Seq<char>) {
    if query.len() == 0 {
        (count_of(counts, e.id) as int, lowercase(e.name))
    } else {
        (boosted(skim_score(e.search_text, query)->0, count_of(counts, e.id)), seq![])
    }
}

/// Whether the entry keyed `ka` at index `a` ranks ahead of the one keyed
/// `kb` at `b`: the higher number first, then the name that sorts first,
/// then the earlier entry.
pub open spec fn key_ahead(ka: (int, Seq<char>), a: int, kb: (int, Seq<char>), b: int) -> bool {
    ||| ka.0 > kb.0
    ||| ka.0 == kb.0 && lex_lt(ka.1, kb.1)
    ||| ka.0 == kb.0 && ka.1 == kb.1 && a < b
}

/// Whether entry `a` ranks ahead of entry `b`.
pub open spec fn ranks_ahead(
    es: Seq<DesktopEntryModel>,
    counts: Seq<(Seq<char>, u32)>,
    query: Seq<char>,
    a: int,
    b: int,
) -> bool {
    key_ahead(rank_key(es[a], counts, query), a, rank_key(es[b], counts, query), b)
}

/// `f` lists exactly the entries listed for `query`, each once, best first.
pub open spec fn is_ranking(
    f: Seq<usize>,
    es: Seq<DesktopEntryModel>,
    counts: Seq<(Seq<char>, u32)>,
    query: Seq<char>,
) -> bool {
    &&& forall|p: int| 0 <= p < f.len() ==> #[trigger] f[p] < es.len() && listed(es[f[p] as int], query)
    &&& forall|i: int|
        0 <= i < es.len() && #[trigger] listed(es[i], query) ==> exists|p: int|
            0 <= p < f.len() && f[p] == i
    &&& forall|p: int, r: int|
        0 <= p < r < f.len() ==> ranks_ahead(es, counts, query, #[trigger] f[p] as int, #[trigger] f[r] as int)
}

proof fn lemma_key_ahead_transitive(
    ka: (int, Seq<char>),
    a: int,
    kb: (int, Seq<char>),
    b: int,
    kc: (int, Seq<char>),
    c: int,
)
    requires
        key_ahead(ka, a, kb, b),
        key_ahead(kb, b, kc, c),
    ensures
        key_ahead(ka, a, kc, c),
{
    if ka.0 == kb.0 && kb.0 == kc.0 {
        if lex_lt(ka.1, kb.1) && lex_lt(kb.1, kc.1) {
            crate::text::lemma_lex_transitive(ka.1, kb.1, kc.1);
        }
    }
}

proof fn lemma_key_ahead_total(ka: (int, Seq<char>), a: int, kb: (int, Seq<char>), b: int)
    requires
        a != b,
    ensures
        key_ahead(ka, a, kb, b) || key_ahead(kb, b, ka, a),
        !(key_ahead(ka, a, kb, b) && key_ahead(kb, b, ka, a)),
{
    crate::text::lemma_lex_total(ka.1, kb.1);
    crate::text::lemma_lex_irreflexive(ka.1);
}

fn count_lookup(counts: &Vec<(String, u32)>, id: &str) -> (r: u32)
    ensures
        r == count_of(counts_view(counts@), id@),
{
    let ghost cv = counts_view(counts@);
    let mut i: usize = 0;
    assert(cv.skip(0) == cv);
    while i < counts.len()
        invariant
            i <= counts.len(),
            cv == counts_view(counts@),
            count_of(cv, id@) == count_of(cv.skip(i as int), id@),
        decreases counts.len() - i,
    {
        assert(cv.skip(i as int)[0] == cv[i as int]);
        if str_eq(counts[i].0.as_str(), id) {
            return counts[i].1;
        }
        assert(cv.skip(i as int).drop_first() == cv.skip(i + 1));
        i += 1;
    }
    0
}

proof fn lemma_bumped_at(c: Seq<(Seq<char>, u32)>, id: Seq<char>, i: int)
    requires
        0 <= i < c.len(),
        c[i].0 == id,
        forall|j: int| 0 <= j < i ==> c[j].0 != id,
    ensures
        bumped(c, id) == c.update(i, (id, sat_inc(c[i].1))),
    decreases i,
{
    if i > 0 {
        lemma_bumped_at(c.drop_first(), id, i - 1);
        assert(bumped(c, id) =~= c.update(i, (id, sat_inc(c[i].1))));
    }
}

proof fn lemma_bumped_absent(c: Seq<(Seq<char>, u32)>, id: Seq<char>)
    requires
        forall|j: int| 0 <= j < c.len() ==> c[j].0 != id,
    ensures
        bumped(c, id) == c.push((id, 1u32)),
    decreases c.len(),
{
    if c.len() > 0 {
        lemma_bumped_absent(c.drop_first(), id);
        assert(bumped(c, id) =~= c.push((id, 1u32)));
    }
}

/// One more launch of `id` counts for `id` alone.
pub proof fn lemma_bump_counts_one(c: Seq<(Seq<char>, u32)>, id: Seq<char>, other: Seq<char>)
    ensures
        count_of(bumped(c, id), id) == sat_inc(count_of(c, id)),
        other != id ==> count_of(bumped(c, id), other) == count_of(c, other),
    decreases c.len(),
{
    if c.len() == 0 {
        assert(bumped(c, id).drop_first() =~= c);
    } else if c[0].0 != id {
        lemma_bump_counts_one(c.drop_first(), id, other);
        assert((seq![c[0]] + bumped(c.drop_first(), id)).drop_first() == bumped(c.drop_first(), id));
    } else {
        assert(c.update(0, (id, sat_inc(c[0].1))).drop_first() =~= c.drop_first());
    }
}

fn bump_count(counts: &mut Vec<(String, u32)>, id: &str)
    ensures
        counts_view(final(counts)@) == bumped(counts_view(old(counts)@), id@),
{
    let ghost cv = counts_view(counts@);
    let mut i: usize = 0;
    while i < counts.len()
        invariant
            i <= counts.len(),
            cv == counts_view(counts@),
            counts@ == old(counts)@,
            forall|j: int| 0 <= j < i ==> cv[j].0 != id@,
        decreases counts.len() - i,
    {
        if str_eq(counts[i].0.as_str(), id) {
            let n = counts[i].1;
            let bumped_n = if n == u32::MAX {
                n
            } else {
                n + 1
            };
            proof {
                lemma_bumped_at(cv, id@, i as int);
            }
            counts.set(i, (owned(id), bumped_n));
            assert(counts_view(counts@) =~= cv.update(i as int, (id@, sat_inc(cv[i as int].1))));
            return;
        }
        i += 1;
    }
    proof {
        lemma_bumped_absent(cv, id@);
    }
    counts.push((owned(id), 1));
    assert(counts_view(counts@) =~= cv.push((id@, 1u32)));
}

fn ranks_ahead_exec(prim: &Vec<i64>, sec: &Vec<Vec<char>>, a: usize, b: usize) -> (r: bool)
    requires
        a < prim.len(),
        b < prim.len(),
        prim.len() == sec.len(),
    ensures
        r == key_ahead((prim@[a as int] as int, sec@[a as int]@), a as int, (prim@[b as int] as int, sec@[b as int]@), b as int),
{
    if prim[a] > prim[b] {
        return true;
    }
    if prim[a] < prim[b] {
        return false;
    }
    if lex_less(sec[a].as_slice(), sec[b].as_slice()) {
        return true;
    }
    chars_eq(sec[a].as_slice(), sec[b].as_slice()) && a < b
}

/// Rank `entries` for `query`: with no query every entry, by launch count
/// and then name; with one, the fuzzy matches, by their boosted score. Ties
/// keep the entries' own order.
pub fn rank(entries: &Vec<DesktopEntry>, counts: &Vec<(String, u32)>, query: &str) -> (out: Vec<usize>)
    ensures
        is_ranking(out@, entries_view(entries@), counts_view(counts@), query@),
{
    let ghost es = entries_view(entries@);
    let ghost cv = counts_view(counts@);
    let empty = query.is_empty();
    let n = entries.len();
    let mut prim: Vec<i64> = Vec::new();
    let mut sec: Vec<Vec<char>> = Vec::new();
    let mut keep: Vec<bool> = Vec::new();
    let mut i: usize = 0;
    while i < n
        invariant
            i <= n,
            n == entries.len(),
            es == entries_view(entries@),
            cv == counts_view(counts@),
            empty == (query@.len() == 0),
            prim.len() == i,
            sec.len() == i,
            keep.len() == i,
            forall|j: int| 0 <= j < i ==> #[trigger] keep@[j] == listed(es[j], query@),
            forall|j: int|
                0 <= j < i && #[trigger] keep@[j] ==> rank_key(es[j], cv, query@) == (
                    prim@[j] as int,
                    sec@[j]@,
                ),
        decreases n - i,
    {
        let e = &entries[i];
        assert(es[i as int] == e@);
        let count = count_lookup(counts, e.id.as_str());
        if empty {
            let lower = to_lowercase(e.name.as_str());
            prim.push(count as i64);
            sec.push(chars_of(lower.as_str()));
            keep.push(true);
        } else {
            match fuzzy_score(e.search_text.as_str(), query) {
                Some(score) => {
                    let capped: i64 = if count < FREQUENCY_CAP {
                        count as i64
                    } else {
                        FREQUENCY_CAP as i64
                    };
                    let bonus: i64 = capped * FREQUENCY_WEIGHT;
                    let total: i64 = if score > i64::MAX - bonus {
                        i64::MAX
                    } else {
                        score + bonus
                    };
                    prim.push(total);
                    sec.push(Vec::new());
                    keep.push(true);
                },
                None => {
                    prim.push(0);
                    sec.push(Vec::new());
                    keep.push(false);
                },
            }
        }
        i += 1;
    }
    let mut out: Vec<usize> = Vec::new();
    let mut i: usize = 0;
    while i < n
        invariant
            i <= n,
            n == entries.len(),
            es == entries_view(entries@),
            es.len() == n,
            cv == counts_view(counts@),
            prim.len() == n,
            sec.len() == n,
            keep.len() == n,
            forall|j: int| 0 <= j < n ==> #[trigger] keep@[j] == listed(es[j], query@),
            forall|j: int|
                0 <= j < n && #[trigger] keep@[j] ==> rank_key(es[j], cv, query@) == (
                    prim@[j] as int,
                    sec@[j]@,
                ),
            forall|p: int| 0 <= p < out.len() ==> #[trigger] out@[p] < i && keep@[out@[p] as int],
            forall|j: int|
                0 <= j < i && #[trigger] keep@[j] ==> exists|p: int| 0 <= p < out.len() && out@[p] == j,
            forall|p: int, r: int|
                0 <= p < r < out.len() ==> ranks_ahead(es, cv, query@, #[trigger] out@[p] as int, #[trigger] out@[r] as int),
        decreases n - i,
    {
        if keep[i] {
            let mut p: usize = 0;
            while p < out.len() && !ranks_ahead_exec(&prim, &sec, i, out[p])
                invariant
                    i < n,
                    p <= out.len(),
                    prim.len() == n,
                    sec.len() == n,
                    forall|q: int| 0 <= q < out.len() ==> #[trigger] out@[q] < i,
                    forall|q: int|
                        0 <= q < p ==> !key_ahead(
                            (prim@[i as int] as int, sec@[i as int]@),
                            i as int,
                            (prim@[out@[q] as int] as int, sec@[out@[q] as int]@),
                            #[trigger] out@[q] as int,
                        ),
                decreases out.len() - p,
            {
                p += 1;
            }
            let ghost old_out = out@;
            let ghost ki = rank_key(es[i as int], cv, query@);
            assert forall|q: int| 0 <= q < p implies ranks_ahead(es, cv, query@, old_out[q] as int, i as int) by {
                let j = old_out[q] as int;
                assert(keep@[j]);
                lemma_key_ahead_total(rank_key(es[j], cv, query@), j, ki, i as int);
            }
            if p < out.len() {
                assert(ranks_ahead(es, cv, query@, i as int, old_out[p as int] as int)) by {
                    assert(keep@[old_out[p as int] as int]);
                }
                assert forall|q: int| p < q < old_out.len() implies ranks_ahead(es, cv, query@, i as int, old_out[q] as int) by {
                    let jp = old_out[p as int] as int;
                    let jq = old_out[q] as int;
                    assert(ranks_ahead(es, cv, query@, jp, jq));
                    lemma_key_ahead_transitive(ki, i as int, rank_key(es[jp], cv, query@), jp, rank_key(es[jq], cv, query@), jq);
                }
            }
            out.insert(p, i);
            assert forall|a: int, b: int| 0 <= a < b < out.len() implies ranks_ahead(es, cv, query@, #[trigger] out@[a] as int, #[trigger] out@[b] as int) by {
                if b < p {
                    assert(out@[a] == old_out[a] && out@[b] == old_out[b]);
                } else if b == p {
                    assert(out@[a] == old_out[a]);
                } else if a < p {
                    assert(out@[a] == old_out[a] && out@[b] == old_out[b - 1]);
                } else if a == p {
                    assert(out@[b] == old_out[b - 1]);
                } else {
                    assert(out@[a] == old_out[a - 1] && out@[b] == old_out[b - 1]);
                }
            }
            assert forall|j: int| 0 <= j < i + 1 && #[trigger] keep@[j] implies exists|q: int| 0 <= q < out.len() && out@[q] == j by {
                if j == i {
                    assert(out@[p as int] == i);
                } else {
                    let q0 = choose|q: int| 0 <= q < old_out.len() && old_out[q] == j;
                    if q0 < p {
                        assert(out@[q0] == j);
                    } else {
                        assert(out@[q0 + 1] == j);
                    }
                }
            }
            assert forall|q: int| 0 <= q < out.len() implies #[trigger] out@[q] < i + 1 && keep@[out@[q] as int] by {
                if q < p {
                    assert(out@[q] == old_out[q]);
                } else if q > p {
                    assert(out@[q] == old_out[q - 1]);
                }
            }
        }
        i += 1;
    }
    assert forall|j: int| 0 <= j < es.len() && #[trigger] listed(es[j], query@) implies exists|p: int|
        0 <= p < out@.len() && out@[p] == j by {
        assert(keep@[j]);
    }
    out
}

/// A key or window event, as far as the launcher cares.
#[derive(Debug, Clone, Copy, PartialEq, Eq, Structural)]
pub enum LauncherEvent {
    /// The surface gained keyboard focus.
    Focused,
    /// The surface lost keyboard focus.
    Unfocused,
    Escape,
    ArrowDown,
    ArrowUp,
    Enter,
    /// Anything else.
    Other,
}

/// A message from the launcher's widgets.
pub enum Message<I> {
    /// The search field now holds this.
    SearchChanged(String),
    /// Launch the entry at this index into the entries.
    Launch(usize),
    /// Close without launching anything.
    Dismiss,
    /// Decoded icons, by desktop ID.
    IconsLoaded(Vec<(String, I)>),
}

/// What the owner of the surface should do after a message or an event.
#[derive(Debug, Clone, Copy, PartialEq, Eq, Structural)]
pub struct Response {
    /// Close the surface.
    pub dismiss: bool,
    /// The entry, by index, that was launched and should now be started.
    pub launch: Option<usize>,
}

/// What the launcher holds, as plain values.
pub struct LauncherModel<I> {
    pub query: Seq<char>,
    pub entries: Seq<DesktopEntryModel>,
    /// Indices into `entries`, best first.
    pub filtered: Seq<usize>,
    /// Index into `filtered`.
    pub selected: usize,
    pub icons: Seq<(Seq<char>, I)>,
    pub counts: Seq<(Seq<char>, u32)>,
    /// Whether the surface has held keyboard focus since it was opened.
    pub focused: bool,
}

/// The ID of the entry the selection points at, if it points at one.
pub open spec fn selected_id<I>(m: LauncherModel<I>) -> Option<Seq<char>> {
    if m.selected < m.filtered.len() && m.filtered[m.selected as int] < m.entries.len() {
        Some(m.entries[m.filtered[m.selected as int] as int].id)
    } else {
        None
    }
}

/// The first position in `f` whose entry has `id`, else 0.
pub open spec fn position_of(f: Seq<usize>, es: Seq<DesktopEntryModel>, id: Seq<char>) -> int
    decreases f.len(),
{
    if f.len() == 0 {
        0
    } else if f[0] < es.len() && es[f[0] as int].id == id {
        0
    } else if exists|p: int| 0 <= p < f.len() && f[p] < es.len() && es[f[p] as int].id == id {
        1 + position_of(f.drop_first(), es, id)
    } else {
        0
    }
}

/// Whether some entry has `id`.
pub open spec fn has_entry(es: Seq<DesktopEntryModel>, id: Seq<char>) -> bool {
    exists|i: int| 0 <= i < es.len() && #[trigger] es[i].id == id
}

/// The icons whose entry is still there.
pub open spec fn kept_icons<I>(icons: Seq<(Seq<char>, I)>, es: Seq<DesktopEntryModel>) -> Seq<
    (Seq<char>, I),
> {
    icons.filter(|p: (Seq<char>, I)| has_entry(es, p.0))
}

/// The selection one step down, held within the visible list.
pub open spec fn step_down(selected: usize, listed: nat) -> usize {
    let shown = if listed < MAX_VISIBLE_ENTRIES {
        listed as int
    } else {
        MAX_VISIBLE_ENTRIES as int
    };
    let last = if shown > 0 {
        shown - 1
    } else {
        0
    };
    if selected + 1 < last {
        (selected + 1) as usize
    } else {
        last as usize
    }
}

pub struct Launcher<I> {
    query: String,
    entries: Vec<DesktopEntry>,
    filtered: Vec<usize>,
    selected: usize,
    icons: Vec<(String, I)>,
    launch_counts: Vec<(String, u32)>,
    focused: bool,
}

impl<I> View for Launcher<I> {
    type V = LauncherModel<I>;

    closed spec fn view(&self) -> LauncherModel<I> {
        LauncherModel {
            query: self.query@,
            entries: entries_view(self.entries@),
            filtered: self.filtered@,
            selected: self.selected,
            icons: self.icons@.map_values(|p: (String, I)| (p.0@, p.1)),
            counts: counts_view(self.launch_counts@),
            focused: self.focused,
        }
    }
}

fn entry_with_id(entries: &Vec<DesktopEntry>, id: &str) -> (r: bool)
    ensures
        r == has_entry(entries_view(entries@), id@),
{
    let ghost es = entries_view(entries@);
    let mut i: usize = 0;
    while i < entries.len()
        invariant
            i <= entries.len(),
            es == entries_view(entries@),
            forall|j: int| 0 <= j < i ==> #[trigger] es[j].id != id@,
        decreases entries.len() - i,
    {
        assert(es[i as int].id == entries@[i as int].id@);
        if str_eq(entries[i].id.as_str(), id) {
            return true;
        }
        i += 1;
    }
    false
}

fn find_position(f: &Vec<usize>, entries: &Vec<DesktopEntry>, id: &str) -> (r: usize)
    ensures
        r as int == position_of(f@, entries_view(entries@), id@),
        (exists|p: int| 0 <= p < f@.len() && f@[p] < entries@.len() && entries_view(entries@)[f@[p] as int].id == id@)
            ==> r < f@.len() && f@[r as int] < entries@.len() && entries_view(entries@)[f@[r as int] as int].id == id@,
{
    let ghost es = entries_view(entries@);
    let mut p: usize = 0;
    while p < f.len()
        invariant
            p <= f.len(),
            es == entries_view(entries@),
            es.len() == entries.len(),
            forall|q: int| 0 <= q < p ==> !(f@[q] < es.len() && #[trigger] es[f@[q] as int].id == id@),
        decreases f.len() - p,
    {
        let j = f[p];
        if j < entries.len() && str_eq(entries[j].id.as_str(), id) {
            proof {
                lemma_position_at(f@, es, id@, p as int);
            }
            return p;
        }
        p += 1;
    }
    proof {
        lemma_position_absent(f@, es, id@);
    }
    0
}

/// When some ranked entry has `id`, [`position_of`] finds one: a rescan
/// keeps the selection on its application whenever that is still listed.
pub proof fn lemma_position_of_finds(f: Seq<usize>, es: Seq<DesktopEntryModel>, id: Seq<char>)
    requires
        exists|p: int| 0 <= p < f.len() && f[p] < es.len() && #[trigger] es[f[p] as int].id == id,
    ensures
        0 <= position_of(f, es, id) < f.len(),
        f[position_of(f, es, id)] < es.len(),
        es[f[position_of(f, es, id)] as int].id == id,
    decreases f.len(),
{
    if !(f[0] < es.len() && es[f[0] as int].id == id) {
        let p = choose|p: int| 0 <= p < f.len() && f[p] < es.len() && #[trigger] es[f[p] as int].id == id;
        let g = f.drop_first();
        assert(g[p - 1] == f[p]);
        lemma_position_of_finds(g, es, id);
        assert(g[position_of(g, es, id)] == f[1 + position_of(g, es, id)]);
    }
}

/// The arrows never take the selection past the last visible entry.
pub proof fn lemma_step_down_stays_within(selected: usize, listed: nat)
    requires
        listed > 0,
    ensures
        step_down(selected, listed) < listed,
        step_down(selected, listed) < MAX_VISIBLE_ENTRIES,
{
}

proof fn lemma_position_at(f: Seq<usize>, es: Seq<DesktopEntryModel>, id: Seq<char>, p: int)
    requires
        0 <= p < f.len(),
        f[p] < es.len() && es[f[p] as int].id == id,
        forall|q: int| 0 <= q < p ==> !(f[q] < es.len() && #[trigger] es[f[q] as int].id == id),
    ensures
        position_of(f, es, id) == p,
    decreases p,
{
    if p > 0 {
        let g = f.drop_first();
        assert(g[p - 1] == f[p]);
        assert forall|q: int| 0 <= q < p - 1 implies !(g[q] < es.len() && #[trigger] es[g[q] as int].id == id) by {
            assert(g[q] == f[q + 1]);
        }
        lemma_position_at(g, es, id, p - 1);
    }
}

proof fn lemma_position_absent(f: Seq<usize>, es: Seq<DesktopEntryModel>, id: Seq<char>)
    requires
        forall|q: int| 0 <= q < f.len() ==> !(f[q] < es.len() && #[trigger] es[f[q] as int].id == id),
    ensures
        position_of(f, es, id) == 0,
{
    if f.len() > 0 {
        assert(!(f[0] < es.len() && es[f[0] as int].id == id));
    }
}

impl<I> Launcher<I> {
    /// An empty launcher that remembers `launch_counts`, by desktop ID.
    pub fn new(launch_counts: Vec<(String, u32)>) -> (l: Self)
        ensures
            l@.query.len() == 0,
            l@.entries.len() == 0,
            l@.filtered.len() == 0,
            l@.selected == 0,
            l@.icons.len() == 0,
            l@.counts == counts_view(launch_counts@),
            !l@.focused,
    {
        let l = Launcher {
            query: String::new(),
            entries: Vec::new(),
            filtered: Vec::new(),
            selected: 0,
            icons: Vec::new(),
            launch_counts,
            focused: false,
        };
        assert(l@.icons =~= Seq::<(Seq<char>, I)>::empty());
        l
    }

    /// The entries, as discovered.
    pub fn entries(&self) -> (r: &Vec<DesktopEntry>)
        ensures
            entries_view(r@) == self@.entries,
    {
        &self.entries
    }

    /// The ranked entries, as indices into [`Self::entries`], best first.
    pub fn filtered(&self) -> (r: &Vec<usize>)
        ensures
            r@ == self@.filtered,
    {
        &self.filtered
    }

    /// The selection, as an index into [`Self::filtered`].
    pub fn selected(&self) -> (r: usize)
        ensures
            r == self@.selected,
    {
        self.selected
    }

    /// The launch counts, by desktop ID.
    pub fn launch_counts(&self) -> (r: &Vec<(String, u32)>)
        ensures
            counts_view(r@) == self@.counts,
    {
        &self.launch_counts
    }

    /// The icons, by desktop ID.
    pub fn icons(&self) -> (r: &Vec<(String, I)>)
        ensures
            r@.map_values(|p: (String, I)| (p.0@, p.1)) == self@.icons,
    {
        &self.icons
    }

    /// The entry the selection points at.
    pub fn selected_entry(&self) -> (r: Option<&DesktopEntry>)
        ensures
            match r {
                Some(e) => selected_id(self@) == Some(e@.id) && self@.entries[self@.filtered[self@.selected as int] as int] == e@,
                None => selected_id(self@) is None,
            },
    {
        if self.selected < self.filtered.len() {
            let j = self.filtered[self.selected];
            if j < self.entries.len() {
                return Some(&self.entries[j]);
            }
        }
        None
    }

    fn refilter(&mut self)
        ensures
            final(self)@ == (LauncherModel {
                filtered: final(self)@.filtered,
                ..old(self)@
            }),
            is_ranking(final(self)@.filtered, old(self)@.entries, old(self)@.counts, old(self)@.query),
    {
        let f = rank(&self.entries, &self.launch_counts, self.query.as_str());
        self.filtered = f;
    }

    /// Adopt a freshly scanned entry list. The selection stays on the
    /// application it was on, wherever that now ranks, or goes back to the
    /// top; icons of entries that are gone are dropped.
    pub fn set_entries(&mut self, entries: Vec<DesktopEntry>)
        ensures
            final(self)@.entries == entries_view(entries@),
            is_ranking(final(self)@.filtered, final(self)@.entries, old(self)@.counts, old(self)@.query),
            final(self)@.selected as int == match selected_id(old(self)@) {
                Some(id) => position_of(final(self)@.filtered, final(self)@.entries, id),
                None => 0,
            },
            final(self)@.icons == kept_icons(old(self)@.icons, final(self)@.entries),
            final(self)@.query == old(self)@.query,
            final(self)@.counts == old(self)@.counts,
            final(self)@.focused == old(self)@.focused,
    {
        let selected_id: Option<String> = match self.selected_entry() {
            Some(e) => Some(owned(e.id.as_str())),
            None => None,
        };
        self.entries = entries;
        self.refilter();
        self.selected = match &selected_id {
            Some(id) => find_position(&self.filtered, &self.entries, id.as_str()),
            None => 0,
        };
        self.retain_icons();
    }

    fn retain_icons(&mut self)
        ensures
            final(self)@ == (LauncherModel {
                icons: kept_icons(old(self)@.icons, old(self)@.entries),
                ..old(self)@
            }),
    {
        let ghost es = entries_view(self.entries@);
        let mut rest: Vec<(String, I)> = Vec::new();
        std::mem::swap(&mut rest, &mut self.icons);
        let ghost start = rest@.map_values(|p: (String, I)| (p.0@, p.1));
        let ghost pred = |p: (Seq<char>, I)| has_entry(es, p.0);
        let mut kept: Vec<(String, I)> = Vec::new();
        let ghost mut done: int = 0;
        assert(start.skip(0) == start);
        assert(start.take(0).filter(pred) =~= Seq::<(Seq<char>, I)>::empty()) by {
            reveal(Seq::filter);
        }
        while rest.len() > 0
            invariant
                es == entries_view(self.entries@),
                pred == (|p: (Seq<char>, I)| has_entry(es, p.0)),
                0 <= done <= start.len(),
                rest@.map_values(|p: (String, I)| (p.0@, p.1)) == start.skip(done),
                kept@.map_values(|p: (String, I)| (p.0@, p.1)) == start.take(done).filter(pred),
                self.icons@.len() == 0,
            decreases rest.len(),
        {
            let ghost before = kept@.map_values(|p: (String, I)| (p.0@, p.1));
            let ghost rv = rest@;
            assert(rv.map_values(|p: (String, I)| (p.0@, p.1)).len() == rv.len());
            assert(rv.map_values(|p: (String, I)| (p.0@, p.1))[0] == (rv[0].0@, rv[0].1));
            assert(start.skip(done)[0] == start[done]);
            let item = rest.remove(0);
            assert(start.take(done + 1) == start.take(done).push(start[done]));
            assert(start.skip(done + 1) =~= start.skip(done).drop_first());
            assert(start[done] == (item.0@, item.1));
            proof {
                start.take(done).lemma_filter_push(start[done], pred);
            }
            assert(pred(start[done]) == has_entry(es, item.0@));
            if entry_with_id(&self.entries, item.0.as_str()) {
                kept.push(item);
                assert(kept@.map_values(|p: (String, I)| (p.0@, p.1)) =~= before.push(start[done]));
            } else {
                assert(kept@.map_values(|p: (String, I)| (p.0@, p.1)) =~= before);
            }
            proof {
                done = done + 1;
            }
        }
        assert(start.take(done) == start);
        self.icons = kept;
    }

    /// Replace the icons.
    pub fn set_icons(&mut self, icons: Vec<(String, I)>)
        ensures
            final(self)@ == (LauncherModel {
                icons: icons@.map_values(|p: (String, I)| (p.0@, p.1)),
                ..old(self)@
            }),
    {
        self.icons = icons;
    }

    /// Whether any entry has been discovered yet.
    pub fn is_empty(&self) -> (r: bool)
        ensures
            r == (self@.entries.len() == 0),
    {
        self.entries.len() == 0
    }

    /// Clear the query and the selection, as when the surface is opened.
    pub fn reset(&mut self)
        ensures
            final(self)@.query.len() == 0,
            final(self)@.selected == 0,
            !final(self)@.focused,
            is_ranking(final(self)@.filtered, old(self)@.entries, old(self)@.counts, seq![]),
            final(self)@.entries == old(self)@.entries,
            final(self)@.icons == old(self)@.icons,
            final(self)@.counts == old(self)@.counts,
    {
        self.query = String::new();
        self.selected = 0;
        self.focused = false;
        self.refilter();
    }

    /// Count a launch of entry `index` and report it, if there is such an
    /// entry.
    fn launch_entry(&mut self, index: usize) -> (r: Option<usize>)
        ensures
            index < old(self)@.entries.len() ==> r == Some(index) && final(self)@ == (LauncherModel {
                counts: bumped(old(self)@.counts, old(self)@.entries[index as int].id),
                ..old(self)@
            }),
            index >= old(self)@.entries.len() ==> r is None && final(self)@ == old(self)@,
    {
        if index < self.entries.len() {
            let id = owned(self.entries[index].id.as_str());
            bump_count(&mut self.launch_counts, id.as_str());
            Some(index)
        } else {
            None
        }
    }

    /// Handle a message from the widgets: a new query ranks afresh and
    /// selects the top; a launch counts and closes; icons are adopted.
    pub fn update(&mut self, message: Message<I>) -> (r: Response)
        ensures
            match message {
                Message::SearchChanged(q) => {
                    &&& final(self)@.query == q@
                    &&& is_ranking(final(self)@.filtered, old(self)@.entries, old(self)@.counts, q@)
                    &&& final(self)@.selected == 0
                    &&& final(self)@.entries == old(self)@.entries
                    &&& final(self)@.icons == old(self)@.icons
                    &&& final(self)@.counts == old(self)@.counts
                    &&& final(self)@.focused == old(self)@.focused
                    &&& r == Response { dismiss: false, launch: None }
                },
                Message::Launch(index) => {
                    &&& r.dismiss
                    &&& if index < old(self)@.entries.len() {
                        &&& r.launch == Some(index)
                        &&& final(self)@ == (LauncherModel {
                            counts: bumped(old(self)@.counts, old(self)@.entries[index as int].id),
                            ..old(self)@
                        })
                    } else {
                        r.launch is None && final(self)@ == old(self)@
                    }
                },
                Message::Dismiss => r == (Response { dismiss: true, launch: None }) && final(self)@
                    == old(self)@,
                Message::IconsLoaded(icons) => {
                    &&& r == Response { dismiss: false, launch: None }
                    &&& final(self)@ == (LauncherModel {
                        icons: icons@.map_values(|p: (String, I)| (p.0@, p.1)),
                        ..old(self)@
                    })
                },
            },
    {
        match message {
            Message::SearchChanged(q) => {
                self.query = q;
                self.refilter();
                self.selected = 0;
                Response { dismiss: false, launch: None }
            },
            Message::Launch(index) => {
                let launch = self.launch_entry(index);
                Response { dismiss: true, launch }
            },
            Message::Dismiss => Response { dismiss: true, launch: None },
            Message::IconsLoaded(icons) => {
                self.set_icons(icons);
                Response { dismiss: false, launch: None }
            },
        }
    }

    /// Handle a key or window event. Escape closes; so does losing focus,
    /// once the surface has had it; the arrows move the selection within the
    /// visible list; Enter launches the selection, and does nothing when
    /// nothing is selected.
    pub fn handle_event(&mut self, event: LauncherEvent) -> (r: Response)
        ensures
            final(self)@.query == old(self)@.query,
            final(self)@.entries == old(self)@.entries,
            final(self)@.filtered == old(self)@.filtered,
            final(self)@.icons == old(self)@.icons,
            match event {
                LauncherEvent::Focused => r == (Response { dismiss: false, launch: None })
                    && final(self)@ == (LauncherModel { focused: true, ..old(self)@ }),
                LauncherEvent::Unfocused => r == (Response {
                    dismiss: old(self)@.focused,
                    launch: None,
                }) && final(self)@ == old(self)@,
                LauncherEvent::Escape => r == (Response { dismiss: true, launch: None })
                    && final(self)@ == old(self)@,
                LauncherEvent::ArrowDown => r == (Response { dismiss: false, launch: None })
                    && final(self)@ == (LauncherModel {
                    selected: if old(self)@.filtered.len() > 0 {
                        step_down(old(self)@.selected, old(self)@.filtered.len())
                    } else {
                        old(self)@.selected
                    },
                    ..old(self)@
                }),
                LauncherEvent::ArrowUp => r == (Response { dismiss: false, launch: None })
                    && final(self)@ == (LauncherModel {
                    selected: if old(self)@.selected > 0 {
                        (old(self)@.selected - 1) as usize
                    } else {
                        0
                    },
                    ..old(self)@
                }),
                LauncherEvent::Enter => if old(self)@.selected < old(self)@.filtered.len() {
                    let index = old(self)@.filtered[old(self)@.selected as int];
                    &&& r.dismiss
                    &&& if index < old(self)@.entries.len() {
                        &&& r.launch == Some(index)
                        &&& final(self)@ == (LauncherModel {
                            counts: bumped(old(self)@.counts, old(self)@.entries[index as int].id),
                            ..old(self)@
                        })
                    } else {
                        r.launch is None && final(self)@ == old(self)@
                    }
                } else {
                    r == (Response { dismiss: false, launch: None }) && final(self)@ == old(self)@
                },
                LauncherEvent::Other => r == (Response { dismiss: false, launch: None })
                    && final(self)@ == old(self)@,
            },
    {
        match event {
            LauncherEvent::Focused => {
                self.focused = true;
                Response { dismiss: false, launch: None }
            },
            LauncherEvent::Unfocused => Response { dismiss: self.focused, launch: None },
            LauncherEvent::Escape => Response { dismiss: true, launch: None },
            LauncherEvent::ArrowDown => {
                if self.filtered.len() > 0 {
                    let shown = if self.filtered.len() < MAX_VISIBLE_ENTRIES {
                        self.filtered.len()
                    } else {
                        MAX_VISIBLE_ENTRIES
                    };
                    let last = shown - 1;
                    let next = self.selected.saturating_add(1);
                    self.selected = if next < last {
                        next
                    } else {
                        last
                    };
                }
                Response { dismiss: false, launch: None }
            },
            LauncherEvent::ArrowUp => {
                self.selected = self.selected.saturating_sub(1);
                Response { dismiss: false, launch: None }
            },
            LauncherEvent::Enter => {
                if self.selected < self.filtered.len() {
                    let index = self.filtered[self.selected];
                    let launch = self.launch_entry(index);
                    Response { dismiss: true, launch }
                } else {
                    Response { dismiss: false, launch: None }
                }
            },
            LauncherEvent::Other => Response { dismiss: false, launch: None },
        }
    }
}

/// A copy of an entry.
fn copy_entry(e: &DesktopEntry) -> (c: DesktopEntry)
    ensures
        c@ == e@,
{
    DesktopEntry {
        id: owned(e.id.as_str()),
        name: owned(e.name.as_str()),
        exec_line: owned(e.exec_line.as_str()),
        icon: copy_opt(&e.icon),
        comment: copy_opt(&e.comment),
        terminal: e.terminal,
        search_text: owned(e.search_text.as_str()),
    }
}

/// The desktop IDs of a scan's desktop files, none where a file would not
/// parse.
pub open spec fn ids_of(parsed: Seq<Option<ParsedEntry>>) -> Seq<Option<Seq<char>>> {
    parsed.map_values(|p: Option<ParsedEntry>| match p {
        Some(e) => Some(e.appid@),
        None => None,
    })
}

/// What the first `n` desktop files of a scan list, in scan order: the first
/// file of each desktop ID, when its entry is one to show here.
pub open spec fn kept_entries(parsed: Seq<Option<ParsedEntry>>, desktops: Option<Seq<Seq<char>>>, n: nat) -> Seq<DesktopEntryModel>
    decreases n,
{
    if n == 0 {
        Seq::empty()
    } else {
        let rest = kept_entries(parsed, desktops, (n - 1) as nat);
        if first_with_id(ids_of(parsed), n - 1) {
            match convert_spec(parsed[n - 1]->0, desktops) {
                Some(d) => rest.push(d),
                None => rest,
            }
        } else {
            rest
        }
    }
}

/// Whether `out` is `kept` in the order of some ranking with no query and no
/// launch counts.
pub open spec fn lists_ranked(kept: Seq<DesktopEntryModel>, out: Seq<DesktopEntryModel>) -> bool {
    exists|f: Seq<usize>|
        #![trigger is_ranking(f, kept, Seq::empty(), Seq::empty())]
        is_ranking(f, kept, Seq::empty(), Seq::empty()) && out == f.map_values(|i: usize| kept[i as int])
}

/// The application list a scan gives: `parsed` holds each desktop file found,
/// directories highest priority first, as read (none where it would not
/// parse); `desktops` the current desktop names. The first file of each
/// desktop ID shadows the later ones; the entries to show are then ranked
/// with no query and no launch counts, that is by name.
pub fn index_entries(parsed: Vec<Option<ParsedEntry>>, desktops: Option<&Vec<String>>) -> (out: Vec<DesktopEntry>)
    ensures
        lists_ranked(
            kept_entries(
                parsed@,
                match desktops {
                    Some(d) => Some(strings_view(d@)),
                    None => None,
                },
                parsed@.len() as nat,
            ),
            entries_view(out@),
        ),
{
    let ghost dv = match desktops {
        Some(d) => Some(strings_view(d@)),
        None => None,
    };
    let mut ids: Vec<Option<String>> = Vec::new();
    let mut i: usize = 0;
    while i < parsed.len()
        invariant
            i <= parsed.len(),
            ids@.len() == i,
            id_views(ids@) == ids_of(parsed@).take(i as int),
        decreases parsed.len() - i,
    {
        let id = match &parsed[i] {
            Some(e) => Some(owned(e.appid.as_str())),
            None => None,
        };
        let ghost before = ids@;
        ids.push(id);
        assert(id_views(ids@) =~= id_views(before).push(ids_of(parsed@)[i as int]));
        assert(ids_of(parsed@).take(i + 1) =~= ids_of(parsed@).take(i as int).push(ids_of(parsed@)[i as int]));
        i += 1;
    }
    assert(ids_of(parsed@).take(i as int) =~= ids_of(parsed@));
    let keep = first_of_each_id(&ids);
    let mut found: Vec<DesktopEntry> = Vec::new();
    let mut j: usize = 0;
    while j < parsed.len()
        invariant
            j <= parsed.len(),
            keep@.len() == parsed@.len(),
            forall|k: int| 0 <= k < parsed@.len() ==> #[trigger] keep@[k] == first_with_id(ids_of(parsed@), k),
            dv == match desktops {
                Some(d) => Some(strings_view(d@)),
                None => None,
            },
            entries_view(found@) == kept_entries(parsed@, dv, j as nat),
        decreases parsed.len() - j,
    {
        let ghost before = found@;
        if keep[j] {
            assert(ids_of(parsed@)[j as int] is Some);
            if let Some(e) = &parsed[j] {
                if let Some(d) = convert(e, desktops) {
                    found.push(d);
                    assert(entries_view(found@) =~= entries_view(before).push(d@));
                }
            }
        }
        j += 1;
    }
    let counts: Vec<(String, u32)> = Vec::new();
    let order = rank(&found, &counts, "");
    proof {
        reveal_strlit("");
        assert(""@ =~= Seq::<char>::empty());
        assert(counts_view(counts@) =~= Seq::<(Seq<char>, u32)>::empty());
    }
    let ghost kept = entries_view(found@);
    let mut out: Vec<DesktopEntry> = Vec::new();
    let mut p: usize = 0;
    while p < order.len()
        invariant
            p <= order.len(),
            kept == entries_view(found@),
            is_ranking(order@, kept, Seq::empty(), Seq::empty()),
            entries_view(out@) == order@.take(p as int).map_values(|i: usize| kept[i as int]),
        decreases order.len() - p,
    {
        let ghost before = out@;
        assert(order@[p as int] < kept.len());
        out.push(copy_entry(&found[order[p]]));
        assert(entries_view(out@) =~= entries_view(before).push(kept[order@[p as int] as int]));
        assert(order@.take(p + 1).map_values(|i: usize| kept[i as int]) =~= order@.take(p as int).map_values(
            |i: usize| kept[i as int],
        ).push(kept[order@[p as int] as int]));
        p += 1;
    }
    assert(order@.take(p as int) =~= order@);
    assert(is_ranking(order@, kept, Seq::empty(), Seq::empty()));
    out
}

} // verus!
