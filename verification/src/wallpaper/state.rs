//! The current wallpaper selection, as it is kept between runs: which
//! picture each monitor shows, and the shuffled order with its cursor.
use vstd::prelude::*;
use crate::path::{join, join_str, opt_view};
use crate::text::{chars_of, lemma_lex_irreflexive, lemma_lex_transitive, lex_less, lex_lt};
use crate::xdg::{data_dir, resolve_spec};

verus! {

/// Bumped when the kept shape changes incompatibly; a state of any other
/// version is discarded rather than migrated.
pub const VERSION: u32 = 2;

/// File name inside the data directory.
pub const FILE_NAME: &'static str = "wallpapers.json";

#[derive(Debug, Clone, PartialEq, Eq)]
pub struct State {
    pub version: u32,
    /// Monitor key (its panel description) and the wallpaper on it, in key
    /// order.
    pub monitors: Vec<(String, String)>,
    /// The shuffled pool, so "next" means the same thing after a restart.
    pub order: Vec<String>,
    /// Index into `order` for the next pick.
    pub cursor: usize,
}

impl Default for State {
    fn default() -> (s: State)
        ensures
            s.version == VERSION,
            s.monitors@.len() == 0,
            s.order@.len() == 0,
            s.cursor == 0,
    {
        State { version: VERSION, monitors: Vec::new(), order: Vec::new(), cursor: 0 }
    }
}

/// The view of monitor entries.
pub open spec fn entries_view(v: Seq<(String, String)>) -> Seq<(Seq<char>, Seq<char>)> {
    v.map_values(|e: (String, String)| (e.0@, e.1@))
}

impl State {
    /// Whether this state can still be used with the current code.
    pub fn is_current(&self) -> (b: bool)
        ensures
            b == (self.version == VERSION),
    {
        self.version == VERSION
    }

    /// The wallpaper on each monitor.
    pub fn previous(&self) -> (p: Vec<(String, String)>)
        ensures
            entries_view(p@) == entries_view(self.monitors@),
    {
        let mut out: Vec<(String, String)> = Vec::new();
        let mut i: usize = 0;
        while i < self.monitors.len()
            invariant
                i <= self.monitors.len(),
                entries_view(out@) == entries_view(self.monitors@).take(i as int),
            decreases self.monitors.len() - i,
        {
            let ghost before = out@;
            out.push((self.monitors[i].0.clone(), self.monitors[i].1.clone()));
            assert(entries_view(out@) =~= entries_view(before).push(
                entries_view(self.monitors@)[i as int],
            ));
            assert(entries_view(self.monitors@).take(i + 1) =~= entries_view(self.monitors@).take(
                i as int,
            ).push(entries_view(self.monitors@)[i as int]));
            i += 1;
        }
        assert(entries_view(self.monitors@).take(i as int) =~= entries_view(self.monitors@));
        out
    }
}

/// Whether the monitor keys are in strictly ascending order, as a map keyed
/// by them keeps them: by character, a prefix first.
pub open spec fn keys_ascending(v: Seq<(Seq<char>, Seq<char>)>) -> bool {
    forall|i: int| 0 <= i < v.len() - 1 ==> lex_lt(#[trigger] v[i].0, v[i + 1].0)
}

/// In a state whose keys ascend, every later key comes after every earlier
/// one, so no monitor has two entries.
pub proof fn lemma_ascending_keys_distinct(v: Seq<(Seq<char>, Seq<char>)>, i: int, j: int)
    requires
        keys_ascending(v),
        0 <= i < j < v.len(),
    ensures
        lex_lt(v[i].0, v[j].0),
        v[i].0 != v[j].0,
    decreases j - i,
{
    if j > i + 1 {
        lemma_ascending_keys_distinct(v, i, j - 1);
        assert(lex_lt(v[j - 1].0, v[j].0));
        lemma_lex_transitive(v[i].0, v[j - 1].0, v[j].0);
    }
    lemma_lex_irreflexive(v[i].0);
}

/// Whether the keys of `monitors` ascend.
fn ascending(monitors: &Vec<(String, String)>) -> (b: bool)
    ensures
        b == keys_ascending(entries_view(monitors@)),
{
    let ghost v = entries_view(monitors@);
    let mut i: usize = 1;
    while i < monitors.len()
        invariant
            1 <= i,
            i <= monitors.len() || monitors.len() == 0,
            v == entries_view(monitors@),
            forall|k: int| 0 <= k < i - 1 && k < v.len() - 1 ==> lex_lt(#[trigger] v[k].0, v[k + 1].0),
        decreases monitors.len() - i,
    {
        let a = chars_of(monitors[i - 1].0.as_str());
        let b = chars_of(monitors[i].0.as_str());
        if !lex_less(a.as_slice(), b.as_slice()) {
            assert(v[i - 1].0 == monitors@[i - 1].0@);
            return false;
        }
        i += 1;
    }
    true
}

/// A freshly read state, kept only when it is of the current version and
/// its monitor keys ascend, each once, as the map it was written from keeps
/// them.
pub fn accept(state: State) -> (s: Option<State>)
    ensures
        s is Some <==> (state.version == VERSION && keys_ascending(entries_view(state.monitors@))),
        s matches Some(t) ==> t == state,
{
    if state.is_current() && ascending(&state.monitors) {
        Some(state)
    } else {
        None
    }
}

/// Where the state file lives: under the data directory, so the selection
/// survives a reboot.
pub fn default_path(xdg_data_home: Option<&str>, home: Option<&str>) -> (p: Option<String>)
    ensures
        match p {
            Some(p) => resolve_spec(opt_view(xdg_data_home), opt_view(home), ".local/share"@) matches Some(
                d,
            ) && p@ == join(d, FILE_NAME@),
            None => resolve_spec(opt_view(xdg_data_home), opt_view(home), ".local/share"@) is None,
        },
{
    match data_dir(xdg_data_home, home) {
        Some(d) => Some(join_str(d.as_str(), FILE_NAME)),
        None => None,
    }
}

} // verus!
