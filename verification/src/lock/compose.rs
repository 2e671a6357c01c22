//! Which monitors get a background of their own on the lock screen, and
//! which are skipped and why: the wallpaper each monitor showed, looked up
//! in the wallpaper state the way the daemon keyed it.
use vstd::prelude::*;
use crate::hypr::{stable_key_spec, usable_spec, MonitorInfo};
use crate::wallpaper::rotation::{find_last, last_value};
use crate::wallpaper::state::{entries_view, State};

verus! {

/// Why a monitor gets no background of its own.
#[derive(Debug, Clone, Copy, PartialEq, Eq, Structural)]
pub enum SkipReason {
    /// Disabled, or mirroring another output.
    Unusable,
    /// There is no wallpaper state to read.
    NoState,
    /// The state has no wallpaper for this monitor.
    NotRecorded,
    /// The recorded wallpaper is no longer there.
    Vanished,
}

/// What a skip is reported as.
pub fn reason_text(reason: SkipReason) -> (s: &'static str)
    ensures
        s@ == match reason {
            SkipReason::Unusable => "disabled or mirroring another output"@,
            SkipReason::NoState => "no wallpaper state to read"@,
            SkipReason::NotRecorded => "no wallpaper recorded for this monitor"@,
            SkipReason::Vanished => "the recorded wallpaper no longer exists"@,
        },
{
    match reason {
        SkipReason::Unusable => "disabled or mirroring another output",
        SkipReason::NoState => "no wallpaper state to read",
        SkipReason::NotRecorded => "no wallpaper recorded for this monitor",
        SkipReason::Vanished => "the recorded wallpaper no longer exists",
    }
}

/// A monitor that gets its own background.
#[derive(Debug, Clone, PartialEq, Eq)]
pub struct LockMonitor {
    pub name: String,
    pub description: String,
    pub wallpaper: String,
}

/// A monitor that will not get its own background, and why.
#[derive(Debug, Clone, PartialEq, Eq)]
pub struct Skipped {
    pub monitor: String,
    pub reason: SkipReason,
}

/// The wallpaper recorded for `m` in `monitors` (the state's entries): under
/// its key first, the panel description, then under its port name, which a
/// state written before the daemon knew a description is keyed by.
pub open spec fn recorded_spec(monitors: Seq<(Seq<char>, Seq<char>)>, name: Seq<char>, description: Seq<char>) -> Option<Seq<char>> {
    match last_value(monitors, stable_key_spec(name, description)) {
        Some(p) => Some(p),
        None => last_value(monitors, name),
    }
}

/// The wallpaper `m` showed, as the state records it, or why it has none:
/// an unusable monitor is skipped before anything else, then a missing
/// state, then a monitor the state does not know.
pub fn recorded_wallpaper(m: &MonitorInfo, state: Option<&State>) -> (r: Result<String, SkipReason>)
    ensures
        !usable_spec(m.disabled, m.mirror_of@) ==> r == Err::<String, SkipReason>(SkipReason::Unusable),
        usable_spec(m.disabled, m.mirror_of@) ==> match state {
            None => r == Err::<String, SkipReason>(SkipReason::NoState),
            Some(st) => match recorded_spec(entries_view(st.monitors@), m.name@, m.description@) {
                Some(p) => r matches Ok(q) && q@ == p,
                None => r == Err::<String, SkipReason>(SkipReason::NotRecorded),
            },
        },
{
    if !m.is_usable() {
        return Err(SkipReason::Unusable);
    }
    let st = match state {
        Some(st) => st,
        None => return Err(SkipReason::NoState),
    };
    let key = m.stable_key();
    match find_last(&st.monitors, key.as_str()) {
        Some(p) => Ok(p),
        None => match find_last(&st.monitors, m.name.as_str()) {
            Some(p) => Ok(p),
            None => Err(SkipReason::NotRecorded),
        },
    }
}

/// The view of a lock monitor.
pub open spec fn lock_view(l: LockMonitor) -> (Seq<char>, Seq<char>, Seq<char>) {
    (l.name@, l.description@, l.wallpaper@)
}

/// The view of a skip.
pub open spec fn skip_view(s: Skipped) -> (Seq<char>, SkipReason) {
    (s.monitor@, s.reason)
}

/// What the first `n` monitors come to: the ones with a recorded wallpaper
/// that is still there get a background; the rest are skipped, a recorded
/// wallpaper that is gone as vanished.
pub open spec fn sorted_out(
    monitors: Seq<MonitorInfo>,
    recorded: Seq<Result<String, SkipReason>>,
    present: Seq<bool>,
    n: nat,
) -> (Seq<(Seq<char>, Seq<char>, Seq<char>)>, Seq<(Seq<char>, SkipReason)>)
    decreases n,
{
    if n == 0 {
        (Seq::empty(), Seq::empty())
    } else {
        let (uses, skips) = sorted_out(monitors, recorded, present, (n - 1) as nat);
        let m = monitors[n - 1];
        match recorded[n - 1] {
            Ok(p) => if present[n - 1] {
                (uses.push((m.name@, m.description@, p@)), skips)
            } else {
                (uses, skips.push((m.name@, SkipReason::Vanished)))
            },
            Err(reason) => (uses, skips.push((m.name@, reason))),
        }
    }
}

/// Sort the monitors out, given what [`recorded_wallpaper`] said of each
/// and whether each recorded file is still there (a deleted file would make
/// a background block the lock screen silently ignores).
pub fn sort_out(monitors: &Vec<MonitorInfo>, recorded: Vec<Result<String, SkipReason>>, present: &Vec<bool>) -> (r: (
    Vec<LockMonitor>,
    Vec<Skipped>,
))
    requires
        recorded@.len() == monitors@.len(),
        present@.len() == monitors@.len(),
    ensures
        (r.0@.map_values(|l: LockMonitor| lock_view(l)), r.1@.map_values(|s: Skipped| skip_view(s)))
            == sorted_out(monitors@, recorded@, present@, monitors@.len() as nat),
{
    let mut uses: Vec<LockMonitor> = Vec::new();
    let mut skips: Vec<Skipped> = Vec::new();
    let mut i: usize = 0;
    while i < monitors.len()
        invariant
            i <= monitors.len(),
            recorded@.len() == monitors@.len(),
            present@.len() == monitors@.len(),
            (uses@.map_values(|l: LockMonitor| lock_view(l)), skips@.map_values(|s: Skipped| skip_view(s)))
                == sorted_out(monitors@, recorded@, present@, i as nat),
        decreases monitors.len() - i,
    {
        let ghost u0 = uses@;
        let ghost s0 = skips@;
        let m = &monitors[i];
        let name = crate::text::owned(m.name.as_str());
        match &recorded[i] {
            Ok(p) => {
                if present[i] {
                    uses.push(
                        LockMonitor {
                            name,
                            description: crate::text::owned(m.description.as_str()),
                            wallpaper: crate::text::owned(p.as_str()),
                        },
                    );
                    assert(uses@.map_values(|l: LockMonitor| lock_view(l)) =~= u0.map_values(
                        |l: LockMonitor| lock_view(l),
                    ).push((m.name@, m.description@, p@)));
                } else {
                    skips.push(Skipped { monitor: name, reason: SkipReason::Vanished });
                    assert(skips@.map_values(|s: Skipped| skip_view(s)) =~= s0.map_values(
                        |s: Skipped| skip_view(s),
                    ).push((m.name@, SkipReason::Vanished)));
                }
            },
            Err(reason) => {
                skips.push(Skipped { monitor: name, reason: *reason });
                assert(skips@.map_values(|s: Skipped| skip_view(s)) =~= s0.map_values(
                    |s: Skipped| skip_view(s),
                ).push((m.name@, *reason)));
            },
        }
        i += 1;
    }
    (uses, skips)
}

/// Each monitor is sorted out by its own entries alone, whatever comes
/// before it: a recorded wallpaper that is still there gives the monitor its
/// background; one that is gone skips it as vanished; a monitor with no
/// recorded wallpaper is skipped for the reason given. Nothing else is used
/// or skipped.
pub proof fn lemma_each_monitor_by_its_own_entries(
    monitors: Seq<MonitorInfo>,
    recorded: Seq<Result<String, SkipReason>>,
    present: Seq<bool>,
    n: nat,
)
    requires
        n <= monitors.len(),
        recorded.len() == monitors.len(),
        present.len() == monitors.len(),
    ensures
        forall|i: int| #![trigger recorded[i]] 0 <= i < n ==> match recorded[i] {
            Ok(p) => if present[i] {
                sorted_out(monitors, recorded, present, n).0.contains(
                    (monitors[i].name@, monitors[i].description@, p@),
                )
            } else {
                sorted_out(monitors, recorded, present, n).1.contains((monitors[i].name@, SkipReason::Vanished))
            },
            Err(reason) => sorted_out(monitors, recorded, present, n).1.contains((monitors[i].name@, reason)),
        },
        sorted_out(monitors, recorded, present, n).0.len() + sorted_out(monitors, recorded, present, n).1.len()
            == n,
    decreases n,
{
    if n > 0 {
        let m = (n - 1) as nat;
        lemma_each_monitor_by_its_own_entries(monitors, recorded, present, m);
        let (u0, s0) = sorted_out(monitors, recorded, present, m);
        let (u1, s1) = sorted_out(monitors, recorded, present, n);
        assert forall|x: (Seq<char>, Seq<char>, Seq<char>)| u0.contains(x) implies u1.contains(x) by {
            let k = choose|k: int| 0 <= k < u0.len() && u0[k] == x;
            assert(u1[k] == x);
        }
        assert forall|x: (Seq<char>, SkipReason)| s0.contains(x) implies s1.contains(x) by {
            let k = choose|k: int| 0 <= k < s0.len() && s0[k] == x;
            assert(s1[k] == x);
        }
        assert forall|i: int| #![trigger recorded[i]] 0 <= i < n implies match recorded[i] {
            Ok(p) => if present[i] {
                u1.contains((monitors[i].name@, monitors[i].description@, p@))
            } else {
                s1.contains((monitors[i].name@, SkipReason::Vanished))
            },
            Err(reason) => s1.contains((monitors[i].name@, reason)),
        } by {
            if i == n - 1 {
                match recorded[i] {
                    Ok(p) => if present[i] {
                        assert(u1[u0.len() as int] == (monitors[i].name@, monitors[i].description@, p@));
                    } else {
                        assert(s1[s0.len() as int] == (monitors[i].name@, SkipReason::Vanished));
                    },
                    Err(reason) => {
                        assert(s1[s0.len() as int] == (monitors[i].name@, reason));
                    },
                }
            }
        }
    }
}

} // verus!
