//! Deciding which picture goes on which monitor, and when: what a pass may
//! change, what each monitor keeps, and the kept order and cursor. A start
//! or a hotplug restores what each monitor had and fills only monitors with
//! nothing of their own; a rotation moves every monitor at once.
use vstd::prelude::*;
use crate::control::Command;
use crate::hypr::{stable_key_spec, usable_spec, MonitorInfo};
use crate::text::{chars_of, lemma_lex_total, lex_less, lex_lt, owned, str_eq, strings_view};
use crate::wallpaper::state::{entries_view, keys_ascending, lemma_ascending_keys_distinct, State, VERSION};

verus! {

/// Why this pass runs, which decides how much it may change.
#[derive(Debug, Clone, Copy, PartialEq, Eq, Structural)]
pub enum Trigger {
    /// Process start, or a re-scan: restore what each monitor had; only
    /// monitors with nothing of their own get a picture.
    Restore,
    /// A monitor appeared: the same rule, so the others do not flicker.
    Hotplug,
    /// The timer fired, or the user asked: every monitor changes together.
    Rotate,
}

/// The pass a command to the daemon asks for: `next` rotates every monitor;
/// `reload` re-scans and restores what each monitor had.
pub fn trigger_for(command: Command) -> (t: Trigger)
    ensures
        t == match command {
            Command::Next => Trigger::Rotate,
            Command::Reload => Trigger::Restore,
        },
{
    match command {
        Command::Next => Trigger::Rotate,
        Command::Reload => Trigger::Restore,
    }
}

/// Why a pass produced nothing.
#[derive(Debug, Clone, Copy, PartialEq, Eq, Structural)]
pub enum Idle {
    /// No usable monitors: mirrors and disabled outputs do not count.
    NoMonitors,
    /// No picture any decoder of this build understands.
    NoWallpapers,
}

/// The value of the last entry for `key` in `v`: what a map built by
/// inserting `v` in order holds for it.
pub open spec fn last_value(v: Seq<(Seq<char>, Seq<char>)>, key: Seq<char>) -> Option<Seq<char>>
    decreases v.len(),
{
    if v.len() == 0 {
        None
    } else if v.last().0 == key {
        Some(v.last().1)
    } else {
        last_value(v.drop_last(), key)
    }
}

/// Port name and key of each usable monitor, in the compositor's order.
pub open spec fn usable_of(ms: Seq<MonitorInfo>) -> Seq<(Seq<char>, Seq<char>)>
    decreases ms.len(),
{
    if ms.len() == 0 {
        Seq::empty()
    } else if usable_spec(ms.last().disabled, ms.last().mirror_of@) {
        usable_of(ms.drop_last()).push((ms.last().name@, stable_key_spec(ms.last().name@, ms.last().description@)))
    } else {
        usable_of(ms.drop_last())
    }
}

/// The picture the monitor keyed `key` keeps through a pass: what it had,
/// unless the pass is a rotation or the picture left the pool.
pub open spec fn kept_picture(previous: Seq<(Seq<char>, Seq<char>)>, available: Seq<Seq<char>>, trigger: Trigger, key: Seq<char>) -> Option<Seq<char>> {
    if trigger == Trigger::Rotate {
        None
    } else {
        match last_value(previous, key) {
            Some(p) => if available.contains(p) {
                Some(p)
            } else {
                None
            },
            None => None,
        }
    }
}

/// The keys, in monitor order, that get a fresh picture.
pub open spec fn needs_of(usable: Seq<(Seq<char>, Seq<char>)>, previous: Seq<(Seq<char>, Seq<char>)>, available: Seq<Seq<char>>, trigger: Trigger) -> Seq<Seq<char>>
    decreases usable.len(),
{
    if usable.len() == 0 {
        Seq::empty()
    } else if kept_picture(previous, available, trigger, usable.last().1) is None {
        needs_of(usable.drop_last(), previous, available, trigger).push(usable.last().1)
    } else {
        needs_of(usable.drop_last(), previous, available, trigger)
    }
}

/// Whether some usable monitor is keyed `key`.
pub open spec fn has_key(usable: Seq<(Seq<char>, Seq<char>)>, key: Seq<char>) -> bool {
    exists|i: int| 0 <= i < usable.len() && usable[i].1 == key
}

/// Whether the kept order is still a shuffle of exactly the pool: the same
/// pictures, each as often, and not empty.
pub open spec fn same_pool(order: Seq<Seq<char>>, available: Seq<Seq<char>>) -> bool {
    order.len() > 0 && order.to_multiset() == available.to_multiset()
}

/// The value of the last entry for `key`.
pub(crate) fn find_last(v: &Vec<(String, String)>, key: &str) -> (r: Option<String>)
    ensures
        match r {
            Some(p) => last_value(entries_view(v@), key@) == Some(p@),
            None => last_value(entries_view(v@), key@) is None,
        },
{
    let ghost ev = entries_view(v@);
    let mut i: usize = v.len();
    assert(ev.take(i as int) == ev);
    while i > 0
        invariant
            i <= v.len(),
            ev == entries_view(v@),
            last_value(ev, key@) == last_value(ev.take(i as int), key@),
        decreases i,
    {
        assert(ev.take(i as int).drop_last() == ev.take(i - 1));
        if str_eq(v[i - 1].0.as_str(), key) {
            return Some(v[i - 1].1.clone());
        }
        i -= 1;
    }
    None
}

/// Whether `v` holds `s`.
fn contains_string(v: &Vec<String>, s: &str) -> (b: bool)
    ensures
        b == strings_view(v@).contains(s@),
{
    let mut i: usize = 0;
    while i < v.len()
        invariant
            i <= v.len(),
            forall|j: int| 0 <= j < i ==> strings_view(v@)[j] != s@,
        decreases v.len() - i,
    {
        if str_eq(v[i].as_str(), s) {
            assert(strings_view(v@)[i as int] == s@);
            return true;
        }
        i += 1;
    }
    false
}

/// A copy of a list of strings.
fn copy_strings(v: &Vec<String>) -> (out: Vec<String>)
    ensures
        strings_view(out@) == strings_view(v@),
{
    let mut out: Vec<String> = Vec::new();
    let mut i: usize = 0;
    while i < v.len()
        invariant
            i <= v.len(),
            strings_view(out@) == strings_view(v@).take(i as int),
        decreases v.len() - i,
    {
        let ghost before = out@;
        out.push(owned(v[i].as_str()));
        assert(strings_view(out@) =~= strings_view(before).push(strings_view(v@)[i as int]));
        assert(strings_view(v@).take(i + 1) =~= strings_view(v@).take(i as int).push(strings_view(v@)[i as int]));
        i += 1;
    }
    assert(strings_view(v@).take(i as int) =~= strings_view(v@));
    out
}

/// Whether `order` is a shuffle of exactly `available`, and not empty.
fn is_same_pool(order: &Vec<String>, available: &Vec<String>) -> (b: bool)
    ensures
        b == same_pool(strings_view(order@), strings_view(available@)),
{
    order.len() > 0 && same_items(order, available)
}

/// Whether `order` holds the same pictures as `available`, each as often:
/// each picture of the order is struck off a copy of the pool, and nothing
/// may be missing or left over.
pub fn same_items(order: &Vec<String>, available: &Vec<String>) -> (b: bool)
    ensures
        b == (strings_view(order@).to_multiset() == strings_view(available@).to_multiset()),
{
    broadcast use vstd::seq_lib::group_to_multiset_ensures, vstd::multiset::group_multiset_axioms;

    let ghost ov = strings_view(order@);
    let ghost av = strings_view(available@);
    let mut rest = copy_strings(available);
    let mut i: usize = 0;
    assert(ov.skip(0) =~= ov);
    while i < order.len()
        invariant
            i <= order.len(),
            ov == strings_view(order@),
            av == strings_view(available@),
            (ov.to_multiset() == av.to_multiset()) == (ov.skip(i as int).to_multiset() == strings_view(
                rest@,
            ).to_multiset()),
        decreases order.len() - i,
    {
        let ghost rv = strings_view(rest@);
        let ghost x = ov[i as int];
        let ghost a = ov.skip(i as int).to_multiset();
        let ghost b = rv.to_multiset();
        assert(ov.skip(i as int).remove(0) =~= ov.skip(i + 1));
        assert(ov.skip(i as int)[0] == x);
        assert(ov.skip(i as int).contains(x));
        proof {
            vstd::seq_lib::to_multiset_contains(ov.skip(i as int), x);
        }
        assert(a.count(x) > 0);
        let mut j: usize = 0;
        let mut found = false;
        while j < rest.len()
            invariant_except_break
                j <= rest.len(),
                rv == strings_view(rest@),
                !found,
                forall|k: int| 0 <= k < j ==> rv[k] != x,
                x == strings_view(order@)[i as int],
                i < order.len(),
                (ov.to_multiset() == av.to_multiset()) == (a == b),
            ensures
                (ov.to_multiset() == av.to_multiset()) == (a == b),
                rv == strings_view(rest@),
                found ==> j < rest.len() && rv[j as int] == x,
                !found ==> forall|k: int| 0 <= k < rest.len() ==> rv[k] != x,
            decreases rest.len() - j,
        {
            if str_eq(rest[j].as_str(), order[i].as_str()) {
                found = true;
                break;
            }
            j += 1;
        }
        if !found {
            assert(!rv.contains(x));
            proof {
                vstd::seq_lib::to_multiset_contains(rv, x);
            }
            assert(b.count(x) == 0);
            assert(a != b);
            return false;
        }
        assert(rv[j as int] == x);
        rest.remove(j);
        assert(strings_view(rest@) =~= rv.remove(j as int));
        proof {
            vstd::seq_lib::to_multiset_remove(rv, j as int);
        }
        let ghost a2 = ov.skip(i + 1).to_multiset();
        proof {
            vstd::seq_lib::to_multiset_remove(ov.skip(i as int), 0);
        }
        let ghost b2 = strings_view(rest@).to_multiset();
        assert(a2 == a.remove(x));
        assert(b2 == b.remove(x));
        assert(rv.contains(x));
        proof {
            vstd::seq_lib::to_multiset_contains(rv, x);
        }
        assert(b.count(x) > 0);
        proof {
            if a2 == b2 {
                assert forall|w: Seq<char>| a.count(w) == b.count(w) by {
                    assert(a2.count(w) == b2.count(w));
                }
                assert(a =~= b);
            }
        }
        i += 1;
    }
    assert(ov.skip(i as int) =~= Seq::<Seq<char>>::empty());
    assert(Seq::<Seq<char>>::empty().to_multiset().len() == 0);
    if rest.len() == 0 {
        assert(strings_view(rest@) =~= Seq::<Seq<char>>::empty());
    }
    rest.len() == 0
}

/// Whether `v` holds the entry `e`.
pub open spec fn has_entry(v: Seq<(Seq<char>, Seq<char>)>, e: (Seq<char>, Seq<char>)) -> bool {
    exists|i: int| 0 <= i < v.len() && v[i] == e
}

/// Set `key` to `value` in `v`, a map kept in ascending key order: the
/// entry of that key is replaced, or a new one goes where the order puts it.
pub fn set_entry(v: &mut Vec<(String, String)>, key: String, value: String)
    requires
        keys_ascending(entries_view(old(v)@)),
    ensures
        keys_ascending(entries_view(final(v)@)),
        has_entry(entries_view(final(v)@), (key@, value@)),
        forall|e: (Seq<char>, Seq<char>)|
            #![trigger has_entry(entries_view(final(v)@), e)]
            has_entry(entries_view(final(v)@), e) && e.0 != key@ ==> has_entry(entries_view(old(v)@), e),
        forall|e: (Seq<char>, Seq<char>)|
            #![trigger has_entry(entries_view(old(v)@), e)]
            has_entry(entries_view(old(v)@), e) && e.0 != key@ ==> has_entry(entries_view(final(v)@), e),
{
    let ghost ov = entries_view(v@);
    let ghost k = key@;
    let ghost val = value@;
    let kc = chars_of(key.as_str());
    let mut i: usize = 0;
    while i < v.len()
        invariant_except_break
            i <= v.len(),
            ov == entries_view(v@),
            kc@ == k,
            k == key@,
            forall|j: int| 0 <= j < i ==> lex_lt(#[trigger] ov[j].0, k),
        ensures
            i <= v.len(),
            ov == entries_view(v@),
            kc@ == k,
            k == key@,
            forall|j: int| 0 <= j < i ==> lex_lt(#[trigger] ov[j].0, k),
            i < v.len() ==> !lex_lt(ov[i as int].0, k),
        decreases v.len() - i,
    {
        let here = chars_of(v[i].0.as_str());
        if !lex_less(here.as_slice(), kc.as_slice()) {
            break;
        }
        i += 1;
    }
    if i < v.len() && str_eq(v[i].0.as_str(), key.as_str()) {
        v.set(i, (key, value));
        let ghost nv = entries_view(v@);
        assert(nv =~= ov.update(i as int, (k, val)));
        assert(nv[i as int] == (k, val));
        assert forall|e: (Seq<char>, Seq<char>)| #![trigger has_entry(nv, e)] has_entry(nv, e) && e.0 != k implies has_entry(ov, e) by {
            let j = choose|j: int| 0 <= j < nv.len() && nv[j] == e;
            assert(ov[j] == e);
        }
        assert forall|e: (Seq<char>, Seq<char>)| #![trigger has_entry(ov, e)] has_entry(ov, e) && e.0 != k implies has_entry(nv, e) by {
            let j = choose|j: int| 0 <= j < ov.len() && ov[j] == e;
            assert(nv[j] == e);
        }
    } else {
        proof {
            if i < ov.len() {
                lemma_lex_total(ov[i as int].0, k);
            }
        }
        v.insert(i, (key, value));
        let ghost nv = entries_view(v@);
        assert(nv =~= ov.insert(i as int, (k, val)));
        assert(nv[i as int] == (k, val));
        assert forall|j: int| 0 <= j < nv.len() - 1 implies lex_lt(#[trigger] nv[j].0, nv[j + 1].0) by {
            if j + 1 < i {
                assert(lex_lt(ov[j].0, ov[j + 1].0));
            } else if j + 1 == i {
            } else if j == i {
            } else {
                assert(lex_lt(ov[j - 1].0, ov[j].0));
            }
        }
        assert forall|e: (Seq<char>, Seq<char>)| #![trigger has_entry(nv, e)] has_entry(nv, e) && e.0 != k implies has_entry(ov, e) by {
            let j = choose|j: int| 0 <= j < nv.len() && nv[j] == e;
            if j < i {
                assert(ov[j] == e);
            } else {
                assert(ov[j - 1] == e);
            }
        }
        assert forall|e: (Seq<char>, Seq<char>)| #![trigger has_entry(ov, e)] has_entry(ov, e) && e.0 != k implies has_entry(nv, e) by {
            let j = choose|j: int| 0 <= j < ov.len() && ov[j] == e;
            if j < i {
                assert(nv[j] == e);
            } else {
                assert(nv[j + 1] == e);
            }
        }
    }
}

/// In a map kept in ascending key order a key has one value.
proof fn lemma_one_value(v: Seq<(Seq<char>, Seq<char>)>, k: Seq<char>, p: Seq<char>, q: Seq<char>)
    requires
        keys_ascending(v),
        has_entry(v, (k, p)),
        has_entry(v, (k, q)),
    ensures
        p == q,
{
    let i = choose|i: int| 0 <= i < v.len() && v[i] == (k, p);
    let j = choose|j: int| 0 <= j < v.len() && v[j] == (k, q);
    if i < j {
        lemma_ascending_keys_distinct(v, i, j);
    } else if j < i {
        lemma_ascending_keys_distinct(v, j, i);
    }
}

proof fn lemma_has_key_push(u: Seq<(Seq<char>, Seq<char>)>, x: (Seq<char>, Seq<char>), k: Seq<char>)
    ensures
        has_key(u.push(x), k) == (has_key(u, k) || x.1 == k),
{
    if has_key(u, k) {
        let i = choose|i: int| 0 <= i < u.len() && u[i].1 == k;
        assert(u.push(x)[i].1 == k);
    }
    if x.1 == k {
        assert(u.push(x)[u.len() as int].1 == k);
    }
    if has_key(u.push(x), k) {
        let i = choose|i: int| 0 <= i < u.push(x).len() && u.push(x)[i].1 == k;
        if i < u.len() {
            assert(u[i].1 == k);
        }
    }
}

/// What a pass settles before any picture is dealt.
#[derive(Debug, Clone, PartialEq, Eq)]
pub struct Pending {
    /// Port name and key of each usable monitor, in the compositor's order.
    pub monitors: Vec<(String, String)>,
    /// The monitors that keep their picture, by key, keys ascending.
    pub kept: Vec<(String, String)>,
    /// The keys, in monitor order, that get a fresh picture.
    pub needs: Vec<String>,
    /// Whether the kept order and cursor still serve because the pool is
    /// the same; otherwise the pool is shuffled anew and dealing starts at
    /// its head.
    pub keep_order: bool,
}

/// The first half of a pass: which monitors count, which keep their
/// picture and which get a fresh one, and whether the kept order still
/// serves. A start or a hotplug restores every monitor whose picture is
/// still in the pool, so a monitor that comes back gets its own picture and
/// only a monitor with nothing of its own is dealt one; a rotation deals to
/// every monitor.
pub fn begin_pass(monitors: &Vec<MonitorInfo>, available: &Vec<String>, previous: &State, trigger: Trigger) -> (r: Result<Pending, Idle>)
    ensures
        match r {
            Err(Idle::NoMonitors) => usable_of(monitors@).len() == 0,
            Err(Idle::NoWallpapers) => usable_of(monitors@).len() > 0 && available@.len() == 0,
            Ok(p) => {
                &&& usable_of(monitors@).len() > 0
                &&& available@.len() > 0
                &&& entries_view(p.monitors@) == usable_of(monitors@)
                &&& strings_view(p.needs@) == needs_of(
                    usable_of(monitors@),
                    entries_view(previous.monitors@),
                    strings_view(available@),
                    trigger,
                )
                &&& keys_ascending(entries_view(p.kept@))
                &&& forall|e: (Seq<char>, Seq<char>)| #[trigger]
                    has_entry(entries_view(p.kept@), e) <==> (has_key(usable_of(monitors@), e.0)
                        && kept_picture(entries_view(previous.monitors@), strings_view(available@), trigger, e.0)
                        == Some(e.1))
                &&& p.keep_order == same_pool(strings_view(previous.order@), strings_view(available@))
            },
        },
{
    let ghost ms = monitors@;
    let ghost pv = entries_view(previous.monitors@);
    let ghost av = strings_view(available@);
    let mut usable: Vec<(String, String)> = Vec::new();
    let mut kept: Vec<(String, String)> = Vec::new();
    let mut needs: Vec<String> = Vec::new();
    let mut i: usize = 0;
    while i < monitors.len()
        invariant
            i <= monitors.len(),
            ms == monitors@,
            pv == entries_view(previous.monitors@),
            av == strings_view(available@),
            entries_view(usable@) == usable_of(ms.take(i as int)),
            strings_view(needs@) == needs_of(usable_of(ms.take(i as int)), pv, av, trigger),
            keys_ascending(entries_view(kept@)),
            forall|e: (Seq<char>, Seq<char>)| #[trigger]
                has_entry(entries_view(kept@), e) <==> (has_key(usable_of(ms.take(i as int)), e.0)
                    && kept_picture(pv, av, trigger, e.0) == Some(e.1)),
        decreases monitors.len() - i,
    {
        let ghost u0 = usable_of(ms.take(i as int));
        assert(ms.take(i + 1).drop_last() =~= ms.take(i as int));
        assert(ms.take(i + 1).last() == ms[i as int]);
        let m = &monitors[i];
        if m.is_usable() {
            let key = m.stable_key();
            let ghost k = key@;
            let ghost u1 = u0.push((m.name@, k));
            assert(usable_of(ms.take(i + 1)) == u1);
            assert(u1.drop_last() =~= u0);
            assert(u1.last().1 == k);
            let ghost needs_before = strings_view(needs@);
            let ghost before = usable@;
            usable.push((m.name.clone(), owned(key.as_str())));
            assert(entries_view(usable@) =~= entries_view(before).push((m.name@, k)));
            let existing = find_last(&previous.monitors, key.as_str());
            let keep = match &existing {
                Some(p) => trigger != Trigger::Rotate && contains_string(available, p.as_str()),
                None => false,
            };
            proof {
                assert forall|kk: Seq<char>| has_key(u1, kk) == (has_key(u0, kk) || k == kk) by {
                    lemma_has_key_push(u0, (m.name@, k), kk);
                }
            }
            if keep {
                let p = match existing {
                    Some(p) => p,
                    None => String::new(),
                };
                let ghost pp = p@;
                assert(kept_picture(pv, av, trigger, k) == Some(pp));
                let ghost old_kept = entries_view(kept@);
                set_entry(&mut kept, key, p);
                let ghost nk = entries_view(kept@);
                assert forall|e: (Seq<char>, Seq<char>)| #[trigger] has_entry(nk, e) <==> (has_key(u1, e.0)
                    && kept_picture(pv, av, trigger, e.0) == Some(e.1)) by {
                    if e.0 == k {
                        if has_entry(nk, e) {
                            lemma_one_value(nk, k, e.1, pp);
                        }
                    } else {
                        if has_entry(nk, e) {
                            assert(has_entry(old_kept, e));
                        }
                        if has_entry(old_kept, e) {
                            assert(has_entry(nk, e));
                        }
                    }
                }
            } else {
                assert(kept_picture(pv, av, trigger, k) is None);
                needs.push(key);
                assert(strings_view(needs@) =~= needs_before.push(k));
                let ghost nk = entries_view(kept@);
                assert forall|e: (Seq<char>, Seq<char>)| #[trigger] has_entry(nk, e) <==> (has_key(u1, e.0)
                    && kept_picture(pv, av, trigger, e.0) == Some(e.1)) by {
                    if e.0 == k && has_entry(nk, e) {
                        assert(kept_picture(pv, av, trigger, e.0) == Some(e.1));
                    }
                }
            }
            assert(strings_view(needs@) =~= needs_of(u1, pv, av, trigger));
        } else {
            assert(usable_of(ms.take(i + 1)) == u0);
        }
        i += 1;
    }
    assert(ms.take(i as int) =~= ms);
    if usable.len() == 0 {
        return Err(Idle::NoMonitors);
    }
    if available.len() == 0 {
        return Err(Idle::NoWallpapers);
    }
    let keep_order = is_same_pool(&previous.order, available);
    Ok(Pending { monitors: usable, kept, needs, keep_order })
}

proof fn lemma_last_value_found(v: Seq<(Seq<char>, Seq<char>)>, k: Seq<char>, p: Seq<char>)
    ensures
        last_value(v, k) == Some(p) ==> has_entry(v, (k, p)),
        has_entry(v, (k, p)) ==> last_value(v, k) is Some,
    decreases v.len(),
{
    if v.len() > 0 {
        let w = v.drop_last();
        lemma_last_value_found(w, k, p);
        if last_value(v, k) == Some(p) && v.last().0 != k {
            let i = choose|i: int| 0 <= i < w.len() && w[i] == (k, p);
            assert(v[i] == (k, p));
        }
        if last_value(v, k) == Some(p) && v.last().0 == k {
            assert(v[v.len() - 1] == (k, p));
        }
        if has_entry(v, (k, p)) && v.last().0 != k {
            let i = choose|i: int| 0 <= i < v.len() && v[i] == (k, p);
            assert(w[i] == (k, p));
        }
    }
}

/// A found last value is an entry; in a map kept in ascending key order an
/// entry is what the lookup finds.
proof fn lemma_last_value_entry(v: Seq<(Seq<char>, Seq<char>)>, k: Seq<char>, p: Seq<char>)
    ensures
        last_value(v, k) == Some(p) ==> has_entry(v, (k, p)),
        has_entry(v, (k, p)) ==> last_value(v, k) is Some,
        keys_ascending(v) ==> (last_value(v, k) == Some(p) <==> has_entry(v, (k, p))),
{
    lemma_last_value_found(v, k, p);
    if keys_ascending(v) && has_entry(v, (k, p)) {
        let q = last_value(v, k)->0;
        lemma_last_value_found(v, k, q);
        lemma_one_value(v, k, p, q);
    }
}

/// Whether, after dealing `dealt` over the kept pictures `kept`, the key
/// `e.0` holds the picture `e.1`: the last picture dealt to it, else the one
/// it kept.
pub open spec fn chosen_entry(kept: Seq<(Seq<char>, Seq<char>)>, dealt: Seq<(Seq<char>, Seq<char>)>, e: (Seq<char>, Seq<char>)) -> bool {
    match last_value(dealt, e.0) {
        Some(p) => p == e.1,
        None => has_entry(kept, e),
    }
}

/// Whether no two monitors share a port name.
pub open spec fn ports_distinct(monitors: Seq<(Seq<char>, Seq<char>)>) -> bool {
    forall|i: int, j: int| 0 <= i < j < monitors.len() ==> monitors[i].0 != monitors[j].0
}

/// What a pass decided, ready for the renderer and for disk.
#[derive(Debug, Clone, PartialEq, Eq)]
pub struct Assignment {
    /// Port name and picture, ports ascending: the renderer knows outputs by
    /// port.
    pub by_port: Vec<(String, String)>,
    /// What to keep: the pictures by key, the order and the cursor.
    pub state: State,
}

/// The pictures by key after `dealt` (key and picture) goes over the kept
/// ones, each key holding the picture last dealt to it, else the one it
/// kept, and each usable monitor showing what its key holds, with `order`
/// and `cursor` stored as they are. Nothing on any monitor is idle.
fn assemble_pass(pending: Pending, order: Vec<String>, cursor: usize, dealt: Vec<(String, String)>) -> (r: Result<Assignment, Idle>)
    requires
        keys_ascending(entries_view(pending.kept@)),
    ensures
        match r {
            Err(e) => e == Idle::NoWallpapers && forall|i: int, p: Seq<char>| 0 <= i < pending.monitors@.len()
                ==> !chosen_entry(
                entries_view(pending.kept@),
                entries_view(dealt@),
                (entries_view(pending.monitors@)[i].1, p),
            ),
            Ok(a) => {
                &&& a.state.version == VERSION
                &&& strings_view(a.state.order@) == strings_view(order@)
                &&& a.state.cursor == cursor
                &&& keys_ascending(entries_view(a.state.monitors@))
                &&& forall|e: (Seq<char>, Seq<char>)| #[trigger]
                    has_entry(entries_view(a.state.monitors@), e) <==> chosen_entry(
                        entries_view(pending.kept@),
                        entries_view(dealt@),
                        e,
                    )
                &&& keys_ascending(entries_view(a.by_port@))
                &&& a.by_port@.len() > 0
                &&& forall|e: (Seq<char>, Seq<char>)| #[trigger]
                    has_entry(entries_view(a.by_port@), e) ==> exists|i: int|
                        0 <= i < pending.monitors@.len() && entries_view(pending.monitors@)[i].0 == e.0
                            && #[trigger] chosen_entry(
                            entries_view(pending.kept@),
                            entries_view(dealt@),
                            (entries_view(pending.monitors@)[i].1, e.1),
                        )
                &&& ports_distinct(entries_view(pending.monitors@)) ==> forall|i: int, p: Seq<char>|
                    0 <= i < pending.monitors@.len() && #[trigger] chosen_entry(
                        entries_view(pending.kept@),
                        entries_view(dealt@),
                        (entries_view(pending.monitors@)[i].1, p),
                    ) ==> has_entry(entries_view(a.by_port@), (entries_view(pending.monitors@)[i].0, p))
            },
        },
{
    let ghost kv = entries_view(pending.kept@);
    let ghost dv = entries_view(dealt@);
    let ghost mv = entries_view(pending.monitors@);
    let mut chosen = pending.kept;
    let mut j: usize = 0;
    while j < dealt.len()
        invariant
            j <= dealt.len(),
            dv == entries_view(dealt@),
            keys_ascending(entries_view(chosen@)),
            forall|e: (Seq<char>, Seq<char>)| #[trigger]
                has_entry(entries_view(chosen@), e) <==> chosen_entry(kv, dv.take(j as int), e),
        decreases dealt.len() - j,
    {
        let ghost before = entries_view(chosen@);
        let ghost k = dv[j as int].0;
        let ghost p = dv[j as int].1;
        assert(dv.take(j + 1).drop_last() =~= dv.take(j as int));
        assert(dv.take(j + 1).last() == (k, p));
        set_entry(&mut chosen, owned(dealt[j].0.as_str()), owned(dealt[j].1.as_str()));
        let ghost after = entries_view(chosen@);
        assert forall|e: (Seq<char>, Seq<char>)| #[trigger] has_entry(after, e) <==> chosen_entry(kv, dv.take(j + 1), e) by {
            if e.0 == k {
                if has_entry(after, e) {
                    lemma_one_value(after, k, e.1, p);
                }
            } else {
                if has_entry(after, e) {
                    assert(has_entry(before, e));
                }
                if has_entry(before, e) {
                    assert(has_entry(after, e));
                }
            }
        }
        j += 1;
    }
    assert(dv.take(j as int) =~= dv);
    let ghost cv = entries_view(chosen@);
    let mut by_port: Vec<(String, String)> = Vec::new();
    let mut i: usize = 0;
    while i < pending.monitors.len()
        invariant
            i <= pending.monitors.len(),
            mv == entries_view(pending.monitors@),
            cv == entries_view(chosen@),
            keys_ascending(cv),
            forall|e: (Seq<char>, Seq<char>)| #[trigger] has_entry(cv, e) <==> chosen_entry(kv, dv, e),
            keys_ascending(entries_view(by_port@)),
            (by_port@.len() == 0) == (forall|k: int, p: Seq<char>| 0 <= k < i ==> !chosen_entry(kv, dv, (mv[k].1, p))),
            forall|e: (Seq<char>, Seq<char>)| #[trigger]
                has_entry(entries_view(by_port@), e) ==> exists|k: int|
                    0 <= k < i && mv[k].0 == e.0 && #[trigger] chosen_entry(kv, dv, (mv[k].1, e.1)),
            ports_distinct(mv) ==> forall|k: int, p: Seq<char>|
                0 <= k < i && #[trigger] chosen_entry(kv, dv, (mv[k].1, p)) ==> has_entry(
                    entries_view(by_port@),
                    (mv[k].0, p),
                ),
        decreases pending.monitors.len() - i,
    {
        let ghost before = entries_view(by_port@);
        let ghost port = mv[i as int].0;
        let ghost key = mv[i as int].1;
        match find_last(&chosen, pending.monitors[i].1.as_str()) {
            Some(p) => {
                proof {
                    lemma_last_value_entry(cv, key, p@);
                }
                assert(chosen_entry(kv, dv, (key, p@)));
                let ghost pp = p@;
                set_entry(&mut by_port, owned(pending.monitors[i].0.as_str()), p);
                let ghost after = entries_view(by_port@);
                assert(after.len() > 0) by {
                    assert(has_entry(after, (port, pp)));
                }
                assert forall|e: (Seq<char>, Seq<char>)| #[trigger] has_entry(after, e) implies exists|k: int|
                    0 <= k < i + 1 && mv[k].0 == e.0 && #[trigger] chosen_entry(kv, dv, (mv[k].1, e.1)) by {
                    if e.0 == port {
                        lemma_one_value(after, port, e.1, pp);
                        assert(mv[i as int].0 == e.0 && chosen_entry(kv, dv, (mv[i as int].1, e.1)));
                    } else {
                        assert(has_entry(before, e));
                    }
                }
                assert(ports_distinct(mv) ==> forall|k: int, q: Seq<char>|
                    0 <= k < i + 1 && #[trigger] chosen_entry(kv, dv, (mv[k].1, q)) ==> has_entry(
                        after,
                        (mv[k].0, q),
                    )) by {
                    if ports_distinct(mv) {
                        assert forall|k: int, q: Seq<char>|
                            0 <= k < i + 1 && #[trigger] chosen_entry(kv, dv, (mv[k].1, q)) implies has_entry(
                            after,
                            (mv[k].0, q),
                        ) by {
                            if k == i {
                                lemma_last_value_entry(cv, key, q);
                                lemma_one_value(cv, key, q, pp);
                            } else {
                                assert(has_entry(before, (mv[k].0, q)));
                            }
                        }
                    }
                }
            },
            None => {
                assert forall|p: Seq<char>| !chosen_entry(kv, dv, (key, p)) by {
                    lemma_last_value_entry(cv, key, p);
                }
            },
        }
        i += 1;
    }
    if by_port.len() == 0 {
        return Err(Idle::NoWallpapers);
    }
    Ok(Assignment { by_port, state: State { version: VERSION, monitors: chosen, order, cursor } })
}

/// The fresh pictures of a pass: what the dealing handed out, or nothing
/// where nothing was dealt.
pub open spec fn dealt_entries(dealt: Option<(Vec<(String, String)>, usize)>) -> Seq<(Seq<char>, Seq<char>)> {
    match dealt {
        Some((d, _)) => entries_view(d@),
        None => Seq::empty(),
    }
}

/// The cursor a pass keeps: where dealing left it; without dealing, the
/// kept cursor when the pool is the same, else the head of the new order.
pub open spec fn pass_cursor(keep_order: bool, previous_cursor: usize, dealt: Option<(Vec<(String, String)>, usize)>) -> usize {
    match dealt {
        Some((_, c)) => c,
        None => if keep_order {
            previous_cursor
        } else {
            0
        },
    }
}

/// The second half of a pass. The order is the kept one, with its cursor,
/// when the pool is the same as before; otherwise it is `shuffled`, a fresh
/// shuffle of the pool, and counting starts again at its head. `dealt` is
/// what dealing from that order and cursor gave the keys that need a
/// picture, with the cursor dealing moved to; it is there exactly when some
/// key needs one. Each key then holds the picture last dealt to it, else the
/// one it kept; each usable monitor shows what its key holds; a pass that
/// puts a picture on no monitor is idle. The stored order is always the pool
/// reordered, so *next* keeps its meaning across restarts.
pub fn finish_pass(
    pending: Pending,
    previous: &State,
    available: &Vec<String>,
    shuffled: Option<Vec<String>>,
    dealt: Option<(Vec<(String, String)>, usize)>,
) -> (r: Result<Assignment, Idle>)
    requires
        keys_ascending(entries_view(pending.kept@)),
        pending.keep_order == same_pool(strings_view(previous.order@), strings_view(available@)),
        !pending.keep_order ==> (shuffled matches Some(s) && strings_view(s@).to_multiset() == strings_view(
            available@,
        ).to_multiset()),
        (pending.needs@.len() > 0) == (dealt is Some),
    ensures
        match r {
            Err(e) => e == Idle::NoWallpapers && forall|i: int, p: Seq<char>| 0 <= i < pending.monitors@.len()
                ==> !chosen_entry(
                entries_view(pending.kept@),
                dealt_entries(dealt),
                (entries_view(pending.monitors@)[i].1, p),
            ),
            Ok(a) => {
                &&& a.state.version == VERSION
                &&& pending.keep_order ==> strings_view(a.state.order@) == strings_view(previous.order@)
                &&& !pending.keep_order ==> strings_view(a.state.order@) == strings_view(shuffled->0@)
                &&& strings_view(a.state.order@).to_multiset() == strings_view(available@).to_multiset()
                &&& a.state.cursor == pass_cursor(pending.keep_order, previous.cursor, dealt)
                &&& keys_ascending(entries_view(a.state.monitors@))
                &&& forall|e: (Seq<char>, Seq<char>)| #[trigger]
                    has_entry(entries_view(a.state.monitors@), e) <==> chosen_entry(
                        entries_view(pending.kept@),
                        dealt_entries(dealt),
                        e,
                    )
                &&& keys_ascending(entries_view(a.by_port@))
                &&& a.by_port@.len() > 0
                &&& forall|e: (Seq<char>, Seq<char>)| #[trigger]
                    has_entry(entries_view(a.by_port@), e) ==> exists|i: int|
                        0 <= i < pending.monitors@.len() && entries_view(pending.monitors@)[i].0 == e.0
                            && #[trigger] chosen_entry(
                            entries_view(pending.kept@),
                            dealt_entries(dealt),
                            (entries_view(pending.monitors@)[i].1, e.1),
                        )
                &&& ports_distinct(entries_view(pending.monitors@)) ==> forall|i: int, p: Seq<char>|
                    0 <= i < pending.monitors@.len() && #[trigger] chosen_entry(
                        entries_view(pending.kept@),
                        dealt_entries(dealt),
                        (entries_view(pending.monitors@)[i].1, p),
                    ) ==> has_entry(entries_view(a.by_port@), (entries_view(pending.monitors@)[i].0, p))
            },
        },
{
    let keep_order = pending.keep_order;
    let (order, start) = if keep_order {
        (copy_strings(&previous.order), previous.cursor)
    } else {
        match shuffled {
            Some(s) => (s, 0),
            None => (Vec::new(), 0),
        }
    };
    let (fresh, cursor) = match dealt {
        Some((d, c)) => (d, c),
        None => (Vec::new(), start),
    };
    proof {
        if keep_order {
            assert(strings_view(order@).to_multiset() == strings_view(available@).to_multiset());
        }
        assert(entries_view(fresh@) == dealt_entries(dealt));
    }
    assemble_pass(pending, order, cursor, fresh)
}

/// A pass deals a fresh picture to exactly the usable monitors that keep
/// nothing: on a start or a hotplug, those with no picture of their own or
/// whose picture left the pool; on a rotation, every one of them.
pub proof fn lemma_needs_are_the_monitors_without_a_picture(
    usable: Seq<(Seq<char>, Seq<char>)>,
    previous: Seq<(Seq<char>, Seq<char>)>,
    available: Seq<Seq<char>>,
    trigger: Trigger,
    key: Seq<char>,
)
    ensures
        needs_of(usable, previous, available, trigger).contains(key) <==> (has_key(usable, key)
            && kept_picture(previous, available, trigger, key) is None),
        trigger == Trigger::Rotate ==> (needs_of(usable, previous, available, trigger).contains(key)
            <==> has_key(usable, key)),
    decreases usable.len(),
{
    if usable.len() > 0 {
        let u0 = usable.drop_last();
        lemma_needs_are_the_monitors_without_a_picture(u0, previous, available, trigger, key);
        assert(usable =~= u0.push(usable.last()));
        lemma_has_key_push(u0, usable.last(), key);
        let n0 = needs_of(u0, previous, available, trigger);
        if kept_picture(previous, available, trigger, usable.last().1) is None {
            assert(n0.push(usable.last().1).contains(key) <==> (n0.contains(key) || usable.last().1 == key)) by {
                if n0.push(usable.last().1).contains(key) {
                    let j = choose|j: int| 0 <= j < n0.len() + 1 && n0.push(usable.last().1)[j] == key;
                    if j < n0.len() {
                        assert(n0[j] == key);
                    }
                }
                if n0.contains(key) {
                    let j = choose|j: int| 0 <= j < n0.len() && n0[j] == key;
                    assert(n0.push(usable.last().1)[j] == key);
                }
                if usable.last().1 == key {
                    assert(n0.push(usable.last().1)[n0.len() as int] == key);
                }
            }
        }
    }
}

/// A start or a hotplug on which every usable monitor still has its picture
/// in the pool deals nothing: no key needs a picture, so the pass moves no
/// cursor, and over an unchanged pool the kept order and cursor stay as
/// they were.
pub proof fn lemma_full_restore_deals_nothing(
    usable: Seq<(Seq<char>, Seq<char>)>,
    previous: Seq<(Seq<char>, Seq<char>)>,
    available: Seq<Seq<char>>,
    trigger: Trigger,
)
    requires
        trigger != Trigger::Rotate,
        forall|i: int| 0 <= i < usable.len() ==> (#[trigger] last_value(previous, usable[i].1) matches Some(p)
            && available.contains(p)),
    ensures
        needs_of(usable, previous, available, trigger).len() == 0,
    decreases usable.len(),
{
    if usable.len() > 0 {
        let u0 = usable.drop_last();
        assert forall|i: int| 0 <= i < u0.len() implies (#[trigger] last_value(previous, u0[i].1) matches Some(p)
            && available.contains(p)) by {
            assert(u0[i] == usable[i]);
        }
        lemma_full_restore_deals_nothing(u0, previous, available, trigger);
        assert(last_value(previous, usable[usable.len() - 1].1) is Some);
    }
}

/// A monitor that comes back gets its own picture again: on a start or a
/// hotplug, a usable monitor whose previous picture is still in the pool
/// holds that picture after the pass, since fresh pictures go only to the
/// keys that need one.
pub proof fn lemma_returning_monitor_keeps_its_picture(
    monitors: Seq<MonitorInfo>,
    previous: Seq<(Seq<char>, Seq<char>)>,
    available: Seq<Seq<char>>,
    trigger: Trigger,
    kept: Seq<(Seq<char>, Seq<char>)>,
    dealt: Seq<(Seq<char>, Seq<char>)>,
    i: int,
    picture: Seq<char>,
)
    requires
        trigger != Trigger::Rotate,
        forall|e: (Seq<char>, Seq<char>)| #[trigger]
            has_entry(kept, e) <==> (has_key(usable_of(monitors), e.0) && kept_picture(previous, available, trigger, e.0)
                == Some(e.1)),
        forall|j: int| 0 <= j < dealt.len() ==> needs_of(usable_of(monitors), previous, available, trigger).contains(
            #[trigger] dealt[j].0,
        ),
        0 <= i < usable_of(monitors).len(),
        last_value(previous, usable_of(monitors)[i].1) == Some(picture),
        available.contains(picture),
    ensures
        chosen_entry(kept, dealt, (usable_of(monitors)[i].1, picture)),
{
    let u = usable_of(monitors);
    let key = u[i].1;
    assert(has_key(u, key));
    assert(kept_picture(previous, available, trigger, key) == Some(picture));
    assert(has_entry(kept, (key, picture)));
    lemma_needs_are_the_monitors_without_a_picture(u, previous, available, trigger, key);
    if last_value(dealt, key) is Some {
        let q = last_value(dealt, key)->0;
        lemma_last_value_found(dealt, key, q);
        let j = choose|j: int| 0 <= j < dealt.len() && dealt[j] == (key, q);
        assert(needs_of(u, previous, available, trigger).contains(dealt[j].0));
    }
}

} // verus!
