//! What obayebar reads from Hyprland: monitors, and the event names that say
//! the monitor set changed.
use vstd::prelude::*;
use crate::text::{chars_of, eq_lit, lossy_string, slice_chars, string_of, trim_end, trim_end_bound, trimmed, trim, utf8_lossy};

verus! {

#[derive(Debug, Clone, Default, PartialEq, Eq)]
pub struct MonitorWorkspace {
    pub id: i32,
}

/// A monitor as `j/monitors` reports it, with the fields obayebar acts on.
#[derive(Debug, Clone, Default, PartialEq, Eq)]
pub struct MonitorInfo {
    pub name: String,
    pub active_workspace: MonitorWorkspace,
    pub focused: bool,
    pub width: u32,
    pub height: u32,
    pub transform: i32,
    /// Human-readable panel description, which tells identical displays
    /// apart by their serial.
    pub description: String,
    pub serial: String,
    pub disabled: bool,
    /// `"none"` (or empty) when this monitor mirrors nothing.
    pub mirror_of: String,
}

/// The key a monitor is remembered by: its trimmed description, or its port
/// name when it has none.
pub open spec fn stable_key_spec(name: Seq<char>, description: Seq<char>) -> Seq<char> {
    if trim(description).len() == 0 {
        name
    } else {
        trim(description)
    }
}

/// Whether a monitor can carry content of its own.
pub open spec fn usable_spec(disabled: bool, mirror_of: Seq<char>) -> bool {
    !disabled && (mirror_of.len() == 0 || mirror_of == "none"@)
}

impl MonitorInfo {
    /// The key to remember this monitor by across disconnects.
    pub fn stable_key(&self) -> (k: String)
        ensures
            k@ == stable_key_spec(self.name@, self.description@),
    {
        let described = trimmed(self.description.as_str());
        if described.len() == 0 {
            self.name.clone()
        } else {
            string_of(described.as_slice())
        }
    }

    /// Whether this monitor is enabled and mirrors no other.
    pub fn is_usable(&self) -> (b: bool)
        ensures
            b == usable_spec(self.disabled, self.mirror_of@),
    {
        let m = chars_of(self.mirror_of.as_str());
        !self.disabled && (m.len() == 0 || eq_lit(m.as_slice(), "none"))
    }
}

/// The Hyprland events that report a change to the set of monitors.
pub open spec fn is_monitor_event_spec(name: Seq<char>) -> bool {
    ||| name == "monitoradded"@
    ||| name == "monitoraddedv2"@
    ||| name == "monitorremoved"@
    ||| name == "monitorremovedv2"@
    ||| name == "monitorlayoutchanged"@
    ||| name == "configreloaded"@
}

/// Whether a Hyprland event name reports a change to the set of monitors.
pub fn is_monitor_event(event_name: &str) -> (b: bool)
    ensures
        b == is_monitor_event_spec(event_name@),
{
    let n = chars_of(event_name);
    let s = n.as_slice();
    eq_lit(s, "monitoradded") || eq_lit(s, "monitoraddedv2") || eq_lit(s, "monitorremoved")
        || eq_lit(s, "monitorremovedv2") || eq_lit(s, "monitorlayoutchanged") || eq_lit(
        s,
        "configreloaded",
    )
}

/// What one read of the event socket produced.
#[derive(Debug, Default, Clone, PartialEq, Eq)]
pub struct EventBatch {
    /// Event names, in arrival order, with their payload stripped.
    pub names: Vec<String>,
    /// The compositor closed the socket, or it failed.
    pub closed: bool,
}

impl EventBatch {
    /// Whether anything in this batch changed the monitor set.
    pub fn has_monitor_event(&self) -> (b: bool)
        ensures
            b == exists|i: int|
                0 <= i < self.names@.len() && is_monitor_event_spec(#[trigger] self.names@[i]@),
    {
        let mut i: usize = 0;
        while i < self.names.len()
            invariant
                i <= self.names@.len(),
                forall|j: int| 0 <= j < i ==> !is_monitor_event_spec(#[trigger] self.names@[j]@),
            decreases self.names.len() - i,
        {
            if is_monitor_event(self.names[i].as_str()) {
                return true;
            }
            i += 1;
        }
        false
    }
}

/// The first index at or after `i` where `b` holds a newline, if any.
pub open spec fn newline_from(b: Seq<u8>, i: int) -> Option<int>
    decreases b.len() - i,
{
    if i < 0 || i >= b.len() {
        None
    } else if b[i] == 10u8 {
        Some(i)
    } else {
        newline_from(b, i + 1)
    }
}

/// The first index at or after `i` where `t` holds `>>`, if any.
pub open spec fn arrows_from(t: Seq<char>, i: int) -> Option<int>
    decreases t.len() - i,
{
    if i < 0 || i + 1 >= t.len() {
        None
    } else if t[i] == '>' && t[i + 1] == '>' {
        Some(i)
    } else {
        arrows_from(t, i + 1)
    }
}

/// The event name on one line (newline included): the text before the first
/// `>>`, once trailing whitespace is gone. A line without `>>` names nothing.
pub open spec fn line_event_name(line: Seq<u8>) -> Option<Seq<char>> {
    let text = trim_end(utf8_lossy(line));
    match arrows_from(text, 0) {
        Some(k) => Some(text.take(k)),
        None => None,
    }
}

/// The event names of the whole lines of `b` from `start` on.
pub open spec fn event_names_from(b: Seq<u8>, start: int) -> Seq<Seq<char>>
    decreases b.len() - start,
{
    if start < 0 || start > b.len() {
        seq![]
    } else {
        match newline_from(b, start) {
            None => seq![],
            Some(e) => {
                let rest = if start < e + 1 <= b.len() {
                    event_names_from(b, e + 1)
                } else {
                    seq![]
                };
                match line_event_name(b.subrange(start, e + 1)) {
                    Some(n) => seq![n] + rest,
                    None => rest,
                }
            },
        }
    }
}

/// Where the last whole line of `b`, from `start` on, ends.
pub open spec fn tail_start(b: Seq<u8>, start: int) -> int
    decreases b.len() - start,
{
    if start < 0 || start > b.len() {
        start
    } else {
        match newline_from(b, start) {
            None => start,
            Some(e) => if start < e + 1 <= b.len() {
                tail_start(b, e + 1)
            } else {
                start
            },
        }
    }
}

proof fn lemma_newline_from_bounds(b: Seq<u8>, i: int)
    requires
        0 <= i,
    ensures
        newline_from(b, i) matches Some(e) ==> i <= e < b.len() && b[e] == 10u8 && (forall|
            k: int,
        | i <= k < e ==> b[k] != 10u8),
        newline_from(b, i) is None ==> forall|k: int| i <= k < b.len() ==> b[k] != 10u8,
    decreases b.len() - i,
{
    if 0 <= i < b.len() && b[i] != 10u8 {
        lemma_newline_from_bounds(b, i + 1);
    }
}

proof fn lemma_tail_start_bounds(b: Seq<u8>, start: int)
    requires
        0 <= start <= b.len(),
    ensures
        start <= tail_start(b, start) <= b.len(),
    decreases b.len() - start,
{
    lemma_newline_from_bounds(b, start);
    if let Some(e) = newline_from(b, start) {
        lemma_tail_start_bounds(b, e + 1);
    }
}

fn find_newline(b: &Vec<u8>, i: usize) -> (r: Option<usize>)
    requires
        i <= b.len(),
    ensures
        match r {
            Some(e) => newline_from(b@, i as int) == Some(e as int) && i <= e < b.len(),
            None => newline_from(b@, i as int) is None,
        },
    decreases b.len() - i,
{
    if i >= b.len() {
        None
    } else if b[i] == 10u8 {
        Some(i)
    } else {
        find_newline(b, i + 1)
    }
}

fn find_arrows(t: &[char], i: usize) -> (r: Option<usize>)
    requires
        i <= t.len(),
    ensures
        match r {
            Some(k) => arrows_from(t@, i as int) == Some(k as int) && k < t.len(),
            None => arrows_from(t@, i as int) is None,
        },
    decreases t.len() - i,
{
    if t.len() - i < 2 {
        None
    } else if t[i] == '>' && t[i + 1] == '>' {
        Some(i)
    } else {
        find_arrows(t, i + 1)
    }
}

fn copy_bytes(b: &Vec<u8>, lo: usize, hi: usize) -> (out: Vec<u8>)
    requires
        lo <= hi <= b.len(),
    ensures
        out@ == b@.subrange(lo as int, hi as int),
{
    let mut out: Vec<u8> = Vec::new();
    let mut i = lo;
    while i < hi
        invariant
            lo <= i <= hi <= b.len(),
            out@ == b@.subrange(lo as int, i as int),
        decreases hi - i,
    {
        out.push(b[i]);
        i += 1;
    }
    out
}

fn line_name(line: &Vec<u8>) -> (r: Option<String>)
    ensures
        match r {
            Some(n) => line_event_name(line@) == Some(n@),
            None => line_event_name(line@) is None,
        },
{
    let text = lossy_string(line.as_slice());
    let cs = chars_of(text.as_str());
    let hi = trim_end_bound(cs.as_slice());
    let t = slice_chars(cs.as_slice(), 0, hi);
    match find_arrows(t.as_slice(), 0) {
        Some(k) => {
            let name = slice_chars(t.as_slice(), 0, k);
            Some(string_of(name.as_slice()))
        },
        None => None,
    }
}

/// Take the event names off every whole line in `pending` + `fresh`,
/// leaving any partial tail behind in `pending`.
pub fn take_event_names(pending: &mut Vec<u8>, fresh: &[u8]) -> (names: Vec<String>)
    ensures
        names@.map_values(|s: String| s@) == event_names_from(old(pending)@ + fresh@, 0),
        final(pending)@ == (old(pending)@ + fresh@).subrange(
            tail_start(old(pending)@ + fresh@, 0),
            (old(pending)@ + fresh@).len() as int,
        ),
{
    let ghost all = old(pending)@ + fresh@;
    let mut k: usize = 0;
    while k < fresh.len()
        invariant
            k <= fresh.len(),
            pending@ == old(pending)@ + fresh@.take(k as int),
        decreases fresh.len() - k,
    {
        pending.push(fresh[k]);
        assert(fresh@.take(k + 1) == fresh@.take(k as int).push(fresh@[k as int]));
        k += 1;
    }
    assert(fresh@.take(fresh.len() as int) == fresh@);
    assert(pending@ == all);
    let mut names: Vec<String> = Vec::new();
    let mut start: usize = 0;
    loop
        invariant
            pending@ == all,
            all == old(pending)@ + fresh@,
            start <= all.len(),
            names@.map_values(|s: String| s@) + event_names_from(all, start as int)
                == event_names_from(all, 0),
            tail_start(all, start as int) == tail_start(all, 0),
        decreases all.len() - start,
    {
        proof {
            lemma_newline_from_bounds(all, start as int);
        }
        match find_newline(pending, start) {
            None => {
                assert(event_names_from(all, start as int) == Seq::<Seq<char>>::empty());
                assert(names@.map_values(|s: String| s@) == event_names_from(all, 0));
                let rest = copy_bytes(pending, start, pending.len());
                *pending = rest;
                return names;
            },
            Some(e) => {
                let line = copy_bytes(pending, start, e + 1);
                let ghost before = names@.map_values(|s: String| s@);
                match line_name(&line) {
                    Some(n) => {
                        names.push(n);
                        assert(names@.map_values(|s: String| s@) == before.push(n@));
                        assert(event_names_from(all, start as int) == seq![n@]
                            + event_names_from(all, e + 1));
                        assert(before.push(n@) + event_names_from(all, e + 1) == before + (
                        seq![n@] + event_names_from(all, e + 1)));
                    },
                    None => {},
                }
                start = e + 1;
            },
        }
    }
}

proof fn lemma_newline_shift(b: Seq<u8>, s: int, i: int)
    requires
        0 <= s <= b.len(),
        0 <= i,
    ensures
        newline_from(b, s + i) == match newline_from(b.subrange(s, b.len() as int), i) {
            Some(e) => Some(e + s),
            None => None,
        },
    decreases b.len() - s - i,
{
    let c = b.subrange(s, b.len() as int);
    if s + i < b.len() {
        assert(c[i] == b[s + i]);
        if b[s + i] != 10u8 {
            lemma_newline_shift(b, s, i + 1);
        }
    }
}

proof fn lemma_names_shift(b: Seq<u8>, s: int, i: int)
    requires
        0 <= s <= b.len(),
        0 <= i <= b.len() - s,
    ensures
        event_names_from(b, s + i) == event_names_from(b.subrange(s, b.len() as int), i),
        tail_start(b, s + i) == s + tail_start(b.subrange(s, b.len() as int), i),
    decreases b.len() - s - i,
{
    let c = b.subrange(s, b.len() as int);
    lemma_newline_shift(b, s, i);
    lemma_newline_from_bounds(c, i);
    if let Some(e) = newline_from(c, i) {
        assert(b.subrange(s + i, e + s + 1) =~= c.subrange(i, e + 1));
        lemma_names_shift(b, s, e + 1);
    }
}

proof fn lemma_names_append(a: Seq<u8>, y: Seq<u8>, s: int)
    requires
        0 <= s <= a.len(),
    ensures
        0 <= tail_start(a, s) <= a.len(),
        event_names_from(a + y, s) == event_names_from(a, s) + event_names_from(
            a.subrange(tail_start(a, s), a.len() as int) + y,
            0,
        ),
        tail_start(a + y, s) == tail_start(a, s) + tail_start(
            a.subrange(tail_start(a, s), a.len() as int) + y,
            0,
        ),
    decreases a.len() - s,
{
    let ay = a + y;
    lemma_newline_from_bounds(a, s);
    lemma_tail_start_bounds(a, s);
    match newline_from(a, s) {
        Some(e) => {
            lemma_newline_from_bounds(ay, s);
            assert(ay[e] == a[e]);
            assert forall|k: int| s <= k < e implies ay[k] != 10u8 by {
                assert(ay[k] == a[k]);
            }
            if newline_from(ay, s) != Some(e) {
                if let Some(f) = newline_from(ay, s) {
                    assert(f < e || f > e);
                }
            }
            assert(ay.subrange(s, e + 1) =~= a.subrange(s, e + 1));
            lemma_names_append(a, y, e + 1);
            let rest = event_names_from(a.subrange(tail_start(a, e + 1), a.len() as int) + y, 0);
            match line_event_name(a.subrange(s, e + 1)) {
                Some(n) => {
                    assert(seq![n] + (event_names_from(a, e + 1) + rest) =~= (seq![n]
                        + event_names_from(a, e + 1)) + rest);
                },
                None => {},
            }
        },
        None => {
            assert(ay.subrange(s, ay.len() as int) =~= a.subrange(s, a.len() as int) + y);
            lemma_names_shift(ay, s, 0);
        },
    }
}

/// Reading the event socket in two pieces gives the same event names, in the
/// same order, and leaves the same partial line behind, as reading both
/// pieces at once: [`take_event_names`] on `x` and then on `y`, from a pending
/// tail `p`, agrees with one call on `x + y`.
pub proof fn lemma_events_survive_a_split_read(p: Seq<u8>, x: Seq<u8>, y: Seq<u8>)
    ensures
        ({
            let a = p + x;
            let left = a.subrange(tail_start(a, 0), a.len() as int);
            let b = left + y;
            let whole = p + (x + y);
            &&& event_names_from(a, 0) + event_names_from(b, 0) == event_names_from(whole, 0)
            &&& b.subrange(tail_start(b, 0), b.len() as int) == whole.subrange(
                tail_start(whole, 0),
                whole.len() as int,
            )
        }),
{
    let a = p + x;
    let left = a.subrange(tail_start(a, 0), a.len() as int);
    let b = left + y;
    let whole = p + (x + y);
    assert(whole =~= a + y);
    lemma_names_append(a, y, 0);
    lemma_tail_start_bounds(b, 0);
    let t = tail_start(a, 0);
    assert(whole.subrange(t + tail_start(b, 0), whole.len() as int) =~= b.subrange(
        tail_start(b, 0),
        b.len() as int,
    ));
}

/// Pixel dimensions after applying an output transform: the odd transforms
/// (90°, 270°, and their flipped twins) swap the axes.
pub fn oriented_size(width: u32, height: u32, transform: i32) -> (r: (u32, u32))
    ensures
        r == if transform % 2 == 0 {
            (width, height)
        } else {
            (height, width)
        },
{
    if transform % 2 == 0 {
        (width, height)
    } else {
        (height, width)
    }
}

/// An empty monitor list reads as "unknown": Hyprland answers that way when
/// asked at a bad moment, never when monitors are really gone.
pub fn reject_empty(monitors: Vec<MonitorInfo>) -> (r: Option<Vec<MonitorInfo>>)
    ensures
        r is Some <==> monitors@.len() > 0,
        r matches Some(m) ==> m@ == monitors@,
{
    if monitors.len() == 0 {
        None
    } else {
        Some(monitors)
    }
}

} // verus!
