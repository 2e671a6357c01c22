//! The bar's half of the Hyprland IPC: the state it draws, the dispatchers
//! it sends, and what each line of the event stream asks of it.
use vstd::prelude::*;
use crate::hypr::{is_monitor_event_spec, MonitorInfo};
use crate::text::{
    chars_of, concat, eq_lit, find_char, owned, push_char, push_signed, push_str, signed_decimal, slice_chars,
    string_of, trim, trimmed,
};

verus! {

#[derive(Debug, Clone, Default, PartialEq, Eq, Hash)]
pub struct WorkspaceInfo {
    pub id: i32,
    pub name: String,
    pub windows: u32,
    pub monitor: String,
}

#[derive(Debug, Clone, Default, PartialEq, Eq, Hash)]
pub struct WindowInfo {
    pub class: String,
    pub title: String,
}

/// What the bar draws from Hyprland, fetched in one batch: the monitors by
/// name, the focused one, the workspaces, each monitor's active workspace,
/// and the focused window.
#[derive(Debug, Clone, PartialEq, Eq)]
pub struct HyprState {
    pub monitors: Vec<String>,
    pub focused_monitor: String,
    pub workspaces: Vec<WorkspaceInfo>,
    pub active_workspaces: Vec<(String, i32)>,
    pub active_window: Option<WindowInfo>,
}

/// The first focused monitor's index, if any is.
pub open spec fn first_focused(ms: Seq<MonitorInfo>) -> Option<int>
    decreases ms.len(),
{
    if ms.len() == 0 {
        None
    } else if ms[0].focused {
        Some(0)
    } else {
        match first_focused(ms.drop_first()) {
            Some(k) => Some(k + 1),
            None => None,
        }
    }
}

/// The monitor the bar treats as focused: the first one Hyprland calls
/// focused, else the first one, else none at all (the empty name).
pub open spec fn focused_monitor_spec(ms: Seq<MonitorInfo>) -> Seq<char> {
    match first_focused(ms) {
        Some(k) => ms[k].name@,
        None => if ms.len() > 0 {
            ms[0].name@
        } else {
            seq![]
        },
    }
}

proof fn lemma_first_focused_bounds(ms: Seq<MonitorInfo>)
    ensures
        first_focused(ms) matches Some(k) ==> 0 <= k < ms.len() && ms[k].focused && forall|j: int|
            0 <= j < k ==> !(#[trigger] ms[j]).focused,
        first_focused(ms) is None ==> forall|j: int| 0 <= j < ms.len() ==> !(#[trigger] ms[j]).focused,
    decreases ms.len(),
{
    if ms.len() > 0 {
        lemma_first_focused_bounds(ms.drop_first());
        if !ms[0].focused {
            assert forall|j: int| 1 <= j < ms.len() implies ms[j] == ms.drop_first()[j - 1] by {}
        }
    }
}

proof fn lemma_first_focused_at(ms: Seq<MonitorInfo>, k: int)
    requires
        0 <= k < ms.len(),
        ms[k].focused,
        forall|j: int| 0 <= j < k ==> !(#[trigger] ms[j]).focused,
    ensures
        first_focused(ms) == Some(k),
    decreases k,
{
    if k > 0 {
        assert forall|j: int| 0 <= j < k - 1 implies !(#[trigger] ms.drop_first()[j]).focused by {
            assert(ms.drop_first()[j] == ms[j + 1]);
        }
        lemma_first_focused_at(ms.drop_first(), k - 1);
    }
}

/// Put one batch of answers together: the monitors (already known not to be
/// an empty answer), the workspaces, and the active window, which counts only
/// when it has a class.
pub fn assemble_state(
    monitors: &Vec<MonitorInfo>,
    workspaces: Vec<WorkspaceInfo>,
    active_window: Option<WindowInfo>,
) -> (st: HyprState)
    ensures
        st.monitors@.len() == monitors@.len(),
        forall|i: int| 0 <= i < monitors@.len() ==> #[trigger] st.monitors@[i]@ == monitors@[i].name@,
        st.focused_monitor@ == focused_monitor_spec(monitors@),
        st.workspaces == workspaces,
        st.active_workspaces@.len() == monitors@.len(),
        forall|i: int|
            0 <= i < monitors@.len() ==> (#[trigger] st.active_workspaces@[i]).0@ == monitors@[i].name@
                && st.active_workspaces@[i].1 == monitors@[i].active_workspace.id,
        st.active_window == match active_window {
            Some(w) => if w.class@.len() == 0 {
                None
            } else {
                Some(w)
            },
            None => None,
        },
{
    let mut names: Vec<String> = Vec::new();
    let mut active: Vec<(String, i32)> = Vec::new();
    let mut focused: Option<usize> = None;
    let mut i: usize = 0;
    while i < monitors.len()
        invariant
            i <= monitors.len(),
            names@.len() == i,
            active@.len() == i,
            forall|j: int| 0 <= j < i ==> #[trigger] names@[j]@ == monitors@[j].name@,
            forall|j: int|
                0 <= j < i ==> (#[trigger] active@[j]).0@ == monitors@[j].name@ && active@[j].1
                    == monitors@[j].active_workspace.id,
            match focused {
                Some(k) => k < i && monitors@[k as int].focused && forall|j: int|
                    0 <= j < k ==> !(#[trigger] monitors@[j]).focused,
                None => forall|j: int| 0 <= j < i ==> !(#[trigger] monitors@[j]).focused,
            },
        decreases monitors.len() - i,
    {
        let m = &monitors[i];
        names.push(owned(m.name.as_str()));
        active.push((owned(m.name.as_str()), m.active_workspace.id));
        if focused.is_none() && m.focused {
            focused = Some(i);
        }
        i += 1;
    }
    let focused_monitor = match focused {
        Some(k) => {
            proof {
                lemma_first_focused_at(monitors@, k as int);
            }
            owned(monitors[k].name.as_str())
        },
        None => {
            proof {
                lemma_first_focused_bounds(monitors@);
                if let Some(k) = first_focused(monitors@) {
                    assert(monitors@[k].focused);
                }
            }
            if monitors.len() > 0 {
                owned(monitors[0].name.as_str())
            } else {
                String::new()
            }
        },
    };
    let active_window = match active_window {
        Some(w) => if w.class.as_str().is_empty() {
            None
        } else {
            Some(w)
        },
        None => None,
    };
    HyprState { monitors: names, focused_monitor, workspaces, active_workspaces: active, active_window }
}

/// A character with a meaning of its own in an ECMAScript regex.
pub open spec fn is_regex_meta(c: char) -> bool {
    c == '\\' || c == '^' || c == '$' || c == '.' || c == '|' || c == '?' || c == '*' || c == '+'
        || c == '(' || c == ')' || c == '[' || c == ']' || c == '{' || c == '}'
}

/// `literal` with a backslash before every regex metacharacter.
pub open spec fn escape_regex_spec(literal: Seq<char>) -> Seq<char>
    decreases literal.len(),
{
    if literal.len() == 0 {
        seq![]
    } else {
        let c = literal.last();
        escape_regex_spec(literal.drop_last()) + if is_regex_meta(c) {
            seq!['\\', c]
        } else {
            seq![c]
        }
    }
}

/// Escape the regex metacharacters in `literal`: window selectors are
/// regexes, so an unescaped class like `org.mozilla.firefox` matches more
/// than the one window meant, and a bracket in a name does not compile.
pub fn escape_regex(literal: &str) -> (escaped: String)
    ensures
        escaped@ == escape_regex_spec(literal@),
{
    let cs = chars_of(literal);
    let mut escaped = String::new();
    let mut i: usize = 0;
    while i < cs.len()
        invariant
            i <= cs.len(),
            cs@ == literal@,
            escaped@ == escape_regex_spec(cs@.take(i as int)),
        decreases cs.len() - i,
    {
        let ch = cs[i];
        assert(cs@.take(i + 1).drop_last() == cs@.take(i as int));
        if ch == '\\' || ch == '^' || ch == '$' || ch == '.' || ch == '|' || ch == '?' || ch == '*'
            || ch == '+' || ch == '(' || ch == ')' || ch == '[' || ch == ']' || ch == '{' || ch
            == '}' {
            push_char(&mut escaped, '\\');
        }
        push_char(&mut escaped, ch);
        i += 1;
    }
    assert(cs@.take(cs.len() as int) == cs@);
    escaped
}

/// The dispatcher that focuses workspace `id`, in the Lua form Hyprland
/// 0.56 evaluates.
pub open spec fn focus_workspace_spec(id: i32) -> Seq<char> {
    "hl.dsp.focus({workspace = "@ + signed_decimal(id as int) + "})"@
}

pub fn focus_workspace(id: i32) -> (d: String)
    ensures
        d@ == focus_workspace_spec(id),
{
    let mut d = owned("hl.dsp.focus({workspace = ");
    push_signed(&mut d, id as i64);
    push_str(&mut d, "})");
    d
}

/// The dispatcher that focuses a window whose class matches `pattern`. The
/// selector sits in a Lua long string, so the regex keeps one layer of
/// escaping.
pub open spec fn focus_window_class_matching_spec(pattern: Seq<char>) -> Seq<char> {
    "hl.dsp.focus({window = [==[class:"@ + pattern + "]==]})"@
}

pub fn focus_window_class_matching(pattern: &str) -> (d: String)
    ensures
        d@ == focus_window_class_matching_spec(pattern@),
{
    let mut d = concat("hl.dsp.focus({window = [==[class:", pattern);
    push_str(&mut d, "]==]})");
    d
}

/// The dispatcher a click on workspace `id` sends.
pub fn switch_workspace(id: i32) -> (d: String)
    ensures
        d@ == focus_workspace_spec(id),
{
    focus_workspace(id)
}

/// The dispatcher that focuses a window whose class contains `app_name`
/// anywhere, case insensitively: notifications name their sender loosely.
pub fn focus_window(app_name: &str) -> (d: String)
    ensures
        d@ == focus_window_class_matching_spec("(?i).*"@ + escape_regex_spec(app_name@) + ".*"@),
{
    let mut pattern = owned("(?i).*");
    let e = escape_regex(app_name);
    push_str(&mut pattern, e.as_str());
    push_str(&mut pattern, ".*");
    focus_window_class_matching(pattern.as_str())
}

/// The dispatcher that focuses the most recent window whose class is
/// exactly `class`, case insensitively.
pub fn focus_window_class(class: &str) -> (d: String)
    ensures
        d@ == focus_window_class_matching_spec("^(?i)"@ + escape_regex_spec(class@) + "$"@),
{
    let mut pattern = owned("^(?i)");
    let e = escape_regex(class);
    push_str(&mut pattern, e.as_str());
    push_str(&mut pattern, "$");
    focus_window_class_matching(pattern.as_str())
}

/// What a Hyprland IPC event name makes the bar do.
#[derive(Debug, Clone, Copy, PartialEq, Eq, Structural)]
pub enum EventAction {
    /// Parse the active window straight out of the event payload.
    ActiveWindow,
    /// Re-query full state: something we render changed.
    Refresh,
    /// High-frequency noise we deliberately drop.
    Ignore,
}

/// The events that can change the workspace list, which monitor a workspace
/// lives on, the focused monitor, or the set of connected monitors.
pub open spec fn is_refresh_event(name: Seq<char>) -> bool {
    ||| name == "workspace"@
    ||| name == "workspacev2"@
    ||| name == "createworkspace"@
    ||| name == "createworkspacev2"@
    ||| name == "destroyworkspace"@
    ||| name == "destroyworkspacev2"@
    ||| name == "moveworkspace"@
    ||| name == "moveworkspacev2"@
    ||| name == "focusedmon"@
    ||| name == "focusedmonv2"@
    ||| name == "openwindow"@
    ||| name == "closewindow"@
    ||| name == "movewindow"@
    ||| name == "movewindowv2"@
    ||| name == "monitoradded"@
    ||| name == "monitoraddedv2"@
    ||| name == "monitorremoved"@
    ||| name == "monitorremovedv2"@
    ||| name == "monitorlayoutchanged"@
    ||| name == "configreloaded"@
    ||| name == "changefloatingmode"@
    ||| name == "urgent"@
}

pub open spec fn classify_event_spec(name: Seq<char>) -> EventAction {
    if name == "activewindow"@ {
        EventAction::ActiveWindow
    } else if is_refresh_event(name) {
        EventAction::Refresh
    } else {
        EventAction::Ignore
    }
}

/// Map a Hyprland event name to the action it requires. Title changes,
/// submap changes, `activewindowv2` and everything unknown are ignored.
pub fn classify_event(event_name: &str) -> (a: EventAction)
    ensures
        a == classify_event_spec(event_name@),
{
    let n = chars_of(event_name);
    let n = n.as_slice();
    if eq_lit(n, "activewindow") {
        return EventAction::ActiveWindow;
    }
    let refresh = eq_lit(n, "workspace") || eq_lit(n, "workspacev2") || eq_lit(n, "createworkspace")
        || eq_lit(n, "createworkspacev2") || eq_lit(n, "destroyworkspace") || eq_lit(
        n,
        "destroyworkspacev2",
    ) || eq_lit(n, "moveworkspace") || eq_lit(n, "moveworkspacev2") || eq_lit(n, "focusedmon")
        || eq_lit(n, "focusedmonv2") || eq_lit(n, "openwindow") || eq_lit(n, "closewindow")
        || eq_lit(n, "movewindow") || eq_lit(n, "movewindowv2") || eq_lit(n, "monitoradded")
        || eq_lit(n, "monitoraddedv2") || eq_lit(n, "monitorremoved") || eq_lit(
        n,
        "monitorremovedv2",
    ) || eq_lit(n, "monitorlayoutchanged") || eq_lit(n, "configreloaded") || eq_lit(
        n,
        "changefloatingmode",
    ) || eq_lit(n, "urgent");
    if refresh {
        EventAction::Refresh
    } else {
        EventAction::Ignore
    }
}

/// Every event name gets exactly one action: `activewindow`, and it alone,
/// reads the window from its payload; every change to the set of monitors
/// (the list the bar and the wallpaper share) forces a refresh, so no
/// monitor is left without a bar until something unrelated happens; every
/// name outside the refresh list is dropped.
pub proof fn lemma_classify_event(name: Seq<char>)
    ensures
        (classify_event_spec(name) == EventAction::ActiveWindow) <==> name == "activewindow"@,
        is_monitor_event_spec(name) ==> classify_event_spec(name) == EventAction::Refresh,
        (classify_event_spec(name) == EventAction::Ignore) <==> (name != "activewindow"@
            && !is_refresh_event(name)),
{
    if is_monitor_event_spec(name) {
        reveal_strlit("activewindow");
        reveal_strlit("monitoradded");
        reveal_strlit("monitoraddedv2");
        reveal_strlit("monitorremoved");
        reveal_strlit("monitorremovedv2");
        reveal_strlit("monitorlayoutchanged");
        reveal_strlit("configreloaded");
        assert(name[0] != "activewindow"@[0]);
        assert(name != "activewindow"@);
        assert(is_refresh_event(name));
    }
}

/// What one line of the event socket asks of the bar.
#[derive(Debug, Clone, PartialEq, Eq)]
pub enum LineEvent {
    /// The active window, read from the payload `CLASS,TITLE`; `None` when the
    /// payload names no class.
    ActiveWindow(Option<WindowInfo>),
    /// The state has to be read again.
    Refresh,
}

/// Whether `s` contains `>>` starting at `i`.
pub open spec fn arrows_at(s: Seq<char>, i: int) -> bool {
    0 <= i && i + 1 < s.len() && s[i] == '>' && s[i + 1] == '>'
}

/// The first `>>` in `s`.
pub open spec fn first_arrows_from(s: Seq<char>, i: int) -> Option<int>
    decreases s.len() - i,
{
    if i < 0 || i + 1 >= s.len() {
        None
    } else if arrows_at(s, i) {
        Some(i)
    } else {
        first_arrows_from(s, i + 1)
    }
}

/// The window a payload names: what precedes its first comma is the class,
/// the rest the title. No comma, or an empty class, is no window.
pub open spec fn payload_window(data: Seq<char>) -> Option<(Seq<char>, Seq<char>)> {
    match crate::text::index_of(data, ',') {
        Some(k) => if k == 0 {
            None
        } else {
            Some((data.take(k), data.skip(k + 1)))
        },
        None => None,
    }
}

/// The view of a line's reading.
pub open spec fn line_event_view(e: Option<LineEvent>) -> Option<Option<Option<(Seq<char>, Seq<char>)>>> {
    match e {
        None => None,
        Some(LineEvent::Refresh) => Some(None),
        Some(LineEvent::ActiveWindow(w)) => Some(
            Some(
                match w {
                    Some(w) => Some((w.class@, w.title@)),
                    None => None,
                },
            ),
        ),
    }
}

/// What the trimmed line `line` asks of the bar: nothing for a line without
/// `>>` or an ignored event; a refresh; or the active window from the payload.
pub open spec fn read_event_spec(line: Seq<char>) -> Option<Option<Option<(Seq<char>, Seq<char>)>>> {
    match first_arrows_from(line, 0) {
        None => None,
        Some(k) => match classify_event_spec(line.take(k)) {
            EventAction::Ignore => None,
            EventAction::Refresh => Some(None),
            EventAction::ActiveWindow => Some(Some(payload_window(line.skip(k + 2)))),
        },
    }
}

fn find_arrows(cs: &[char]) -> (r: Option<usize>)
    ensures
        match r {
            Some(k) => first_arrows_from(cs@, 0) == Some(k as int) && k + 1 < cs.len(),
            None => first_arrows_from(cs@, 0) is None,
        },
{
    let mut i: usize = 0;
    while i < cs.len()
        invariant
            i <= cs.len(),
            first_arrows_from(cs@, 0) == first_arrows_from(cs@, i as int),
        decreases cs.len() - i,
    {
        if i + 1 < cs.len() && cs[i] == '>' && cs[i + 1] == '>' {
            return Some(i);
        }
        i += 1;
    }
    None
}

/// Read one (already trimmed) line of the event stream.
pub fn read_event(line: &str) -> (e: Option<LineEvent>)
    ensures
        line_event_view(e) == read_event_spec(line@),
{
    let cs = chars_of(line);
    let k = match find_arrows(cs.as_slice()) {
        Some(k) => k,
        None => return None,
    };
    let name = string_of(slice_chars(cs.as_slice(), 0, k).as_slice());
    assert(cs@.subrange(0, k as int) == line@.take(k as int));
    match classify_event(name.as_str()) {
        EventAction::Ignore => None,
        EventAction::Refresh => Some(LineEvent::Refresh),
        EventAction::ActiveWindow => {
            let data = slice_chars(cs.as_slice(), k + 2, cs.len());
            assert(data@ == line@.skip(k + 2));
            match find_char(data.as_slice(), ',') {
                Some(c) => {
                    if c == 0 {
                        return Some(LineEvent::ActiveWindow(None));
                    }
                    let class = string_of(slice_chars(data.as_slice(), 0, c).as_slice());
                    let title = string_of(slice_chars(data.as_slice(), c + 1, data.len()).as_slice());
                    assert(data@.subrange(0, c as int) == data@.take(c as int));
                    assert(data@.subrange(c + 1, data@.len() as int) == data@.skip(c + 1));
                    Some(LineEvent::ActiveWindow(Some(WindowInfo { class, title })))
                },
                None => Some(LineEvent::ActiveWindow(None)),
            }
        },
    }
}


/// Milliseconds to wait before retrying a failed connection or state read.
pub const RETRY_DELAY_MS: u64 = 2000;

/// Milliseconds to wait after the event socket closes: a compositor restart
/// usually comes back quickly.
pub const RECONNECT_DELAY_MS: u64 = 500;

/// Where the event stream stands.
#[derive(Debug, Clone, Copy, PartialEq, Eq, Structural)]
pub enum StreamState {
    /// Finding the socket directory, reading a first snapshot and opening
    /// the event socket.
    Starting,
    /// Reading events from an open socket.
    Streaming,
}

/// What the outside work reports.
#[derive(Debug, Clone, PartialEq, Eq)]
pub enum StreamEvent {
    /// Neither the instance signature nor the runtime directory is set.
    NoSocketDir,
    /// The state snapshot could not be read.
    NoSnapshot,
    /// The snapshot was read and the event socket is open.
    Connected,
    /// The snapshot was read but the event socket would not open.
    ConnectFailed,
    /// A line came off the event socket, as read.
    Line(String),
    /// The event socket closed or failed.
    Closed,
}

/// What to do next. Only state actually read is ever published: when there
/// is nothing trustworthy to report, the stream retries instead.
#[derive(Debug, Clone, PartialEq, Eq)]
pub enum StreamAction {
    /// Wait this many milliseconds, then start over: find the socket
    /// directory, read a snapshot and open the event socket.
    Retry { delay_ms: u64 },
    /// Publish the snapshot just read, then read events.
    Publish,
    /// Wait this many milliseconds, publish the snapshot just read (it is
    /// real though the socket is not up), then start over.
    PublishAfter { delay_ms: u64 },
    /// Publish the active window, then read the next line.
    ActiveWindow(Option<WindowInfo>),
    /// Read a fresh snapshot and publish it if it was read, then read the
    /// next line.
    Refresh,
    /// Read the next line: the last one asked for nothing.
    ReadLine,
}

/// Whether `event` is what the work of `state` reports.
pub open spec fn belongs_to(state: StreamState, event: StreamEvent) -> bool {
    match event {
        StreamEvent::Line(_) | StreamEvent::Closed => state == StreamState::Streaming,
        _ => state == StreamState::Starting,
    }
}

/// One step of the event stream: from where it stands and what the last
/// piece of outside work reported, where it goes and what it does next.
/// A missing socket directory or snapshot is retried after a pause; a
/// snapshot read while the socket would not open is still published before
/// the retry; a closed socket reconnects, publishing nothing of its own, as
/// starting over reads and publishes the state anyway. Lines that ask for
/// nothing are skipped without waking the bar.
pub fn stream_step(state: StreamState, event: StreamEvent) -> (r: (StreamState, StreamAction))
    requires
        belongs_to(state, event),
    ensures
        match event {
            StreamEvent::NoSocketDir | StreamEvent::NoSnapshot => r == (
                StreamState::Starting,
                StreamAction::Retry { delay_ms: RETRY_DELAY_MS },
            ),
            StreamEvent::Connected => r == (StreamState::Streaming, StreamAction::Publish),
            StreamEvent::ConnectFailed => r == (
                StreamState::Starting,
                StreamAction::PublishAfter { delay_ms: RETRY_DELAY_MS },
            ),
            StreamEvent::Closed => r == (
                StreamState::Starting,
                StreamAction::Retry { delay_ms: RECONNECT_DELAY_MS },
            ),
            StreamEvent::Line(line) => r.0 == StreamState::Streaming && match read_event_spec(trim(line@)) {
                None => r.1 == StreamAction::ReadLine,
                Some(None) => r.1 == StreamAction::Refresh,
                Some(Some(None)) => r.1 == StreamAction::ActiveWindow(None),
                Some(Some(Some(w))) => r.1 matches StreamAction::ActiveWindow(Some(x)) && x.class@ == w.0
                    && x.title@ == w.1,
            },
        },
{
    match event {
        StreamEvent::NoSocketDir | StreamEvent::NoSnapshot => (
            StreamState::Starting,
            StreamAction::Retry { delay_ms: RETRY_DELAY_MS },
        ),
        StreamEvent::Connected => (StreamState::Streaming, StreamAction::Publish),
        StreamEvent::ConnectFailed => (
            StreamState::Starting,
            StreamAction::PublishAfter { delay_ms: RETRY_DELAY_MS },
        ),
        StreamEvent::Closed => (StreamState::Starting, StreamAction::Retry { delay_ms: RECONNECT_DELAY_MS }),
        StreamEvent::Line(line) => {
            let t = string_of(trimmed(line.as_str()).as_slice());
            let action = match read_event(t.as_str()) {
                None => StreamAction::ReadLine,
                Some(LineEvent::Refresh) => StreamAction::Refresh,
                Some(LineEvent::ActiveWindow(w)) => StreamAction::ActiveWindow(w),
            };
            (StreamState::Streaming, action)
        },
    }
}

} // verus!
