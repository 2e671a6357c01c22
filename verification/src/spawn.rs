//! How obayebar starts a program on the user's behalf: a transient systemd
//! unit under a slice of its own, or a detaching fallback. Everything here
//! is the decision and the argv; running it is the caller's.
use vstd::prelude::*;
use crate::text::{
    chars_of, concat, decimal, ends_with, lemma_strings_push, lossy_string, owned, push_decimal, push_str,
    slice_chars, string_of, strings_view, trim, trimmed, utf8_lossy,
};

verus! {

/// The slice every program obayebar launches is placed in by default.
pub const DEFAULT_SLICE: &'static str = "app-obayebar.slice";

/// Prefix of every transient unit name.
pub const UNIT_PREFIX: &'static str = "obayebar";

/// The `[spawn]` section of the config file.
#[derive(Debug, Clone, Default, PartialEq, Eq)]
pub struct SpawnConfig {
    pub slice: Option<String>,
}

/// `char::is_ascii_alphanumeric`.
pub open spec fn is_ascii_alnum(c: char) -> bool {
    ('0' <= c <= '9') || ('a' <= c <= 'z') || ('A' <= c <= 'Z')
}

fn ascii_alnum(c: char) -> (b: bool)
    ensures
        b == is_ascii_alnum(c),
{
    ('0' <= c && c <= '9') || ('a' <= c && c <= 'z') || ('A' <= c && c <= 'Z')
}

/// A character of the unit-name alphabet a slice stem may use.
pub open spec fn slice_char(c: char) -> bool {
    is_ascii_alnum(c) || c == '-' || c == '_' || c == '.' || c == ':' || c == '\\'
}

/// Whether `s` contains two dashes in a row.
pub open spec fn has_double_dash(s: Seq<char>) -> bool {
    exists|i: int| 0 <= i < s.len() - 1 && #[trigger] s[i] == '-' && s[i + 1] == '-'
}

/// Whether systemd would accept `name` as a slice unit: a `.slice` suffix, a
/// non-empty stem of the unit alphabet that neither starts nor ends with a
/// dash nor doubles one, and at most 255 characters in all. The alphabet is
/// ASCII, so a name that passes is at most 255 bytes long as well.
pub open spec fn valid_slice_spec(name: Seq<char>) -> bool {
    let stem = name.take(name.len() - 6);
    &&& name.len() >= 6
    &&& name.skip(name.len() - 6) == ".slice"@
    &&& stem.len() > 0
    &&& name.len() <= 255
    &&& stem[0] != '-'
    &&& stem.last() != '-'
    &&& !has_double_dash(stem)
    &&& forall|i: int| 0 <= i < stem.len() ==> slice_char(#[trigger] stem[i])
}

/// Exec twin of [`valid_slice_spec`].
pub fn valid_slice_name(name: &str) -> (b: bool)
    ensures
        b == valid_slice_spec(name@),
{
    let cs = chars_of(name);
    let suffix = chars_of(".slice");
    proof {
        reveal_strlit(".slice");
    }
    if !ends_with(cs.as_slice(), suffix.as_slice()) {
        return false;
    }
    let n = cs.len() - 6;
    assert(cs@.subrange(n as int, cs@.len() as int) == cs@.skip(n as int));
    let ghost stem = cs@.take(n as int);
    if n == 0 || cs.len() > 255 {
        return false;
    }
    if cs[0] == '-' || cs[n - 1] == '-' {
        assert(stem[0] == cs@[0] && stem.last() == cs@[n - 1]);
        return false;
    }
    let mut i: usize = 0;
    while i < n
        invariant
            cs@ == name@,
            n <= cs.len(),
            n == cs.len() - 6,
            stem == cs@.take(n as int),
            i <= n,
            forall|j: int| 0 <= j < i ==> slice_char(#[trigger] stem[j]),
            forall|j: int| 0 <= j < i && j + 1 < n ==> !(#[trigger] stem[j] == '-' && stem[j + 1] == '-'),
        decreases n - i,
    {
        let c = cs[i];
        assert(stem[i as int] == c);
        if !(ascii_alnum(c) || c == '-' || c == '_' || c == '.' || c == ':' || c == '\\') {
            assert(!slice_char(stem[i as int]));
            return false;
        }
        if i + 1 < n && c == '-' && cs[i + 1] == '-' {
            assert(stem[i as int] == '-' && stem[i + 1] == '-');
            assert(has_double_dash(stem));
            return false;
        }
        i += 1;
    }
    assert(!has_double_dash(stem)) by {
        assert forall|j: int| 0 <= j < stem.len() - 1 implies !(#[trigger] stem[j] == '-' && stem[j + 1] == '-') by {
            assert(j < i && j + 1 < n);
        }
    }
    assert(stem[0] == cs@[0] && stem.last() == cs@[n - 1]);
    true
}

/// What `sanitize_tag` makes of one character.
pub open spec fn fold_tag_char(c: char) -> char {
    if is_ascii_alnum(c) || c == '_' || c == '-' {
        c
    } else {
        '-'
    }
}

/// The tag folded to the unit alphabet, cut to 48 characters.
pub open spec fn folded_tag(s: Seq<char>) -> Seq<char> {
    let f = s.map_values(|c: char| fold_tag_char(c));
    if f.len() <= 48 {
        f
    } else {
        f.take(48)
    }
}

/// `s` without leading dashes.
pub open spec fn trim_dash_start(s: Seq<char>) -> Seq<char>
    decreases s.len(),
{
    if s.len() > 0 && s[0] == '-' {
        trim_dash_start(s.drop_first())
    } else {
        s
    }
}

/// `s` without trailing dashes.
pub open spec fn trim_dash_end(s: Seq<char>) -> Seq<char>
    decreases s.len(),
{
    if s.len() > 0 && s.last() == '-' {
        trim_dash_end(s.drop_last())
    } else {
        s
    }
}

/// `sanitize_tag`: fold, cut, strip dashes at both ends, and fall back to
/// `app` when nothing is left.
pub open spec fn sanitize_tag_spec(tag: Seq<char>) -> Seq<char> {
    let t = trim_dash_end(trim_dash_start(folded_tag(tag)));
    if t.len() == 0 {
        "app"@
    } else {
        t
    }
}

proof fn lemma_dash_start_skip(s: Seq<char>, i: int)
    requires
        0 <= i <= s.len(),
        forall|j: int| 0 <= j < i ==> #[trigger] s[j] == '-',
    ensures
        trim_dash_start(s) == trim_dash_start(s.subrange(i, s.len() as int)),
    decreases i,
{
    if i > 0 {
        assert(s.drop_first() == s.subrange(1, s.len() as int));
        lemma_dash_start_skip(s.drop_first(), i - 1);
        assert(s.drop_first().subrange(i - 1, s.drop_first().len() as int) == s.subrange(
            i,
            s.len() as int,
        ));
    } else {
        assert(s.subrange(0, s.len() as int) == s);
    }
}

proof fn lemma_dash_end_cut(s: Seq<char>, j: int)
    requires
        0 <= j <= s.len(),
        forall|k: int| j <= k < s.len() ==> #[trigger] s[k] == '-',
    ensures
        trim_dash_end(s) == trim_dash_end(s.subrange(0, j)),
    decreases s.len() - j,
{
    if j < s.len() {
        assert(s.drop_last() == s.subrange(0, s.len() - 1));
        lemma_dash_end_cut(s.drop_last(), j);
        assert(s.drop_last().subrange(0, j) == s.subrange(0, j));
    } else {
        assert(s.subrange(0, s.len() as int) == s);
    }
}

/// Fold `tag` into something systemd accepts in a unit name.
pub fn sanitize_tag(tag: &str) -> (out: String)
    ensures
        out@ == sanitize_tag_spec(tag@),
{
    let cs = chars_of(tag);
    let ghost f = cs@.map_values(|c: char| fold_tag_char(c));
    let limit: usize = if cs.len() <= 48 {
        cs.len()
    } else {
        48
    };
    let mut folded: Vec<char> = Vec::new();
    let mut i: usize = 0;
    while i < limit
        invariant
            limit <= cs.len(),
            f == cs@.map_values(|c: char| fold_tag_char(c)),
            i <= limit,
            folded@ == f.take(i as int),
        decreases limit - i,
    {
        let c = cs[i];
        let d = if ascii_alnum(c) || c == '_' || c == '-' {
            c
        } else {
            '-'
        };
        folded.push(d);
        assert(f.take(i + 1) == f.take(i as int).push(f[i as int]));
        i += 1;
    }
    assert(folded@ == folded_tag(tag@));
    let mut lo: usize = 0;
    while lo < folded.len() && folded[lo] == '-'
        invariant
            lo <= folded.len(),
            forall|j: int| 0 <= j < lo ==> #[trigger] folded@[j] == '-',
        decreases folded.len() - lo,
    {
        lo += 1;
    }
    proof {
        lemma_dash_start_skip(folded@, lo as int);
    }
    let ghost rest = folded@.subrange(lo as int, folded.len() as int);
    let mut hi: usize = folded.len();
    while hi > lo && folded[hi - 1] == '-'
        invariant
            lo <= hi <= folded.len(),
            forall|k: int| hi <= k < folded.len() ==> #[trigger] folded@[k] == '-',
        decreases hi,
    {
        hi -= 1;
    }
    proof {
        assert forall|k: int| (hi - lo) <= k < rest.len() implies #[trigger] rest[k] == '-' by {
            assert(rest[k] == folded@[k + lo]);
        }
        lemma_dash_end_cut(rest, hi - lo);
        assert(rest.subrange(0, hi - lo) == folded@.subrange(lo as int, hi as int));
        if lo < folded.len() {
            assert(rest[0] == folded@[lo as int]);
        }
        assert(trim_dash_start(rest) == rest);
    }
    if hi == lo {
        return string_of(chars_of("app").as_slice());
    }
    let kept = slice_chars(folded.as_slice(), lo, hi);
    string_of(kept.as_slice())
}

/// What a singleton does when its unit name is already taken.
#[derive(Debug, Clone, Copy, PartialEq, Eq, Structural)]
pub enum OnCollision {
    /// Leave the running one alone and fail with [`Error::AlreadyRunning`].
    Refuse,
    /// Take the running one down and start in its place.
    Replace,
}

/// What owns the program once it is running.
#[derive(Debug, Clone, Copy, PartialEq, Eq, Structural)]
pub enum Mode {
    /// A transient user service: fire-and-forget.
    Service,
    /// A transient scope: still this process's child, so it can be waited on.
    Scope,
}

impl Default for Mode {
    fn default() -> (m: Mode)
        ensures
            m == Mode::Service,
    {
        Mode::Service
    }
}

/// The wrapper that detaches the program.
#[derive(Debug, Clone, PartialEq, Eq)]
pub enum Runner {
    /// `systemd-run --user`, at this path.
    Systemd(String),
    /// `setsid -f`, at this path.
    Setsid(String),
    /// `sh -c '"$0" "$@" &'`.
    Shell,
}

/// Why a program did not start. An I/O failure travels as its message.
#[derive(Debug, Clone, PartialEq, Eq)]
pub enum Error {
    Empty,
    AlreadyRunning { unit: String },
    NotReplaced { unit: String },
    Io { program: String, reason: String },
    Refused { wrapper: String, program: String, reason: String },
}

impl Error {
    /// What the error says to a person.
    pub open spec fn message_spec(self) -> Seq<char> {
        match self {
            Error::Empty => "nothing to run"@,
            Error::AlreadyRunning { unit } => unit@ + " is already running"@,
            Error::NotReplaced { unit } => unit@ + " is already running and would not stop"@,
            Error::Io { program, reason } => "starting "@ + program@ + ": "@ + reason@,
            Error::Refused { wrapper, program, reason } => wrapper@ + " refused to start "@
                + program@ + ": "@ + reason@,
        }
    }

    /// The error as a sentence.
    pub fn message(&self) -> (m: String)
        ensures
            m@ == self.message_spec(),
    {
        match self {
            Error::Empty => owned("nothing to run"),
            Error::AlreadyRunning { unit } => concat(unit.as_str(), " is already running"),
            Error::NotReplaced { unit } => concat(
                unit.as_str(),
                " is already running and would not stop",
            ),
            Error::Io { program, reason } => {
                let mut m = concat("starting ", program.as_str());
                push_str(&mut m, ": ");
                push_str(&mut m, reason.as_str());
                m
            },
            Error::Refused { wrapper, program, reason } => {
                let mut m = concat(wrapper.as_str(), " refused to start ");
                push_str(&mut m, program.as_str());
                push_str(&mut m, ": ");
                push_str(&mut m, reason.as_str());
                m
            },
        }
    }
}

/// A started program.
#[derive(Debug, Clone, PartialEq, Eq)]
pub struct Started {
    /// The transient unit that owns it, when systemd took it.
    pub unit: Option<String>,
}

/// The view of an optional string.
pub open spec fn opt_view(o: Option<String>) -> Option<Seq<char>> {
    match o {
        Some(s) => Some(s@),
        None => None,
    }
}

/// What the slot of the configured slice holds after `[spawn] slice` names
/// `named`: a usable name fills an empty slot; a name systemd would reject,
/// no name at all, or a slot already filled leave it as it was.
pub open spec fn installed_spec(slot: Option<Seq<char>>, named: Option<Seq<char>>) -> Option<
    Seq<char>,
> {
    match (slot, named) {
        (None, Some(s)) => if valid_slice_spec(s) {
            Some(s)
        } else {
            None
        },
        _ => slot,
    }
}

/// The slice a new program goes in: the installed one, or [`DEFAULT_SLICE`].
pub open spec fn configured_slice_spec(slot: Option<Seq<char>>) -> Seq<char> {
    match slot {
        Some(s) => s,
        None => DEFAULT_SLICE@,
    }
}

/// A slot holds nothing, or a name systemd accepts.
pub open spec fn slot_ok(slot: Option<Seq<char>>) -> bool {
    match slot {
        Some(s) => valid_slice_spec(s),
        None => true,
    }
}

/// [`DEFAULT_SLICE`] is itself a name systemd accepts.
pub proof fn lemma_default_slice_is_valid()
    ensures
        valid_slice_spec(DEFAULT_SLICE@),
{
    reveal_strlit("app-obayebar.slice");
    reveal_strlit(".slice");
    let name = DEFAULT_SLICE@;
    let stem = name.take(name.len() - 6);
    assert(name.skip(name.len() - 6) =~= ".slice"@);
    assert forall|i: int| 0 <= i < stem.len() implies slice_char(#[trigger] stem[i]) by {}
    assert(!has_double_dash(stem));
}

/// Apply the `[spawn]` section of the config file to `slot`, which holds the
/// configured slice for the rest of the process. Call it once at startup,
/// before anything is launched: a [`Program`] takes its slice when it is
/// built. A name systemd would reject is ignored and [`DEFAULT_SLICE`] stays.
pub fn install(slot: &mut Option<String>, config: &SpawnConfig)
    ensures
        opt_view(*final(slot)) == installed_spec(opt_view(*old(slot)), opt_view(config.slice)),
        slot_ok(opt_view(*old(slot))) ==> slot_ok(opt_view(*final(slot))),
{
    if slot.is_none() {
        if let Some(s) = &config.slice {
            if valid_slice_name(s.as_str()) {
                *slot = Some(s.clone());
            }
        }
    }
}

/// The slice a new [`Program`] goes in, given the slot [`install`] filled.
pub fn configured_slice(slot: &Option<String>) -> (slice: String)
    ensures
        slice@ == configured_slice_spec(opt_view(*slot)),
        slot_ok(opt_view(*slot)) ==> valid_slice_spec(slice@),
{
    proof {
        lemma_default_slice_is_valid();
    }
    match slot {
        Some(s) => s.clone(),
        None => owned(DEFAULT_SLICE),
    }
}

/// Take the singleton's unit name, or say why it cannot be had. `active` is
/// whether the unit is running; `taken_down` whether an attempt to take it
/// down succeeded, which only matters for a running unit under
/// [`OnCollision::Replace`].
pub fn claim(unit: &str, on_collision: OnCollision, active: bool, taken_down: bool) -> (r: Result<(), Error>)
    ensures
        !active ==> r is Ok,
        active && on_collision == OnCollision::Refuse ==> (match r {
            Err(Error::AlreadyRunning { unit: u }) => u@ == unit@,
            _ => false,
        }),
        active && on_collision == OnCollision::Replace && taken_down ==> r is Ok,
        active && on_collision == OnCollision::Replace && !taken_down ==> (match r {
            Err(Error::NotReplaced { unit: u }) => u@ == unit@,
            _ => false,
        }),
{
    if !active {
        return Ok(());
    }
    match on_collision {
        OnCollision::Refuse => Err(Error::AlreadyRunning { unit: owned(unit) }),
        OnCollision::Replace => if taken_down {
            Ok(())
        } else {
            Err(Error::NotReplaced { unit: owned(unit) })
        },
    }
}

/// The name a wrapper is reported by when it refuses.
pub open spec fn wrapper_name_spec(runner: Runner) -> Seq<char> {
    match runner {
        Runner::Systemd(_) => "systemd-run"@,
        Runner::Setsid(_) => "setsid"@,
        Runner::Shell => "sh"@,
    }
}

/// Why a wrapper that ran said no: its own words on stderr, trimmed, or the
/// exit status when it said nothing.
pub open spec fn refusal_reason_spec(stderr: Seq<char>, status: Seq<char>) -> Seq<char> {
    if trim(stderr).len() == 0 {
        "exit "@ + status
    } else {
        trim(stderr)
    }
}

/// The error for a wrapper that exited unsuccessfully. `stderr` is what it
/// wrote there, `status` how its exit status reads.
pub fn refusal(runner: &Runner, program: String, stderr: &[u8], status: &str) -> (e: Error)
    ensures
        match e {
            Error::Refused { wrapper, program: p, reason } => wrapper@ == wrapper_name_spec(*runner)
                && p == program && reason@ == refusal_reason_spec(utf8_lossy(stderr@), status@),
            _ => false,
        },
{
    let text = lossy_string(stderr);
    let t = trimmed(text.as_str());
    let reason = if t.len() == 0 {
        concat("exit ", status)
    } else {
        string_of(t.as_slice())
    };
    let wrapper = match runner {
        Runner::Systemd(_) => owned("systemd-run"),
        Runner::Setsid(_) => owned("setsid"),
        Runner::Shell => owned("sh"),
    };
    Error::Refused { wrapper, program, reason }
}

/// The best available way to detach, given what the system offers: systemd
/// when its user manager is up and `systemd-run` is on the path; otherwise a
/// scope runs under the shell (it must stay waitable) and a service under
/// `setsid` when there is one.
pub open spec fn runner_spec(
    mode: Mode,
    manager_up: bool,
    systemd_run: Option<Seq<char>>,
    setsid: Option<Seq<char>>,
) -> (Seq<char>, int) {
    if manager_up && systemd_run is Some {
        (systemd_run->0, 0)
    } else if mode == Mode::Scope {
        (seq![], 2)
    } else if setsid is Some {
        (setsid->0, 1)
    } else {
        (seq![], 2)
    }
}

/// The shape of a runner, as a path and a kind (0 systemd, 1 setsid, 2 shell).
pub open spec fn runner_shape(r: Runner) -> (Seq<char>, int) {
    match r {
        Runner::Systemd(p) => (p@, 0),
        Runner::Setsid(p) => (p@, 1),
        Runner::Shell => (seq![], 2),
    }
}

/// Pick the runner for `mode` from what was found on the system.
pub fn runner(
    mode: Mode,
    manager_up: bool,
    systemd_run: Option<String>,
    setsid: Option<String>,
) -> (r: Runner)
    ensures
        runner_shape(r) == runner_spec(
            mode,
            manager_up,
            match systemd_run {
                Some(s) => Some(s@),
                None => None,
            },
            match setsid {
                Some(s) => Some(s@),
                None => None,
            },
        ),
{
    if manager_up {
        if let Some(path) = systemd_run {
            return Runner::Systemd(path);
        }
    }
    if mode == Mode::Scope {
        return Runner::Shell;
    }
    match setsid {
        Some(path) => Runner::Setsid(path),
        None => Runner::Shell,
    }
}

/// What a start settles before anything runs: the wrapper, the unit name
/// systemd will give the program, and whether that name must be claimed
/// first (a singleton under systemd).
#[derive(Debug, Clone, PartialEq, Eq)]
pub struct Plan {
    pub runner: Runner,
    pub unit: Option<String>,
    pub claim: Option<OnCollision>,
}

/// The next move after the wrapper ran.
#[derive(Debug)]
pub enum SpawnStep {
    /// The start is over, one way or the other.
    Done(Result<Started, Error>),
    /// systemd would not take it: start it again with [`Runner::Shell`] and
    /// no unit, and report that start with no unit.
    Detach,
}

/// What follows a run of the wrapper. A refusal from systemd falls back to a
/// plain detached start; any other outcome is final.
pub fn after_run(runner: &Runner, unit: Option<String>, outcome: Result<(), Error>) -> (step: SpawnStep)
    ensures
        match outcome {
            Ok(()) => step == SpawnStep::Done(Ok(Started { unit })),
            Err(e) => if runner is Systemd {
                step == SpawnStep::Detach
            } else {
                step == SpawnStep::Done(Err(e))
            },
        },
{
    match outcome {
        Ok(()) => SpawnStep::Done(Ok(Started { unit })),
        Err(e) => match runner {
            Runner::Systemd(_) => SpawnStep::Detach,
            _ => SpawnStep::Done(Err(e)),
        },
    }
}

/// A program to start, and how it should be isolated.
#[derive(Debug, Clone, PartialEq, Eq)]
pub struct Program {
    pub argv: Vec<String>,
    pub tag: String,
    pub mode: Mode,
    /// The slice it goes in, fixed when it is built.
    pub slice: String,
    /// Fixed unit name, and what to do when it is taken. `None` for a program
    /// that gets a fresh name every time.
    pub singleton: Option<OnCollision>,
    /// `ManagedOOMPreference=avoid`: oomd kills the rest of the slice first.
    pub protected: bool,
}


/// The unit-name suffix for a mode.
pub open spec fn mode_suffix(mode: Mode) -> Seq<char> {
    match mode {
        Mode::Service => "service"@,
        Mode::Scope => "scope"@,
    }
}

/// The unit name: fixed for a singleton, `obayebar-<tag>-<pid>-<serial>`
/// otherwise, with the mode as its type suffix.
pub open spec fn unit_name_spec(p: Program, pid: u32, serial: u32) -> Seq<char> {
    if p.singleton is Some {
        UNIT_PREFIX@ + "-"@ + p.tag@ + "."@ + mode_suffix(p.mode)
    } else {
        UNIT_PREFIX@ + "-"@ + p.tag@ + "-"@ + decimal(pid as nat) + "-"@ + decimal(serial as nat)
            + "."@ + mode_suffix(p.mode)
    }
}

/// A singleton's unit name is the same on every start, whatever the process
/// or the count of starts before it.
pub proof fn lemma_singleton_name_is_fixed(p: Program, pid1: u32, serial1: u32, pid2: u32, serial2: u32)
    requires
        p.singleton is Some,
    ensures
        unit_name_spec(p, pid1, serial1) == unit_name_spec(p, pid2, serial2),
{
}

/// Any other program gets a fresh unit name on every start: two starts from
/// one process, with different serials, never share a name.
pub proof fn lemma_instances_get_fresh_names(p: Program, pid: u32, serial1: u32, serial2: u32)
    requires
        p.singleton is None,
        serial1 != serial2,
    ensures
        unit_name_spec(p, pid, serial1) != unit_name_spec(p, pid, serial2),
{
    let head = UNIT_PREFIX@ + "-"@ + p.tag@ + "-"@ + decimal(pid as nat) + "-"@;
    let tail = "."@ + mode_suffix(p.mode);
    let d1 = decimal(serial1 as nat);
    let d2 = decimal(serial2 as nat);
    let n1 = head + d1 + tail;
    let n2 = head + d2 + tail;
    assert(unit_name_spec(p, pid, serial1) =~= n1);
    assert(unit_name_spec(p, pid, serial2) =~= n2);
    crate::text::lemma_decimal_injective(serial1 as nat, serial2 as nat);
    if n1 == n2 {
        assert(d1.len() == d2.len());
        assert(n1.subrange(head.len() as int, (head.len() + d1.len()) as int) =~= d1);
        assert(n2.subrange(head.len() as int, (head.len() + d2.len()) as int) =~= d2);
    }
}

/// Position of the last dot in `s`, or -1 when it has none.
pub open spec fn last_dot(s: Seq<char>) -> int
    decreases s.len(),
{
    if s.len() == 0 {
        -1
    } else if s.last() == '.' {
        s.len() - 1
    } else {
        last_dot(s.drop_last())
    }
}

/// A unit name without its type suffix: everything before the last dot, or
/// the whole name when it has no dot.
pub open spec fn unit_stem(unit: Seq<char>) -> Seq<char> {
    if last_dot(unit) < 0 {
        unit
    } else {
        unit.take(last_dot(unit))
    }
}

/// `--setenv=NAME=VALUE`.
pub open spec fn setenv_arg(e: (Seq<char>, Seq<char>)) -> Seq<char> {
    "--setenv="@ + e.0 + "="@ + e.1
}

/// The systemd-run options that every program gets.
pub open spec fn systemd_head(p: Program, path: Seq<char>) -> Seq<Seq<char>> {
    seq![path, "--user"@, "--quiet"@, "--collect"@, "--slice="@ + p.slice@,
        "--description=obayebar: "@ + p.tag@, "--property=MemoryAccounting=yes"@]
}

/// The oomd preference of a protected program.
pub open spec fn systemd_guard(p: Program) -> Seq<Seq<char>> {
    if p.protected {
        seq!["--property=ManagedOOMPreference=avoid"@]
    } else {
        seq![]
    }
}

/// The unit name option: the stem, since systemd-run adds the type itself.
pub open spec fn systemd_named(unit: Option<Seq<char>>) -> Seq<Seq<char>> {
    match unit {
        Some(u) => seq!["--unit="@ + unit_stem(u)],
        None => seq![],
    }
}

/// A scope is waited on; a service returns at once and carries the session
/// environment.
pub open spec fn systemd_how(p: Program, env: Seq<(Seq<char>, Seq<char>)>) -> Seq<Seq<char>> {
    match p.mode {
        Mode::Scope => seq!["--scope"@],
        Mode::Service => seq!["--no-block"@] + env.map_values(|e: (Seq<char>, Seq<char>)| setenv_arg(e)),
    }
}

/// The systemd-run argv for a program.
pub open spec fn systemd_argv(
    p: Program,
    path: Seq<char>,
    unit: Option<Seq<char>>,
    env: Seq<(Seq<char>, Seq<char>)>,
) -> Seq<Seq<char>> {
    systemd_head(p, path) + systemd_guard(p) + systemd_named(unit) + systemd_how(p, env) + seq!["--"@]
        + strings_view(p.argv@)
}

/// The full argv, wrapper included.
pub open spec fn wrapped_argv_spec(
    p: Program,
    runner: Runner,
    unit: Option<Seq<char>>,
    env: Seq<(Seq<char>, Seq<char>)>,
) -> Seq<Seq<char>> {
    match runner {
        Runner::Systemd(path) => systemd_argv(p, path@, unit, env),
        Runner::Setsid(path) => if p.mode == Mode::Scope {
            strings_view(p.argv@)
        } else {
            seq![path@, "-f"@, "--"@] + strings_view(p.argv@)
        },
        Runner::Shell => if p.mode == Mode::Scope {
            strings_view(p.argv@)
        } else {
            seq!["sh"@, "-c"@, "\"$0\" \"$@\" &"@] + strings_view(p.argv@)
        },
    }
}

fn push_arg(argv: &mut Vec<String>, x: String)
    ensures
        strings_view(final(argv)@) == strings_view(old(argv)@).push(x@),
{
    let ghost prev = argv@;
    argv.push(x);
    proof {
        lemma_strings_push(prev, x);
    }
}

fn append_all(out: &mut Vec<String>, more: &Vec<String>)
    ensures
        strings_view(final(out)@) == strings_view(old(out)@) + strings_view(more@),
{
    let mut i: usize = 0;
    while i < more.len()
        invariant
            i <= more.len(),
            strings_view(out@) == strings_view(old(out)@) + strings_view(more@.take(i as int)),
        decreases more.len() - i,
    {
        let ghost prev = out@;
        let x = more[i].clone();
        out.push(x);
        proof {
            lemma_strings_push(prev, x);
            lemma_strings_push(more@.take(i as int), more@[i as int]);
            assert(more@.take(i + 1) == more@.take(i as int).push(more@[i as int]));
        }
        i += 1;
    }
    assert(more@.take(more.len() as int) == more@);
}

/// Everything before the last dot of `unit`, or all of it.
fn stem_of(unit: &str) -> (out: String)
    ensures
        out@ == unit_stem(unit@),
{
    let cs = chars_of(unit);
    let mut n = cs.len();
    assert(cs@.take(n as int) == cs@);
    while n > 0 && cs[n - 1] != '.'
        invariant
            n <= cs.len(),
            last_dot(cs@) == last_dot(cs@.take(n as int)),
        decreases n,
    {
        assert(cs@.take(n as int).drop_last() == cs@.take(n - 1));
        n -= 1;
    }
    if n == 0 {
        assert(cs@.take(0) == Seq::<char>::empty());
        string_of(cs.as_slice())
    } else {
        assert(last_dot(cs@.take(n as int)) == n - 1);
        string_of(slice_chars(cs.as_slice(), 0, n - 1).as_slice())
    }
}

impl Program {
    /// Start building a program. `program` is argv[0].
    pub fn new(program: &str) -> (p: Program)
        ensures
            strings_view(p.argv@) == seq![program@],
            p.tag@ == "app"@,
            p.mode == Mode::Service,
            p.slice@ == DEFAULT_SLICE@,
            p.singleton is None,
            !p.protected,
    {
        let mut argv: Vec<String> = Vec::new();
        argv.push(owned(program));
        assert(strings_view(argv@) == seq![program@]);
        Program::from_argv(argv)
    }

    /// Build from a whole argv. The first element is the program.
    pub fn from_argv(argv: Vec<String>) -> (p: Program)
        ensures
            p.argv == argv,
            p.tag@ == "app"@,
            p.mode == Mode::Service,
            p.slice@ == DEFAULT_SLICE@,
            p.singleton is None,
            !p.protected,
    {
        Program {
            argv,
            tag: owned("app"),
            mode: Mode::Service,
            slice: owned(DEFAULT_SLICE),
            singleton: None,
            protected: false,
        }
    }

    /// Put this one program in `slice`.
    pub fn slice(self, slice: &str) -> (p: Program)
        ensures
            p == (Program { slice: p.slice, ..self }),
            p.slice@ == slice@,
    {
        Program { slice: owned(slice), ..self }
    }

    /// Append one argument.
    pub fn arg(self, arg: &str) -> (p: Program)
        ensures
            p == (Program { argv: p.argv, ..self }),
            strings_view(p.argv@) == strings_view(self.argv@).push(arg@),
    {
        let mut argv = self.argv;
        argv.push(owned(arg));
        assert(strings_view(argv@) == strings_view(self.argv@).push(arg@));
        Program { argv, ..self }
    }

    /// Append several arguments.
    pub fn args(self, args: Vec<String>) -> (p: Program)
        ensures
            p == (Program { argv: p.argv, ..self }),
            strings_view(p.argv@) == strings_view(self.argv@) + strings_view(args@),
    {
        let mut argv = self.argv;
        append_all(&mut argv, &args);
        Program { argv, ..self }
    }

    /// Name this kind of program; it becomes part of the unit name.
    pub fn tag(self, tag: &str) -> (p: Program)
        ensures
            p == (Program { tag: p.tag, ..self }),
            p.tag@ == sanitize_tag_spec(tag@),
    {
        Program { tag: sanitize_tag(tag), ..self }
    }

    pub fn mode(self, mode: Mode) -> (p: Program)
        ensures
            p == (Program { mode, ..self }),
    {
        Program { mode, ..self }
    }

    /// Give it a fixed unit name, and what to do when that name is taken.
    pub fn singleton(self, on_collision: OnCollision) -> (p: Program)
        ensures
            p == (Program { singleton: Some(on_collision), ..self }),
    {
        Program { singleton: Some(on_collision), ..self }
    }

    /// What this program does about a unit of its name already running.
    pub fn on_collision(&self) -> (r: Option<OnCollision>)
        ensures
            r == self.singleton,
    {
        self.singleton
    }

    /// Ask systemd-oomd to kill the rest of the slice before this.
    pub fn protected(self) -> (p: Program)
        ensures
            p == (Program { protected: true, ..self }),
    {
        Program { protected: true, ..self }
    }

    /// The unit name, with `pid` and `serial` making a non-singleton's unique.
    pub fn unit_name(&self, pid: u32, serial: u32) -> (u: String)
        ensures
            u@ == unit_name_spec(*self, pid, serial),
    {
        let suffix = match self.mode {
            Mode::Service => "service",
            Mode::Scope => "scope",
        };
        let mut out = owned(UNIT_PREFIX);
        push_str(&mut out, "-");
        push_str(&mut out, self.tag.as_str());
        if self.singleton.is_none() {
            push_str(&mut out, "-");
            push_decimal(&mut out, pid as u64);
            push_str(&mut out, "-");
            push_decimal(&mut out, serial as u64);
        }
        push_str(&mut out, ".");
        push_str(&mut out, suffix);
        out
    }

    /// The program's name, for messages: argv[0], or nothing.
    pub fn program_name(&self) -> (n: String)
        ensures
            n@ == if self.argv@.len() > 0 {
                self.argv@[0]@
            } else {
                Seq::<char>::empty()
            },
    {
        if self.argv.len() > 0 {
            self.argv[0].clone()
        } else {
            String::new()
        }
    }

    /// Whether there is nothing to run: no argv, or an empty program.
    pub fn is_empty(&self) -> (b: bool)
        ensures
            b == (self.argv@.len() == 0 || self.argv@[0]@.len() == 0),
    {
        if self.argv.len() == 0 {
            return true;
        }
        let cs = chars_of(self.argv[0].as_str());
        cs.len() == 0
    }

    fn systemd_argv(&self, path: &String, unit: Option<&str>, env: &Vec<(String, String)>) -> (argv: Vec<String>)
        ensures
            strings_view(argv@) == systemd_argv(
                *self,
                path@,
                match unit {
                    Some(u) => Some(u@),
                    None => None,
                },
                env@.map_values(|e: (String, String)| (e.0@, e.1@)),
            ),
    {
        let ghost unit_view = match unit {
            Some(u) => Some(u@),
            None => None,
        };
        let ghost envs = env@.map_values(|e: (String, String)| (e.0@, e.1@));
        let mut argv: Vec<String> = Vec::new();
        push_arg(&mut argv, path.clone());
        push_arg(&mut argv, owned("--user"));
        push_arg(&mut argv, owned("--quiet"));
        push_arg(&mut argv, owned("--collect"));
        push_arg(&mut argv, concat("--slice=", self.slice.as_str()));
        push_arg(&mut argv, concat("--description=obayebar: ", self.tag.as_str()));
        push_arg(&mut argv, owned("--property=MemoryAccounting=yes"));
        let ghost head = strings_view(argv@);
        assert(head == systemd_head(*self, path@));
        if self.protected {
            push_arg(&mut argv, owned("--property=ManagedOOMPreference=avoid"));
        }
        assert(strings_view(argv@) == head + systemd_guard(*self));
        let ghost guarded = strings_view(argv@);
        if let Some(u) = unit {
            let stem = stem_of(u);
            push_arg(&mut argv, concat("--unit=", stem.as_str()));
        }
        assert(strings_view(argv@) == guarded + systemd_named(unit_view));
        let ghost named = strings_view(argv@);
        match self.mode {
            Mode::Scope => {
                push_arg(&mut argv, owned("--scope"));
            },
            Mode::Service => {
                push_arg(&mut argv, owned("--no-block"));
                let ghost before = strings_view(argv@);
                let mut i: usize = 0;
                while i < env.len()
                    invariant
                        i <= env.len(),
                        envs == env@.map_values(|e: (String, String)| (e.0@, e.1@)),
                        strings_view(argv@) == before + envs.take(i as int).map_values(
                            |e: (Seq<char>, Seq<char>)| setenv_arg(e),
                        ),
                    decreases env.len() - i,
                {
                    let mut a = concat("--setenv=", env[i].0.as_str());
                    push_str(&mut a, "=");
                    push_str(&mut a, env[i].1.as_str());
                    assert(a@ == setenv_arg(envs[i as int]));
                    push_arg(&mut argv, a);
                    assert(envs.take(i + 1).map_values(|e: (Seq<char>, Seq<char>)| setenv_arg(e))
                        =~= envs.take(i as int).map_values(|e: (Seq<char>, Seq<char>)| setenv_arg(e)).push(
                        setenv_arg(envs[i as int]),
                    ));
                    i += 1;
                }
                assert(envs.take(env.len() as int) == envs);
            },
        }
        assert(strings_view(argv@) == named + systemd_how(*self, envs));
        push_arg(&mut argv, owned("--"));
        append_all(&mut argv, &self.argv);
        argv
    }

    /// Refuse before anything runs if there is nothing to run; otherwise
    /// settle the unit name for `runner`. `pid` and `serial` make a
    /// non-singleton's name unique.
    pub fn preflight(&self, runner: Runner, pid: u32, serial: u32) -> (r: Result<Plan, Error>)
        ensures
            (self.argv@.len() == 0 || self.argv@[0]@.len() == 0) ==> r == Err::<Plan, Error>(Error::Empty),
            !(self.argv@.len() == 0 || self.argv@[0]@.len() == 0) ==> (match r {
                Ok(plan) => {
                    &&& plan.runner == runner
                    &&& opt_view(plan.unit) == if runner is Systemd {
                        Some(unit_name_spec(*self, pid, serial))
                    } else {
                        None
                    }
                    &&& plan.claim == if runner is Systemd {
                        self.singleton
                    } else {
                        None
                    }
                },
                Err(_) => false,
            }),
    {
        if self.is_empty() {
            return Err(Error::Empty);
        }
        let systemd = match &runner {
            Runner::Systemd(_) => true,
            _ => false,
        };
        if systemd {
            let unit = self.unit_name(pid, serial);
            Ok(Plan { runner, unit: Some(unit), claim: self.singleton })
        } else {
            Ok(Plan { runner, unit: None, claim: None })
        }
    }

    /// The full argv, wrapper included. `env` is the session environment a
    /// service is handed explicitly.
    pub fn wrapped_argv(&self, runner: &Runner, unit: Option<&str>, env: &Vec<(String, String)>) -> (argv: Vec<String>)
        ensures
            strings_view(argv@) == wrapped_argv_spec(
                *self,
                *runner,
                match unit {
                    Some(u) => Some(u@),
                    None => None,
                },
                env@.map_values(|e: (String, String)| (e.0@, e.1@)),
            ),
    {
        let ghost tail = strings_view(self.argv@);
        match runner {
            Runner::Systemd(path) => self.systemd_argv(path, unit, env),
            Runner::Setsid(path) => {
                if self.mode == Mode::Scope {
                    return self.argv.clone();
                }
                let mut argv: Vec<String> = Vec::new();
                argv.push(path.clone());
                argv.push(owned("-f"));
                argv.push(owned("--"));
                append_all(&mut argv, &self.argv);
                argv
            },
            Runner::Shell => {
                if self.mode == Mode::Scope {
                    return self.argv.clone();
                }
                let mut argv: Vec<String> = Vec::new();
                argv.push(owned("sh"));
                argv.push(owned("-c"));
                argv.push(owned("\"$0\" \"$@\" &"));
                append_all(&mut argv, &self.argv);
                argv
            },
        }
    }
}

/// Where `--` ends systemd-run's options in `argv`, with the program's own
/// argv after it and the session environment, in order, right before it.
pub open spec fn ends_with_env_then_program(argv: Seq<Seq<char>>, env: Seq<(Seq<char>, Seq<char>)>, program: Seq<Seq<char>>) -> bool {
    exists|j: int|
        #![trigger argv[j]]
        env.len() <= j < argv.len() && argv[j] == "--"@ && argv.skip(j + 1) == program && forall|i: int|
            0 <= i < env.len() ==> argv[j - env.len() + i] == "--setenv="@ + (#[trigger] env[i]).0 + "="@
                + env[i].1
}

/// Under systemd, a service carries the whole session environment: each
/// entry `(n, v)` of `env`, in order, becomes `--setenv=n=v`, and they stand
/// right before the `--` that ends systemd-run's options; what follows that
/// `--` is the program's own argv, unchanged.
pub proof fn lemma_service_forwards_the_session_environment(
    p: Program,
    runner: Runner,
    unit: Option<Seq<char>>,
    env: Seq<(Seq<char>, Seq<char>)>,
)
    requires
        runner is Systemd,
        p.mode == Mode::Service,
    ensures
        ends_with_env_then_program(wrapped_argv_spec(p, runner, unit, env), env, strings_view(p.argv@)),
{
    let path = runner->Systemd_0@;
    let argv = wrapped_argv_spec(p, runner, unit, env);
    let front = systemd_head(p, path) + systemd_guard(p) + systemd_named(unit);
    let how = systemd_how(p, env);
    let sets = env.map_values(|e: (Seq<char>, Seq<char>)| setenv_arg(e));
    assert(how == seq!["--no-block"@] + sets);
    assert(argv == front + how + seq!["--"@] + strings_view(p.argv@));
    let j: int = (front.len() + how.len()) as int;
    assert(argv[j] == "--"@);
    assert(argv.skip(j + 1) =~= strings_view(p.argv@));
    assert forall|i: int| 0 <= i < env.len() implies argv[j - env.len() + i] == "--setenv="@ + (
    #[trigger] env[i]).0 + "="@ + env[i].1 by {
        assert(argv[j - env.len() + i] == how[1 + i]);
        assert(how[1 + i] == sets[i]);
    }
}

} // verus!
