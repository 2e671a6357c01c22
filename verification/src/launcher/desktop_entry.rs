//! Launching desktop entries: the `Exec` exec_line made shell-runnable, and the
//! argv that runs it, in a terminal emulator when the entry asks for one.
use vstd::prelude::*;
use crate::launcher::icons::{extension, extension_spec};
use crate::path::{
    ends_with_dot_component, file_name, file_name_spec, last_index_of, trim_right_components,
};
use crate::text::{
    chars_of, eq_ignore_ascii, eq_ignore_ascii_case, eq_lit, str_eq, is_whitespace, is_ws, join,
    join_with, lowercase, owned, push_char, push_str, string_of, strings_view, to_lowercase, trim,
    trimmed,
};

verus! {

/// One launchable application.
#[derive(Debug, Clone, PartialEq, Eq)]
pub struct DesktopEntry {
    /// Desktop ID as defined by the spec, e.g. `org.mozilla.firefox`.
    pub id: String,
    pub name: String,
    /// Sanitized `Exec` line, ready to hand to a shell.
    pub exec_line: String,
    pub icon: Option<String>,
    pub comment: Option<String>,
    /// `Terminal=true`: the program needs a terminal emulator around it.
    pub terminal: bool,
    /// Lowercase text for fuzzy matching (name, comment, keywords).
    pub search_text: String,
}

/// What a [`DesktopEntry`] says, as plain sequences.
pub struct DesktopEntryModel {
    pub id: Seq<char>,
    pub name: Seq<char>,
    pub exec_line: Seq<char>,
    pub icon: Option<Seq<char>>,
    pub comment: Option<Seq<char>>,
    pub terminal: bool,
    pub search_text: Seq<char>,
}

/// The view of an optional string.
pub open spec fn opt_string(o: Option<String>) -> Option<Seq<char>> {
    match o {
        Some(s) => Some(s@),
        None => None,
    }
}

/// The view of an optional list of strings.
pub open spec fn opt_strings(o: Option<Vec<String>>) -> Option<Seq<Seq<char>>> {
    match o {
        Some(v) => Some(strings_view(v@)),
        None => None,
    }
}

impl View for DesktopEntry {
    type V = DesktopEntryModel;

    open spec fn view(&self) -> DesktopEntryModel {
        DesktopEntryModel {
            id: self.id@,
            name: self.name@,
            exec_line: self.exec_line@,
            icon: opt_string(self.icon),
            comment: opt_string(self.comment),
            terminal: self.terminal,
            search_text: self.search_text@,
        }
    }
}

/// Everything one discovery pass produced: the entries, and each resolved
/// icon path by desktop ID.
#[derive(Debug, Clone, PartialEq, Eq)]
pub struct Index {
    pub entries: Vec<DesktopEntry>,
    pub icon_paths: Vec<(String, String)>,
}

/// `str::split_whitespace`: the maximal runs of non-whitespace characters.
pub open spec fn words(s: Seq<char>) -> Seq<Seq<char>>
    decreases s.len(),
{
    if s.len() == 0 {
        seq![]
    } else {
        let w = words(s.drop_last());
        let c = s.last();
        if is_ws(c) {
            w
        } else if s.len() >= 2 && !is_ws(s[s.len() - 2]) {
            w.drop_last().push(w.last().push(c))
        } else {
            w.push(seq![c])
        }
    }
}

proof fn lemma_words_nonempty(s: Seq<char>)
    requires
        s.len() > 0,
        !is_ws(s.last()),
    ensures
        words(s).len() > 0,
        words(s).last().len() > 0,
        words(s).last().last() == s.last(),
    decreases s.len(),
{
    if s.len() >= 2 && !is_ws(s[s.len() - 2]) {
        lemma_words_nonempty(s.drop_last());
    }
}

/// What one `Exec` token becomes: the flatpak forwarding markers go, `%%` is
/// a literal percent, any other `%`-token is a field code with nothing to
/// expand to, and the rest stays.
pub open spec fn exec_token(t: Seq<char>) -> Option<Seq<char>> {
    if t == "@@"@ || t == "@@u"@ || t == "@@U"@ {
        None
    } else if t.len() > 0 && t[0] == '%' {
        if t.drop_first() == "%"@ {
            Some("%"@)
        } else {
            None
        }
    } else {
        Some(t)
    }
}

/// The tokens of `ws` that survive, in order.
pub open spec fn kept_tokens(ws: Seq<Seq<char>>) -> Seq<Seq<char>>
    decreases ws.len(),
{
    if ws.len() == 0 {
        seq![]
    } else {
        let rest = kept_tokens(ws.drop_last());
        match exec_token(ws.last()) {
            Some(t) => rest.push(t),
            None => rest,
        }
    }
}

/// Strip the field codes from an `Exec` value: what survives, joined by
/// single spaces. Quoting is left as it is, for the shell.
pub open spec fn sanitize_exec_spec(exec_line: Seq<char>) -> Seq<char> {
    join(kept_tokens(words(exec_line)), " "@)
}

fn split_words(s: &str) -> (ws: Vec<String>)
    ensures
        strings_view(ws@) == words(s@),
{
    let cs = chars_of(s);
    let mut done: Vec<String> = Vec::new();
    let mut cur: Vec<char> = Vec::new();
    let mut i: usize = 0;
    while i < cs.len()
        invariant
            i <= cs.len(),
            cs@ == s@,
            (cur@.len() > 0) == (i > 0 && !is_ws(cs@[i - 1])),
            words(cs@.take(i as int)) == if cur@.len() > 0 {
                strings_view(done@).push(cur@)
            } else {
                strings_view(done@)
            },
        decreases cs.len() - i,
    {
        let c = cs[i];
        let ghost t = cs@.take(i + 1);
        let ghost w = words(cs@.take(i as int));
        let ghost dv = strings_view(done@);
        assert(t.drop_last() == cs@.take(i as int));
        assert(t.last() == c);
        if is_whitespace(c) {
            if cur.len() > 0 {
                let ghost before = done@;
                let ghost cv = cur@;
                done.push(string_of(cur.as_slice()));
                proof {
                    crate::text::lemma_strings_push(before, done@.last());
                }
                assert(strings_view(done@) == dv.push(cv));
                cur = Vec::new();
            }
        } else {
            if i > 0 {
                assert(t[t.len() - 2] == cs@[i - 1]);
            }
            let ghost cv = cur@;
            cur.push(c);
            proof {
                if cv.len() > 0 {
                    assert(w == dv.push(cv));
                    assert(w.drop_last() == dv);
                    assert(w.last() == cv);
                } else {
                    assert(w == dv);
                    assert(cur@ == seq![c]);
                }
            }
        }
        i += 1;
    }
    assert(cs@.take(cs.len() as int) == cs@);
    if cur.len() > 0 {
        let ghost before = done@;
        done.push(string_of(cur.as_slice()));
        proof {
            crate::text::lemma_strings_push(before, done@.last());
        }
    }
    done
}

fn token(t: &str) -> (r: Option<String>)
    ensures
        match r {
            Some(k) => exec_token(t@) == Some(k@),
            None => exec_token(t@) is None,
        },
{
    let cs = chars_of(t);
    if eq_lit(cs.as_slice(), "@@") || eq_lit(cs.as_slice(), "@@u") || eq_lit(cs.as_slice(), "@@U") {
        return None;
    }
    if cs.len() > 0 && cs[0] == '%' {
        let rest = crate::text::slice_chars(cs.as_slice(), 1, cs.len());
        assert(rest@ == t@.drop_first());
        if eq_lit(rest.as_slice(), "%") {
            return Some(owned("%"));
        }
        return None;
    }
    Some(owned(t))
}

/// Strip XDG field codes from an Exec value, leaving a shell-runnable
/// string.
pub fn sanitize_exec(exec_line: &str) -> (out: String)
    ensures
        out@ == sanitize_exec_spec(exec_line@),
{
    let ws = split_words(exec_line);
    let ghost wv = strings_view(ws@);
    let mut kept: Vec<String> = Vec::new();
    let mut i: usize = 0;
    while i < ws.len()
        invariant
            i <= ws.len(),
            wv == strings_view(ws@),
            strings_view(kept@) == kept_tokens(wv.take(i as int)),
        decreases ws.len() - i,
    {
        assert(wv.take(i + 1).drop_last() == wv.take(i as int));
        assert(wv.take(i + 1).last() == ws@[i as int]@);
        if let Some(k) = token(ws[i].as_str()) {
            let ghost before = kept@;
            kept.push(k);
            proof {
                crate::text::lemma_strings_push(before, kept@.last());
            }
        }
        i += 1;
    }
    assert(wv.take(ws.len() as int) == wv);
    join_with(&kept, " ")
}

/// The argv that makes `terminal` run `command` through `sh -c`: foot and
/// kitty take the command as trailing arguments, wezterm wants its `start`
/// subcommand, and the rest take the xterm-compatible `-e`.
pub open spec fn terminal_argv_spec(terminal: Seq<char>, command: Seq<char>) -> Seq<Seq<char>> {
    let bare = match file_name_spec(terminal) {
        Some(n) => n,
        None => terminal,
    };
    let prefix = if bare == "foot"@ || bare == "kitty"@ {
        seq![terminal]
    } else if bare == "wezterm"@ {
        seq![terminal, "start"@, "--"@]
    } else {
        seq![terminal, "-e"@]
    };
    prefix + seq!["sh"@, "-c"@, command]
}

pub fn terminal_argv(terminal: &str, command: &str) -> (argv: Vec<String>)
    ensures
        strings_view(argv@) == terminal_argv_spec(terminal@, command@),
{
    let bare = match file_name(terminal) {
        Some(n) => n,
        None => owned(terminal),
    };
    let b = chars_of(bare.as_str());
    let mut argv: Vec<String> = Vec::new();
    argv.push(owned(terminal));
    if eq_lit(b.as_slice(), "foot") || eq_lit(b.as_slice(), "kitty") {
    } else if eq_lit(b.as_slice(), "wezterm") {
        argv.push(owned("start"));
        argv.push(owned("--"));
    } else {
        argv.push(owned("-e"));
    }
    argv.push(owned("sh"));
    argv.push(owned("-c"));
    argv.push(owned(command));
    assert(strings_view(argv@) =~= terminal_argv_spec(terminal@, command@));
    argv
}

/// Whether `t` is a bare file name: one component, neither `.` nor `..`.
pub open spec fn is_bare_name(t: Seq<char>) -> bool {
    &&& t.len() > 0
    &&& forall|i: int| 0 <= i < t.len() ==> t[i] != '/'
    &&& t != "."@
    &&& t != ".."@
}

proof fn lemma_last_slash(d: Seq<char>, t: Seq<char>)
    requires
        forall|i: int| 0 <= i < t.len() ==> t[i] != '/',
    ensures
        last_index_of(d + seq!['/'] + t, '/') == Some(d.len() as int),
    decreases t.len(),
{
    let p = d + seq!['/'] + t;
    if t.len() == 0 {
        assert(p.last() == '/');
    } else {
        assert(p.drop_last() =~= d + seq!['/'] + t.drop_last());
        assert(p.last() == t.last());
        lemma_last_slash(d, t.drop_last());
    }
}

proof fn lemma_no_slash(t: Seq<char>)
    requires
        forall|i: int| 0 <= i < t.len() ==> t[i] != '/',
    ensures
        last_index_of(t, '/') is None,
    decreases t.len(),
{
    if t.len() > 0 {
        lemma_no_slash(t.drop_last());
    }
}

/// The file name of `d/t` is `t`, and a bare name is its own file name.
proof fn lemma_file_name_of_joined(d: Seq<char>, t: Seq<char>)
    requires
        is_bare_name(t),
    ensures
        file_name_spec(d + seq!['/'] + t) == Some(t),
        file_name_spec(t) == Some(t),
{
    reveal_strlit(".");
    reveal_strlit("..");
    let p = d + seq!['/'] + t;
    assert(p.last() == t.last());
    assert(t.last() != '/');
    if ends_with_dot_component(p) {
        assert(p[p.len() - 2] == '/');
        if t.len() >= 2 {
            assert(p[p.len() - 2] == t[t.len() - 2]);
        } else {
            assert(t =~= "."@);
        }
    }
    assert(trim_right_components(p) == p);
    lemma_last_slash(d, t);
    assert(p.skip(d.len() as int + 1) =~= t);
    if ends_with_dot_component(t) {
        if t.len() >= 2 {
            assert(t[t.len() - 2] == '/');
        } else {
            assert(t =~= "."@);
        }
    }
    assert(trim_right_components(t) == t);
    lemma_no_slash(t);
}

/// A terminal emulator is told apart by its file name alone: whatever
/// directory it was found in, `d/t` takes the arguments `t` takes, with the
/// full path as the program. So a `wezterm` found on `$PATH` gets
/// `start --`, `foot` and `kitty` run the command directly, and any other
/// emulator gets `-e`.
pub proof fn lemma_terminal_argv_by_file_name(d: Seq<char>, t: Seq<char>, command: Seq<char>)
    requires
        is_bare_name(t),
    ensures
        terminal_argv_spec(d + seq!['/'] + t, command) == terminal_argv_spec(t, command).update(
            0,
            d + seq!['/'] + t,
        ),
        terminal_argv_spec(d + seq!['/'] + t, command)[0] == d + seq!['/'] + t,
        t == "wezterm"@ ==> terminal_argv_spec(d + seq!['/'] + t, command) == seq![
            d + seq!['/'] + t,
            "start"@,
            "--"@,
            "sh"@,
            "-c"@,
            command,
        ],
        (t == "foot"@ || t == "kitty"@) ==> terminal_argv_spec(d + seq!['/'] + t, command) == seq![
            d + seq!['/'] + t,
            "sh"@,
            "-c"@,
            command,
        ],
        (t != "foot"@ && t != "kitty"@ && t != "wezterm"@) ==> terminal_argv_spec(d + seq!['/'] + t, command)
            == seq![d + seq!['/'] + t, "-e"@, "sh"@, "-c"@, command],
{
    lemma_file_name_of_joined(d, t);
    let p = d + seq!['/'] + t;
    assert(terminal_argv_spec(p, command) =~= terminal_argv_spec(t, command).update(0, p));
    if t == "wezterm"@ {
        reveal_strlit("wezterm");
        reveal_strlit("foot");
        reveal_strlit("kitty");
        assert("wezterm"@.len() != "foot"@.len());
        assert("wezterm"@.len() != "kitty"@.len());
        assert(terminal_argv_spec(p, command) =~= seq![p, "start"@, "--"@, "sh"@, "-c"@, command]);
    }
}

/// Why an entry could not be launched.
#[derive(Debug, Clone, Copy, PartialEq, Eq, Structural)]
pub enum LaunchError {
    /// The Exec line is blank.
    EmptyExec,
    /// The entry wants a terminal and none was found.
    NoTerminal,
}

impl LaunchError {
    /// What the error says.
    pub fn message(self) -> (m: &'static str)
        ensures
            m@ == match self {
                LaunchError::EmptyExec => "empty Exec"@,
                LaunchError::NoTerminal => "no terminal emulator found; set $TERMINAL"@,
            },
    {
        match self {
            LaunchError::EmptyExec => "empty Exec",
            LaunchError::NoTerminal => "no terminal emulator found; set $TERMINAL",
        }
    }
}

/// The argv that launches `exec_line`: through `sh -c`, inside `emulator` when
/// the entry wants a terminal. A blank line, or a terminal wanted and none
/// found, is refused.
pub open spec fn launch_argv_spec(exec_line: Seq<char>, terminal: bool, emulator: Option<Seq<char>>) -> Result<
    Seq<Seq<char>>,
    LaunchError,
> {
    if trim(exec_line).len() == 0 {
        Err(LaunchError::EmptyExec)
    } else if terminal {
        match emulator {
            Some(e) => Ok(terminal_argv_spec(e, exec_line)),
            None => Err(LaunchError::NoTerminal),
        }
    } else {
        Ok(seq!["sh"@, "-c"@, exec_line])
    }
}

pub fn launch_argv(exec_line: &str, terminal: bool, emulator: Option<&str>) -> (r: Result<Vec<String>, LaunchError>)
    ensures
        match r {
            Ok(argv) => launch_argv_spec(exec_line@, terminal, match emulator {
                Some(e) => Some(e@),
                None => None,
            }) == Ok::<Seq<Seq<char>>, LaunchError>(strings_view(argv@)),
            Err(e) => launch_argv_spec(exec_line@, terminal, match emulator {
                Some(e) => Some(e@),
                None => None,
            }) == Err::<Seq<Seq<char>>, LaunchError>(e),
        },
{
    if trimmed(exec_line).len() == 0 {
        return Err(LaunchError::EmptyExec);
    }
    if terminal {
        match emulator {
            Some(e) => Ok(terminal_argv(e, exec_line)),
            None => Err(LaunchError::NoTerminal),
        }
    } else {
        let mut argv: Vec<String> = Vec::new();
        argv.push(owned("sh"));
        argv.push(owned("-c"));
        argv.push(owned(exec_line));
        assert(strings_view(argv@) =~= seq!["sh"@, "-c"@, exec_line@]);
        Ok(argv)
    }
}

/// The fields of a parsed desktop entry that decide whether and how it is
/// listed, its localized strings already picked for the user's locales.
#[derive(Debug, Clone, PartialEq, Eq)]
pub struct ParsedEntry {
    /// Desktop ID: the path below `applications/`, dashed, without extension.
    pub appid: String,
    /// `Type`, when the entry has one.
    pub kind: Option<String>,
    pub no_display: bool,
    pub hidden: bool,
    /// Whether the program `TryExec` names is installed; `None` when the
    /// entry has no `TryExec`.
    pub try_exec_found: Option<bool>,
    pub only_show_in: Option<Vec<String>>,
    pub not_show_in: Option<Vec<String>>,
    /// The localized `Name`.
    pub name: Option<String>,
    /// The raw `Exec` value.
    pub exec_line: Option<String>,
    /// The localized `Comment`.
    pub comment: Option<String>,
    /// The localized `Keywords`.
    pub keywords: Vec<String>,
    pub icon: Option<String>,
    pub terminal: bool,
}

/// Whether any desktop in `desktops` is named in `list`, ASCII case aside.
pub open spec fn names_a_desktop(list: Seq<Seq<char>>, desktops: Seq<Seq<char>>) -> bool {
    exists|i: int, j: int|
        0 <= i < list.len() && 0 <= j < desktops.len() && eq_ignore_ascii(
            #[trigger] desktops[j],
            #[trigger] list[i],
        )
}

/// `OnlyShowIn` / `NotShowIn` against the current desktops. Without a current
/// desktop both keys are ignored: an `OnlyShowIn` entry is then still shown.
pub open spec fn shown_in_spec(
    only: Option<Seq<Seq<char>>>,
    not: Option<Seq<Seq<char>>>,
    desktops: Option<Seq<Seq<char>>>,
) -> bool {
    match desktops {
        None => true,
        Some(d) => {
            &&& match only {
                Some(l) => names_a_desktop(l, d),
                None => true,
            }
            &&& !match not {
                Some(l) => names_a_desktop(l, d),
                None => false,
            }
        },
    }
}

fn names_any(list: &Vec<String>, desktops: &Vec<String>) -> (r: bool)
    ensures
        r == names_a_desktop(strings_view(list@), strings_view(desktops@)),
{
    let ghost l = strings_view(list@);
    let ghost d = strings_view(desktops@);
    let mut i: usize = 0;
    while i < list.len()
        invariant
            i <= list.len(),
            l == strings_view(list@),
            d == strings_view(desktops@),
            forall|a: int, b: int|
                0 <= a < i && 0 <= b < d.len() ==> !eq_ignore_ascii(#[trigger] d[b], #[trigger] l[a]),
        decreases list.len() - i,
    {
        let mut j: usize = 0;
        while j < desktops.len()
            invariant
                i < list.len(),
                j <= desktops.len(),
                l == strings_view(list@),
                d == strings_view(desktops@),
                forall|b: int| 0 <= b < j ==> !eq_ignore_ascii(#[trigger] d[b], l[i as int]),
            decreases desktops.len() - j,
        {
            if eq_ignore_ascii_case(desktops[j].as_str(), list[i].as_str()) {
                assert(eq_ignore_ascii(d[j as int], l[i as int]));
                return true;
            }
            j += 1;
        }
        i += 1;
    }
    false
}

/// Apply `OnlyShowIn` / `NotShowIn` against the current desktops.
pub fn shown_in(entry: &ParsedEntry, desktops: Option<&Vec<String>>) -> (r: bool)
    ensures
        r == shown_in_spec(
            opt_strings(entry.only_show_in),
            opt_strings(entry.not_show_in),
            match desktops {
                Some(d) => Some(strings_view(d@)),
                None => None,
            },
        ),
{
    let d = match desktops {
        None => return true,
        Some(d) => d,
    };
    if let Some(list) = &entry.only_show_in {
        if !names_any(list, d) {
            return false;
        }
    }
    match &entry.not_show_in {
        Some(list) => !names_any(list, d),
        None => true,
    }
}

/// The keyword part of the search text: each keyword lowercased, after a
/// space.
pub open spec fn keyword_text(ks: Seq<Seq<char>>) -> Seq<char>
    decreases ks.len(),
{
    if ks.len() == 0 {
        seq![]
    } else {
        keyword_text(ks.drop_last()) + seq![' '] + lowercase(ks.last())
    }
}

/// The text the fuzzy matcher searches: the lowercased name, then the
/// comment and each keyword, lowercased, each after a space.
pub open spec fn search_text_spec(
    name: Seq<char>,
    comment: Option<Seq<char>>,
    keywords: Seq<Seq<char>>,
) -> Seq<char> {
    lowercase(name) + match comment {
        Some(c) => seq![' '] + lowercase(c),
        None => seq![],
    } + keyword_text(keywords)
}

/// What [`convert`] makes of a parsed entry: nothing for an entry that is
/// not an application, is hidden, names a `TryExec` that is not installed,
/// is not for the current desktop, or lacks a name or an `Exec` line.
pub open spec fn convert_spec(
    e: ParsedEntry,
    desktops: Option<Seq<Seq<char>>>,
) -> Option<DesktopEntryModel> {
    if (e.kind is Some && e.kind->0@ != "Application"@) || e.no_display || e.hidden
        || e.try_exec_found == Some(false) || !shown_in_spec(
        opt_strings(e.only_show_in),
        opt_strings(e.not_show_in),
        desktops,
    ) || e.name is None || e.exec_line is None {
        None
    } else {
        Some(
            DesktopEntryModel {
                id: e.appid@,
                name: e.name->0@,
                exec_line: sanitize_exec_spec(e.exec_line->0@),
                icon: opt_string(e.icon),
                comment: opt_string(e.comment),
                terminal: e.terminal,
                search_text: search_text_spec(
                    e.name->0@,
                    opt_string(e.comment),
                    strings_view(e.keywords@),
                ),
            },
        )
    }
}

pub(crate) fn copy_opt(o: &Option<String>) -> (r: Option<String>)
    ensures
        opt_string(r) == opt_string(*o),
{
    match o {
        Some(s) => Some(owned(s.as_str())),
        None => None,
    }
}

fn search_text(name: &str, comment: &Option<String>, keywords: &Vec<String>) -> (out: String)
    ensures
        out@ == search_text_spec(name@, opt_string(*comment), strings_view(keywords@)),
{
    let mut out = to_lowercase(name);
    if let Some(c) = comment {
        push_char(&mut out, ' ');
        let lc = to_lowercase(c.as_str());
        push_str(&mut out, lc.as_str());
    }
    let ghost head = out@;
    let ghost ks = strings_view(keywords@);
    let mut i: usize = 0;
    while i < keywords.len()
        invariant
            i <= keywords.len(),
            ks == strings_view(keywords@),
            out@ == head + keyword_text(ks.take(i as int)),
        decreases keywords.len() - i,
    {
        assert(ks.take(i + 1).drop_last() == ks.take(i as int));
        assert(ks.take(i + 1).last() == keywords@[i as int]@);
        push_char(&mut out, ' ');
        let lk = to_lowercase(keywords[i].as_str());
        push_str(&mut out, lk.as_str());
        i += 1;
    }
    assert(ks.take(keywords.len() as int) == ks);
    out
}

/// Turn a parsed entry into one the launcher lists, or `None` when it
/// should not be listed.
pub fn convert(entry: &ParsedEntry, desktops: Option<&Vec<String>>) -> (r: Option<DesktopEntry>)
    ensures
        match r {
            Some(d) => convert_spec(
                *entry,
                match desktops {
                    Some(d) => Some(strings_view(d@)),
                    None => None,
                },
            ) == Some(d@),
            None => convert_spec(
                *entry,
                match desktops {
                    Some(d) => Some(strings_view(d@)),
                    None => None,
                },
            ) is None,
        },
{
    if let Some(kind) = &entry.kind {
        if !eq_lit(chars_of(kind.as_str()).as_slice(), "Application") {
            return None;
        }
    }
    if entry.no_display || entry.hidden {
        return None;
    }
    if let Some(found) = entry.try_exec_found {
        if !found {
            return None;
        }
    }
    if !shown_in(entry, desktops) {
        return None;
    }
    let name = match &entry.name {
        Some(n) => n,
        None => return None,
    };
    let exec_line = match &entry.exec_line {
        Some(x) => sanitize_exec(x.as_str()),
        None => return None,
    };
    let text = search_text(name.as_str(), &entry.comment, &entry.keywords);
    Some(
        DesktopEntry {
            id: owned(entry.appid.as_str()),
            name: owned(name.as_str()),
            exec_line,
            icon: copy_opt(&entry.icon),
            comment: copy_opt(&entry.comment),
            terminal: entry.terminal,
            search_text: text,
        },
    )
}

/// Whether `path` names a desktop entry file: its extension is exactly
/// `desktop`.
pub fn is_desktop_file(path: &str) -> (b: bool)
    ensures
        b == (extension_spec(path@) == Some("desktop"@)),
{
    match extension(path) {
        Some(ext) => str_eq(ext.as_str(), "desktop"),
        None => false,
    }
}

/// The views of a list of optional desktop IDs.
pub open spec fn id_views(ids: Seq<Option<String>>) -> Seq<Option<Seq<char>>> {
    ids.map_values(|o: Option<String>| opt_string(o))
}

/// Whether the `i`-th entry read is the first with its desktop ID.
pub open spec fn first_with_id(ids: Seq<Option<Seq<char>>>, i: int) -> bool {
    ids[i] matches Some(x) && forall|j: int| 0 <= j < i ==> #[trigger] ids[j] != Some(x)
}

/// Which entries of a scan to consider, in scan order: `ids[i]` is the
/// desktop ID of the `i`-th desktop file, or nothing where it would not
/// parse. Directories come highest priority first, so the first entry of
/// each ID wins and the later ones are shadowed.
pub fn first_of_each_id(ids: &Vec<Option<String>>) -> (keep: Vec<bool>)
    ensures
        keep@.len() == ids@.len(),
        forall|i: int| 0 <= i < ids@.len() ==> #[trigger] keep@[i] == first_with_id(id_views(ids@), i),
{
    let mut keep: Vec<bool> = Vec::new();
    let mut i: usize = 0;
    while i < ids.len()
        invariant
            i <= ids.len(),
            keep@.len() == i,
            forall|k: int| 0 <= k < i ==> #[trigger] keep@[k] == first_with_id(id_views(ids@), k),
        decreases ids.len() - i,
    {
        let first = match &ids[i] {
            None => false,
            Some(x) => {
                let mut j: usize = 0;
                let mut fresh = true;
                while j < i
                    invariant
                        j <= i,
                        i < ids.len(),
                        ids@[i as int] matches Some(xx) && xx@ == x@,
                        fresh == forall|k: int| 0 <= k < j ==> #[trigger] id_views(ids@)[k] != Some(x@),
                    decreases i - j,
                {
                    if let Some(y) = &ids[j] {
                        if str_eq(y.as_str(), x.as_str()) {
                            fresh = false;
                        }
                    }
                    assert(id_views(ids@)[j as int] == opt_string(ids@[j as int]));
                    j += 1;
                }
                fresh
            },
        };
        assert(id_views(ids@)[i as int] == opt_string(ids@[i as int]));
        keep.push(first);
        i += 1;
    }
    keep
}

} // verus!
