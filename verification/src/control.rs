//! The one-line command vocabularies of the control sockets, and where the
//! sockets live. The socket I/O itself stays with the binaries.
use vstd::prelude::*;
use crate::path::{join, join_str, opt_view};
use crate::text::{concat, eq_lit, lemma_trim_id, owned, push_str, trim, trimmed};
use crate::xdg::{opt_string_view, runtime_dir, runtime_dir_spec};

verus! {

/// Socket file the bar daemon listens on.
pub const BAR_SOCKET: &'static str = "bar.sock";

/// Socket file the wallpaper daemon listens on.
pub const WALLPAPER_SOCKET: &'static str = "wallpaper.sock";

/// What can go wrong talking to (or binding) a control socket. The
/// underlying I/O error travels as its message.
#[derive(Debug, Clone, PartialEq, Eq)]
pub enum ControlError {
    NoRuntimeDir,
    /// Nothing is listening: the daemon is not running.
    NotListening { path: String, reason: String },
    AlreadyBound(String),
    Io { context: String, reason: String },
}

impl ControlError {
    /// An I/O failure while `context`, with the system's `reason`.
    pub fn io(context: &str, reason: &str) -> (e: ControlError)
        ensures
            match e {
                ControlError::Io { context: c, reason: r } => c@ == context@ && r@ == reason@,
                _ => false,
            },
    {
        ControlError::Io { context: owned(context), reason: owned(reason) }
    }

    /// What the error says to a person.
    pub open spec fn message_spec(self) -> Seq<char> {
        match self {
            ControlError::NoRuntimeDir => "XDG_RUNTIME_DIR is unset"@,
            ControlError::NotListening { path, reason } => "no daemon listening on "@ + path@ + ": "@
                + reason@,
            ControlError::AlreadyBound(path) => "another process is already listening on "@ + path@,
            ControlError::Io { context, reason } => context@ + ": "@ + reason@,
        }
    }

    pub fn message(&self) -> (m: String)
        ensures
            m@ == self.message_spec(),
    {
        match self {
            ControlError::NoRuntimeDir => owned("XDG_RUNTIME_DIR is unset"),
            ControlError::NotListening { path, reason } => {
                let mut m = concat("no daemon listening on ", path.as_str());
                push_str(&mut m, ": ");
                push_str(&mut m, reason.as_str());
                m
            },
            ControlError::AlreadyBound(path) => concat(
                "another process is already listening on ",
                path.as_str(),
            ),
            ControlError::Io { context, reason } => {
                let mut m = concat(context.as_str(), ": ");
                push_str(&mut m, reason.as_str());
                m
            },
        }
    }
}

/// One command the bar daemon accepts.
#[derive(Debug, Clone, Copy, PartialEq, Eq, Structural)]
pub enum BarCommand {
    /// Show the launcher, or hide it if it is already showing.
    LauncherToggle,
}

/// The wire form of a bar command.
pub open spec fn bar_wire(c: BarCommand) -> Seq<char> {
    match c {
        BarCommand::LauncherToggle => "launcher-toggle"@,
    }
}

/// The command a line names: its trimmed text must be a wire form exactly.
pub open spec fn parse_bar_spec(line: Seq<char>) -> Option<BarCommand> {
    if trim(line) == "launcher-toggle"@ {
        Some(BarCommand::LauncherToggle)
    } else {
        None
    }
}

impl BarCommand {
    /// The wire form. Plain text, so `socat` can drive it.
    pub fn as_str(self) -> (s: &'static str)
        ensures
            s@ == bar_wire(self),
    {
        match self {
            BarCommand::LauncherToggle => "launcher-toggle",
        }
    }

    /// Parse a line read from the socket.
    pub fn parse(line: &str) -> (r: Option<BarCommand>)
        ensures
            r == parse_bar_spec(line@),
    {
        let t = trimmed(line);
        if eq_lit(t.as_slice(), "launcher-toggle") {
            Some(BarCommand::LauncherToggle)
        } else {
            None
        }
    }
}

/// Every bar command survives a trip through its wire form.
pub proof fn lemma_bar_command_round_trip(c: BarCommand)
    ensures
        parse_bar_spec(bar_wire(c)) == Some(c),
{
    reveal_strlit("launcher-toggle");
    lemma_trim_id("launcher-toggle"@);
}

/// Where `socket` lives: `runtime_dir/socket`, with the runtime directory
/// worked out from `XDG_RUNTIME_DIR`.
pub fn socket_path(socket: &str, xdg_runtime_dir: Option<&str>) -> (out: Option<String>)
    ensures
        opt_string_view(out) == match runtime_dir_spec(opt_view(xdg_runtime_dir)) {
            Some(dir) => Some(join(dir, socket@)),
            None => None,
        },
{
    match runtime_dir(xdg_runtime_dir) {
        Some(dir) => Some(join_str(dir.as_str(), socket)),
        None => None,
    }
}

/// One command the wallpaper daemon accepts.
#[derive(Debug, Clone, Copy, PartialEq, Eq, Structural)]
pub enum Command {
    /// Rotate every monitor now, and restart the interval.
    Next,
    /// Re-scan the wallpaper directory, keeping what is on screen if possible.
    Reload,
}

/// The wire form of a wallpaper command.
pub open spec fn command_wire(c: Command) -> Seq<char> {
    match c {
        Command::Next => "next"@,
        Command::Reload => "reload"@,
    }
}

/// The wallpaper command a line names, once trimmed.
pub open spec fn parse_command_spec(line: Seq<char>) -> Option<Command> {
    if trim(line) == "next"@ {
        Some(Command::Next)
    } else if trim(line) == "reload"@ {
        Some(Command::Reload)
    } else {
        None
    }
}

impl Command {
    /// The wire form.
    pub fn as_str(self) -> (s: &'static str)
        ensures
            s@ == command_wire(self),
    {
        match self {
            Command::Next => "next",
            Command::Reload => "reload",
        }
    }

    /// Parse a line from the socket.
    pub fn parse(line: &str) -> (r: Option<Command>)
        ensures
            r == parse_command_spec(line@),
    {
        let t = trimmed(line);
        if eq_lit(t.as_slice(), "next") {
            Some(Command::Next)
        } else if eq_lit(t.as_slice(), "reload") {
            Some(Command::Reload)
        } else {
            None
        }
    }
}

/// Every wallpaper command survives a trip through its wire form.
pub proof fn lemma_command_round_trip(c: Command)
    ensures
        parse_command_spec(command_wire(c)) == Some(c),
{
    reveal_strlit("next");
    reveal_strlit("reload");
    lemma_trim_id("next"@);
    lemma_trim_id("reload"@);
}

} // verus!
