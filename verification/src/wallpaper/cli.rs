//! Hand-rolled argument parsing for the wallpaper daemon and its clients.
use vstd::prelude::*;
use crate::cli::{after_prefix, has_prefix, strip_prefix, unknown, unknown_spec, value, value_spec, CliError, VERSION};
use crate::control::Command;
use crate::text::{chars_of, concat, eq_lit, owned, strings_view};

verus! {

pub const USAGE: &'static str = "obayebar-wallpaper [OPTIONS]\n\n  -d, --directory <DIR>   Directory to pick wallpapers from\n  -i, --interval <SPEC>   Rotation interval: 45s, 30m, 2h, 1d, or off\n      --once              Assign once, write the state file, and exit\n      --next              Ask the running daemon to rotate now\n      --reload            Ask it to re-scan the wallpaper directory\n  -h, --help              Print this help\n  -V, --version           Print version";

/// The parsed command line.
#[derive(Debug, Clone, PartialEq, Eq)]
pub struct Args {
    pub directory: Option<String>,
    /// Left as the raw string so an invalid spec is reported against the flag
    /// the user typed, with the parser the config file uses.
    pub interval: Option<String>,
    pub once: bool,
    /// Set when this invocation is a client talking to a running daemon.
    pub command: Option<Command>,
}

/// [`Args`] as values.
pub struct ArgsModel {
    pub directory: Option<Seq<char>>,
    pub interval: Option<Seq<char>>,
    pub once: bool,
    pub command: Option<Command>,
}

pub open spec fn opt_str(o: Option<String>) -> Option<Seq<char>> {
    match o {
        Some(s) => Some(s@),
        None => None,
    }
}

impl View for Args {
    type V = ArgsModel;

    open spec fn view(&self) -> ArgsModel {
        ArgsModel {
            directory: opt_str(self.directory),
            interval: opt_str(self.interval),
            once: self.once,
            command: self.command,
        }
    }
}

/// No flag given: the daemon with its configured settings.
pub open spec fn default_model() -> ArgsModel {
    ArgsModel { directory: None, interval: None, once: false, command: None }
}

impl Default for Args {
    fn default() -> (a: Args)
        ensures
            a@ == default_model(),
    {
        Args { directory: None, interval: None, once: false, command: None }
    }
}

#[derive(Debug, Clone, PartialEq, Eq)]
pub enum Error {
    /// Bad usage: print to stderr, exit non-zero.
    Usage(String),
    /// `--help` / `--version`: print to stdout, exit zero.
    Exit(String),
}

impl View for Error {
    type V = CliError;

    open spec fn view(&self) -> CliError {
        match self {
            Error::Usage(m) => CliError::Usage(m@),
            Error::Exit(m) => CliError::Exit(m@),
        }
    }
}

/// Asking for both client commands.
pub open spec fn two_commands_message() -> Seq<char> {
    "pass only one of --next and --reload"@
}

/// A client command given along with daemon options.
pub open spec fn client_only_message() -> Seq<char> {
    "--next and --reload talk to a running daemon and take no other options"@
}

/// Record a client command; a different one already given is an error, the
/// same one again is harmless.
pub open spec fn with_command(acc: ArgsModel, command: Command) -> Result<ArgsModel, CliError> {
    match acc.command {
        Some(c) => if c != command {
            Err(CliError::Usage(two_commands_message()))
        } else {
            Ok(ArgsModel { command: Some(command), ..acc })
        },
        None => Ok(ArgsModel { command: Some(command), ..acc }),
    }
}

/// Parse `args` on top of `acc`, left to right.
pub open spec fn parse_from(args: Seq<Seq<char>>, acc: ArgsModel) -> Result<ArgsModel, CliError>
    decreases args.len(),
{
    if args.len() == 0 {
        Ok(acc)
    } else {
        let a = args[0];
        let rest = args.drop_first();
        if a == "-h"@ || a == "--help"@ {
            Err(CliError::Exit(USAGE@))
        } else if a == "-V"@ || a == "--version"@ {
            Err(CliError::Exit("obayebar-wallpaper "@ + VERSION@))
        } else if a == "--once"@ {
            parse_from(rest, ArgsModel { once: true, ..acc })
        } else if a == "--next"@ || a == "--reload"@ {
            let command = if a == "--next"@ {
                Command::Next
            } else {
                Command::Reload
            };
            match with_command(acc, command) {
                Err(e) => Err(e),
                Ok(next) => parse_from(rest, next),
            }
        } else if a == "-d"@ || a == "--directory"@ {
            match value_spec(rest, a) {
                Err(m) => Err(CliError::Usage(m)),
                Ok(v) => parse_from(rest.drop_first(), ArgsModel { directory: Some(v), ..acc }),
            }
        } else if a == "-i"@ || a == "--interval"@ {
            match value_spec(rest, a) {
                Err(m) => Err(CliError::Usage(m)),
                Ok(v) => parse_from(rest.drop_first(), ArgsModel { interval: Some(v), ..acc }),
            }
        } else if has_prefix(a, "--directory="@) {
            parse_from(rest, ArgsModel { directory: Some(after_prefix(a, "--directory="@)), ..acc })
        } else if has_prefix(a, "--interval="@) {
            parse_from(rest, ArgsModel { interval: Some(after_prefix(a, "--interval="@)), ..acc })
        } else {
            Err(CliError::Usage(unknown_spec(a)))
        }
    }
}

/// The whole command line: parsed flags, then the rule that a client command
/// takes no daemon option.
pub open spec fn parse_spec(args: Seq<Seq<char>>) -> Result<ArgsModel, CliError> {
    match parse_from(args, default_model()) {
        Err(e) => Err(e),
        Ok(m) => if m.command is Some && (m.once || m.directory is Some || m.interval is Some) {
            Err(CliError::Usage(client_only_message()))
        } else {
            Ok(m)
        },
    }
}

/// The view of a parse result.
pub open spec fn result_view(r: Result<Args, Error>) -> Result<ArgsModel, CliError> {
    match r {
        Ok(a) => Ok(a@),
        Err(e) => Err(e@),
    }
}

/// Parse command-line arguments: [`Error::Usage`] for an unknown flag, a
/// missing value, or two commands at once; [`Error::Exit`] for `--help` and
/// `--version`.
pub fn parse(args: Vec<String>) -> (r: Result<Args, Error>)
    ensures
        result_view(r) == parse_spec(strings_view(args@)),
{
    let ghost all = strings_view(args@);
    let mut out = Args::default();
    let mut i: usize = 0;
    assert(all.skip(0) == all);
    while i < args.len()
        invariant
            all == strings_view(args@),
            i <= args.len(),
            parse_from(all, default_model()) == parse_from(all.skip(i as int), out@),
        decreases args.len() - i,
    {
        let ghost here = all.skip(i as int);
        assert(here.drop_first() == all.skip(i + 1));
        assert(here[0] == args@[i as int]@);
        let a = args[i].as_str();
        let cs = chars_of(a);
        if eq_lit(cs.as_slice(), "-h") || eq_lit(cs.as_slice(), "--help") {
            return Err(Error::Exit(owned(USAGE)));
        } else if eq_lit(cs.as_slice(), "-V") || eq_lit(cs.as_slice(), "--version") {
            return Err(Error::Exit(concat("obayebar-wallpaper ", VERSION)));
        } else if eq_lit(cs.as_slice(), "--once") {
            out.once = true;
            i += 1;
        } else if eq_lit(cs.as_slice(), "--next") || eq_lit(cs.as_slice(), "--reload") {
            let command = if eq_lit(cs.as_slice(), "--next") {
                Command::Next
            } else {
                Command::Reload
            };
            if let Some(c) = out.command {
                if c != command {
                    return Err(Error::Usage(owned("pass only one of --next and --reload")));
                }
            }
            out.command = Some(command);
            i += 1;
        } else if eq_lit(cs.as_slice(), "-d") || eq_lit(cs.as_slice(), "--directory") || eq_lit(
            cs.as_slice(),
            "-i",
        ) || eq_lit(cs.as_slice(), "--interval") {
            let v = match value(&args, i + 1, a) {
                Ok(v) => v,
                Err(m) => return Err(Error::Usage(m)),
            };
            assert(here.drop_first().drop_first() == all.skip(i + 2));
            if eq_lit(cs.as_slice(), "-d") || eq_lit(cs.as_slice(), "--directory") {
                out.directory = Some(v);
            } else {
                out.interval = Some(v);
            }
            i += 2;
        } else if let Some(rest) = strip_prefix(a, "--directory=") {
            out.directory = Some(rest);
            i += 1;
        } else if let Some(rest) = strip_prefix(a, "--interval=") {
            out.interval = Some(rest);
            i += 1;
        } else {
            return Err(Error::Usage(unknown(a)));
        }
    }
    assert(all.skip(i as int).len() == 0);
    if out.command.is_some() && (out.once || out.directory.is_some() || out.interval.is_some()) {
        return Err(
            Error::Usage(
                owned("--next and --reload talk to a running daemon and take no other options"),
            ),
        );
    }
    Ok(out)
}

/// A flag's value reads the same whether it follows the flag as the next
/// argument or is joined to it with `=`, for every value that is not blank.
pub proof fn lemma_joined_values_read_as_separate(
    flag: Seq<char>,
    v: Seq<char>,
    rest: Seq<Seq<char>>,
    acc: ArgsModel,
)
    requires
        flag == "--directory"@ || flag == "--interval"@,
        crate::text::trim(v).len() > 0,
    ensures
        parse_from(seq![flag, v] + rest, acc) == parse_from(seq![flag + "="@ + v] + rest, acc),
{
    reveal_strlit("-h");
    reveal_strlit("--help");
    reveal_strlit("-V");
    reveal_strlit("--version");
    reveal_strlit("--once");
    reveal_strlit("--next");
    reveal_strlit("--reload");
    reveal_strlit("-d");
    reveal_strlit("--directory");
    reveal_strlit("-i");
    reveal_strlit("--interval");
    reveal_strlit("--directory=");
    reveal_strlit("--interval=");
    reveal_strlit("=");
    let sep = seq![flag, v] + rest;
    let joined = flag + "="@ + v;
    let jo = seq![joined] + rest;
    assert(v.len() > 0) by {
        if v.len() == 0 {
            assert(crate::text::trim_start(v) == v);
            assert(crate::text::trim_end(v) == v);
        }
    }
    assert(joined.len() == flag.len() + 1 + v.len());
    assert(sep[0] == flag);
    assert(sep.drop_first() =~= seq![v] + rest);
    assert((seq![v] + rest).drop_first() =~= rest);
    assert(jo[0] == joined);
    assert(jo.drop_first() =~= rest);
    assert(joined[2] == flag[2]);
    assert(joined.skip(flag.len() + 1int) =~= v);
    if flag == "--directory"@ {
        assert(joined.take(12) =~= "--directory="@);
    } else {
        assert(joined.take(11) =~= "--interval="@);
        assert(joined.take(12)[2] != "--directory="@[2]);
    }
}

} // verus!
