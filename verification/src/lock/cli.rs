//! Argument parsing for the lock screen.
use vstd::prelude::*;
use crate::cli::{
    after_prefix, debug_quoted, debug_str, has_prefix, strip_prefix, unknown, unknown_spec, value,
    value_spec, CliError, VERSION,
};
use crate::text::{
    chars_of, concat, eq_lit, find_char, index_of, owned, parse_u32, parse_u32_chars, push_str,
    slice_chars, string_of, strings_view, trim, trimmed,
};

verus! {

pub const USAGE: &'static str = "obayebar-lock [OPTIONS]\n\n  -c, --config <PATH>     Base hyprlock config to extend\n      --state <PATH>      Wallpaper state file to read\n      --no-wallpaper      Lock with the base config unchanged\n      --print             Print the generated config and exit, without locking\n      --check             Validate and exit non-zero on any problem\n      --blur <P>x<S>      Blur passes and size, e.g. 2x5\n  -g, --grace <SECS>      Seconds before a password is required\n      --detach            Do not wait for hyprlock to exit\n      --no-scope          Do not wrap hyprlock in its own systemd scope\n  -h, --help              Print this help\n  -V, --version           Print version";

/// The parsed command line. The flags are independent switches, not modes:
/// every combination is meaningful.
#[derive(Debug, Clone, PartialEq, Eq)]
pub struct Args {
    pub config: Option<String>,
    pub state: Option<String>,
    pub no_wallpaper: bool,
    pub print: bool,
    pub check: bool,
    pub blur: Option<(u32, u32)>,
    pub grace: Option<u32>,
    pub detach: bool,
    pub no_scope: bool,
}

/// [`Args`] as values.
pub struct ArgsModel {
    pub config: Option<Seq<char>>,
    pub state: Option<Seq<char>>,
    pub no_wallpaper: bool,
    pub print: bool,
    pub check: bool,
    pub blur: Option<(u32, u32)>,
    pub grace: Option<u32>,
    pub detach: bool,
    pub no_scope: bool,
}

pub open spec fn opt_str(o: Option<String>) -> Option<Seq<char>> {
    match o {
        Some(s) => Some(s@),
        None => None,
    }
}

impl View for Args {
    type V = ArgsModel;

    open spec fn view(&self) -> ArgsModel {
        ArgsModel {
            config: opt_str(self.config),
            state: opt_str(self.state),
            no_wallpaper: self.no_wallpaper,
            print: self.print,
            check: self.check,
            blur: self.blur,
            grace: self.grace,
            detach: self.detach,
            no_scope: self.no_scope,
        }
    }
}

/// No flag given.
pub open spec fn default_model() -> ArgsModel {
    ArgsModel {
        config: None,
        state: None,
        no_wallpaper: false,
        print: false,
        check: false,
        blur: None,
        grace: None,
        detach: false,
        no_scope: false,
    }
}

impl Default for Args {
    fn default() -> (a: Args)
        ensures
            a@ == default_model(),
    {
        Args {
            config: None,
            state: None,
            no_wallpaper: false,
            print: false,
            check: false,
            blur: None,
            grace: None,
            detach: false,
            no_scope: false,
        }
    }
}

#[derive(Debug, Clone, PartialEq, Eq)]
pub enum Error {
    /// Bad usage: print to stderr, exit non-zero.
    Usage(String),
    /// `--help` / `--version`: print to stdout, exit zero.
    Exit(String),
}

impl View for Error {
    type V = CliError;

    open spec fn view(&self) -> CliError {
        match self {
            Error::Usage(m) => CliError::Usage(m@),
            Error::Exit(m) => CliError::Exit(m@),
        }
    }
}

/// A whole number, whitespace around it allowed.
pub open spec fn number_spec(raw: Seq<char>, flag: Seq<char>) -> Result<u32, Seq<char>> {
    match parse_u32(trim(raw)) {
        Some(n) => Ok(n),
        None => Err(flag + " wants a whole number, got "@ + debug_str(raw)),
    }
}

/// `PASSESxSIZE`, split at the first `x`.
pub open spec fn blur_spec(raw: Seq<char>) -> Result<(u32, u32), Seq<char>> {
    match index_of(raw, 'x') {
        None => Err("--blur wants PASSESxSIZE, got "@ + debug_str(raw)),
        Some(k) => match number_spec(raw.take(k), "--blur"@) {
            Err(m) => Err(m),
            Ok(passes) => match number_spec(raw.skip(k + 1), "--blur"@) {
                Err(m) => Err(m),
                Ok(size) => Ok((passes, size)),
            },
        },
    }
}

/// Parse `args` on top of `acc`, left to right.
pub open spec fn parse_from(args: Seq<Seq<char>>, acc: ArgsModel) -> Result<ArgsModel, CliError>
    decreases args.len(),
{
    if args.len() == 0 {
        Ok(acc)
    } else {
        let a = args[0];
        let rest = args.drop_first();
        if a == "-h"@ || a == "--help"@ {
            Err(CliError::Exit(USAGE@))
        } else if a == "-V"@ || a == "--version"@ {
            Err(CliError::Exit("obayebar-lock "@ + VERSION@))
        } else if a == "--no-wallpaper"@ {
            parse_from(rest, ArgsModel { no_wallpaper: true, ..acc })
        } else if a == "--print"@ {
            parse_from(rest, ArgsModel { print: true, ..acc })
        } else if a == "--check"@ {
            parse_from(rest, ArgsModel { check: true, ..acc })
        } else if a == "--detach"@ {
            parse_from(rest, ArgsModel { detach: true, ..acc })
        } else if a == "--no-scope"@ {
            parse_from(rest, ArgsModel { no_scope: true, ..acc })
        } else if a == "-c"@ || a == "--config"@ {
            match value_spec(rest, a) {
                Err(m) => Err(CliError::Usage(m)),
                Ok(v) => parse_from(rest.drop_first(), ArgsModel { config: Some(v), ..acc }),
            }
        } else if a == "--state"@ {
            match value_spec(rest, a) {
                Err(m) => Err(CliError::Usage(m)),
                Ok(v) => parse_from(rest.drop_first(), ArgsModel { state: Some(v), ..acc }),
            }
        } else if a == "--blur"@ {
            match value_spec(rest, a) {
                Err(m) => Err(CliError::Usage(m)),
                Ok(v) => match blur_spec(v) {
                    Err(m) => Err(CliError::Usage(m)),
                    Ok(b) => parse_from(rest.drop_first(), ArgsModel { blur: Some(b), ..acc }),
                },
            }
        } else if a == "-g"@ || a == "--grace"@ {
            match value_spec(rest, a) {
                Err(m) => Err(CliError::Usage(m)),
                Ok(v) => match number_spec(v, a) {
                    Err(m) => Err(CliError::Usage(m)),
                    Ok(g) => parse_from(rest.drop_first(), ArgsModel { grace: Some(g), ..acc }),
                },
            }
        } else if has_prefix(a, "--config="@) {
            parse_from(rest, ArgsModel { config: Some(after_prefix(a, "--config="@)), ..acc })
        } else if has_prefix(a, "--state="@) {
            parse_from(rest, ArgsModel { state: Some(after_prefix(a, "--state="@)), ..acc })
        } else if has_prefix(a, "--blur="@) {
            match blur_spec(after_prefix(a, "--blur="@)) {
                Err(m) => Err(CliError::Usage(m)),
                Ok(b) => parse_from(rest, ArgsModel { blur: Some(b), ..acc }),
            }
        } else if has_prefix(a, "--grace="@) {
            match number_spec(after_prefix(a, "--grace="@), "--grace"@) {
                Err(m) => Err(CliError::Usage(m)),
                Ok(g) => parse_from(rest, ArgsModel { grace: Some(g), ..acc }),
            }
        } else {
            Err(CliError::Usage(unknown_spec(a)))
        }
    }
}

/// The view of a parse result.
pub open spec fn result_view(r: Result<Args, Error>) -> Result<ArgsModel, CliError> {
    match r {
        Ok(a) => Ok(a@),
        Err(e) => Err(e@),
    }
}

fn number(raw: &str, flag: &str) -> (r: Result<u32, String>)
    ensures
        match r {
            Ok(n) => number_spec(raw@, flag@) == Ok::<u32, Seq<char>>(n),
            Err(m) => number_spec(raw@, flag@) == Err::<u32, Seq<char>>(m@),
        },
{
    let t = trimmed(raw);
    match parse_u32_chars(t.as_slice()) {
        Some(n) => Ok(n),
        None => {
            let mut m = concat(flag, " wants a whole number, got ");
            let q = debug_quoted(raw);
            push_str(&mut m, q.as_str());
            Err(m)
        },
    }
}

fn blur(raw: &str) -> (r: Result<(u32, u32), String>)
    ensures
        match r {
            Ok(b) => blur_spec(raw@) == Ok::<(u32, u32), Seq<char>>(b),
            Err(m) => blur_spec(raw@) == Err::<(u32, u32), Seq<char>>(m@),
        },
{
    let cs = chars_of(raw);
    match find_char(cs.as_slice(), 'x') {
        None => {
            let mut m = owned("--blur wants PASSESxSIZE, got ");
            let q = debug_quoted(raw);
            push_str(&mut m, q.as_str());
            Err(m)
        },
        Some(k) => {
            let passes = string_of(slice_chars(cs.as_slice(), 0, k).as_slice());
            let size = string_of(slice_chars(cs.as_slice(), k + 1, cs.len()).as_slice());
            assert(cs@.subrange(0, k as int) == raw@.take(k as int));
            assert(cs@.subrange(k + 1, cs@.len() as int) == raw@.skip(k + 1));
            let p = match number(passes.as_str(), "--blur") {
                Ok(p) => p,
                Err(m) => return Err(m),
            };
            let s = match number(size.as_str(), "--blur") {
                Ok(s) => s,
                Err(m) => return Err(m),
            };
            Ok((p, s))
        },
    }
}

/// Parse command-line arguments: [`Error::Usage`] for an unknown flag or a
/// bad value, [`Error::Exit`] for `--help` and `--version`.
pub fn parse(args: Vec<String>) -> (r: Result<Args, Error>)
    ensures
        result_view(r) == parse_from(strings_view(args@), default_model()),
{
    let ghost all = strings_view(args@);
    let mut out = Args::default();
    let mut i: usize = 0;
    assert(all.skip(0) == all);
    while i < args.len()
        invariant
            all == strings_view(args@),
            i <= args.len(),
            parse_from(all, default_model()) == parse_from(all.skip(i as int), out@),
        decreases args.len() - i,
    {
        let ghost here = all.skip(i as int);
        assert(here.drop_first() == all.skip(i + 1));
        assert(here[0] == args@[i as int]@);
        let a = args[i].as_str();
        let cs = chars_of(a);
        if eq_lit(cs.as_slice(), "-h") || eq_lit(cs.as_slice(), "--help") {
            return Err(Error::Exit(owned(USAGE)));
        } else if eq_lit(cs.as_slice(), "-V") || eq_lit(cs.as_slice(), "--version") {
            return Err(Error::Exit(concat("obayebar-lock ", VERSION)));
        } else if eq_lit(cs.as_slice(), "--no-wallpaper") {
            out.no_wallpaper = true;
            i += 1;
        } else if eq_lit(cs.as_slice(), "--print") {
            out.print = true;
            i += 1;
        } else if eq_lit(cs.as_slice(), "--check") {
            out.check = true;
            i += 1;
        } else if eq_lit(cs.as_slice(), "--detach") {
            out.detach = true;
            i += 1;
        } else if eq_lit(cs.as_slice(), "--no-scope") {
            out.no_scope = true;
            i += 1;
        } else if eq_lit(cs.as_slice(), "-c") || eq_lit(cs.as_slice(), "--config") || eq_lit(
            cs.as_slice(),
            "--state",
        ) || eq_lit(cs.as_slice(), "--blur") || eq_lit(cs.as_slice(), "-g") || eq_lit(
            cs.as_slice(),
            "--grace",
        ) {
            assert(here.drop_first() == strings_view(args@).skip(i + 1));
            let v = match value(&args, i + 1, a) {
                Ok(v) => v,
                Err(m) => return Err(Error::Usage(m)),
            };
            assert(here.drop_first().drop_first() == all.skip(i + 2));
            if eq_lit(cs.as_slice(), "-c") || eq_lit(cs.as_slice(), "--config") {
                out.config = Some(v);
            } else if eq_lit(cs.as_slice(), "--state") {
                out.state = Some(v);
            } else if eq_lit(cs.as_slice(), "--blur") {
                match blur(v.as_str()) {
                    Ok(b) => out.blur = Some(b),
                    Err(m) => return Err(Error::Usage(m)),
                }
            } else {
                match number(v.as_str(), a) {
                    Ok(g) => out.grace = Some(g),
                    Err(m) => return Err(Error::Usage(m)),
                }
            }
            i += 2;
        } else if let Some(rest) = strip_prefix(a, "--config=") {
            out.config = Some(rest);
            i += 1;
        } else if let Some(rest) = strip_prefix(a, "--state=") {
            out.state = Some(rest);
            i += 1;
        } else if let Some(rest) = strip_prefix(a, "--blur=") {
            match blur(rest.as_str()) {
                Ok(b) => out.blur = Some(b),
                Err(m) => return Err(Error::Usage(m)),
            }
            i += 1;
        } else if let Some(rest) = strip_prefix(a, "--grace=") {
            match number(rest.as_str(), "--grace") {
                Ok(g) => out.grace = Some(g),
                Err(m) => return Err(Error::Usage(m)),
            }
            i += 1;
        } else {
            return Err(Error::Usage(unknown(a)));
        }
    }
    assert(all.skip(i as int).len() == 0);
    Ok(out)
}

/// A flag's value reads the same whether it follows the flag as the next
/// argument or is joined to it with `=`, for every value that is not blank.
pub proof fn lemma_joined_values_read_as_separate(
    flag: Seq<char>,
    v: Seq<char>,
    rest: Seq<Seq<char>>,
    acc: ArgsModel,
)
    requires
        flag == "--config"@ || flag == "--state"@ || flag == "--blur"@ || flag == "--grace"@,
        trim(v).len() > 0,
    ensures
        parse_from(seq![flag, v] + rest, acc) == parse_from(seq![flag + "="@ + v] + rest, acc),
{
    reveal_strlit("-h");
    reveal_strlit("--help");
    reveal_strlit("-V");
    reveal_strlit("--version");
    reveal_strlit("--no-wallpaper");
    reveal_strlit("--print");
    reveal_strlit("--check");
    reveal_strlit("--detach");
    reveal_strlit("--no-scope");
    reveal_strlit("-c");
    reveal_strlit("--config");
    reveal_strlit("--state");
    reveal_strlit("--blur");
    reveal_strlit("-g");
    reveal_strlit("--grace");
    reveal_strlit("--config=");
    reveal_strlit("--state=");
    reveal_strlit("--blur=");
    reveal_strlit("--grace=");
    reveal_strlit("=");
    let sep = seq![flag, v] + rest;
    let joined = flag + "="@ + v;
    let jo = seq![joined] + rest;
    assert(v.len() > 0) by {
        if v.len() == 0 {
            assert(crate::text::trim_start(v) == v);
            assert(crate::text::trim_end(v) == v);
        }
    }
    assert(joined.len() == flag.len() + 1 + v.len());
    assert(sep[0] == flag);
    assert(sep.drop_first() =~= seq![v] + rest);
    assert((seq![v] + rest).drop_first() =~= rest);
    assert(jo[0] == joined);
    assert(jo.drop_first() =~= rest);
    assert(joined[2] == flag[2]);
    assert(joined.skip(flag.len() + 1int) =~= v);
    if flag == "--config"@ {
        assert(joined.take(9) =~= "--config="@);
    } else if flag == "--state"@ {
        assert(joined.take(8) =~= "--state="@);
        assert(joined.take(9)[2] != "--config="@[2]);
    } else if flag == "--blur"@ {
        assert(joined.take(7) =~= "--blur="@);
        if joined.len() >= 9 {
            assert(joined.take(9)[2] != "--config="@[2]);
        }
        assert(joined.take(8)[2] != "--state="@[2]);
    } else {
        assert(joined.take(8) =~= "--grace="@);
        assert(joined.take(9)[2] != "--config="@[2]);
        assert(joined.take(8)[2] != "--state="@[2]);
        assert(joined.take(7)[2] != "--blur="@[2]);
    }
}

} // verus!
