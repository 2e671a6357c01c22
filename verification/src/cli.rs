//! Pieces shared by the hand-rolled argument parsers: the value that follows
//! a flag, `--flag=value` prefixes, and the messages they produce.
use vstd::prelude::*;
use crate::text::{chars_of, concat, push_str, slice_chars, starts_with_lit, string_of, strings_view, trim, trimmed};

verus! {

/// The version every program reports for `--version`.
pub const VERSION: &'static str = "0.1.0";

/// What a parser says instead of returning arguments: a usage error (for
/// stderr, exit non-zero) or text to print before exiting zero.
pub enum CliError {
    Usage(Seq<char>),
    Exit(Seq<char>),
}

/// Whether `s` begins with `p`.
pub open spec fn has_prefix(s: Seq<char>, p: Seq<char>) -> bool {
    p.len() <= s.len() && s.take(p.len() as int) == p
}

/// `s` after its prefix `p`.
pub open spec fn after_prefix(s: Seq<char>, p: Seq<char>) -> Seq<char> {
    s.skip(p.len() as int)
}

/// `str::strip_prefix`, as an owned string.
pub fn strip_prefix(s: &str, p: &str) -> (r: Option<String>)
    ensures
        match r {
            Some(rest) => has_prefix(s@, p@) && rest@ == after_prefix(s@, p@),
            None => !has_prefix(s@, p@),
        },
{
    let cs = chars_of(s);
    if !starts_with_lit(cs.as_slice(), p) {
        return None;
    }
    let n = chars_of(p).len();
    assert(cs@.subrange(n as int, cs@.len() as int) == cs@.skip(n as int));
    Some(string_of(slice_chars(cs.as_slice(), n, cs.len()).as_slice()))
}

/// The value that follows a flag, taken from `rest` (what comes after the
/// flag): missing, blank, or the argument itself. An error is its message.
pub open spec fn value_spec(rest: Seq<Seq<char>>, flag: Seq<char>) -> Result<Seq<char>, Seq<char>> {
    if rest.len() == 0 {
        Err(flag + " requires a value"@)
    } else if trim(rest[0]).len() == 0 {
        Err(flag + " value cannot be empty"@)
    } else {
        Ok(rest[0])
    }
}

/// The view of a value or its message.
pub open spec fn value_view(r: Result<String, String>) -> Result<Seq<char>, Seq<char>> {
    match r {
        Ok(v) => Ok(v@),
        Err(m) => Err(m@),
    }
}

/// The value for `flag`, which stands at `next - 1` in `args`.
pub fn value(args: &Vec<String>, next: usize, flag: &str) -> (r: Result<String, String>)
    requires
        next <= args.len(),
    ensures
        value_view(r) == value_spec(strings_view(args@).skip(next as int), flag@),
{
    let ghost rest = strings_view(args@).skip(next as int);
    if next >= args.len() {
        return Err(concat(flag, " requires a value"));
    }
    assert(rest[0] == args@[next as int]@);
    let t = trimmed(args[next].as_str());
    if t.len() == 0 {
        return Err(concat(flag, " value cannot be empty"));
    }
    Ok(args[next].clone())
}

/// The message for an argument no parser knows.
pub open spec fn unknown_spec(arg: Seq<char>) -> Seq<char> {
    "unknown argument '"@ + arg + "'"@
}

pub fn unknown(arg: &str) -> (m: String)
    ensures
        m@ == unknown_spec(arg@),
{
    let mut m = concat("unknown argument '", arg);
    push_str(&mut m, "'");
    m
}

/// What `{:?}` prints for a string: the text in double quotes, escaped.
pub uninterp spec fn debug_str(s: Seq<char>) -> Seq<char>;

/// `<str as Debug>::fmt`, collected into a string.
#[verifier::external_body]
pub(crate) fn debug_quoted(s: &str) -> (r: String)
    ensures
        r@ == debug_str(s@),
{
    format!("{s:?}")
}

} // verus!
