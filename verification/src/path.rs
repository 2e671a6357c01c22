//! Paths as strings: `PathBuf::join` and the leading-`~` expansion.
use vstd::prelude::*;
use crate::text::{chars_of, push_char, push_chars, slice_chars, string_of};

verus! {

/// `PathBuf::join` on Unix: an absolute `b` replaces `a`; otherwise `b` is
/// appended, with a `/` between unless `a` is empty or already ends in one.
pub open spec fn join(a: Seq<char>, b: Seq<char>) -> Seq<char> {
    if b.len() > 0 && b[0] == '/' {
        b
    } else if a.len() > 0 && a.last() != '/' {
        a + seq!['/'] + b
    } else {
        a + b
    }
}

/// Exec twin of [`join`].
pub fn join_str(a: &str, b: &str) -> (out: String)
    ensures
        out@ == join(a@, b@),
{
    let ac = chars_of(a);
    let bc = chars_of(b);
    join_chars(ac.as_slice(), bc.as_slice())
}

/// [`join`] over characters.
pub fn join_chars(a: &[char], b: &[char]) -> (out: String)
    ensures
        out@ == join(a@, b@),
{
    if b.len() > 0 && b[0] == '/' {
        return string_of(b);
    }
    let mut out = string_of(a);
    if a.len() > 0 && a[a.len() - 1] != '/' {
        push_char(&mut out, '/');
    }
    push_chars(&mut out, b);
    out
}

/// Whether `s` begins with a `.` component: `.` alone, or `./`.
pub open spec fn starts_with_dot_component(s: Seq<char>) -> bool {
    s.len() > 0 && s[0] == '.' && (s.len() == 1 || s[1] == '/')
}

/// Whether `s` ends with a `.` component: `.` alone, or `/.`.
pub open spec fn ends_with_dot_component(s: Seq<char>) -> bool {
    s.len() > 0 && s.last() == '.' && (s.len() == 1 || s[s.len() - 2] == '/')
}

/// What `Components::as_path` drops at the front of a relative remainder:
/// empty components (separators) and `.` components.
pub open spec fn trim_left_components(s: Seq<char>) -> Seq<char>
    decreases s.len(),
{
    if s.len() > 0 && s[0] == '/' {
        trim_left_components(s.drop_first())
    } else if starts_with_dot_component(s) {
        trim_left_components(s.drop_first())
    } else {
        s
    }
}

/// What `Components::as_path` drops at the back: separators and `.`
/// components.
pub open spec fn trim_right_components(s: Seq<char>) -> Seq<char>
    decreases s.len(),
{
    if s.len() > 0 && s.last() == '/' {
        trim_right_components(s.drop_last())
    } else if ends_with_dot_component(s) {
        trim_right_components(s.drop_last())
    } else {
        s
    }
}

/// Whether `p` starts with the component `~`.
pub open spec fn has_tilde_component(p: Seq<char>) -> bool {
    p.len() > 0 && p[0] == '~' && (p.len() == 1 || p[1] == '/')
}

/// `p.strip_prefix("~")` for a path that starts with the component `~`.
pub open spec fn after_tilde(p: Seq<char>) -> Seq<char> {
    trim_right_components(trim_left_components(p.drop_first()))
}

/// `xdg::expand_tilde`: a leading `~` component becomes `$HOME` when `HOME`
/// is set and non-empty; any other path, or an unset `HOME`, is unchanged.
pub open spec fn expand_tilde_spec(p: Seq<char>, home: Option<Seq<char>>) -> Seq<char> {
    if has_tilde_component(p) && home is Some && home->0.len() > 0 {
        join(home->0, after_tilde(p))
    } else {
        p
    }
}

fn trim_left_bounds(cs: &[char], start: usize) -> (lo: usize)
    requires
        start <= cs.len(),
    ensures
        start <= lo <= cs.len(),
        trim_left_components(cs@.subrange(start as int, cs.len() as int)) == cs@.subrange(
            lo as int,
            cs.len() as int,
        ),
    decreases cs.len() - start,
{
    let ghost s = cs@.subrange(start as int, cs.len() as int);
    if start < cs.len() && (cs[start] == '/' || (cs[start] == '.' && (start + 1 == cs.len()
        || cs[start + 1] == '/'))) {
        assert(s.drop_first() == cs@.subrange(start + 1, cs.len() as int));
        trim_left_bounds(cs, start + 1)
    } else {
        start
    }
}

fn trim_right_bounds(cs: &[char], lo: usize, end: usize) -> (hi: usize)
    requires
        lo <= end <= cs.len(),
    ensures
        lo <= hi <= end,
        trim_right_components(cs@.subrange(lo as int, end as int)) == cs@.subrange(
            lo as int,
            hi as int,
        ),
    decreases end - lo,
{
    let ghost s = cs@.subrange(lo as int, end as int);
    if end > lo && (cs[end - 1] == '/' || (cs[end - 1] == '.' && (end - 1 == lo || cs[end - 2]
        == '/'))) {
        assert(s.drop_last() == cs@.subrange(lo as int, end - 1));
        trim_right_bounds(cs, lo, end - 1)
    } else {
        end
    }
}

/// `xdg::expand_tilde`, with `$HOME` handed in as `home`.
pub fn expand_tilde(path: &str, home: Option<&str>) -> (out: String)
    ensures
        out@ == expand_tilde_spec(path@, opt_view(home)),
{
    let cs = chars_of(path);
    let tilde = cs.len() > 0 && cs[0] == '~' && (cs.len() == 1 || cs[1] == '/');
    if let Some(h) = home {
        let hc = chars_of(h);
        if tilde && hc.len() > 0 {
            let lo = trim_left_bounds(cs.as_slice(), 1);
            let hi = trim_right_bounds(cs.as_slice(), lo, cs.len());
            assert(cs@.drop_first() == cs@.subrange(1, cs@.len() as int));
            let rest = slice_chars(cs.as_slice(), lo, hi);
            return join_chars(hc.as_slice(), rest.as_slice());
        }
    }
    string_of(cs.as_slice())
}

/// The view of an optional string.
pub open spec fn opt_view(o: Option<&str>) -> Option<Seq<char>> {
    match o {
        Some(s) => Some(s@),
        None => None,
    }
}

/// The last index of `c` in `s`.
pub open spec fn last_index_of(s: Seq<char>, c: char) -> Option<int>
    decreases s.len(),
{
    if s.len() == 0 {
        None
    } else if s.last() == c {
        Some(s.len() - 1)
    } else {
        last_index_of(s.drop_last(), c)
    }
}

/// `Path::file_name`: the final component of `p`, once trailing separators
/// and `.` components are set aside; none when that is `..`, or when there
/// is no component left (`/`, `.`, the empty path).
pub open spec fn file_name_spec(p: Seq<char>) -> Option<Seq<char>> {
    let t = trim_right_components(p);
    let name = match last_index_of(t, '/') {
        Some(k) => t.skip(k + 1),
        None => t,
    };
    if name.len() == 0 || name == ".."@ {
        None
    } else {
        Some(name)
    }
}

/// The final component of `path`, as [`file_name_spec`] says.
pub fn file_name(path: &str) -> (name: Option<String>)
    ensures
        match name {
            Some(n) => file_name_spec(path@) == Some(n@),
            None => file_name_spec(path@) is None,
        },
{
    let cs = chars_of(path);
    let hi = trim_right_bounds(cs.as_slice(), 0, cs.len());
    assert(cs@.subrange(0, cs@.len() as int) == cs@);
    let ghost t = cs@.subrange(0, hi as int);
    let mut k = hi;
    assert(t.take(k as int) == t);
    while k > 0 && cs[k - 1] != '/'
        invariant
            k <= hi <= cs.len(),
            t == cs@.subrange(0, hi as int),
            last_index_of(t, '/') == last_index_of(t.take(k as int), '/'),
        decreases k,
    {
        assert(t.take(k as int).drop_last() == t.take(k - 1));
        k -= 1;
    }
    let ghost name = match last_index_of(t, '/') {
        Some(j) => t.skip(j + 1),
        None => t,
    };
    if k == 0 {
        assert(t.take(0) == Seq::<char>::empty());
        assert(name == t);
    } else {
        assert(last_index_of(t.take(k as int), '/') == Some(k - 1));
        assert(name == cs@.subrange(k as int, hi as int));
    }
    let n = slice_chars(cs.as_slice(), k, hi);
    assert(n@ == name);
    if n.len() == 0 {
        return None;
    }
    if n.len() == 2 && n[0] == '.' && n[1] == '.' {
        proof {
            reveal_strlit("..");
        }
        assert(n@ =~= ".."@);
        return None;
    }
    proof {
        reveal_strlit("..");
        if n@ == ".."@ {
            assert(n@.len() == 2 && n@[0] == '.' && n@[1] == '.');
        }
    }
    Some(string_of(n.as_slice()))
}

} // verus!
