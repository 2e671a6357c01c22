//! The bar's own configuration policy: command-line overrides, the
//! environment, and the precedence between them. Per field: the flag, then
//! the environment (where it applies), then the file, then the default.
use vstd::prelude::*;
use crate::config::Config;
use crate::text::{chars_of, is_ws, owned, slice_chars, string_of, trim, trim_bounds, trimmed};

verus! {

/// The GitLab host when nothing names one.
pub const DEFAULT_GITLAB_HOST: &'static str = "https://gitlab.com";

/// The environment variable that names the GitLab host.
pub const ENV_GITLAB_URL: &'static str = "OBAYEBAR_GITLAB_URL";

/// Flags that override file values.
#[derive(Debug, Clone, PartialEq, Eq)]
pub struct CliOverrides {
    pub gitlab_enable: Option<bool>,
    pub gitlab_url: Option<String>,
}

impl Default for CliOverrides {
    fn default() -> (c: CliOverrides)
        ensures
            c.gitlab_enable is None && c.gitlab_url is None,
    {
        CliOverrides { gitlab_enable: None, gitlab_url: None }
    }
}

/// File, flags and environment, with each field's precedence settled.
#[derive(Debug, Clone, PartialEq, Eq)]
pub struct Resolved {
    gitlab_enable: bool,
    gitlab_host: String,
}

impl Default for Resolved {
    fn default() -> (r: Resolved)
        ensures
            !r.gitlab_enable_spec() && r.gitlab_host_spec() == Seq::<char>::empty(),
    {
        Resolved { gitlab_enable: false, gitlab_host: String::new() }
    }
}

/// `s` without its trailing slashes.
pub open spec fn trim_slashes(s: Seq<char>) -> Seq<char>
    decreases s.len(),
{
    if s.len() > 0 && s.last() == '/' {
        trim_slashes(s.drop_last())
    } else {
        s
    }
}

/// A host as given, trimmed and without trailing slashes.
pub open spec fn normalize_host_spec(s: Seq<char>) -> Seq<char> {
    trim_slashes(trim(s))
}

pub fn normalize_host(s: &str) -> (out: String)
    ensures
        out@ == normalize_host_spec(s@),
{
    let t = trimmed(s);
    let mut n = t.len();
    assert(t@.take(n as int) == t@);
    while n > 0 && t[n - 1] == '/'
        invariant
            n <= t.len(),
            trim_slashes(t@) == trim_slashes(t@.take(n as int)),
        decreases n,
    {
        assert(t@.take(n as int).drop_last() == t@.take(n - 1));
        n -= 1;
    }
    assert(t@.subrange(0, n as int) == t@.take(n as int));
    string_of(slice_chars(t.as_slice(), 0, n).as_slice())
}

/// The GitLab host: the flag's, else the environment's when it is not blank,
/// else the file's, each normalized; else the default.
pub open spec fn gitlab_host_spec(file_url: Option<Seq<char>>, cli_url: Option<Seq<char>>, env_url: Option<
    Seq<char>,
>) -> Seq<char> {
    if cli_url is Some {
        normalize_host_spec(cli_url->0)
    } else if env_url is Some && trim(env_url->0).len() > 0 {
        normalize_host_spec(trim(env_url->0))
    } else if file_url is Some {
        normalize_host_spec(file_url->0)
    } else {
        DEFAULT_GITLAB_HOST@
    }
}

pub open spec fn opt_str(o: Option<String>) -> Option<Seq<char>> {
    match o {
        Some(s) => Some(s@),
        None => None,
    }
}

pub open spec fn opt_ref(o: Option<&str>) -> Option<Seq<char>> {
    match o {
        Some(s) => Some(s@),
        None => None,
    }
}

impl Resolved {
    pub closed spec fn gitlab_enable_spec(&self) -> bool {
        self.gitlab_enable
    }

    pub closed spec fn gitlab_host_spec(&self) -> Seq<char> {
        self.gitlab_host@
    }

    /// Settle every field from the file, the flags, and the value of
    /// `OBAYEBAR_GITLAB_URL` (`env_url`).
    pub fn from_parts(file: &Config, cli: &CliOverrides, env_url: Option<&str>) -> (r: Resolved)
        ensures
            r.gitlab_enable_spec() == match cli.gitlab_enable {
                Some(b) => b,
                None => file.gitlab.enable,
            },
            r.gitlab_host_spec() == gitlab_host_spec(
                opt_str(file.gitlab.url),
                opt_str(cli.gitlab_url),
                opt_ref(env_url),
            ),
    {
        let enable = match cli.gitlab_enable {
            Some(b) => b,
            None => file.gitlab.enable,
        };
        let host = if let Some(url) = &cli.gitlab_url {
            normalize_host(url.as_str())
        } else {
            let from_env = match env_url {
                Some(e) => {
                    let t = trimmed(e);
                    if t.len() > 0 {
                        let ts = string_of(t.as_slice());
                        Some(normalize_host(ts.as_str()))
                    } else {
                        None
                    }
                },
                None => None,
            };
            match from_env {
                Some(h) => h,
                None => match &file.gitlab.url {
                    Some(url) => normalize_host(url.as_str()),
                    None => owned(DEFAULT_GITLAB_HOST),
                },
            }
        };
        Resolved { gitlab_enable: enable, gitlab_host: host }
    }

    pub fn gitlab_enable(&self) -> (b: bool)
        ensures
            b == self.gitlab_enable_spec(),
    {
        self.gitlab_enable
    }

    pub fn gitlab_host(&self) -> (h: &str)
        ensures
            h@ == self.gitlab_host_spec(),
    {
        self.gitlab_host.as_str()
    }
}

/// Settle the configuration once for the whole process, in `slot`. The first
/// install wins; a second one leaves it as it is.
pub fn install(slot: &mut Option<Resolved>, file: &Config, cli: &CliOverrides, env_url: Option<&str>)
    ensures
        match *old(slot) {
            Some(r) => *final(slot) == Some(r),
            None => match *final(slot) {
                Some(r) => r.gitlab_enable_spec() == match cli.gitlab_enable {
                    Some(b) => b,
                    None => file.gitlab.enable,
                } && r.gitlab_host_spec() == gitlab_host_spec(
                    opt_str(file.gitlab.url),
                    opt_str(cli.gitlab_url),
                    opt_ref(env_url),
                ),
                None => false,
            },
        },
{
    if slot.is_none() {
        *slot = Some(Resolved::from_parts(file, cli, env_url));
    }
}

/// The settled configuration, or the empty default before [`install`].
pub fn resolved(slot: &Option<Resolved>) -> (r: Resolved)
    ensures
        match *slot {
            Some(s) => r.gitlab_enable_spec() == s.gitlab_enable_spec() && r.gitlab_host_spec()
                == s.gitlab_host_spec(),
            None => !r.gitlab_enable_spec() && r.gitlab_host_spec() == Seq::<char>::empty(),
        },
{
    match slot {
        Some(s) => Resolved { gitlab_enable: s.gitlab_enable, gitlab_host: s.gitlab_host.clone() },
        None => Resolved::default(),
    }
}

} // verus!
