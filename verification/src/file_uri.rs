//! Resolving strings that name a local file: a `file:` URI as sent by MPRIS
//! art URLs and notification hints, or a plain absolute path.
use vstd::prelude::*;
use crate::text::{chars_of, owned, str_eq};

verus! {

/// What the `url` crate makes of `input`: `None` when it is no absolute URL
/// by the crate's grammar; otherwise the URL's scheme, and the local path
/// `Url::to_file_path` reads from it (percent-decoded, and none for a URL
/// with a host other than `localhost`, or none to read), as text: a path
/// whose decoded bytes are not UTF-8 is none, rather than a different
/// file's name.
pub uninterp spec fn url_parts(input: Seq<char>) -> Option<(Seq<char>, Option<Seq<char>>)>;

/// `Url::parse`, its result taken apart by `Url::scheme` and
/// `Url::to_file_path`, the path kept only when it is UTF-8
/// (`OsString::into_string`).
#[verifier::external_body]
fn parse_url(input: &str) -> (r: Option<(String, Option<String>)>)
    ensures
        match r {
            Some((scheme, path)) => url_parts(input@) == Some(
                (
                    scheme@,
                    match path {
                        Some(p) => Some(p@),
                        None => None,
                    },
                ),
            ),
            None => url_parts(input@) is None,
        },
{
    let url = url::Url::parse(input).ok()?;
    let path = url.to_file_path().ok().and_then(|p| p.into_os_string().into_string().ok());
    Some((url.scheme().to_owned(), path))
}

/// The local path `uri_or_path` names, if it names one: a `file:` URL as the
/// `url` crate reads it (none where it decodes to bytes that are not UTF-8,
/// as this path is text); a string that is no URL but starts with `/` as it
/// is; anything else (a relative path, another scheme, a bare icon name) is
/// none.
pub open spec fn local_path_spec(uri_or_path: Seq<char>) -> Option<Seq<char>> {
    match url_parts(uri_or_path) {
        Some((scheme, path)) => if scheme == "file"@ {
            path
        } else {
            None
        },
        None => if uri_or_path.len() > 0 && uri_or_path[0] == '/' {
            Some(uri_or_path)
        } else {
            None
        },
    }
}

/// The local filesystem path named by `uri_or_path`, as [`local_path_spec`]
/// says.
pub fn local_path(uri_or_path: &str) -> (p: Option<String>)
    ensures
        match p {
            Some(path) => local_path_spec(uri_or_path@) == Some(path@),
            None => local_path_spec(uri_or_path@) is None,
        },
{
    match parse_url(uri_or_path) {
        Some((scheme, path)) => {
            if str_eq(scheme.as_str(), "file") {
                path
            } else {
                None
            }
        },
        None => {
            let cs = chars_of(uri_or_path);
            if cs.len() > 0 && cs[0] == '/' {
                Some(owned(uri_or_path))
            } else {
                None
            }
        },
    }
}

} // verus!
