//! The on-disk memo of decoded launcher icons: raw `ICON_SIZE`×`ICON_SIZE`
//! RGBA per desktop ID, beside the source path it was made from.
use vstd::prelude::*;
use crate::cli::{after_prefix, has_prefix};
use crate::path::{file_name, file_name_spec, join, join_str, last_index_of, opt_view};
use crate::raster::{decodes_as_image, load_image, resize_exact, to_rgba};
use crate::text::{chars_of, concat, eq_ignore_ascii, eq_ignore_ascii_case, slice_chars, str_eq, string_of};
use crate::xdg::{cache_dir as xdg_cache_dir, resolve_spec};

verus! {

/// Pixel size icons are looked up, rasterised and drawn at.
pub const ICON_SIZE: u32 = 24;

/// Byte length of one cached icon.
pub const RGBA_LEN: usize = 2304;

/// Directory for pre-resized RGBA icon data.
pub fn cache_dir(xdg_cache_home: Option<&str>, home: Option<&str>) -> (d: Option<String>)
    ensures
        match d {
            Some(d) => resolve_spec(opt_view(xdg_cache_home), opt_view(home), ".cache"@) matches Some(
                c,
            ) && d@ == join(c, "icons"@),
            None => resolve_spec(opt_view(xdg_cache_home), opt_view(home), ".cache"@) is None,
        },
{
    match xdg_cache_dir(xdg_cache_home, home) {
        Some(c) => Some(join_str(c.as_str(), "icons")),
        None => None,
    }
}

/// The file holding `id`'s pixels.
pub fn pixels_file(id: &str) -> (f: String)
    ensures
        f@ == id@ + ".rgba"@,
{
    concat(id, ".rgba")
}

/// The file recording which source `id`'s pixels were made from.
pub fn source_file(id: &str) -> (f: String)
    ensures
        f@ == id@ + ".path"@,
{
    concat(id, ".path")
}

/// A cached icon is used only when it was made from this very source (a
/// rebuild can move an icon to a new path) and holds one whole frame.
pub fn accept_cached(recorded: &str, source: &str, data: Vec<u8>) -> (r: Option<Vec<u8>>)
    ensures
        match r {
            Some(d) => recorded@ == source@ && data@.len() == RGBA_LEN && d@ == data@,
            None => !(recorded@ == source@ && data@.len() == RGBA_LEN),
        },
{
    if !str_eq(recorded, source) {
        return None;
    }
    if data.len() == RGBA_LEN {
        Some(data)
    } else {
        None
    }
}

/// Whether `s` ends with `suffix`.
pub open spec fn has_suffix(s: Seq<char>, suffix: Seq<char>) -> bool {
    suffix.len() <= s.len() && s.skip(s.len() - suffix.len()) == suffix
}

/// The desktop ID a cache file belongs to: its whole name without the
/// `.rgba` or `.path` suffix (a dotted ID must not be cut at its first dot).
pub open spec fn cached_id_spec(name: Seq<char>) -> Option<Seq<char>> {
    if has_suffix(name, ".rgba"@) {
        Some(name.take(name.len() - 5))
    } else if has_suffix(name, ".path"@) {
        Some(name.take(name.len() - 5))
    } else {
        None
    }
}

pub fn cached_id(name: &str) -> (id: Option<String>)
    ensures
        match id {
            Some(i) => cached_id_spec(name@) == Some(i@),
            None => cached_id_spec(name@) is None,
        },
{
    let cs = chars_of(name);
    let rgba = chars_of(".rgba");
    let path = chars_of(".path");
    proof {
        reveal_strlit(".rgba");
        reveal_strlit(".path");
    }
    let a = crate::text::ends_with(cs.as_slice(), rgba.as_slice());
    let b = crate::text::ends_with(cs.as_slice(), path.as_slice());
    proof {
        if cs@.len() >= 5 {
            assert(cs@.subrange(cs@.len() - 5, cs@.len() as int) == cs@.skip(cs@.len() - 5));
        }
    }
    if a || b {
        let n = cs.len() - 5;
        assert(cs@.subrange(0, n as int) == cs@.take(n as int));
        Some(string_of(slice_chars(cs.as_slice(), 0, n).as_slice()))
    } else {
        None
    }
}

/// `Path::extension`: what follows the last `.` of the file name, unless the
/// name has no `.` but a leading one.
pub open spec fn extension_spec(path: Seq<char>) -> Option<Seq<char>> {
    match file_name_spec(path) {
        None => None,
        Some(name) => match last_index_of(name, '.') {
            Some(k) => if k > 0 {
                Some(name.skip(k + 1))
            } else {
                None
            },
            None => None,
        },
    }
}

/// The extension of the file `path` names: what follows the last dot of
/// its file name, where that dot is not the name's first character.
pub fn extension(path: &str) -> (r: Option<String>)
    ensures
        match r {
            Some(e) => extension_spec(path@) == Some(e@),
            None => extension_spec(path@) is None,
        },
{
    let name = match file_name(path) {
        Some(n) => n,
        None => return None,
    };
    let cs = chars_of(name.as_str());
    let mut k = cs.len();
    assert(cs@.take(k as int) == cs@);
    while k > 0 && cs[k - 1] != '.'
        invariant
            k <= cs.len(),
            last_index_of(cs@, '.') == last_index_of(cs@.take(k as int), '.'),
        decreases k,
    {
        assert(cs@.take(k as int).drop_last() == cs@.take(k - 1));
        k -= 1;
    }
    if k <= 1 {
        if k == 0 {
            assert(cs@.take(0) == Seq::<char>::empty());
        } else {
            assert(last_index_of(cs@.take(1), '.') == Some(0int));
        }
        return None;
    }
    assert(last_index_of(cs@.take(k as int), '.') == Some(k - 1));
    let ext = string_of(slice_chars(cs.as_slice(), k, cs.len()).as_slice());
    assert(ext@ == cs@.skip(k as int));
    Some(ext)
}

/// Whether `path` names an SVG file, by its extension in any ASCII case.
pub fn is_svg(path: &str) -> (b: bool)
    ensures
        b == (extension_spec(path@) matches Some(e) && eq_ignore_ascii(e, "svg"@)),
{
    match extension(path) {
        Some(ext) => eq_ignore_ascii_case(ext.as_str(), "svg"),
        None => false,
    }
}

/// Decode a raster icon (PNG, JPEG, ...) and scale it to exactly
/// [`ICON_SIZE`] square, as RGBA bytes; `None` when the bytes are no image
/// this build decodes.
pub fn decode_raster(data: &[u8]) -> (r: Option<Vec<u8>>)
    ensures
        r is Some == decodes_as_image(data@),
        r matches Some(v) ==> v@.len() == (ICON_SIZE as int) * (ICON_SIZE as int) * 4,
{
    let img = match load_image(data) {
        Ok(img) => img,
        Err(_) => return None,
    };
    let resized = resize_exact(&img, ICON_SIZE, ICON_SIZE);
    Some(to_rgba(&resized))
}

} // verus!
