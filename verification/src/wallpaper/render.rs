//! How large an output's wallpaper buffer is, and whether it needs drawing
//! again.
use vstd::prelude::*;
use crate::text::str_eq;

verus! {

/// The buffer size for an output whose surface is `logical` pixels at the
/// integer `scale`: its panel's real `mode` where a viewport lets the buffer
/// differ from the surface, else the surface times the scale (a scale below
/// one counts as one). Nothing for a surface with a zero side or a product
/// that does not fit in `u32`.
pub open spec fn buffer_size_spec(logical: (u32, u32), scale: i32, mode: Option<(u32, u32)>, has_viewport: bool) -> Option<(u32, u32)> {
    if logical.0 == 0 || logical.1 == 0 {
        None
    } else if has_viewport && mode is Some {
        mode
    } else {
        let s: int = if scale < 1 { 1 } else { scale as int };
        if logical.0 * s > u32::MAX || logical.1 * s > u32::MAX {
            None
        } else {
            Some(((logical.0 * s) as u32, (logical.1 * s) as u32))
        }
    }
}

/// The size of the buffer an output's wallpaper is drawn into. The panel's
/// own mode is preferred: sizing by surface times integer scale can ask for
/// far more pixels than the panel has, and the viewport lets the buffer take
/// the mode's size without the surface changing shape.
pub fn buffer_size(logical: (u32, u32), scale: i32, mode: Option<(u32, u32)>, has_viewport: bool) -> (r: Option<(u32, u32)>)
    ensures
        r == buffer_size_spec(logical, scale, mode, has_viewport),
{
    let (logical_w, logical_h) = logical;
    if logical_w == 0 || logical_h == 0 {
        return None;
    }
    if has_viewport {
        if let Some(size) = mode {
            return Some(size);
        }
    }
    let scale: u32 = if scale < 1 { 1 } else { scale as u32 };
    match (logical_w.checked_mul(scale), logical_h.checked_mul(scale)) {
        (Some(w), Some(h)) => Some((w, h)),
        _ => None,
    }
}

/// Whether an output showing `drawn` (picture, width, height), if anything,
/// has to be drawn again to show `wanted` at `width x height`: unless that
/// very picture is up at that very size.
pub fn needs_draw(drawn: &Option<(String, u32, u32)>, wanted: &str, width: u32, height: u32) -> (b: bool)
    ensures
        b == !(drawn matches Some(d) && d.0@ == wanted@ && d.1 == width && d.2 == height),
{
    match drawn {
        Some(d) => !(d.1 == width && d.2 == height && str_eq(d.0.as_str(), wanted)),
        None => true,
    }
}

/// What drawing an output comes to: the size to prepare `wanted` at, or
/// nothing when the output is not configured yet, has no usable buffer size,
/// has no picture asked of it, or already shows it at that size.
pub fn draw_size(
    configured: bool,
    logical: (u32, u32),
    scale: i32,
    mode: Option<(u32, u32)>,
    has_viewport: bool,
    wanted: &Option<String>,
    drawn: &Option<(String, u32, u32)>,
) -> (r: Option<(u32, u32)>)
    ensures
        r == (if configured && wanted is Some && buffer_size_spec(logical, scale, mode, has_viewport) is Some
            && !(drawn matches Some(d) && d.0@ == wanted->0@ && (d.1, d.2) == buffer_size_spec(
            logical,
            scale,
            mode,
            has_viewport,
        )->0) {
            buffer_size_spec(logical, scale, mode, has_viewport)
        } else {
            None
        }),
{
    if !configured {
        return None;
    }
    let size = match buffer_size(logical, scale, mode, has_viewport) {
        Some(size) => size,
        None => return None,
    };
    match wanted {
        Some(w) => {
            if needs_draw(drawn, w.as_str(), size.0, size.1) {
                Some(size)
            } else {
                None
            }
        },
        None => None,
    }
}

} // verus!
