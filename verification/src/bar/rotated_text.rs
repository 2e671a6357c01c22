//! Text for the vertical bar: cut to fit, and its coverage bitmap turned to
//! read bottom-to-top.
use vstd::prelude::*;
use crate::text::{chars_of, push_char, slice_chars, string_of};

verus! {

/// `s` cut to at most `max_chars` characters, the last of them an ellipsis
/// when anything was cut; with no room at all, nothing is left.
pub open spec fn truncate_spec(s: Seq<char>, max_chars: nat) -> Seq<char> {
    if s.len() <= max_chars {
        s
    } else if max_chars == 0 {
        seq![]
    } else {
        s.take(max_chars - 1) + seq!['\u{2026}']
    }
}

/// Truncate a string to fit within `max_chars` characters (not bytes),
/// ending it with an ellipsis when it does not fit. The result always fits.
pub fn truncate_with_ellipsis(s: &str, max_chars: usize) -> (out: String)
    ensures
        out@ == truncate_spec(s@, max_chars as nat),
        out@.len() <= max_chars,
{
    let cs = chars_of(s);
    if cs.len() <= max_chars {
        return string_of(cs.as_slice());
    }
    if max_chars == 0 {
        return String::new();
    }
    let mut out = string_of(slice_chars(cs.as_slice(), 0, max_chars - 1).as_slice());
    push_char(&mut out, '\u{2026}');
    out
}

/// The byte at channel `c` of pixel `(x, y)` of a `width x height` coverage
/// buffer turned -90 degrees: the source pixel `(ox, oy)` lands at
/// `(oy, width - 1 - ox)`, so `(x, y)` shows source pixel `(width - 1 - y, x)`,
/// tinted `rgb` with its coverage as alpha where it is covered, and clear
/// where it is not (or lies past the end of `alpha`).
pub open spec fn rotated_byte(
    alpha: Seq<u8>,
    width: int,
    rgb: [u8; 3],
    x: int,
    y: int,
    c: int,
) -> u8 {
    let src = x * width + (width - 1 - y);
    if src < alpha.len() && alpha[src] != 0 {
        if c == 3 {
            alpha[src]
        } else {
            rgb[c]
        }
    } else {
        0
    }
}

proof fn lemma_pixel_order(y2: int, x2: int, y: int, x: int, h: int)
    by (nonlinear_arith)
    requires
        0 <= x2 < h,
        0 <= x <= h,
        0 <= y2,
        y2 < y || (y2 == y && x2 < x),
    ensures
        y2 * h + x2 < y * h + x,
{
    if y2 < y {
        assert(y2 * h + x2 < (y2 + 1) * h);
        assert((y2 + 1) * h <= y * h);
    }
}

proof fn lemma_index_bounds(y: int, x: int, w: int, h: int)
    by (nonlinear_arith)
    requires
        0 <= y < w,
        0 <= x < h,
    ensures
        (y * h + x + 1) * 4 <= w * h * 4,
        x * w + (w - 1 - y) < w * h,
        0 <= x * w + (w - 1 - y),
{
    assert(y * h + x + 1 <= (y + 1) * h);
    assert((y + 1) * h <= w * h);
    assert(x * w + (w - 1 - y) < (x + 1) * w);
    assert((x + 1) * w <= h * w);
}

/// Turn a `width x height` coverage buffer -90 degrees into a
/// `height x width` RGBA buffer, every covered pixel tinted `rgb` with its
/// coverage as alpha, so that text drawn left to right reads bottom to top.
pub fn rotate_ccw(alpha: &[u8], width: u32, height: u32, rgb: [u8; 3]) -> (rgba: Vec<u8>)
    requires
        (width as int) * (height as int) * 4 <= usize::MAX,
    ensures
        rgba@.len() == (width as int) * (height as int) * 4,
        forall|y: int, x: int, c: int|
            0 <= y < width && 0 <= x < height && 0 <= c < 4 ==> #[trigger] rgba@[(y * height + x) * 4
                + c] == rotated_byte(alpha@, width as int, rgb, x, y, c),
{
    let w = width as usize;
    let h = height as usize;
    let mut rgba: Vec<u8> = Vec::new();
    let mut y: usize = 0;
    while y < w
        invariant
            w == width as usize,
            h == height as usize,
            (w as int) * (h as int) * 4 <= usize::MAX,
            y <= w,
            rgba@.len() == (y as int) * (h as int) * 4,
            forall|y2: int, x2: int, c: int|
                0 <= y2 < y && 0 <= x2 < h && 0 <= c < 4 ==> #[trigger] rgba@[(y2 * h + x2) * 4 + c]
                    == rotated_byte(alpha@, w as int, rgb, x2, y2, c),
        decreases w - y,
    {
        let mut x: usize = 0;
        while x < h
            invariant
                w == width as usize,
                h == height as usize,
                (w as int) * (h as int) * 4 <= usize::MAX,
                y < w,
                x <= h,
                rgba@.len() == ((y as int) * (h as int) + x) * 4,
                forall|y2: int, x2: int, c: int|
                    0 <= y2 && 0 <= x2 < h && (y2 < y || (y2 == y && x2 < x)) && 0 <= c < 4
                        ==> #[trigger] rgba@[(y2 * h + x2) * 4 + c] == rotated_byte(
                        alpha@,
                        w as int,
                        rgb,
                        x2,
                        y2,
                        c,
                    ),
            decreases h - x,
        {
            proof {
                lemma_index_bounds(y as int, x as int, w as int, h as int);
            }
            let src: usize = x * w + (w - 1 - y);
            let a: u8 = if src < alpha.len() {
                alpha[src]
            } else {
                0
            };
            let ghost base = rgba@;
            if a != 0 {
                rgba.push(rgb[0]);
                rgba.push(rgb[1]);
                rgba.push(rgb[2]);
                rgba.push(a);
            } else {
                rgba.push(0);
                rgba.push(0);
                rgba.push(0);
                rgba.push(0);
            }
            let ghost k = ((y as int) * (h as int) + x) * 4;
            assert forall|y2: int, x2: int, c: int|
                0 <= y2 && 0 <= x2 < h && (y2 < y || (y2 == y && x2 < x + 1)) && 0 <= c < 4
                    implies #[trigger] rgba@[(y2 * h + x2) * 4 + c] == rotated_byte(alpha@, w as int, rgb, x2, y2, c) by {
                if y2 == y && x2 == x {
                    assert((y2 * h + x2) * 4 + c == k + c);
                } else {
                    lemma_pixel_order(y2, x2, y as int, x as int, h as int);
                    assert((y2 * h + x2) * 4 + c < k) by (nonlinear_arith)
                        requires
                            y2 * h + x2 < (y as int) * (h as int) + x,
                            k == ((y as int) * (h as int) + x) * 4,
                            0 <= c < 4,
                    ;
                    assert(rgba@[(y2 * h + x2) * 4 + c] == base[(y2 * h + x2) * 4 + c]);
                }
            }
            x += 1;
        }
        assert(((y as int) * (h as int) + (h as int)) * 4 == ((y + 1) as int) * (h as int) * 4) by (nonlinear_arith);
        y += 1;
    }
    rgba
}

} // verus!
