//! A wallpaper ready for one output: decoded, scaled, and packed in the
//! byte order the compositor's `Argb8888` buffers use.
use vstd::prelude::*;
use crate::raster::{decoded_size, decodes_as_image, into_rgba, load_image, scale_to_fill, ScaleFailure};
use crate::text::owned;

verus! {

/// Bytes per pixel of both the decoded and the packed image.
pub const BYTES_PER_PIXEL: usize = 4;

/// A decoded wallpaper, sized for one particular output.
#[derive(Debug, Clone, PartialEq, Eq)]
pub struct Wallpaper {
    /// The file this came from, so a re-assignment of the same picture at the
    /// same size can reuse it instead of decoding again.
    pub path: String,
    pub width: u32,
    pub height: u32,
    /// Little-endian `Argb8888`: in memory each pixel is B, G, R, A.
    pub bgra: Vec<u8>,
}

/// Why a wallpaper could not be prepared. An underlying failure travels as
/// its message.
#[derive(Debug, Clone, PartialEq, Eq)]
pub enum DecodeError {
    Read { path: String, reason: String },
    Decode { path: String, reason: String },
    Empty { path: String },
    TooLarge { width: u32, height: u32 },
}

/// The packed form of the RGBA pixels `rgba`: each pixel's red and blue
/// swapped and its alpha made opaque, so a transparent region cannot show
/// the compositor's own background. Bytes past the last whole pixel stay.
pub open spec fn packed(rgba: Seq<u8>, i: int) -> u8 {
    let p = i - i % 4;
    if p + 4 > rgba.len() {
        rgba[i]
    } else if i % 4 == 0 {
        rgba[p + 2]
    } else if i % 4 == 2 {
        rgba[p]
    } else if i % 4 == 3 {
        0xffu8
    } else {
        rgba[i]
    }
}

/// Repack resized RGBA pixels as opaque BGRA, in place.
pub fn pack_bgra(pixels: &mut Vec<u8>)
    ensures
        final(pixels)@.len() == old(pixels)@.len(),
        forall|i: int| 0 <= i < old(pixels)@.len() ==> #[trigger] final(pixels)@[i] == packed(
            old(pixels)@,
            i,
        ),
{
    let ghost src = pixels@;
    let mut p: usize = 0;
    while pixels.len() >= 4 && p <= pixels.len() - 4
        invariant
            pixels@.len() == src.len(),
            p % 4 == 0,
            p <= pixels.len(),
            forall|i: int| 0 <= i < p ==> #[trigger] pixels@[i] == packed(src, i),
            forall|i: int| p <= i < src.len() ==> #[trigger] pixels@[i] == src[i],
        decreases pixels.len() - p,
    {
        let r = pixels[p];
        let b = pixels[p + 2];
        pixels.set(p, b);
        pixels.set(p + 2, r);
        pixels.set(p + 3, 0xff);
        assert forall|i: int| p <= i < p + 4 implies #[trigger] pixels@[i] == packed(src, i) by {
            assert(i - i % 4 == p) by (nonlinear_arith)
                requires
                    p % 4 == 0,
                    p <= i < p + 4,
            ;
            assert(i % 4 == i - p) by (nonlinear_arith)
                requires
                    p % 4 == 0,
                    p <= i < p + 4,
            ;
        }
        p += 4;
    }
    assert forall|i: int| p <= i < src.len() implies #[trigger] pixels@[i] == packed(src, i) by {
        assert(i - i % 4 >= p) by (nonlinear_arith)
            requires
                p % 4 == 0,
                p <= i,
        ;
    }
}

/// The packed form of a buffer of whole pixels is opaque: every fourth byte
/// is the alpha channel, and it is 0xff.
proof fn lemma_packed_is_opaque(rgba: Seq<u8>, i: int)
    requires
        rgba.len() % 4 == 0,
        0 <= i < rgba.len(),
        i % 4 == 3,
    ensures
        packed(rgba, i) == 0xffu8,
{
    assert(i - i % 4 + 4 <= rgba.len()) by (nonlinear_arith)
        requires
            rgba.len() % 4 == 0,
            0 <= i < rgba.len(),
            i % 4 == 3,
    ;
}

/// Decode the picture in `contents` (what reading the file at `path` gave),
/// scale it to exactly `width x height` so that it fills the output with its
/// aspect ratio kept and the overflow cropped from the centre, and pack it as
/// opaque BGRA. A zero-sized output is refused before anything else; then a
/// failed read, bytes that decode as no image, and a picture with no pixels.
pub fn prepare(path: &str, contents: Result<Vec<u8>, String>, width: u32, height: u32) -> (r: Result<
    Wallpaper,
    DecodeError,
>)
    requires
        (width as int) * (height as int) * 4 <= usize::MAX,
    ensures
        (width == 0 || height == 0) ==> (r matches Err(DecodeError::Empty { path: p }) && p@ == path@),
        (width > 0 && height > 0) ==> match contents {
            Err(reason) => r matches Err(DecodeError::Read { path: p, reason: q }) && p@ == path@ && q@
                == reason@,
            Ok(bytes) => {
                &&& !decodes_as_image(bytes@) ==> (r matches Err(DecodeError::Decode { path: p, .. })
                    && p@ == path@)
                &&& (decodes_as_image(bytes@) && (decoded_size(bytes@).0 == 0 || decoded_size(bytes@).1
                    == 0)) ==> (r matches Err(DecodeError::Empty { path: p }) && p@ == path@)
            },
        },
        r is Ok <==> (width > 0 && height > 0 && (contents matches Ok(bytes) && decodes_as_image(bytes@)
            && decoded_size(bytes@).0 > 0 && decoded_size(bytes@).1 > 0)),
        r matches Ok(w) ==> {
            &&& w.path@ == path@
            &&& w.width == width
            &&& w.height == height
            &&& w.bgra@.len() == (width as int) * (height as int) * 4
            &&& forall|i: int| 0 <= i < w.bgra@.len() && i % 4 == 3 ==> #[trigger] w.bgra@[i] == 0xffu8
        },
        r matches Err(e) ==> match e {
            DecodeError::Read { path: p, .. } => p@ == path@,
            DecodeError::Decode { path: p, .. } => p@ == path@,
            DecodeError::Empty { path: p } => p@ == path@,
            DecodeError::TooLarge { width: w, height: h } => w == width && h == height,
        },
{
    if width == 0 || height == 0 {
        return Err(DecodeError::Empty { path: owned(path) });
    }
    let bytes = match contents {
        Ok(b) => b,
        Err(reason) => return Err(DecodeError::Read { path: owned(path), reason }),
    };
    let img = match load_image(bytes.as_slice()) {
        Ok(img) => img,
        Err(reason) => return Err(DecodeError::Decode { path: owned(path), reason }),
    };
    let source_w = img.width();
    let source_h = img.height();
    let pixels = into_rgba(img);
    assert(pixels@.len() == pixels.len());
    if source_w == 0 || source_h == 0 {
        return Err(DecodeError::Empty { path: owned(path) });
    }
    let mut bgra = match scale_to_fill(pixels, source_w, source_h, width, height) {
        Ok(v) => v,
        Err(ScaleFailure::SourceTooSmall) => return Err(DecodeError::Empty { path: owned(path) }),
        Err(ScaleFailure::Refused) => return Err(DecodeError::TooLarge { width, height }),
    };
    let ghost scaled = bgra@;
    pack_bgra(&mut bgra);
    assert(scaled.len() > 0) by (nonlinear_arith)
        requires
            scaled.len() == (width as int) * (height as int) * 4,
            width > 0,
            height > 0,
    ;
    if bgra.len() == 0 {
        return Err(DecodeError::Empty { path: owned(path) });
    }
    assert(scaled.len() % 4 == 0) by (nonlinear_arith)
        requires
            scaled.len() == (width as int) * (height as int) * 4,
    ;
    assert forall|i: int| 0 <= i < bgra@.len() && i % 4 == 3 implies #[trigger] bgra@[i] == 0xffu8 by {
        lemma_packed_is_opaque(scaled, i);
    }
    Ok(Wallpaper { path: owned(path), width, height, bgra })
}

} // verus!
