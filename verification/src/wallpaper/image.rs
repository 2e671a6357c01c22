//! Which files are wallpapers: identified by their content, never by their
//! extension, against the formats this build decodes.
use vstd::prelude::*;

verus! {

/// How many bytes of a file identify it.
pub const SNIFF_BYTES: usize = 64;

/// The formats the `image` crate tells apart that matter here.
#[derive(Debug, Clone, Copy, PartialEq, Eq, Structural)]
pub enum ImageKind {
    Png,
    Jpeg,
    Gif,
    Bmp,
    /// A format the crate knows that this build does not decode.
    Other,
}

/// Whether `h` begins with `p`.
pub open spec fn has_magic(h: Seq<u8>, p: Seq<u8>) -> bool {
    p.len() <= h.len() && h.take(p.len() as int) == p
}

/// The PNG signature.
pub open spec fn png_magic() -> Seq<u8> {
    seq![0x89u8, 0x50u8, 0x4eu8, 0x47u8, 0x0du8, 0x0au8, 0x1au8, 0x0au8]
}

/// The JPEG signature.
pub open spec fn jpeg_magic() -> Seq<u8> {
    seq![0xffu8, 0xd8u8, 0xffu8]
}

/// The two GIF signatures, `GIF89a` and `GIF87a`.
pub open spec fn gif_magic(h: Seq<u8>) -> bool {
    has_magic(h, seq![0x47u8, 0x49u8, 0x46u8, 0x38u8, 0x39u8, 0x61u8]) || has_magic(h, seq![0x47u8, 0x49u8, 0x46u8, 0x38u8, 0x37u8, 0x61u8])
}

/// The BMP signature, `BM`.
pub open spec fn bmp_magic() -> Seq<u8> {
    seq![0x42u8, 0x4du8]
}

/// Whether `h` begins with the signature of a format this build decodes.
pub open spec fn supported_magic(h: Seq<u8>) -> bool {
    has_magic(h, png_magic()) || has_magic(h, jpeg_magic()) || gif_magic(h) || has_magic(h, bmp_magic())
}

/// Whether `h` begins with the signature of a format the `image` crate
/// recognises but this build does not decode: WebP (`RIFF`, any four bytes,
/// `WEBP`), AVIF (two zero bytes, any two, `ftypavif`), TIFF, DDS, ICO,
/// Radiance HDR, OpenEXR, QOI, PNM and farbfeld.
pub open spec fn other_magic(h: Seq<u8>) -> bool {
    ||| (has_magic(h, seq![0x52u8, 0x49u8, 0x46u8, 0x46u8]) && h.len() >= 12 && h.subrange(8, 12) == seq![0x57u8, 0x45u8, 0x42u8, 0x50u8])
    ||| (h.len() >= 12 && h[0] == 0u8 && h[1] == 0u8 && h.subrange(4, 12) == seq![0x66u8, 0x74u8, 0x79u8, 0x70u8, 0x61u8, 0x76u8, 0x69u8, 0x66u8])
    ||| has_magic(h, seq![0x4du8, 0x4du8, 0x00u8, 0x2au8])
    ||| has_magic(h, seq![0x49u8, 0x49u8, 0x2au8, 0x00u8])
    ||| has_magic(h, seq![0x44u8, 0x44u8, 0x53u8, 0x20u8])
    ||| has_magic(h, seq![0x00u8, 0x00u8, 0x01u8, 0x00u8])
    ||| has_magic(h, seq![0x23u8, 0x3fu8, 0x52u8, 0x41u8, 0x44u8, 0x49u8, 0x41u8, 0x4eu8, 0x43u8, 0x45u8])
    ||| has_magic(h, seq![0x76u8, 0x2fu8, 0x31u8, 0x01u8])
    ||| has_magic(h, seq![0x71u8, 0x6fu8, 0x69u8, 0x66u8])
    ||| has_magic(h, seq![0x50u8, 0x31u8])
    ||| has_magic(h, seq![0x50u8, 0x32u8])
    ||| has_magic(h, seq![0x50u8, 0x33u8])
    ||| has_magic(h, seq![0x50u8, 0x34u8])
    ||| has_magic(h, seq![0x50u8, 0x35u8])
    ||| has_magic(h, seq![0x50u8, 0x36u8])
    ||| has_magic(h, seq![0x50u8, 0x37u8])
    ||| has_magic(h, seq![0x66u8, 0x61u8, 0x72u8, 0x62u8, 0x66u8, 0x65u8, 0x6cu8, 0x64u8])
}

/// `image::guess_format`: the format whose magic bytes begin `header`, by
/// the crate's table (`MAGIC_BYTES`, tried in order), told apart for the
/// formats this build decodes; `None` where no entry of the table matches.
/// The signatures of the four decoded formats begin with bytes that begin no
/// other entry, so at most one kind is named for any header.
#[verifier::external_body]
fn guess_format(header: &[u8]) -> (k: Option<ImageKind>)
    ensures
        has_magic(header@, png_magic()) ==> k == Some(ImageKind::Png),
        has_magic(header@, jpeg_magic()) ==> k == Some(ImageKind::Jpeg),
        gif_magic(header@) ==> k == Some(ImageKind::Gif),
        has_magic(header@, bmp_magic()) ==> k == Some(ImageKind::Bmp),
        other_magic(header@) ==> k == Some(ImageKind::Other),
        !supported_magic(header@) && !other_magic(header@) ==> k is None,
{
    match image::guess_format(header) {
        Ok(image::ImageFormat::Png) => Some(ImageKind::Png),
        Ok(image::ImageFormat::Jpeg) => Some(ImageKind::Jpeg),
        Ok(image::ImageFormat::Gif) => Some(ImageKind::Gif),
        Ok(image::ImageFormat::Bmp) => Some(ImageKind::Bmp),
        Ok(_) => Some(ImageKind::Other),
        Err(_) => None,
    }
}

/// Whether a file whose first bytes are `header` is a wallpaper this build
/// can show: PNG, JPEG, GIF or BMP by content, whatever its name. A short or
/// empty file, a text file and a WebP file match none of them.
pub fn is_supported_image(header: &[u8]) -> (b: bool)
    ensures
        b == supported_magic(header@),
{
    match guess_format(header) {
        Some(ImageKind::Other) | None => false,
        Some(_) => true,
    }
}

} // verus!
