//! Decoding and scaling pictures. The `image` crate decodes and
//! `fast_image_resize` scales; what the library does with the pixels is its
//! own.
use fast_image_resize as fr;
use vstd::prelude::*;

verus! {

/// A decoded image of the `image` crate, carried from one call to the next.
#[verifier::external_type_specification]
#[verifier::external_body]
pub struct ExDynamicImage(image::DynamicImage);

/// Whether `image::load_from_memory` decodes `bytes`: their format, guessed
/// from the content, is one this build decodes, and they decode as it.
pub uninterp spec fn decodes_as_image(bytes: Seq<u8>) -> bool;

/// The width and height of the image `image::load_from_memory` decodes from
/// `bytes`, where it decodes one.
pub uninterp spec fn decoded_size(bytes: Seq<u8>) -> (u32, u32);

/// A decoded picture together with its width and height, as the `image`
/// crate reports them. Only the functions of this module build one, each
/// from an image the crate has just handed back, so the size always is the
/// image's own.
pub struct Picture {
    image: image::DynamicImage,
    width: u32,
    height: u32,
}

impl Picture {
    /// Width and height, in pixels.
    pub closed spec fn size(&self) -> (u32, u32) {
        (self.width, self.height)
    }

    pub fn width(&self) -> (r: u32)
        ensures
            r == self.size().0,
    {
        self.width
    }

    pub fn height(&self) -> (r: u32)
        ensures
            r == self.size().1,
    {
        self.height
    }
}

/// `image::load_from_memory`: the image `bytes` hold, with its
/// `GenericImageView::dimensions`, or the decoder's message. Its size is the
/// decoded size of `bytes`; its pixels are not stated.
#[verifier::external_body]
pub(crate) fn load_image(bytes: &[u8]) -> (r: Result<Picture, String>)
    ensures
        r is Ok == decodes_as_image(bytes@),
        r matches Ok(p) ==> p.size() == decoded_size(bytes@),
{
    match image::load_from_memory(bytes) {
        Ok(image) => {
            let (width, height) = image::GenericImageView::dimensions(&image);
            Ok(Picture { image, width, height })
        },
        Err(e) => Err(e.to_string()),
    }
}

/// `DynamicImage::thumbnail`: the picture scaled, aspect kept, to the
/// largest size that fits within `width` by `height` (the size comes from
/// `resize_dimensions` without fill, each side at least one pixel, so it
/// fits whenever both bounds are at least one). The pixels are not stated.
#[verifier::external_body]
pub(crate) fn thumbnail(p: &Picture, width: u32, height: u32) -> (r: Picture)
    ensures
        width > 0 && height > 0 ==> r.size().0 <= width && r.size().1 <= height,
{
    let image = p.image.thumbnail(width, height);
    let (width, height) = image::GenericImageView::dimensions(&image);
    Picture { image, width, height }
}

/// `DynamicImage::to_rgba8`, taken apart into its raw buffer: the RGBA
/// pixels, four bytes each, row by row, of the picture's own size. The
/// pixel values are not stated.
#[verifier::external_body]
pub(crate) fn to_rgba(p: &Picture) -> (r: Vec<u8>)
    ensures
        r@.len() == (p.size().0 as int) * (p.size().1 as int) * 4,
{
    p.image.to_rgba8().into_raw()
}

/// `DynamicImage::into_rgba8`, taken apart into its raw buffer, without a
/// copy when the picture is RGBA already: the RGBA pixels, four bytes each,
/// row by row, of the picture's own size. The pixel values are not stated.
#[verifier::external_body]
pub(crate) fn into_rgba(p: Picture) -> (r: Vec<u8>)
    ensures
        r@.len() == (p.size().0 as int) * (p.size().1 as int) * 4,
{
    p.image.into_rgba8().into_raw()
}

/// `DynamicImage::resize_exact` with the `Triangle` filter: the picture
/// scaled to exactly `width x height`, aspect ratio not kept. A zero side is
/// not asked for here. The pixels are not stated.
#[verifier::external_body]
pub(crate) fn resize_exact(p: &Picture, width: u32, height: u32) -> (r: Picture)
    requires
        width > 0,
        height > 0,
    ensures
        r.size() == (width, height),
{
    let image = p.image.resize_exact(width, height, image::imageops::FilterType::Triangle);
    let (width, height) = image::GenericImageView::dimensions(&image);
    Picture { image, width, height }
}

/// Why a scale could not be done.
#[derive(Debug, Clone, Copy, PartialEq, Eq, Structural)]
pub enum ScaleFailure {
    /// The pixel buffer is shorter than its stated size needs.
    SourceTooSmall,
    /// The scaler refused the job.
    Refused,
}

/// `fast_image_resize`: the `src_width x src_height` RGBA pixels `pixels`
/// scaled to exactly `width x height` by a Lanczos3 convolution, the aspect
/// ratio kept and the overflow cropped from the centre (the default
/// centring of `fit_into_destination`), alpha left as colour. The source
/// refuses only a buffer shorter than its size (an RGBA buffer has no
/// alignment to refuse; the crop box that `fit_src_into_dst_size` computes
/// lies within the source, and a zero side makes the resize do nothing), and
/// hands back the destination buffer it allocated at `width * height * 4`
/// bytes. The pixels are not stated: the scaler picks its code path by the
/// processor it runs on.
#[verifier::external_body]
pub(crate) fn scale_to_fill(
    pixels: Vec<u8>,
    src_width: u32,
    src_height: u32,
    width: u32,
    height: u32,
) -> (r: Result<Vec<u8>, ScaleFailure>)
    requires
        (width as int) * (height as int) * 4 <= usize::MAX,
    ensures
        (src_width as int) * (src_height as int) * 4 <= usize::MAX ==> {
            &&& (r is Ok <==> pixels@.len() >= (src_width as int) * (src_height as int) * 4)
            &&& (r is Err ==> r == Err::<Vec<u8>, ScaleFailure>(ScaleFailure::SourceTooSmall))
        },
        r matches Ok(v) ==> v@.len() == (width as int) * (height as int) * 4,
{
    let src = fr::images::Image::from_vec_u8(src_width, src_height, pixels, fr::PixelType::U8x4)
        .map_err(|_| ScaleFailure::SourceTooSmall)?;
    let mut dst = fr::images::Image::new(width, height, fr::PixelType::U8x4);
    let options = fr::ResizeOptions::new()
        .resize_alg(fr::ResizeAlg::Convolution(fr::FilterType::Lanczos3))
        .fit_into_destination(None)
        .use_alpha(false);
    fr::Resizer::new().resize(&src, &mut dst, &options).map_err(|_| ScaleFailure::Refused)?;
    Ok(dst.into_vec())
}

} // verus!
