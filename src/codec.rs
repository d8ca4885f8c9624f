//! The image encoder: PNG files from RGB canvases.
use image::ImageEncoder;
use vstd::prelude::*;

verus! {

/// Error type of the image codecs.
#[verifier::external_type_specification]
#[verifier::external_body]
pub struct ExImageError(image::ImageError);

/// The PNG file that the encoder writes for an RGB8 image, or `None` where it
/// refuses the image.
pub uninterp spec fn png_rgb8(pixels: Seq<u8>, width: u32, height: u32) -> Option<Seq<u8>>;

/// Relies on `image::codecs::png::PngEncoder::write_image` with `ColorType::Rgb8`:
/// it panics unless the buffer holds `width * height * 3` bytes, refuses only a
/// zero width or height, and what it writes depends on its arguments alone.
#[verifier::external_body]
pub(crate) fn encode_png(pixels: &[u8], width: u32, height: u32) -> (r: Result<
    Vec<u8>,
    image::ImageError,
>)
    requires
        pixels@.len() == width * height * 3,
    ensures
        r is Ok <==> png_rgb8(pixels@, width, height) is Some,
        r matches Ok(bytes) ==> png_rgb8(pixels@, width, height) == Some(bytes@),
        width > 0 && height > 0 ==> r is Ok,
{
    let mut out: Vec<u8> = Vec::new();
    image::codecs::png::PngEncoder::new(&mut out).write_image(
        pixels,
        width,
        height,
        image::ColorType::Rgb8,
    )?;
    Ok(out)
}

} // verus!
