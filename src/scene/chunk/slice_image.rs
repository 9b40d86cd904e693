use vstd::prelude::*;

use crate::scene::chunk::chunk_content::RgbaSlice;

verus! {

#[verifier::external_type_specification]
#[verifier::external_body]
pub struct ExImageError(image::ImageError);

/// Width, height and RGBA8 pixels of the PNG image that these bytes encode.
pub uninterp spec fn decoded_rgba8(encoded: Seq<u8>) -> Option<(u32, u32, Seq<u8>)>;

/// Relies on image::load_from_memory_with_format, which decodes the bytes as
/// PNG (the format is fixed, so no decoding hook is consulted), and on
/// DynamicImage::to_rgba8, which converts any color type to 8-bit RGBA in a
/// buffer of exactly four bytes per pixel.
#[verifier::external_body]
pub(crate) fn decode_rgba8(encoded: &[u8]) -> (r: Result<RgbaSlice, image::ImageError>)
    ensures
        r is Ok <==> decoded_rgba8(encoded@) is Some,
        r matches Ok(s) ==> Some(s@) == decoded_rgba8(encoded@),
        r matches Ok(s) ==> s.pixels@.len() == 4 * (s.width * s.height),
{
    let image = image::load_from_memory_with_format(encoded, image::ImageFormat::Png)?;
    let image = image.to_rgba8();
    Ok(RgbaSlice { width: image.width(), height: image.height(), pixels: image.into_raw() })
}

} // verus!
