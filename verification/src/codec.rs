//! Trusted adapter around the `image` crate: decoding uploaded bytes to an
//! 8-bit grayscale buffer and re-encoding a buffer as PNG or JPEG, both on
//! in-memory byte vectors.

use vstd::prelude::*;

verus! {

/// What decoding yields on given bytes: `None` when the bytes are not a
/// valid image of a supported container, otherwise the width, height and
/// row-major luminance samples. Decoding is a function of the bytes alone.
pub uninterp spec fn decoded_gray(bytes: Seq<u8>) -> Option<(nat, nat, Seq<u8>)>;

/// What encoding an 8-bit grayscale buffer yields: `None` when the encoder
/// rejects the buffer (for JPEG, a dimension of zero or above 65535),
/// otherwise the container bytes. Encoding is a function of the pixel
/// data, the dimensions and the chosen format alone.
pub uninterp spec fn encoded_image(w: nat, h: nat, data: Seq<u8>, png: bool) -> Option<Seq<u8>>;

/// Relies on `image::load_from_memory` and `DynamicImage::to_luma8`:
/// decoding sniffs the container from the bytes and is deterministic, and
/// the luminance conversion (the crate's fixed perceptual weighting of the
/// color channels) yields exactly `width * height` samples, row-major.
#[verifier::external_body]
pub(crate) fn decode_luma(bytes: &Vec<u8>) -> (r: Option<(u32, u32, Vec<u8>)>)
    ensures
        (r is Some) <==> (decoded_gray(bytes@) is Some),
        r is Some ==> {
            let (w, h, d) = r.unwrap();
            &&& decoded_gray(bytes@) == Some((w as nat, h as nat, d@))
            &&& d@.len() == (w as nat) * (h as nat)
        },
{
    match image::load_from_memory(bytes.as_slice()) {
        Ok(img) => {
            let g = img.to_luma8();
            let w = g.width();
            let h = g.height();
            Some((w, h, g.into_raw()))
        },
        Err(_) => None,
    }
}

/// Relies on `image::write_buffer_with_format` with an in-memory cursor:
/// encoding an `L8` buffer to PNG or JPEG is deterministic in the pixel
/// data, dimensions and format. The length premise keeps out the inputs on
/// which the encoder panics (`width * height != data.len()`).
#[verifier::external_body]
pub(crate) fn encode_gray(w: u32, h: u32, data: &Vec<u8>, png: bool) -> (r: Option<Vec<u8>>)
    requires
        data@.len() == (w as nat) * (h as nat),
    ensures
        (r is Some) <==> (encoded_image(w as nat, h as nat, data@, png) is Some),
        r is Some ==> r.unwrap()@ == encoded_image(w as nat, h as nat, data@, png).unwrap(),
{
    let mut cur = std::io::Cursor::new(Vec::new());
    let fmt = if png { image::ImageFormat::Png } else { image::ImageFormat::Jpeg };
    match image::write_buffer_with_format(
        &mut cur, data.as_slice(), w, h, image::ExtendedColorType::L8, fmt) {
        Ok(()) => Some(cur.into_inner()),
        Err(_) => None,
    }
}

} // verus!
