//! Decoding the PNG atlases of the animations into 8-bit RGBA pixels.
use vstd::prelude::*;

verus! {

/// What the `image` crate's PNG decoder makes of `bytes`: `None` when they are not a PNG
/// it can decode; `Some(None)` when they decode to pixels of another kind than 8-bit
/// RGBA; else the width, the height and the pixel bytes, four to a pixel, row by row.
pub uninterp spec fn png_rgba8(bytes: Seq<u8>) -> Option<Option<(u32, u32, Seq<u8>)>>;

/// Decodes `bytes` with `image::load_from_memory_with_format` as a PNG. The result is
/// named [`png_rgba8`]: the decoder is deterministic, and what it makes of given bytes
/// is not stated here. Nothing is required of `bytes`: the decoder reports malformed
/// data as an error, and its sources here show no input on which it panics; that none
/// does is not shown either (the `png` crate's decoder holds `unwrap`s whose safety rests
/// on its own state).
#[verifier::external_body]
fn decode_png(bytes: &[u8]) -> (r: Option<Option<(u32, u32, Vec<u8>)>>)
    ensures
        match png_rgba8(bytes@) {
            None => r is None,
            Some(None) => r matches Some(None),
            Some(Some((w, h, p))) => r matches Some(Some((w2, h2, p2))) && w2 == w && h2 == h && p2@ == p,
        },
{
    match image::load_from_memory_with_format(bytes, image::ImageFormat::Png) {
        Ok(image::DynamicImage::ImageRgba8(img)) => Some(Some((img.width(), img.height(), img.into_raw()))),
        Ok(_) => Some(None),
        Err(_) => None,
    }
}

/// Why an atlas could not be had.
#[derive(Clone, Copy, Debug, PartialEq, Eq, Structural)]
pub enum AtlasError {
    /// The bytes are not a PNG that decodes.
    NotPng,
    /// The PNG decodes to pixels of another kind than 8-bit RGBA.
    NotRgba8,
}

/// The atlas from what the decoder made of its bytes: the pixels when they are 8-bit
/// RGBA, else the error that says why not.
pub fn atlas_from_decoded(decoded: Option<Option<(u32, u32, Vec<u8>)>>) -> (r: Result<(u32, u32, Vec<u8>), AtlasError>)
    ensures
        match decoded {
            None => r == Err::<(u32, u32, Vec<u8>), AtlasError>(AtlasError::NotPng),
            Some(None) => r == Err::<(u32, u32, Vec<u8>), AtlasError>(AtlasError::NotRgba8),
            Some(Some((w, h, p))) => r matches Ok((w2, h2, p2)) && w2 == w && h2 == h && p2@ == p@,
        },
{
    match decoded {
        None => Err(AtlasError::NotPng),
        Some(None) => Err(AtlasError::NotRgba8),
        Some(Some((w, h, p))) => Ok((w, h, p)),
    }
}

/// Decodes the PNG atlas `bytes` into its width, height and 8-bit RGBA pixels (see
/// [`png_rgba8`] and [`atlas_from_decoded`]).
pub fn decode_atlas(bytes: &[u8]) -> (r: Result<(u32, u32, Vec<u8>), AtlasError>)
    ensures
        match png_rgba8(bytes@) {
            None => r == Err::<(u32, u32, Vec<u8>), AtlasError>(AtlasError::NotPng),
            Some(None) => r == Err::<(u32, u32, Vec<u8>), AtlasError>(AtlasError::NotRgba8),
            Some(Some((w, h, p))) => r matches Ok((w2, h2, p2)) && w2 == w && h2 == h && p2@ == p,
        },
{
    atlas_from_decoded(decode_png(bytes))
}

} // verus!
