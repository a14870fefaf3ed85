//! Sprite creation from encoded image bytes.
//!
//! Decoding is done by the `image` crate; the engine only keeps the decoded
//! RGBA bytes and the dimensions as plain values.

use vstd::prelude::*;
use crate::scene::Sprite;

verus! {

/// What decoding a byte buffer as an image yields: `None` where the bytes
/// are not a decodable image, else the RGBA8 pixel bytes (four per pixel,
/// row major) with the width and height. The result is a function of the
/// bytes alone.
pub uninterp spec fn image_rgba_decode(bytes: Seq<u8>) -> Option<(Seq<u8>, u32, u32)>;

/// Relies on `image::load_from_memory`, which guesses the format from the
/// byte buffer alone and decodes it, and on `DynamicImage::to_rgba8` /
/// `ImageBuffer::into_raw`, which convert the decoded image into an RGBA8
/// byte buffer of exactly four bytes per pixel.
#[verifier::external_body]
fn decode_rgba(bytes: &[u8]) -> (r: Option<(Vec<u8>, u32, u32)>)
    ensures
        match r {
            Some(d) => image_rgba_decode(bytes@) == Some((d.0@, d.1, d.2))
                && d.0@.len() == 4 * d.1 * d.2,
            None => image_rgba_decode(bytes@) is None,
        },
{
    match image::load_from_memory(bytes) {
        Ok(img) => {
            let rgba = img.to_rgba8();
            let w = rgba.width();
            let h = rgba.height();
            Some((rgba.into_raw(), w, h))
        },
        Err(_) => None,
    }
}

impl Sprite {
    /// Decode `bytes` into a sprite with the given identity and layer.
    /// Returns `None` where the bytes do not decode, or where the image
    /// exceeds the device's texture extent limit.
    pub fn new(id: u32, bytes: &[u8], layer: i32) -> (r: Option<Sprite>)
        ensures
            match r {
                Some(s) => {
                    &&& image_rgba_decode(bytes@) == Some((s@.rgba, s@.width, s@.height))
                    &&& s@.id == id
                    &&& s@.layer == layer
                    &&& s@.wf()
                },
                None => match image_rgba_decode(bytes@) {
                    Some(d) => d.1 > 0xFFFF || d.2 > 0xFFFF,
                    None => true,
                },
            },
    {
        match decode_rgba(bytes) {
            Some((rgba, width, height)) => {
                if width > 0xFFFF || height > 0xFFFF {
                    None
                } else {
                    Some(Sprite { id, rgba, width, height, layer })
                }
            },
            None => None,
        }
    }
}

} // verus!
