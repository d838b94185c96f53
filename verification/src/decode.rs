//! Decoding image bytes into a pixel buffer.
//!
//! The bytes themselves come from wherever the caller read them; decoding is
//! pure, a function of the bytes alone, and is done by the `image` crate
//! behind one trusted wrapper.  What decoding yields for given bytes is
//! named, not spelled out: `image_decode_of` stands for the decoded width,
//! height and RGBA bytes, or `None` where the bytes are not a supported,
//! well-formed image.

use vstd::prelude::*;

use crate::ErrorKind;

verus! {

/// A decoded image: RGBA, row-major, four bytes per pixel.
pub struct PixelBuffer {
    pub width: u32,
    pub height: u32,
    pub data: Vec<u8>,
}

impl PixelBuffer {
    /// The buffer holds exactly one four-byte pixel per cell.
    pub open spec fn wf(self) -> bool {
        self.data@.len() == 4 * self.width * self.height
    }
}

pub uninterp spec fn image_decode_of(bytes: Seq<u8>) -> Option<(nat, nat, Seq<u8>)>;

/// Relies on image::load_from_memory and DynamicImage::to_rgba8: decoding is
/// a function of the bytes alone, and an RGBA buffer holds exactly
/// width * height * 4 bytes.  That the result depends on the bytes alone
/// assumes no process-global decoding hook is registered with the image
/// crate; nothing in this crate or its dependencies registers one.
#[verifier::external_body]
fn decode_rgba(bytes: &Vec<u8>) -> (r: Option<PixelBuffer>)
    ensures
        (match r {
            Some(p) => image_decode_of(bytes@) == Some(
                (p.width as nat, p.height as nat, p.data@),
            ) && p.wf(),
            None => image_decode_of(bytes@) is None,
        }),
{
    match image::load_from_memory(bytes.as_slice()) {
        Ok(img) => {
            let rgba = img.to_rgba8();
            let (width, height) = rgba.dimensions();
            Some(PixelBuffer { width, height, data: rgba.into_raw() })
        },
        Err(_) => None,
    }
}

/// Decode the bytes of an image file.  Succeeds with the decoded pixels
/// exactly when the bytes decode at all; otherwise reports `DecodeError`,
/// never a crash — a bad file is surfaced, not fatal.
pub fn decode_pixels(bytes: &Vec<u8>) -> (r: Result<PixelBuffer, ErrorKind>)
    ensures
        (match r {
            Ok(p) => image_decode_of(bytes@) == Some(
                (p.width as nat, p.height as nat, p.data@),
            ) && p.wf(),
            Err(e) => e == ErrorKind::DecodeError && image_decode_of(bytes@) is None,
        }),
{
    match decode_rgba(bytes) {
        Some(p) => Ok(p),
        None => Err(ErrorKind::DecodeError),
    }
}

} // verus!
