//! The codec that turns uploaded bytes into pixels and pixels into PNG
//! bytes. Both directions are the work of the `image` crate; nothing in this
//! file is proved.

use vstd::prelude::*;
use std::io::Cursor;
use image::io::Reader;
use image::{ImageBuffer, ImageFormat, ImageOutputFormat, Rgba};

verus! {

/// The PNG stream that the `image` crate writes for an RGBA image of the
/// given width and height.
pub uninterp spec fn png_encoding(width: nat, height: nat, samples: Seq<u8>) -> Seq<u8>;

/// Decodes `bytes` with `image::io::Reader::decode`, in the format that
/// `image::ImageFormat::from_mime_type` gives for `media_type`, and converts
/// the image to 8-bit RGBA with `DynamicImage::into_rgba8`. What comes back
/// is width, height and samples; `None` where the crate knows no format for
/// the media type or does not decode the bytes.
///
/// Trusted, with nothing claimed of what comes back: some decoders pick
/// their arithmetic by the processor they run on, so that one file may
/// decode to samples that differ in the last bit from machine to machine.
#[verifier::external_body]
pub(crate) fn decode_rgba(bytes: &Vec<u8>, media_type: &str) -> (decoded: Option<
    (u32, u32, Vec<u8>),
>) {
    let format = ImageFormat::from_mime_type(media_type)?;
    let image = Reader::with_format(Cursor::new(bytes.as_slice()), format).decode().ok()?;
    let rgba = image.into_rgba8();
    Some((rgba.width(), rgba.height(), rgba.into_raw()))
}

/// Writes an RGBA image as PNG with `image::ImageBuffer::write_to`.
///
/// Trusted: the stream depends on the dimensions and the samples alone. The
/// encoder refuses an image without pixels and a buffer of another length
/// than four samples for each pixel, so both are asked of the caller.
#[verifier::external_body]
pub(crate) fn encode_png(width: u32, height: u32, samples: &Vec<u8>) -> (encoded: Vec<u8>)
    requires
        width >= 1,
        height >= 1,
        samples@.len() == width * height * 4,
    ensures
        encoded@ == png_encoding(width as nat, height as nat, samples@),
{
    let image: ImageBuffer<Rgba<u8>, &[u8]> =
        ImageBuffer::from_raw(width, height, samples.as_slice()).unwrap();
    let mut buff = Cursor::new(Vec::new());
    image.write_to(&mut buff, ImageOutputFormat::Png).unwrap();
    buff.into_inner()
}

} // verus!
