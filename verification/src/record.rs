//! Ingestion: from the bytes of an uploaded file to an image record, which
//! keeps the decoded image beside its current rendering.

use vstd::prelude::*;
use crate::codec::decode_rgba;
use crate::engine::{calc_new_image, is_rendering};
use crate::grid::{GridModel, PixelGrid};
use crate::media::{denotes_image, is_image_type};
use crate::quantize::valid_level;

verus! {

/// What can go wrong in a session. None of it ends the session.
#[derive(Debug, Clone, Copy, PartialEq, Eq, Structural)]
pub enum SessionError {
    /// The declared media type of an upload does not denote an image.
    NotAnImage,
    /// The bytes of an upload could not be decoded as the declared type.
    DecodeError,
    /// A configuration value lies outside the range of its field.
    InvalidConfigValue,
}

/// What an image record is.
#[verifier::ext_equal]
pub struct RecordModel {
    pub name: Seq<char>,
    pub media_type: Seq<char>,
    pub source_pixels: GridModel,
    pub source_bytes: Seq<u8>,
    pub rendered_bytes: Seq<u8>,
}

impl RecordModel {
    /// The rendering of the record is one of its decoded image at level `q`
    /// and swap strength `strength`.
    pub open spec fn rendered_under(self, q: int, strength: int) -> bool {
        self.source_pixels.wf() && is_rendering(self.source_pixels, q, strength, self.rendered_bytes)
    }

    /// The two records agree in all that ingestion has set: name, media
    /// type, decoded image and uploaded bytes.
    pub open spec fn same_source(self, other: RecordModel) -> bool {
        &&& self.name == other.name
        &&& self.media_type == other.media_type
        &&& self.source_pixels == other.source_pixels
        &&& self.source_bytes == other.source_bytes
    }
}

/// The model of what a decoding gave, if it gave a grid.
pub open spec fn grid_view(decoded: Option<PixelGrid>) -> Option<GridModel> {
    match decoded {
        Some(grid) => Some(grid@),
        None => None,
    }
}

/// The error with which an upload is refused, if it is, once it is known
/// what its bytes decode to: `NotAnImage` where the declared media type does
/// not denote an image, whatever the bytes hold; `DecodeError` where it does
/// and the bytes did not decode to a grid.
pub open spec fn acceptance_error(media_type: Seq<char>, decoded: Option<GridModel>) -> Option<
    SessionError,
> {
    if !is_image_type(media_type) {
        Some(SessionError::NotAnImage)
    } else if decoded is None {
        Some(SessionError::DecodeError)
    } else {
        None
    }
}

/// The error with which an upload of this media type is refused, if it is
/// refused.
pub open spec fn refusal(media_type: Seq<char>) -> SessionError {
    if is_image_type(media_type) {
        SessionError::DecodeError
    } else {
        SessionError::NotAnImage
    }
}

/// One ingested file: its name and declared media type, the decoded image,
/// the bytes as they were uploaded, and the current rendering.
#[derive(Debug, Clone, PartialEq, Eq)]
pub struct ImageRecord {
    name: String,
    media_type: String,
    source_pixels: PixelGrid,
    source_bytes: Vec<u8>,
    rendered_bytes: Vec<u8>,
}

impl View for ImageRecord {
    type V = RecordModel;

    closed spec fn view(&self) -> RecordModel {
        RecordModel {
            name: self.name@,
            media_type: self.media_type@,
            source_pixels: self.source_pixels@,
            source_bytes: self.source_bytes@,
            rendered_bytes: self.rendered_bytes@,
        }
    }
}

impl ImageRecord {
    /// Makes the record of a decoded image, rendering it at once at the
    /// given level and swap strength.
    pub fn new(
        name: String,
        media_type: String,
        source_pixels: PixelGrid,
        source_bytes: Vec<u8>,
        color_quantization: u8,
        pixel_switch: u8,
    ) -> (record: ImageRecord)
        requires
            source_pixels.wf(),
            valid_level(color_quantization as int),
        ensures
            record@.name == name@,
            record@.media_type == media_type@,
            record@.source_pixels == source_pixels@,
            record@.source_bytes == source_bytes@,
            record@.rendered_under(color_quantization as int, pixel_switch as int),
    {
        let rendered_bytes = calc_new_image(&source_pixels, color_quantization, pixel_switch);
        ImageRecord { name, media_type, source_pixels, source_bytes, rendered_bytes }
    }

    /// Runs the filter again on the decoded image and replaces the
    /// rendering. Nothing else of the record changes.
    pub fn render(&mut self, color_quantization: u8, pixel_switch: u8)
        requires
            old(self)@.source_pixels.wf(),
            valid_level(color_quantization as int),
        ensures
            final(self)@.same_source(old(self)@),
            final(self)@.rendered_under(color_quantization as int, pixel_switch as int),
    {
        self.rendered_bytes = calc_new_image(&self.source_pixels, color_quantization, pixel_switch);
    }

    /// The name of the uploaded file.
    pub fn name(&self) -> (name: &String)
        ensures
            name@ == self@.name,
    {
        &self.name
    }

    /// The media type that the upload declared.
    pub fn media_type(&self) -> (media_type: &String)
        ensures
            media_type@ == self@.media_type,
    {
        &self.media_type
    }

    /// The decoded image.
    pub fn source_pixels(&self) -> (grid: &PixelGrid)
        ensures
            grid@ == self@.source_pixels,
    {
        &self.source_pixels
    }

    /// The bytes as they were uploaded.
    pub fn source_bytes(&self) -> (bytes: &Vec<u8>)
        ensures
            bytes@ == self@.source_bytes,
    {
        &self.source_bytes
    }

    /// The current rendering, as PNG.
    pub fn rendered_bytes(&self) -> (bytes: &Vec<u8>)
        ensures
            bytes@ == self@.rendered_bytes,
    {
        &self.rendered_bytes
    }
}

/// Decodes the bytes of an upload, where its declared media type denotes an
/// image. The decoder decides whether there is a grid; one that comes back
/// is well formed.
pub fn decode_upload(bytes: &Vec<u8>, media_type: &str) -> (decoded: Option<PixelGrid>)
    ensures
        decoded is Some ==> is_image_type(media_type@) && decoded->0.wf(),
{
    if !denotes_image(media_type) {
        return None;
    }
    match decode_rgba(bytes, media_type) {
        Some((width, height, samples)) => PixelGrid::from_raw(width, height, samples),
        None => None,
    }
}

/// Accepts or refuses an upload, given what its bytes decoded to, and renders
/// an accepted image at the given level and swap strength.
pub fn accept_upload(
    name: String,
    media_type: String,
    bytes: Vec<u8>,
    decoded: Option<PixelGrid>,
    color_quantization: u8,
    pixel_switch: u8,
) -> (outcome: Result<ImageRecord, SessionError>)
    requires
        valid_level(color_quantization as int),
        decoded is Some ==> decoded->0.wf(),
    ensures
        match outcome {
            Ok(record) => {
                &&& acceptance_error(media_type@, grid_view(decoded)) is None
                &&& record@.name == name@
                &&& record@.media_type == media_type@
                &&& record@.source_bytes == bytes@
                &&& Some(record@.source_pixels) == grid_view(decoded)
                &&& record@.rendered_under(color_quantization as int, pixel_switch as int)
            },
            Err(error) => acceptance_error(media_type@, grid_view(decoded)) == Some(error),
        },
{
    if !denotes_image(media_type.as_str()) {
        return Err(SessionError::NotAnImage);
    }
    match decoded {
        Some(source_pixels) => Ok(
            ImageRecord::new(name, media_type, source_pixels, bytes, color_quantization, pixel_switch),
        ),
        None => Err(SessionError::DecodeError),
    }
}

/// Ingests one uploaded file: checks the declared media type, decodes the
/// bytes, and renders the image at the given level and swap strength.
///
/// An upload whose media type does not denote an image is refused with
/// `NotAnImage`. One whose type does is an image record or is refused with
/// `DecodeError`, as the decoder decides.
pub fn ingest(
    name: String,
    media_type: String,
    bytes: Vec<u8>,
    color_quantization: u8,
    pixel_switch: u8,
) -> (outcome: Result<ImageRecord, SessionError>)
    requires
        valid_level(color_quantization as int),
    ensures
        match outcome {
            Ok(record) => {
                &&& is_image_type(media_type@)
                &&& record@.name == name@
                &&& record@.media_type == media_type@
                &&& record@.source_bytes == bytes@
                &&& record@.rendered_under(color_quantization as int, pixel_switch as int)
            },
            Err(error) => error == refusal(media_type@),
        },
{
    let decoded = decode_upload(&bytes, media_type.as_str());
    accept_upload(name, media_type, bytes, decoded, color_quantization, pixel_switch)
}

} // verus!
