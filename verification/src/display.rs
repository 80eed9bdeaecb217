//! Inline display of byte buffers: the data URI that carries a buffer, in
//! base64, together with its media type.

use vstd::prelude::*;
use vstd::string::StringExecFns;
use base64::engine::general_purpose::STANDARD;
use base64::Engine;
use crate::record::ImageRecord;

verus! {

/// The text that the standard base64 alphabet, with padding, gives for
/// `bytes`, as the `base64` crate writes it.
pub uninterp spec fn base64_standard(bytes: Seq<u8>) -> Seq<char>;

/// Number of characters of the padded base64 text of `count` bytes: four
/// for every three bytes or part of three.
pub open spec fn base64_len(count: nat) -> nat {
    if count % 3 == 0 {
        (count / 3) * 4
    } else {
        (count / 3) * 4 + 4
    }
}

/// Encodes with `base64::Engine::encode` of the `STANDARD` engine.
///
/// Trusted: the text depends on the bytes alone. The crate gives up where
/// the length of the text does not fit the machine word, so that is asked
/// of the caller.
#[verifier::external_body]
fn encode_base64(bytes: &Vec<u8>) -> (text: String)
    requires
        base64_len(bytes@.len()) <= usize::MAX,
    ensures
        text@ == base64_standard(bytes@),
{
    STANDARD.encode(bytes)
}

/// The media type of every rendering.
pub open spec fn png_type() -> Seq<char> {
    "image/png"@
}

/// The data URI of a buffer under a media type.
pub open spec fn data_uri_text(media_type: Seq<char>, bytes: Seq<u8>) -> Seq<char> {
    "data:"@ + media_type + ";base64,"@ + base64_standard(bytes)
}

/// Tells whether the base64 text of `count` bytes has a length that fits
/// the machine word.
fn fits_base64(count: usize) -> (fits: bool)
    ensures
        fits == (base64_len(count as nat) <= usize::MAX),
{
    let groups = count / 3;
    if groups > usize::MAX / 4 {
        false
    } else if count % 3 == 0 {
        true
    } else {
        groups * 4 <= usize::MAX - 4
    }
}

/// Writes a buffer as a data URI. There is none only where the buffer is
/// too long for its base64 text to be held.
pub fn data_uri(media_type: &str, bytes: &Vec<u8>) -> (uri: Option<String>)
    ensures
        uri is Some <==> base64_len(bytes@.len()) <= usize::MAX,
        uri is Some ==> uri->0@ == data_uri_text(media_type@, bytes@),
{
    if !fits_base64(bytes.len()) {
        return None;
    }
    let encoded = encode_base64(bytes);
    let mut uri = String::from_str("data:");
    uri.append(media_type);
    uri.append(";base64,");
    uri.append(encoded.as_str());
    Some(uri)
}

impl ImageRecord {
    /// The uploaded bytes as a data URI of the declared media type.
    pub fn source_uri(&self) -> (uri: Option<String>)
        ensures
            uri is Some <==> base64_len(self@.source_bytes.len()) <= usize::MAX,
            uri is Some ==> uri->0@ == data_uri_text(self@.media_type, self@.source_bytes),
    {
        data_uri(self.media_type().as_str(), self.source_bytes())
    }

    /// The rendering as a PNG data URI.
    pub fn rendered_uri(&self) -> (uri: Option<String>)
        ensures
            uri is Some <==> base64_len(self@.rendered_bytes.len()) <= usize::MAX,
            uri is Some ==> uri->0@ == data_uri_text(png_type(), self@.rendered_bytes),
    {
        data_uri("image/png", self.rendered_bytes())
    }
}

} // verus!
