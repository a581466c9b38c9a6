//! Image attachments: their base64 form and the names they are stored under.

use crate::clock::Timestamp;
use crate::text::{decimal_text, signed_decimal};
use vstd::prelude::*;

verus! {

/// The standard base64 text (with padding) of some bytes.
pub uninterp spec fn base64_text(b: Seq<u8>) -> Seq<char>;

/// The bytes that a text decodes to as standard base64 (with padding), or
/// `None` where it is not such a text.
pub uninterp spec fn base64_bytes(s: Seq<char>) -> Option<Seq<u8>>;

/// The extension of the last component of a path, if it has one.
pub uninterp spec fn extension_of(name: Seq<char>) -> Option<Seq<char>>;

/// Relies on `base64::Engine::encode` with the `STANDARD` engine: padded
/// output, four characters per started group of three bytes, which the
/// same engine decodes back to the input. It panics only where the output
/// length overflows `usize`, which `requires` leaves out.
#[verifier::external_body]
fn standard_encode(bytes: &[u8]) -> (r: String)
    requires
        bytes@.len() <= usize::MAX / 2,
    ensures
        r@ == base64_text(bytes@),
        r@.len() == 4 * ((bytes@.len() + 2) / 3),
        base64_bytes(r@) == Some(bytes@),
{
    base64::Engine::encode(&base64::engine::general_purpose::STANDARD, bytes)
}

/// Relies on `base64::Engine::decode` with the `STANDARD` engine: the
/// bytes on success, the `DecodeError`'s description otherwise.
#[verifier::external_body]
fn standard_decode(text: &str) -> (r: Result<Vec<u8>, String>)
    ensures
        match r {
            Ok(v) => base64_bytes(text@) == Some(v@),
            Err(_) => base64_bytes(text@) is None,
        },
{
    base64::Engine::decode(&base64::engine::general_purpose::STANDARD, text).map_err(|e| e.to_string())
}

/// Relies on `std::path::Path::extension` (followed by `to_str`, which
/// cannot fail on text that came from a `&str`).
#[verifier::external_body]
fn path_extension(name: &str) -> (r: Option<String>)
    ensures
        match r {
            Some(e) => extension_of(name@) == Some(e@),
            None => extension_of(name@) is None,
        },
{
    std::path::Path::new(name).extension().and_then(|e| e.to_str()).map(|e| e.to_string())
}

/// Failures of image handling.
#[derive(Debug)]
pub enum ImageError {
    /// The payload is not standard base64; the decoder's description.
    Decode(String),
}

/// An image ready to be written: where, and what.
#[derive(Debug)]
pub struct ImageUpload {
    /// Name of the per-conversation directory.
    pub dir_name: String,
    /// Name of the file inside it.
    pub file_name: String,
    /// The decoded contents.
    pub bytes: Vec<u8>,
}

/// The extension kept by a stored image: the uploaded file's, else `jpg`.
pub open spec fn kept_extension(upload_name: Seq<char>) -> Seq<char> {
    match extension_of(upload_name) {
        Some(e) => e,
        None => "jpg"@,
    }
}

/// `<stamp>_<conversation>.<extension>`.
pub open spec fn image_name_spec(stamp: Timestamp, conversation_id: i32, upload_name: Seq<char>) -> Seq<
    char,
> {
    stamp.compact_spec() + seq!['_'] + signed_decimal(conversation_id as int) + seq!['.']
        + kept_extension(upload_name)
}

/// The base64 text of an image's bytes, as the model server takes it;
/// decoding it gives the bytes back.
pub fn encode_image(bytes: &Vec<u8>) -> (r: String)
    requires
        bytes@.len() <= usize::MAX / 2,
    ensures
        r@ == base64_text(bytes@),
        r@.len() == 4 * ((bytes@.len() + 2) / 3),
        base64_bytes(r@) == Some(bytes@),
{
    standard_encode(bytes.as_slice())
}

/// The bytes of a base64 image payload.
pub fn decode_image(data: &str) -> (r: Result<Vec<u8>, ImageError>)
    ensures
        match r {
            Ok(v) => base64_bytes(data@) == Some(v@),
            Err(_) => base64_bytes(data@) is None,
        },
{
    match standard_decode(data) {
        Ok(v) => Ok(v),
        Err(d) => Err(ImageError::Decode(d)),
    }
}

/// Name of the directory that holds a conversation's images.
pub fn conversation_dir_name(conversation_id: i32) -> (r: String)
    ensures
        r@ == signed_decimal(conversation_id as int),
{
    decimal_text(conversation_id as i64)
}

/// Name under which an image uploaded as `upload_name` is stored: time of
/// upload, conversation and the uploaded file's extension (`jpg` if none).
pub fn image_file_name(stamp: &Timestamp, conversation_id: i32, upload_name: &str) -> (r: String)
    ensures
        r@ == image_name_spec(*stamp, conversation_id, upload_name@),
{
    let mut name = stamp.compact_text();
    name.append("_");
    let id = decimal_text(conversation_id as i64);
    name.append(id.as_str());
    name.append(".");
    match path_extension(upload_name) {
        Some(e) => name.append(e.as_str()),
        None => name.append("jpg"),
    }
    proof {
        reveal_strlit("_");
        reveal_strlit(".");
        assert(name@ =~= image_name_spec(*stamp, conversation_id, upload_name@));
    }
    name
}

/// Where and what to write for an uploaded image; a payload that is not
/// base64 is refused before anything is named.
pub fn prepare_image(conversation_id: i32, image_data: &str, upload_name: &str, stamp: &Timestamp) -> (r:
    Result<ImageUpload, ImageError>)
    ensures
        match r {
            Ok(u) => {
                &&& base64_bytes(image_data@) == Some(u.bytes@)
                &&& u.dir_name@ == signed_decimal(conversation_id as int)
                &&& u.file_name@ == image_name_spec(*stamp, conversation_id, upload_name@)
            },
            Err(_) => base64_bytes(image_data@) is None,
        },
{
    let bytes = decode_image(image_data)?;
    Ok(
        ImageUpload {
            dir_name: conversation_dir_name(conversation_id),
            file_name: image_file_name(stamp, conversation_id, upload_name),
            bytes,
        },
    )
}

} // verus!
