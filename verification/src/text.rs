//! Text on the front end, bytes on the backend.
//!
//! A text that the front end submits travels to the backend as its UTF-8
//! bytes.  A reply travels back to a text front end only where its bytes are
//! valid UTF-8.

use vstd::prelude::*;
use vstd::utf8::{decode_utf8, encode_utf8, encode_utf8_decode_utf8, valid_utf8};
use crate::error::EncodingError;

verus! {

/// Calls `String::from_utf8` of the standard library and drops the detail of
/// its error.
///
/// Trusted, not proved: the call succeeds exactly on the byte sequences that
/// are valid UTF-8, and the string it then gives is made of exactly these
/// bytes.
#[verifier::external_body]
fn string_from_utf8(bytes: Vec<u8>) -> (r: Option<String>)
    ensures
        r is Some <==> valid_utf8(bytes@),
        r matches Some(text) ==> encode_utf8(text@) == bytes@,
{
    String::from_utf8(bytes).ok()
}

/// Reads `bytes` as text.  Succeeds exactly where they are valid UTF-8, with
/// the text that they encode.
pub fn decode_text(bytes: Vec<u8>) -> (r: Result<String, EncodingError>)
    ensures
        match r {
            Ok(text) => valid_utf8(bytes@) && text@ == decode_utf8(bytes@),
            Err(_) => !valid_utf8(bytes@),
        },
{
    match string_from_utf8(bytes) {
        Some(text) => {
            proof {
                encode_utf8_decode_utf8(text@);
            }
            Ok(text)
        },
        None => Err(EncodingError {}),
    }
}

} // verus!
