//! Bytes from the device, read as text.
//!
//! A read may end in the middle of a character, so decoding never fails: what
//! is no valid UTF-8 is replaced, not refused.

use crate::frame::{extract, first_frame};
use vstd::prelude::*;
use vstd::utf8::{decode_utf8, valid_utf8};

verus! {

/// The text that lossy decoding makes of `bytes`: valid UTF-8 is decoded, and
/// each invalid sequence becomes U+FFFD.
pub uninterp spec fn lossy_text(bytes: Seq<u8>) -> Seq<char>;

/// Lossy decoding leaves valid UTF-8 as it is: such bytes give the text that
/// they encode.
pub open spec fn keeps_valid_text(bytes: Seq<u8>) -> bool {
    valid_utf8(bytes) ==> lossy_text(bytes) == decode_utf8(bytes)
}

/// Calls `String::from_utf8_lossy` of std and owns what it returns.
///
/// Not proved: that the result is `lossy_text` of the bytes, which names what
/// std computes, and that bytes which are valid UTF-8 decode to the text they
/// encode, as std documents.
#[verifier::external_body]
fn decode_lossy(bytes: &[u8]) -> (text: String)
    ensures
        text@ == lossy_text(bytes@),
        valid_utf8(bytes@) ==> text@ == decode_utf8(bytes@),
{
    String::from_utf8_lossy(bytes).into_owned()
}

/// Decodes `bytes` lossily and returns the name of the first frame of the
/// text, if it holds a frame.
pub fn extract_from_bytes(bytes: &[u8]) -> (found: Option<String>)
    ensures
        match found {
            Some(name) => first_frame(lossy_text(bytes@)) == Some(name@),
            None => first_frame(lossy_text(bytes@)) is None,
        },
        keeps_valid_text(bytes@),
{
    let text = decode_lossy(bytes);
    extract(text.as_str())
}

} // verus!
