//! Bytes to text, with a replacement for what is no UTF-8.

use vstd::prelude::*;
use vstd::utf8::{decode_utf8, valid_utf8};

verus! {

/// The text that `String::from_utf8_lossy` makes of the bytes: the text that
/// they encode, with U+FFFD in the place of each part that encodes none.
pub uninterp spec fn lossy_text(bytes: Seq<u8>) -> Seq<char>;

/// The text of the bytes of a chunk: what they encode where they are UTF-8
/// all through, and else the text with replacements.
pub open spec fn text_of_bytes(bytes: Seq<u8>) -> Seq<char> {
    if valid_utf8(bytes) {
        decode_utf8(bytes)
    } else {
        lossy_text(bytes)
    }
}

/// `String::from_utf8_lossy`, as an owned string. The text depends on the
/// bytes alone, and the contract gives it the name `lossy_text`. Of bytes
/// that are UTF-8 all through it is the text that they encode, with nothing
/// replaced.
#[verifier::external_body]
pub(crate) fn decode_lossy(bytes: &[u8]) -> (text: String)
    ensures
        text@ == lossy_text(bytes@),
        valid_utf8(bytes@) ==> text@ == decode_utf8(bytes@),
{
    String::from_utf8_lossy(bytes).into_owned()
}

/// Reads bytes as text, with a replacement for what is no UTF-8.
pub fn text_from_bytes(bytes: &[u8]) -> (text: String)
    ensures
        text@ == text_of_bytes(bytes@),
{
    decode_lossy(bytes)
}

} // verus!
