//! Decoding of captured bytes as text, done by the standard library.

use vstd::prelude::*;
use vstd::utf8::{decode_utf8, valid_utf8};

verus! {

/// The text with which the standard library reports that `bytes` are not
/// UTF-8: what the error of `String::from_utf8` displays.
pub uninterp spec fn utf8_fault(bytes: Seq<u8>) -> Seq<char>;

/// `bytes` as text, decoded strictly: the characters that they encode where
/// they are well-formed UTF-8, and otherwise the report that they are not.
pub open spec fn strict_text(bytes: Seq<u8>) -> Result<Seq<char>, Seq<char>> {
    if valid_utf8(bytes) {
        Ok(decode_utf8(bytes))
    } else {
        Err(utf8_fault(bytes))
    }
}

/// The text that `String::from_utf8_lossy` makes of `bytes`: what can be
/// decoded of them, with a replacement character for each malformed part.
pub uninterp spec fn lossy_text(bytes: Seq<u8>) -> Seq<char>;

/// `bytes` as text, decoded leniently: the characters that they encode where
/// they are well-formed UTF-8, and `lossy_text` of them where they are not.
pub open spec fn lenient_text(bytes: Seq<u8>) -> Seq<char> {
    if valid_utf8(bytes) {
        decode_utf8(bytes)
    } else {
        lossy_text(bytes)
    }
}

/// Calls `String::from_utf8`. It accepts exactly the well-formed UTF-8
/// sequences and returns the characters they encode; of any other sequence it
/// returns an error, handed on here as the text that the error displays.
#[verifier::external_body]
pub(crate) fn decode_text(bytes: Vec<u8>) -> (decoded: Result<String, String>)
    ensures
        match decoded {
            Ok(text) => valid_utf8(bytes@) && text@ == decode_utf8(bytes@),
            Err(cause) => !valid_utf8(bytes@) && cause@ == utf8_fault(bytes@),
        },
{
    match String::from_utf8(bytes) {
        Ok(text) => Ok(text),
        Err(error) => Err(error.to_string()),
    }
}

/// Calls `String::from_utf8_lossy`. It never fails: of well-formed UTF-8 it
/// returns the characters encoded, unchanged, and of anything else a text
/// that depends on the bytes alone.
#[verifier::external_body]
pub(crate) fn decode_text_lossy(bytes: &[u8]) -> (text: String)
    ensures
        valid_utf8(bytes@) ==> text@ == decode_utf8(bytes@),
        !valid_utf8(bytes@) ==> text@ == lossy_text(bytes@),
{
    String::from_utf8_lossy(bytes).into_owned()
}

} // verus!
