//! The text of a file of the feed, which is written in ISO 8859-1.

use vstd::prelude::*;

verus! {

/// The text that bytes in ISO 8859-1 write: each byte is the character
/// with its number.
pub open spec fn latin1_text(bytes: Seq<u8>) -> Seq<char> {
    Seq::new(bytes.len(), |k: int| bytes[k] as char)
}

/// Calls `decode` of `encoding::all::ISO_8859_1` with the strict trap. The
/// decoder of ISO 8859-1 maps each byte to the character with its number
/// and rejects none.
#[verifier::external_body]
fn decode_strict(bytes: &[u8]) -> (r: Option<String>)
    ensures
        r.is_some(),
        r.unwrap()@ == latin1_text(bytes@),
{
    encoding::Encoding::decode(encoding::all::ISO_8859_1, bytes, encoding::DecoderTrap::Strict).ok()
}

/// The input is no text in ISO 8859-1.
#[derive(Debug, PartialEq, Eq, Clone, Copy, Structural)]
pub struct DecodeError;

/// The text of a file of the feed: its bytes read as ISO 8859-1.
pub fn decode_iso_8859_1(bytes: &[u8]) -> (r: Result<String, DecodeError>)
    ensures
        r matches Ok(text) && text@ == latin1_text(bytes@),
{
    match decode_strict(bytes) {
        Some(text) => Ok(text),
        None => Err(DecodeError),
    }
}

} // verus!
