//! Decoding a file's bytes to text by byte-order-mark sniffing.
use vstd::prelude::*;
use vstd::utf8::{decode_utf8, valid_utf8};
use crate::report::text_view;

verus! {

/// The text that the BOM-sniffing decoder reads from `bytes`, if it is text.
pub uninterp spec fn decoded_text(bytes: Seq<u8>) -> Option<Seq<char>>;

/// Whether `bytes` start with a UTF-8 or UTF-16 byte-order mark, as the
/// decoder detects one (it looks at three bytes at least).
pub open spec fn has_bom(bytes: Seq<u8>) -> bool {
    &&& bytes.len() >= 3
    &&& {
        ||| (bytes[0] == 0xEF && bytes[1] == 0xBB && bytes[2] == 0xBF)
        ||| (bytes[0] == 0xFF && bytes[1] == 0xFE)
        ||| (bytes[0] == 0xFE && bytes[1] == 0xFF)
    }
}

/// Relies on `encoding_rs_io::DecodeReaderBytesBuilder::new().build(..)` read
/// with `read_to_string`: a byte-order mark selects a transcoding to UTF-8;
/// without one the bytes pass through unchanged, and reading them to a string
/// fails unless they are valid UTF-8.
#[verifier::external_body]
pub(crate) fn decode_text(bytes: &[u8]) -> (r: Option<String>)
    ensures
        text_view(r) == decoded_text(bytes@),
        !has_bom(bytes@) ==> (text_view(r) is Some <==> valid_utf8(bytes@)),
        !has_bom(bytes@) && valid_utf8(bytes@) ==> text_view(r) == Some(decode_utf8(bytes@)),
{
    let mut reader = encoding_rs_io::DecodeReaderBytesBuilder::new().build(bytes);
    let mut text = String::new();
    match std::io::Read::read_to_string(&mut reader, &mut text) {
        Ok(_) => Some(text),
        Err(_) => None,
    }
}

} // verus!
