//! Decoding bytes to text. The decoder itself is `encoding_rs`; this module
//! states what the rest of the library relies on from it.

use vstd::prelude::*;
use vstd::utf8::{decode_utf8, encode_utf8, encode_utf8_valid_utf8, valid_utf8};
use crate::validate::is_valid_utf8;

verus! {

/// The text that the UTF-8 decoder of `encoding_rs` produces for bytes that
/// are not well-formed UTF-8, with every malformed sequence replaced by
/// U+FFFD. Which bytes make up one malformed sequence is the decoder's
/// business and is not restated here.
pub uninterp spec fn utf8_replaced_text(bytes: Seq<u8>) -> Seq<char>;

/// The text that `bytes` decode to as UTF-8. Well-formed input decodes to the
/// characters it encodes; anything else to what the decoder makes of it.
pub open spec fn utf8_text(bytes: Seq<u8>) -> Seq<char> {
    if valid_utf8(bytes) {
        decode_utf8(bytes)
    } else {
        utf8_replaced_text(bytes)
    }
}

/// A length that the decoder can size an output buffer for: at most a
/// quarter of the largest allocation. For malformed input the decoder sizes
/// its output for the worst case, three bytes for each input byte and a few
/// more, and that size has to fit.
pub open spec fn decodable_len(len: nat) -> bool {
    4 * len <= isize::MAX as nat
}

/// True when `bytes` can be handed to the decoder: well-formed UTF-8 of any
/// length, which the decoder passes through without sizing anything, or
/// bytes of a length that it can size a buffer for.
pub open spec fn decodable(bytes: Seq<u8>) -> bool {
    valid_utf8(bytes) || decodable_len(bytes.len())
}

/// Run-time test of [`decodable_len`].
pub fn is_decodable_len(len: usize) -> (ok: bool)
    ensures
        ok == decodable_len(len as nat),
{
    len <= isize::MAX as usize / 4
}

/// Run-time test of [`decodable`]. The bytes are only read where the length
/// alone does not settle it.
pub fn is_decodable(bytes: &[u8]) -> (ok: bool)
    ensures
        ok == decodable(bytes@),
{
    is_decodable_len(bytes.len()) || is_valid_utf8(bytes)
}

/// Calls `encoding_rs::UTF_8.decode_without_bom_handling` and keeps the text.
///
/// Trusted: well-formed UTF-8 is passed through unchanged, so that the text
/// is the one the bytes encode; for anything else the text is the decoder's
/// output with replacement characters. The precondition keeps the sizes
/// that the decoder computes for its output buffer within what can be
/// allocated; beyond it the decoder panics. For well-formed input it
/// computes none.
#[verifier::external_body]
fn decode_utf8_lossy(bytes: &[u8]) -> (text: String)
    requires
        decodable(bytes@),
    ensures
        valid_utf8(bytes@) ==> text@ == decode_utf8(bytes@),
        !valid_utf8(bytes@) ==> text@ == utf8_replaced_text(bytes@),
{
    encoding_rs::UTF_8.decode_without_bom_handling(bytes).0.into_owned()
}

/// `String::push` appends one character.
pub assume_specification[ String::push ](s: &mut String, ch: char)
    ensures
        final(s)@ == old(s)@.push(ch),
;

/// Decodes `bytes` as UTF-8, replacing what is malformed. Never fails.
pub fn decode(bytes: &[u8]) -> (text: String)
    requires
        decodable(bytes@),
    ensures
        text@ == utf8_text(bytes@),
{
    decode_utf8_lossy(bytes)
}

/// The bytes of any text can be decoded, however long: they are
/// well-formed.
pub proof fn lemma_text_is_decodable(text: Seq<char>)
    ensures
        decodable(encode_utf8(text)),
        utf8_text(encode_utf8(text)) == text,
{
    encode_utf8_valid_utf8(text);
    vstd::utf8::encode_utf8_decode_utf8(text);
}

} // verus!
