//! The repair pipeline: the stages composed in their fixed order, and the
//! context object that the embedding layer hands in.

use vstd::prelude::*;
use vstd::slice::slice_to_vec;
use vstd::utf8::{
    decode_utf8, decode_utf8_encode_utf8, encode_utf8, encode_utf8_decode_utf8,
    encode_utf8_valid_utf8, valid_utf8,
};
use crate::bom::{has_utf8_bom, strip_bom, strip_bom_spec};
use crate::decode::{decodable, decode, is_decodable, utf8_text};
use crate::filtering::lemma_filter_none;
use crate::encoding::{detect, detect_spec, is_text_byte, lemma_detect_empty, EncodingTag};
use crate::line_endings::{
    cr_free, lemma_cr_free_is_canonical, lemma_normalized_is_cr_free, normalize_line_endings,
    normalize_line_endings_spec,
};
use crate::sanitize::{
    is_clean_byte, is_kept, lemma_sanitize_keeps_clean_text, lemma_sanitized_is_kept, sanitize,
    sanitize_spec,
};
use crate::utf8_facts::{
    lemma_encoded_bom_is_feff, lemma_kept_text_encodes_clean, lemma_no_cr_byte_no_cr,
    lemma_strip_bom_keeps_utf8, lemma_valid_utf8_has_no_utf16_bom,
};

verus! {

/// What a repair did, for observability. Advisory: nothing in the repaired
/// bytes depends on it.
#[derive(Clone, Copy, Debug, PartialEq, Eq, Structural)]
pub struct RepairMetrics {
    /// Length of the raw input in bytes.
    pub original_byte_count: usize,
    /// Length of the repaired output in bytes.
    pub final_byte_count: usize,
    /// The detector's tag for the raw input.
    pub detected_encoding: EncodingTag,
}

/// Why a repair could not be carried out.
#[derive(Clone, Copy, Debug, PartialEq, Eq, Structural)]
pub enum RepairError {
    /// The input is malformed and so long that no output buffer for the
    /// decoder's worst case can be allocated.
    Allocation,
}

impl RepairError {
    /// The error as a message for the caller.
    pub fn message(&self) -> (text: &'static str)
        ensures
            text@ == "Memory allocation error"@,
    {
        "Memory allocation error"
    }
}

/// The text that `bytes` decode to, with its line endings in canonical form.
pub open spec fn normalize_spec(bytes: Seq<u8>) -> Seq<char> {
    normalize_line_endings_spec(utf8_text(bytes))
}

/// The repaired text of a raw buffer: byte-order mark removed, decoded,
/// line endings canonical, control characters gone.
pub open spec fn repaired_text(raw: Seq<u8>) -> Seq<char> {
    sanitize_spec(normalize_spec(strip_bom_spec(raw)))
}

/// The repaired bytes of a raw buffer: its repaired text in UTF-8.
pub open spec fn repair_spec(raw: Seq<u8>) -> Seq<u8> {
    encode_utf8(repaired_text(raw))
}

/// Decodes `bytes` as UTF-8 and rewrites the line endings; also returns the
/// detector's tag for the same bytes, for diagnostics only. Never fails:
/// malformed input yields replacement characters.
///
/// The text holds no carriage return, and normalising its bytes again gives
/// it back. Well-formed input without a 0x0D byte comes back byte for byte,
/// a leading mark, NULs and other control bytes included.
pub fn normalize(bytes: &[u8]) -> (res: (String, EncodingTag))
    requires
        decodable(bytes@),
    ensures
        res.0@ == normalize_spec(bytes@),
        res.1 == detect_spec(bytes@),
        cr_free(res.0@),
        normalize_spec(encode_utf8(res.0@)) == res.0@,
        valid_utf8(bytes@) && !bytes@.contains(0x0Du8) ==> encode_utf8(res.0@) == bytes@,
{
    proof {
        lemma_normalize_idempotent(bytes@);
        if valid_utf8(bytes@) && !bytes@.contains(0x0Du8) {
            lemma_normalize_keeps_plain_utf8(bytes@);
        }
    }
    let decoded = decode(bytes);
    let text = normalize_line_endings(decoded.as_str());
    (text, detect(bytes))
}

/// Repairs a raw buffer: detect, strip the byte-order mark, decode and
/// normalise the line endings, sanitise. Returns the repaired bytes, the tag
/// of the raw input, and the metrics.
///
/// The output is well-formed UTF-8 of clean bytes only, and a fixed point:
/// unless it begins with the bytes of the UTF-8 mark, repairing it again
/// gives it back.
pub fn repair(raw: &[u8]) -> (res: (Vec<u8>, EncodingTag, RepairMetrics))
    requires
        decodable(raw@),
    ensures
        res.0@ == repair_spec(raw@),
        valid_utf8(res.0@),
        forall|k: int| 0 <= k < res.0@.len() ==> is_clean_byte(#[trigger] res.0@[k]),
        !has_utf8_bom(res.0@) ==> repair_spec(res.0@) == res.0@,
        res.1 == detect_spec(raw@),
        res.2 == (RepairMetrics {
            original_byte_count: raw@.len() as usize,
            final_byte_count: res.0@.len() as usize,
            detected_encoding: res.1,
        }),
{
    proof {
        lemma_repaired_bytes_are_clean(raw@);
        if !has_utf8_bom(repair_spec(raw@)) {
            lemma_repair_idempotent(raw@);
        }
        if valid_utf8(raw@) {
            lemma_strip_bom_keeps_utf8(raw@);
        }
    }
    let tag = detect(raw);
    let body = strip_bom(raw);
    let decoded = decode(body);
    let text = normalize_line_endings(decoded.as_str());
    let clean = sanitize(text.as_str());
    let repaired = slice_to_vec(clean.as_str().as_bytes());
    let metrics = RepairMetrics {
        original_byte_count: raw.len(),
        final_byte_count: repaired.len(),
        detected_encoding: tag,
    };
    (repaired, tag, metrics)
}

/// A raw buffer held for the embedding layer, with room for the text made
/// from it.
#[derive(Debug)]
pub struct CsvContext {
    /// The bytes as they arrived.
    pub raw_data: Vec<u8>,
    /// The text produced from them; empty until a caller stores one.
    pub processed_text: String,
}

impl CsvContext {
    /// Decodes `bytes` as UTF-8 and rewrites every line ending to a bare
    /// line feed. The second value is the name of the detector's tag for the
    /// same bytes, for diagnostics only: the decoding does not depend on it.
    ///
    /// The text holds no carriage return, and normalising its bytes again
    /// gives it back. Well-formed input without a 0x0D byte comes back byte
    /// for byte.
    pub fn universal_normalize(bytes: &[u8]) -> (res: (String, String))
        requires
            decodable(bytes@),
        ensures
            res.0@ == normalize_spec(bytes@),
            res.1@ == detect_spec(bytes@).name_spec(),
            cr_free(res.0@),
            normalize_spec(encode_utf8(res.0@)) == res.0@,
            valid_utf8(bytes@) && !bytes@.contains(0x0Du8) ==> encode_utf8(res.0@) == bytes@,
    {
        let (text, tag) = normalize(bytes);
        (text, tag.name().to_owned())
    }
}

/// Takes a copy of `input` into a fresh context.
pub fn init_context(input: &[u8]) -> (context: CsvContext)
    ensures
        context.raw_data@ == input@,
        context.processed_text@ == Seq::<char>::empty(),
{
    CsvContext { raw_data: slice_to_vec(input), processed_text: String::new() }
}

/// Repairs the raw bytes of `context`. Fails only when the buffer is
/// malformed and too long for an output buffer to be allocated, and then
/// says so. What it returns can be repaired again, and comes back unchanged
/// unless it begins with the bytes of the UTF-8 mark.
pub fn repair_and_normalize(context: &CsvContext) -> (res: Result<Vec<u8>, RepairError>)
    ensures
        match res {
            Ok(repaired) => {
                &&& decodable(context.raw_data@)
                &&& repaired@ == repair_spec(context.raw_data@)
                &&& valid_utf8(repaired@)
                &&& !has_utf8_bom(repaired@) ==> repair_spec(repaired@) == repaired@
            },
            Err(e) => !decodable(context.raw_data@) && e == RepairError::Allocation,
        },
{
    if is_decodable(context.raw_data.as_slice()) {
        let (repaired, _tag, _metrics) = repair(context.raw_data.as_slice());
        Ok(repaired)
    } else {
        Err(RepairError::Allocation)
    }
}

/// Normalising is idempotent on bytes: the text that comes out, encoded and
/// normalised again, is the same text.
pub proof fn lemma_normalize_idempotent(bytes: Seq<u8>)
    ensures
        cr_free(normalize_spec(bytes)),
        normalize_spec(encode_utf8(normalize_spec(bytes))) == normalize_spec(bytes),
{
    let text = normalize_spec(bytes);
    lemma_normalized_is_cr_free(utf8_text(bytes));
    encode_utf8_valid_utf8(text);
    encode_utf8_decode_utf8(text);
    lemma_cr_free_is_canonical(text);
}

/// Normalising takes nothing from well-formed input that holds no 0x0D
/// byte: the text is the one the bytes encode, so that its bytes are the
/// input, a leading mark, NULs and control bytes included.
pub proof fn lemma_normalize_keeps_plain_utf8(bytes: Seq<u8>)
    requires
        valid_utf8(bytes),
        !bytes.contains(0x0Du8),
    ensures
        normalize_spec(bytes) == decode_utf8(bytes),
        encode_utf8(normalize_spec(bytes)) == bytes,
{
    lemma_no_cr_byte_no_cr(bytes);
    lemma_cr_free_is_canonical(decode_utf8(bytes));
    decode_utf8_encode_utf8(bytes);
}

/// Repaired output is well-formed UTF-8 and holds nothing but printable
/// ASCII, tab, line feed and the bytes of multi-byte characters.
pub proof fn lemma_repaired_bytes_are_clean(raw: Seq<u8>)
    ensures
        valid_utf8(repair_spec(raw)),
        forall|k: int|
            0 <= k < repair_spec(raw).len() ==> is_clean_byte(#[trigger] repair_spec(raw)[k]),
{
    encode_utf8_valid_utf8(repaired_text(raw));
    lemma_sanitized_is_kept(normalize_spec(strip_bom_spec(raw)));
    lemma_kept_text_encodes_clean(repaired_text(raw));
}

/// The encoding of kept characters that does not begin with the bytes of
/// the UTF-8 mark is repaired to itself.
proof fn lemma_repair_fixed_point(text: Seq<char>)
    requires
        forall|i: int| 0 <= i < text.len() ==> is_kept(#[trigger] text[i]),
        !has_utf8_bom(encode_utf8(text)),
    ensures
        repaired_text(encode_utf8(text)) == text,
        repair_spec(encode_utf8(text)) == encode_utf8(text),
{
    let bytes = encode_utf8(text);
    encode_utf8_valid_utf8(text);
    encode_utf8_decode_utf8(text);
    lemma_valid_utf8_has_no_utf16_bom(bytes);
    assert(strip_bom_spec(bytes) == bytes) by {
        assert(bytes.skip(0) == bytes);
    }
    assert(utf8_text(bytes) == text);
    assert(cr_free(text)) by {
        assert forall|i: int| 0 <= i < text.len() implies text[i] != '\r' by {
            assert(is_kept(text[i]));
        }
    }
    lemma_cr_free_is_canonical(text);
    lemma_sanitize_keeps_clean_text(text);
}

/// Clean text is a fixed point of the repair: the UTF-8 encoding of text
/// that holds only kept characters, and does not begin with U+FEFF, is
/// repaired to itself.
pub proof fn lemma_repair_keeps_clean_text(text: Seq<char>)
    requires
        forall|i: int| 0 <= i < text.len() ==> is_kept(#[trigger] text[i]),
        text.len() > 0 ==> text[0] != '\u{FEFF}',
    ensures
        repaired_text(encode_utf8(text)) == text,
        repair_spec(encode_utf8(text)) == encode_utf8(text),
{
    if has_utf8_bom(encode_utf8(text)) {
        lemma_encoded_bom_is_feff(text);
    }
    lemma_repair_fixed_point(text);
}

/// Repairing is idempotent: repairing repaired output changes nothing. The
/// one exception is output that begins with the bytes of the UTF-8 mark,
/// which a second repair would remove; it arises only from input that
/// carries a second mark behind its first.
pub proof fn lemma_repair_idempotent(raw: Seq<u8>)
    requires
        !has_utf8_bom(repair_spec(raw)),
    ensures
        repair_spec(repair_spec(raw)) == repair_spec(raw),
{
    lemma_sanitized_is_kept(normalize_spec(strip_bom_spec(raw)));
    lemma_repair_fixed_point(repaired_text(raw));
}

/// Repaired output is what the detector calls UTF-8: it holds no NUL, no
/// byte outside the text ranges, and cannot begin with a UTF-16 mark. It
/// carries the tag of a marked buffer only where it begins with U+FEFF.
pub proof fn lemma_repaired_is_tagged_utf8(raw: Seq<u8>)
    ensures
        detect_spec(repair_spec(raw)) == EncodingTag::Utf8 || detect_spec(repair_spec(raw))
            == EncodingTag::Utf8WithBom,
        detect_spec(repair_spec(raw)) == EncodingTag::Utf8WithBom ==> repaired_text(raw).len() > 0
            && repaired_text(raw)[0] == '\u{FEFF}',
{
    let out = repair_spec(raw);
    lemma_repaired_bytes_are_clean(raw);
    lemma_valid_utf8_has_no_utf16_bom(out);
    if has_utf8_bom(out) {
        lemma_encoded_bom_is_feff(repaired_text(raw));
    }
    assert forall|k: int| 0 <= k < out.len() implies is_text_byte(#[trigger] out[k]) && out[k]
        != 0 by {
        assert(is_clean_byte(out[k]));
    }
    lemma_filter_none(out, |b: u8| b == 0);
}

/// Nothing comes of nothing: the empty buffer is repaired to the empty
/// buffer and tagged `Utf8`.
pub proof fn lemma_repair_empty()
    ensures
        repair_spec(Seq::<u8>::empty()) == Seq::<u8>::empty(),
        detect_spec(Seq::<u8>::empty()) == EncodingTag::Utf8,
{
    let none = Seq::<char>::empty();
    lemma_repair_keeps_clean_text(none);
    assert(encode_utf8(none) == Seq::<u8>::empty());
    lemma_detect_empty();
}

} // verus!
