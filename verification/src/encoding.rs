//! Classification of raw bytes into an encoding tag.

use vstd::prelude::*;
use crate::bom::{bom_len, has_utf16_be_bom, has_utf16_le_bom, has_utf8_bom};
use crate::filtering::lemma_filter_take_step;

verus! {

/// What the detector makes of a buffer. The tag describes the input; no later
/// stage branches on it.
#[derive(Clone, Copy, Debug, PartialEq, Eq, Hash, Structural)]
pub enum EncodingTag {
    /// No byte-order mark, and every byte printable ASCII, tab, LF, CR or
    /// at least 0x80.
    Utf8,
    /// Starts with `EF BB BF`.
    Utf8WithBom,
    /// Starts with `FF FE`.
    Utf16Le,
    /// Starts with `FE FF`.
    Utf16Be,
    /// No byte-order mark, but more than a quarter of the bytes are NUL.
    LikelyUtf16,
    /// None of the above.
    Unknown,
}

/// Number of NUL bytes in `bytes`.
pub open spec fn nul_count(bytes: Seq<u8>) -> nat {
    bytes.filter(|b: u8| b == 0).len()
}

/// A byte that plain UTF-8 text may hold: printable ASCII, tab, line feed,
/// carriage return, or any byte from 0x80 upwards. Whether the high bytes form
/// well-formed sequences is not the detector's concern.
pub open spec fn is_text_byte(b: u8) -> bool {
    (0x20 <= b <= 0x7E) || b == 0x09 || b == 0x0A || b == 0x0D || b >= 0x80
}

/// True when every byte of `bytes` is a text byte. Holds of the empty buffer.
pub open spec fn all_text_bytes(bytes: Seq<u8>) -> bool {
    forall|i: int| 0 <= i < bytes.len() ==> is_text_byte(#[trigger] bytes[i])
}

/// The detector's decision, in priority order: the three byte-order marks,
/// then the density of NUL bytes, then the byte ranges.
pub open spec fn detect_spec(bytes: Seq<u8>) -> EncodingTag {
    if has_utf8_bom(bytes) {
        EncodingTag::Utf8WithBom
    } else if has_utf16_le_bom(bytes) {
        EncodingTag::Utf16Le
    } else if has_utf16_be_bom(bytes) {
        EncodingTag::Utf16Be
    } else if nul_count(bytes) > bytes.len() / 4 {
        EncodingTag::LikelyUtf16
    } else if all_text_bytes(bytes) {
        EncodingTag::Utf8
    } else {
        EncodingTag::Unknown
    }
}

impl EncodingTag {
    /// The tag's name as it appears in diagnostics.
    pub open spec fn name_spec(self) -> Seq<char> {
        match self {
            EncodingTag::Utf8 => "utf8"@,
            EncodingTag::Utf8WithBom => "utf8_with_bom"@,
            EncodingTag::Utf16Le => "utf16_le"@,
            EncodingTag::Utf16Be => "utf16_be"@,
            EncodingTag::LikelyUtf16 => "likely_utf16"@,
            EncodingTag::Unknown => "unknown"@,
        }
    }

    /// The tag's name as it appears in diagnostics.
    pub fn name(&self) -> (name: &'static str)
        ensures
            name@ == self.name_spec(),
    {
        match self {
            EncodingTag::Utf8 => "utf8",
            EncodingTag::Utf8WithBom => "utf8_with_bom",
            EncodingTag::Utf16Le => "utf16_le",
            EncodingTag::Utf16Be => "utf16_be",
            EncodingTag::LikelyUtf16 => "likely_utf16",
            EncodingTag::Unknown => "unknown",
        }
    }
}

/// Decides whether `b` is a text byte.
pub fn text_byte(b: u8) -> (yes: bool)
    ensures
        yes == is_text_byte(b),
{
    (0x20 <= b && b <= 0x7E) || b == 0x09 || b == 0x0A || b == 0x0D || b >= 0x80
}

/// Counts the NUL bytes of `bytes` and tells whether all its bytes are text
/// bytes, in one pass.
pub fn scan(bytes: &[u8]) -> (res: (usize, bool))
    ensures
        res.0 == nul_count(bytes@),
        res.1 == all_text_bytes(bytes@),
{
    let mut nuls: usize = 0;
    let mut all_text = true;
    let mut i: usize = 0;
    while i < bytes.len()
        invariant
            i <= bytes@.len(),
            nuls == nul_count(bytes@.take(i as int)),
            nuls <= i,
            all_text == all_text_bytes(bytes@.take(i as int)),
        decreases bytes@.len() - i,
    {
        let b: u8 = bytes[i];
        proof {
            lemma_filter_take_step(bytes@, |b: u8| b == 0, i as int);
            let before = bytes@.take(i as int);
            let after = bytes@.take(i + 1);
            assert(after[i as int] == b);
            assert(forall|j: int| 0 <= j < before.len() ==> before[j] == after[j]);
            if all_text_bytes(after) {
                assert forall|j: int| 0 <= j < before.len() implies is_text_byte(
                    #[trigger] before[j],
                ) by {
                    assert(is_text_byte(after[j]));
                }
            }
        }
        if b == 0 {
            nuls = nuls + 1;
        }
        if !text_byte(b) {
            all_text = false;
        }
        i = i + 1;
    }
    assert(bytes@.take(bytes@.len() as int) == bytes@);
    (nuls, all_text)
}

/// Classifies `bytes`. Total and deterministic: every buffer gets a tag, the
/// empty one `Utf8`.
pub fn detect(bytes: &[u8]) -> (tag: EncodingTag)
    ensures
        tag == detect_spec(bytes@),
{
    let len: usize = bytes.len();
    if len >= 3 && bytes[0] == 0xEF && bytes[1] == 0xBB && bytes[2] == 0xBF {
        EncodingTag::Utf8WithBom
    } else if len >= 2 && bytes[0] == 0xFF && bytes[1] == 0xFE {
        EncodingTag::Utf16Le
    } else if len >= 2 && bytes[0] == 0xFE && bytes[1] == 0xFF {
        EncodingTag::Utf16Be
    } else {
        let (nuls, all_text) = scan(bytes);
        if nuls > len / 4 {
            EncodingTag::LikelyUtf16
        } else if all_text {
            EncodingTag::Utf8
        } else {
            EncodingTag::Unknown
        }
    }
}

/// The detector and the stripper agree on what is a byte-order mark: the tag
/// names a mark exactly when the stripper removes one, and of the same width.
pub proof fn lemma_detector_agrees_with_stripper(bytes: Seq<u8>)
    ensures
        detect_spec(bytes) == EncodingTag::Utf8WithBom <==> bom_len(bytes) == 3,
        (detect_spec(bytes) == EncodingTag::Utf16Le || detect_spec(bytes) == EncodingTag::Utf16Be)
            <==> bom_len(bytes) == 2,
        (detect_spec(bytes) == EncodingTag::LikelyUtf16 || detect_spec(bytes) == EncodingTag::Utf8
            || detect_spec(bytes) == EncodingTag::Unknown) <==> bom_len(bytes) == 0,
{
}

/// A buffer that starts with the UTF-8 mark is tagged `Utf8WithBom`,
/// whatever follows the mark.
pub proof fn lemma_detect_utf8_bom(rest: Seq<u8>)
    ensures
        detect_spec(seq![0xEFu8, 0xBBu8, 0xBFu8] + rest) == EncodingTag::Utf8WithBom,
{
    assert(has_utf8_bom(seq![0xEFu8, 0xBBu8, 0xBFu8] + rest));
}

/// The empty buffer is tagged `Utf8`.
pub proof fn lemma_detect_empty()
    ensures
        detect_spec(Seq::<u8>::empty()) == EncodingTag::Utf8,
{
    reveal(Seq::filter);
}

/// A buffer of text bytes that starts with no mark is tagged `Utf8`.
pub proof fn lemma_detect_plain_text(bytes: Seq<u8>)
    requires
        all_text_bytes(bytes),
        bom_len(bytes) == 0,
    ensures
        detect_spec(bytes) == EncodingTag::Utf8,
{
    let pred = |b: u8| b == 0;
    if bytes.filter(pred).len() > 0 {
        bytes.lemma_filter_pred(pred, 0);
        let z = bytes.filter(pred)[0];
        assert(bytes.filter(pred).contains(z));
        bytes.lemma_filter_contains_rev(pred, z);
        let k = choose|k: int| 0 <= k < bytes.len() && bytes[k] == z;
        assert(is_text_byte(bytes[k]));
    }
}

/// Plain ASCII text (printable characters, tab, line feed, carriage return)
/// is tagged `Utf8`.
pub proof fn lemma_detect_plain_ascii(bytes: Seq<u8>)
    requires
        forall|i: int|
            0 <= i < bytes.len() ==> is_text_byte(#[trigger] bytes[i]) && bytes[i] < 0x80,
    ensures
        detect_spec(bytes) == EncodingTag::Utf8,
{
    if bytes.len() > 0 {
        assert(is_text_byte(bytes[0]) && bytes[0] < 0x80);
    }
    lemma_detect_plain_text(bytes);
}

} // verus!
