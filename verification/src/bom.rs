//! Byte-order marks: recognising one at the start of a buffer and removing it.

use vstd::prelude::*;

verus! {

/// The three bytes of the UTF-8 byte-order mark.
pub open spec fn has_utf8_bom(bytes: Seq<u8>) -> bool {
    bytes.len() >= 3 && bytes[0] == 0xEF && bytes[1] == 0xBB && bytes[2] == 0xBF
}

/// The two bytes of the UTF-16 little-endian byte-order mark.
pub open spec fn has_utf16_le_bom(bytes: Seq<u8>) -> bool {
    bytes.len() >= 2 && bytes[0] == 0xFF && bytes[1] == 0xFE
}

/// The two bytes of the UTF-16 big-endian byte-order mark.
pub open spec fn has_utf16_be_bom(bytes: Seq<u8>) -> bool {
    bytes.len() >= 2 && bytes[0] == 0xFE && bytes[1] == 0xFF
}

/// Number of leading bytes that form a byte-order mark: 3 for UTF-8, 2 for
/// either UTF-16 mark, 0 when the buffer starts with none of them.
pub open spec fn bom_len(bytes: Seq<u8>) -> nat {
    if has_utf8_bom(bytes) {
        3
    } else if has_utf16_le_bom(bytes) || has_utf16_be_bom(bytes) {
        2
    } else {
        0
    }
}

/// The buffer without its leading byte-order mark, if it has one.
pub open spec fn strip_bom_spec(bytes: Seq<u8>) -> Seq<u8> {
    bytes.skip(bom_len(bytes) as int)
}

/// Length of the byte-order mark at the start of `bytes`.
pub fn bom_length(bytes: &[u8]) -> (n: usize)
    ensures
        n == bom_len(bytes@),
        n <= bytes@.len(),
{
    let len: usize = bytes.len();
    if len >= 3 && bytes[0] == 0xEF && bytes[1] == 0xBB && bytes[2] == 0xBF {
        3
    } else if len >= 2 && ((bytes[0] == 0xFF && bytes[1] == 0xFE) || (bytes[0] == 0xFE
        && bytes[1] == 0xFF)) {
        2
    } else {
        0
    }
}

/// Removes exactly one leading byte-order mark and returns the rest as a view
/// into the same buffer; a buffer without a mark is returned whole.
pub fn strip_bom(bytes: &[u8]) -> (rest: &[u8])
    ensures
        rest@ == strip_bom_spec(bytes@),
        rest@.len() + bom_len(bytes@) == bytes@.len(),
{
    let n: usize = bom_length(bytes);
    vstd::slice::slice_subrange(bytes, n, bytes.len())
}

/// A buffer that starts with the UTF-8 mark loses exactly those three bytes.
pub proof fn lemma_strip_utf8_bom(rest: Seq<u8>)
    ensures
        strip_bom_spec(seq![0xEFu8, 0xBBu8, 0xBFu8] + rest) == rest,
{
    let bytes = seq![0xEFu8, 0xBBu8, 0xBFu8] + rest;
    assert(has_utf8_bom(bytes));
    assert(bytes.skip(3) == rest);
}

/// A buffer that starts with either UTF-16 mark loses exactly those two
/// bytes.
pub proof fn lemma_strip_utf16_bom(rest: Seq<u8>)
    ensures
        strip_bom_spec(seq![0xFFu8, 0xFEu8] + rest) == rest,
        strip_bom_spec(seq![0xFEu8, 0xFFu8] + rest) == rest,
{
    let le = seq![0xFFu8, 0xFEu8] + rest;
    assert(has_utf16_le_bom(le) && !has_utf8_bom(le));
    assert(le.skip(2) == rest);
    let be = seq![0xFEu8, 0xFFu8] + rest;
    assert(has_utf16_be_bom(be) && !has_utf8_bom(be));
    assert(be.skip(2) == rest);
}

/// A buffer without a byte-order mark is returned unchanged.
pub proof fn lemma_strip_without_bom(bytes: Seq<u8>)
    requires
        !has_utf8_bom(bytes),
        !has_utf16_le_bom(bytes),
        !has_utf16_be_bom(bytes),
    ensures
        strip_bom_spec(bytes) == bytes,
{
    assert(bytes.skip(0) == bytes);
}

/// Only one mark is removed: what follows it is kept even where it looks
/// like a mark itself.
pub proof fn lemma_strip_removes_prefix(bytes: Seq<u8>)
    ensures
        bytes.take(bom_len(bytes) as int) + strip_bom_spec(bytes) == bytes,
        strip_bom_spec(bytes).len() == bytes.len() - bom_len(bytes),
{
}

} // verus!
