//! Facts about the UTF-8 encoding that the laws of the pipeline rest on.

use vstd::prelude::*;
use vstd::utf8::{
    decode_utf8, decode_utf8_encode_utf8, encode_scalar, encode_utf8, encode_utf8_decode_utf8,
    encode_utf8_valid_utf8, has_width_1_encoding, has_width_2_encoding, has_width_3_encoding,
    valid_utf8,
};
use crate::bom::{has_utf16_be_bom, has_utf16_le_bom, has_utf8_bom, strip_bom_spec};
use crate::filtering::{lemma_filter_all, lemma_filter_none};
use crate::sanitize::{is_clean_byte, is_kept, remove_nulls_spec};

verus! {

broadcast use vstd::utf8::char_is_scalar;

/// A byte with a leading-byte or continuation-byte pattern or-ed in is
/// 0x80 or more.
proof fn lemma_or_sets_high_bit(x: u8)
    by (bit_vector)
    ensures
        0x80u8 | x >= 0x80,
        0xC0u8 | x >= 0x80,
        0xE0u8 | x >= 0x80,
        0xF0u8 | x >= 0xF0,
{
}

/// A code point below 0x80 is encoded as the byte of the same value.
proof fn lemma_width_1_byte(c: u32)
    by (bit_vector)
    requires
        c <= 0x7F,
    ensures
        (c & 0x7F) as u8 == c,
{
}

/// The leading byte of a two-byte encoding is at most 0xDF.
proof fn lemma_width_2_leading_byte(c: u32)
    by (bit_vector)
    ensures
        0xC0u8 | ((c >> 6) & 0x1F) as u8 <= 0xDF,
{
}

/// The one code point whose three-byte encoding is `EF BB BF` is U+FEFF.
proof fn lemma_width_3_mark(c: u32)
    by (bit_vector)
    requires
        c <= 0xFFFF,
        0xE0u8 | ((c >> 12) & 0x0F) as u8 == 0xEF,
        0x80u8 | ((c >> 6) & 0x3F) as u8 == 0xBB,
        0x80u8 | (c & 0x3F) as u8 == 0xBF,
    ensures
        c == 0xFEFF,
{
}

/// Two characters with the same code point are the same character.
proof fn lemma_same_code_point(c: char, d: char)
    requires
        c as u32 == d as u32,
    ensures
        c == d,
{
}

/// A kept ASCII character is a clean byte.
proof fn lemma_kept_ascii_is_clean(c: char)
    requires
        is_kept(c),
    ensures
        c as u32 <= 0x7F ==> is_clean_byte(c as u8),
{
}

/// NUL is the one character whose code point is zero.
proof fn lemma_nul_code_point(c: char)
    ensures
        c == '\0' <==> c as u32 == 0,
        c as u32 <= 0x7F ==> (c as u8 == 0 <==> c as u32 == 0),
{
}

/// Well-formed UTF-8 never starts with one of the UTF-16 byte-order marks:
/// neither 0xFE nor 0xFF is a leading byte.
pub proof fn lemma_valid_utf8_has_no_utf16_bom(bytes: Seq<u8>)
    requires
        valid_utf8(bytes),
    ensures
        !has_utf16_le_bom(bytes),
        !has_utf16_be_bom(bytes),
{
}

/// The bytes of one encoded character: an ASCII character is its own single
/// byte, and every byte of a longer encoding is 0x80 or more.
pub proof fn lemma_encoded_char_bytes(c: char)
    ensures
        c as u32 <= 0x7F ==> encode_scalar(c as u32) == seq![c as u8],
        c as u32 > 0x7F ==> forall|k: int|
            0 <= k < encode_scalar(c as u32).len() ==> #[trigger] encode_scalar(c as u32)[k]
                >= 0x80,
        1 <= encode_scalar(c as u32).len() <= 4,
{
    let s = c as u32;
    if has_width_1_encoding(s) {
        lemma_width_1_byte(s);
    } else {
        lemma_or_sets_high_bit(((s >> 6) & 0x1F) as u8);
        lemma_or_sets_high_bit(((s >> 12) & 0x0F) as u8);
        lemma_or_sets_high_bit(((s >> 18) & 0x7) as u8);
        lemma_or_sets_high_bit((s & 0x3F) as u8);
        lemma_or_sets_high_bit(((s >> 6) & 0x3F) as u8);
        lemma_or_sets_high_bit(((s >> 12) & 0x3F) as u8);
    }
}

/// Encoded text starts with the three bytes of the UTF-8 byte-order mark
/// only if its first character is U+FEFF.
pub proof fn lemma_encoded_bom_is_feff(text: Seq<char>)
    requires
        has_utf8_bom(encode_utf8(text)),
    ensures
        text.len() > 0,
        text[0] == '\u{FEFF}',
{
    if text.len() > 0 {
        let s = text[0] as u32;
        let first = encode_scalar(s);
        let rest = encode_utf8(text.drop_first());
        assert(encode_utf8(text) == first + rest);
        if has_width_1_encoding(s) {
            lemma_width_1_byte(s);
            assert((first + rest)[0] == first[0]);
        } else if has_width_2_encoding(s) {
            lemma_width_2_leading_byte(s);
            assert((first + rest)[0] == first[0]);
        } else if has_width_3_encoding(s) {
            assert((first + rest)[0] == first[0]);
            assert((first + rest)[1] == first[1]);
            assert((first + rest)[2] == first[2]);
            lemma_width_3_mark(s);
            lemma_same_code_point(text[0], '\u{FEFF}');
        } else {
            lemma_or_sets_high_bit(((s >> 18) & 0x7) as u8);
            assert((first + rest)[0] == first[0]);
        }
    }
}

/// Text made of kept characters encodes to clean bytes: printable ASCII, tab,
/// line feed, and bytes of 0x80 or more.
pub proof fn lemma_kept_text_encodes_clean(text: Seq<char>)
    requires
        forall|i: int| 0 <= i < text.len() ==> is_kept(#[trigger] text[i]),
    ensures
        forall|k: int|
            0 <= k < encode_utf8(text).len() ==> is_clean_byte(#[trigger] encode_utf8(text)[k]),
    decreases text.len(),
{
    if text.len() > 0 {
        let first = encode_scalar(text[0] as u32);
        let tail = text.drop_first();
        let rest = encode_utf8(tail);
        assert forall|i: int| 0 <= i < tail.len() implies is_kept(#[trigger] tail[i]) by {
            assert(tail[i] == text[i + 1]);
        }
        lemma_kept_text_encodes_clean(tail);
        lemma_encoded_char_bytes(text[0]);
        assert(is_kept(text[0]));
        assert forall|k: int| 0 <= k < (first + rest).len() implies is_clean_byte(
            #[trigger] (first + rest)[k],
        ) by {
            if k < first.len() {
                assert((first + rest)[k] == first[k]);
                lemma_kept_ascii_is_clean(text[0]);
            } else {
                assert((first + rest)[k] == rest[k - first.len()]);
            }
        }
    }
}

/// Encoding distributes over concatenation.
pub proof fn lemma_encode_utf8_concat(a: Seq<char>, b: Seq<char>)
    ensures
        encode_utf8(a + b) == encode_utf8(a) + encode_utf8(b),
    decreases a.len(),
{
    if a.len() == 0 {
        assert(a + b == b);
        assert(encode_utf8(a) + encode_utf8(b) == encode_utf8(b));
    } else {
        assert((a + b).drop_first() == a.drop_first() + b);
        lemma_encode_utf8_concat(a.drop_first(), b);
        let head = encode_scalar(a[0] as u32);
        assert(head + (encode_utf8(a.drop_first()) + encode_utf8(b)) == (head + encode_utf8(
            a.drop_first(),
        )) + encode_utf8(b));
    }
}

/// Removing NUL bytes from encoded text removes exactly the NUL characters:
/// no other character has a zero byte in its encoding.
pub proof fn lemma_remove_nulls_of_encoded(text: Seq<char>)
    ensures
        remove_nulls_spec(encode_utf8(text)) == encode_utf8(text.filter(|c: char| c != '\0')),
    decreases text.len(),
{
    let not_nul = |c: char| c != '\0';
    let nonzero = |b: u8| b != 0;
    reveal(Seq::filter);
    if text.len() > 0 {
        let init = text.drop_last();
        let last = text.last();
        let tail = encode_scalar(last as u32);
        lemma_remove_nulls_of_encoded(init);
        assert(text == init + seq![last]);
        lemma_encode_utf8_concat(init, seq![last]);
        assert(encode_utf8(seq![last]) == tail) by {
            assert(seq![last].drop_first() == Seq::<char>::empty());
            assert(encode_utf8(Seq::<char>::empty()) == Seq::<u8>::empty());
            assert(tail + Seq::<u8>::empty() == tail);
        }
        Seq::filter_distributes_over_add(encode_utf8(init), tail, nonzero);
        lemma_encoded_char_bytes(last);
        lemma_nul_code_point(last);
        if last == '\0' {
            assert(tail == seq![0u8]);
            lemma_filter_none(tail, nonzero);
            assert(encode_utf8(init).filter(nonzero) + Seq::<u8>::empty() == encode_utf8(
                init,
            ).filter(nonzero));
        } else {
            assert forall|k: int| 0 <= k < tail.len() implies nonzero(#[trigger] tail[k]) by {
                if last as u32 <= 0x7F {
                    assert(tail[k] == last as u8);
                }
            }
            lemma_filter_all(tail, nonzero);
            lemma_encode_utf8_concat(init.filter(not_nul), seq![last]);
            assert(init.filter(not_nul).push(last) == init.filter(not_nul) + seq![last]);
        }
    } else {
        assert(encode_utf8(text) == Seq::<u8>::empty());
    }
}

/// NUL bytes may be removed before decoding: what is left of well-formed
/// UTF-8 is well-formed, and decodes to the same text without its NUL
/// characters.
pub proof fn lemma_remove_nulls_keeps_utf8(bytes: Seq<u8>)
    requires
        valid_utf8(bytes),
    ensures
        valid_utf8(remove_nulls_spec(bytes)),
        decode_utf8(remove_nulls_spec(bytes)) == decode_utf8(bytes).filter(|c: char| c != '\0'),
{
    let text = decode_utf8(bytes);
    decode_utf8_encode_utf8(bytes);
    lemma_remove_nulls_of_encoded(text);
    encode_utf8_valid_utf8(text.filter(|c: char| c != '\0'));
    encode_utf8_decode_utf8(text.filter(|c: char| c != '\0'));
}

/// Removing the byte-order mark from well-formed UTF-8 leaves well-formed
/// UTF-8: the UTF-8 mark is one whole character, and the UTF-16 marks
/// cannot begin well-formed UTF-8 at all.
pub proof fn lemma_strip_bom_keeps_utf8(bytes: Seq<u8>)
    requires
        valid_utf8(bytes),
    ensures
        valid_utf8(strip_bom_spec(bytes)),
{
    lemma_valid_utf8_has_no_utf16_bom(bytes);
    if has_utf8_bom(bytes) {
        assert(bytes.subrange(3, bytes.len() as int) == bytes.skip(3));
    } else {
        assert(bytes.skip(0) == bytes);
    }
}

/// A carriage return in the text is a 0x0D byte in its encoding.
pub proof fn lemma_encoded_cr(text: Seq<char>, i: int)
    requires
        0 <= i < text.len(),
        text[i] == '\r',
    ensures
        encode_utf8(text).contains(0x0Du8),
    decreases text.len(),
{
    let first = encode_scalar(text[0] as u32);
    let rest = encode_utf8(text.drop_first());
    lemma_encoded_char_bytes(text[0]);
    if i == 0 {
        lemma_cr_code_point(text[0]);
        assert((first + rest)[0] == 0x0Du8);
    } else {
        assert(text.drop_first()[i - 1] == text[i]);
        lemma_encoded_cr(text.drop_first(), i - 1);
        let k = choose|k: int| 0 <= k < rest.len() && rest[k] == 0x0Du8;
        assert((first + rest)[first.len() + k] == 0x0Du8);
    }
}

/// The carriage return is U+000D.
proof fn lemma_cr_code_point(c: char)
    requires
        c == '\r',
    ensures
        c as u32 == 0x0D,
        c as u8 == 0x0D,
{
}

/// Well-formed UTF-8 without a 0x0D byte decodes to text without a
/// carriage return.
pub proof fn lemma_no_cr_byte_no_cr(bytes: Seq<u8>)
    requires
        valid_utf8(bytes),
        !bytes.contains(0x0Du8),
    ensures
        forall|i: int| 0 <= i < decode_utf8(bytes).len() ==> decode_utf8(bytes)[i] != '\r',
{
    let text = decode_utf8(bytes);
    decode_utf8_encode_utf8(bytes);
    assert forall|i: int| 0 <= i < text.len() implies text[i] != '\r' by {
        if text[i] == '\r' {
            lemma_encoded_cr(text, i);
        }
    }
}

} // verus!
