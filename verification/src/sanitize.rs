//! Filtering of control characters from decoded text, and of NUL bytes from
//! raw buffers.

use vstd::prelude::*;
use crate::filtering::{lemma_filter_all, lemma_filter_idempotent, lemma_filter_take_step};

verus! {

/// A C0 control code (U+0000 to U+001F) or DEL (U+007F).
pub open spec fn is_c0_control(c: char) -> bool {
    c as u32 <= 0x1F || c as u32 == 0x7F
}

/// The sanitizer's policy: line feed and tab stay, every other control code
/// goes (carriage return included), and everything else stays, all code
/// points from U+0080 upwards among them.
pub open spec fn is_kept(c: char) -> bool {
    c == '\n' || c == '\t' || !is_c0_control(c)
}

/// A byte that repaired output may hold: printable ASCII, tab, line feed, or
/// a byte of a multi-byte character.
pub open spec fn is_clean_byte(b: u8) -> bool {
    (0x20 <= b <= 0x7E) || b == 0x09 || b == 0x0A || b >= 0x80
}

/// The text with exactly the characters that [`is_kept`] accepts, in the
/// order in which they stood.
pub open spec fn sanitize_spec(text: Seq<char>) -> Seq<char> {
    text.filter(|c: char| is_kept(c))
}

/// Decides whether the sanitizer keeps `c`.
pub fn keeps(c: char) -> (keep: bool)
    ensures
        keep == is_kept(c),
{
    let code: u32 = c as u32;
    c == '\n' || c == '\t' || !(code <= 0x1F || code == 0x7F)
}

/// Removes control characters from `text`, character by character, so that
/// no multi-byte character is ever split.
pub fn sanitize(text: &str) -> (clean: String)
    ensures
        clean@ == sanitize_spec(text@),
{
    broadcast use vstd::string::group_string_axioms;

    let mut clean = String::new();
    for c in it: text.chars()
        invariant
            it.seq() == text@,
            clean@ == sanitize_spec(text@.take(it.index())),
    {
        proof {
            lemma_filter_take_step(text@, |c: char| is_kept(c), it.index());
        }
        if keeps(c) {
            clean.push(c);
        }
    }
    assert(text@.take(text@.len() as int) == text@);
    clean
}

/// The buffer without its NUL bytes, the others in the order in which they
/// stood.
pub open spec fn remove_nulls_spec(bytes: Seq<u8>) -> Seq<u8> {
    bytes.filter(|b: u8| b != 0)
}

/// Drops every NUL byte of `bytes`. For callers that want the NULs gone
/// before any decoding is attempted.
pub fn remove_nulls(bytes: &[u8]) -> (out: Vec<u8>)
    ensures
        out@ == remove_nulls_spec(bytes@),
{
    let mut out: Vec<u8> = Vec::new();
    let mut i: usize = 0;
    while i < bytes.len()
        invariant
            i <= bytes@.len(),
            out@ == remove_nulls_spec(bytes@.take(i as int)),
        decreases bytes@.len() - i,
    {
        let b: u8 = bytes[i];
        proof {
            lemma_filter_take_step(bytes@, |b: u8| b != 0, i as int);
        }
        if b != 0 {
            out.push(b);
        }
        i = i + 1;
    }
    assert(bytes@.take(bytes@.len() as int) == bytes@);
    out
}

/// Sanitising is idempotent: a second pass changes nothing.
pub proof fn lemma_sanitize_idempotent(text: Seq<char>)
    ensures
        sanitize_spec(sanitize_spec(text)) == sanitize_spec(text),
{
    lemma_filter_idempotent(text, |c: char| is_kept(c));
}

/// Every character of sanitised text is one the policy keeps.
pub proof fn lemma_sanitized_is_kept(text: Seq<char>)
    ensures
        forall|i: int|
            0 <= i < sanitize_spec(text).len() ==> is_kept(#[trigger] sanitize_spec(text)[i]),
{
    let pred = |c: char| is_kept(c);
    assert forall|i: int| 0 <= i < sanitize_spec(text).len() implies is_kept(
        #[trigger] sanitize_spec(text)[i],
    ) by {
        text.lemma_filter_pred(pred, i);
    }
}

/// Text made only of characters that the policy keeps passes through
/// unchanged. Every code point from U+0080 upwards is such a character, so
/// text in any script survives sanitising intact.
pub proof fn lemma_sanitize_keeps_clean_text(text: Seq<char>)
    requires
        forall|i: int| 0 <= i < text.len() ==> is_kept(#[trigger] text[i]),
    ensures
        sanitize_spec(text) == text,
{
    lemma_filter_all(text, |c: char| is_kept(c));
}

/// A character outside ASCII is never removed.
pub proof fn lemma_non_ascii_is_kept(c: char)
    requires
        c as u32 >= 0x80,
    ensures
        is_kept(c),
{
}

/// Removing NULs leaves none behind, and is idempotent.
pub proof fn lemma_remove_nulls_idempotent(bytes: Seq<u8>)
    ensures
        forall|i: int|
            0 <= i < remove_nulls_spec(bytes).len() ==> #[trigger] remove_nulls_spec(bytes)[i]
                != 0,
        remove_nulls_spec(remove_nulls_spec(bytes)) == remove_nulls_spec(bytes),
{
    let pred = |b: u8| b != 0;
    let kept = remove_nulls_spec(bytes);
    assert forall|i: int| 0 <= i < kept.len() implies #[trigger] kept[i] != 0 by {
        bytes.lemma_filter_pred(pred, i);
    }
    lemma_filter_idempotent(bytes, pred);
}

} // verus!
