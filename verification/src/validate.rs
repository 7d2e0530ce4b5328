//! Run-time test of UTF-8 well-formedness, proved against the definition.

use vstd::prelude::*;
use vstd::utf8::{pop_first_scalar, valid_first_scalar, valid_utf8};

verus! {

/// Decides whether `b` is a continuation byte, `10xxxxxx`.
fn continuation(b: u8) -> (yes: bool)
    ensures
        yes == vstd::utf8::is_continuation_byte(b),
{
    0x80 <= b && b <= 0xBF
}

/// Length in bytes of the well-formed scalar that starts at `at`, or 0 when
/// what starts there is not one: a byte that cannot lead, a sequence cut
/// short, an overlong form, a surrogate, or a value past U+10FFFF.
fn scalar_len(bytes: &[u8], at: usize) -> (n: usize)
    requires
        at < bytes@.len(),
    ensures
        n == 0 <==> !valid_first_scalar(bytes@.skip(at as int)),
        n != 0 ==> 1 <= n <= 4 && at + n <= bytes@.len() && pop_first_scalar(
            bytes@.skip(at as int),
        ) == bytes@.skip(at + n),
{
    let len: usize = bytes.len();
    let b0: u8 = bytes[at];
    let ghost rest = bytes@.skip(at as int);
    assert(rest[0] == b0);
    if b0 <= 0x7F {
        assert(rest.subrange(1, rest.len() as int) == bytes@.skip(at + 1));
        1
    } else if 0xC0 <= b0 && b0 <= 0xDF {
        if len - at < 2 {
            return 0;
        }
        let b1: u8 = bytes[at + 1];
        assert(rest[1] == b1);
        if !continuation(b1) {
            return 0;
        }
        let code: u32 = (((b0 & 0x1F) as u32) << 6) | ((b1 & 0x3F) as u32);
        if code < 0x80 {
            return 0;
        }
        assert(!(0xD800 <= code <= 0xDFFF)) by (bit_vector)
            requires
                code == (((b0 & 0x1F) as u32) << 6) | ((b1 & 0x3F) as u32),
        ;
        assert(rest.subrange(2, rest.len() as int) == bytes@.skip(at + 2));
        2
    } else if 0xE0 <= b0 && b0 <= 0xEF {
        if len - at < 3 {
            return 0;
        }
        let b1: u8 = bytes[at + 1];
        let b2: u8 = bytes[at + 2];
        assert(rest[1] == b1 && rest[2] == b2);
        if !continuation(b1) || !continuation(b2) {
            return 0;
        }
        let code: u32 = (((b0 & 0x0F) as u32) << 12) | (((b1 & 0x3F) as u32) << 6) | ((b2
            & 0x3F) as u32);
        if code < 0x800 || (0xD800 <= code && code <= 0xDFFF) {
            return 0;
        }
        assert(rest.subrange(3, rest.len() as int) == bytes@.skip(at + 3));
        3
    } else if 0xF0 <= b0 && b0 <= 0xF7 {
        if len - at < 4 {
            return 0;
        }
        let b1: u8 = bytes[at + 1];
        let b2: u8 = bytes[at + 2];
        let b3: u8 = bytes[at + 3];
        assert(rest[1] == b1 && rest[2] == b2 && rest[3] == b3);
        if !continuation(b1) || !continuation(b2) || !continuation(b3) {
            return 0;
        }
        let code: u32 = (((b0 & 0x07) as u32) << 18) | (((b1 & 0x3F) as u32) << 12) | (((b2
            & 0x3F) as u32) << 6) | ((b3 & 0x3F) as u32);
        if code < 0x10000 || code > 0x10FFFF {
            return 0;
        }
        assert(rest.subrange(4, rest.len() as int) == bytes@.skip(at + 4));
        4
    } else {
        0
    }
}

/// Tells whether `bytes` are well-formed UTF-8.
pub fn is_valid_utf8(bytes: &[u8]) -> (ok: bool)
    ensures
        ok == valid_utf8(bytes@),
{
    let mut at: usize = 0;
    assert(bytes@.skip(0) == bytes@);
    while at < bytes.len()
        invariant
            at <= bytes@.len(),
            valid_utf8(bytes@) == valid_utf8(bytes@.skip(at as int)),
        decreases bytes@.len() - at,
    {
        let n: usize = scalar_len(bytes, at);
        if n == 0 {
            return false;
        }
        at = at + n;
    }
    true
}

} // verus!
