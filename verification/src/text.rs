//! Executable UTF-8 well-formedness checking, verified against vstd's
//! `valid_utf8` specification.
//!
//! The registry record's text fields are carried as raw bytes; the decoder
//! admits a field only when its bytes form a well-formed UTF-8 encoding, so
//! every stored field is genuine text.

use vstd::prelude::*;
use vstd::utf8::*;

verus! {

/// Checks whether `bytes` is a well-formed UTF-8 encoding.
///
/// Walks the buffer one encoded scalar at a time: each step classifies the
/// leading byte, checks the continuation bytes, and rejects overlong
/// encodings and surrogate codepoints.
pub fn utf8_is_valid(bytes: &[u8]) -> (r: bool)
    ensures
        r == valid_utf8(bytes@),
{
    let n = bytes.len();
    let mut i: usize = 0;
    assert(bytes@.subrange(0, n as int) =~= bytes@);
    while i < n
        invariant
            i <= n,
            n == bytes@.len(),
            valid_utf8(bytes@) == valid_utf8(bytes@.subrange(i as int, n as int)),
        decreases n - i,
    {
        let ghost rest = bytes@.subrange(i as int, n as int);
        assert(rest.len() > 0);
        let b0 = bytes[i];
        assert(rest[0] == b0);
        let width: usize;
        if b0 < 0x80 {
            width = 1;
        } else if b0 >= 0xc0 && b0 <= 0xdf {
            width = 2;
        } else if b0 >= 0xe0 && b0 <= 0xef {
            width = 3;
        } else if b0 >= 0xf0 && b0 <= 0xf7 {
            width = 4;
        } else {
            // A continuation byte (0x80..=0xbf) or an out-of-range byte
            // (0xf8..=0xff) can never lead a scalar encoding.
            assert(!valid_leading_and_continuation_bytes_first_codepoint(rest));
            assert(!valid_utf8(rest));
            return false;
        }
        if n - i < width {
            assert(!valid_leading_and_continuation_bytes_first_codepoint(rest));
            assert(!valid_utf8(rest));
            return false;
        }
        // Check the continuation bytes; the leading-byte ranges of the four
        // widths are disjoint, so a bad continuation byte rules them all out.
        if width >= 2 {
            let b1 = bytes[i + 1];
            assert(rest[1] == b1);
            if !(b1 >= 0x80 && b1 <= 0xbf) {
                assert(!valid_leading_and_continuation_bytes_first_codepoint(rest));
                assert(!valid_utf8(rest));
                return false;
            }
        }
        if width >= 3 {
            let b2 = bytes[i + 2];
            assert(rest[2] == b2);
            if !(b2 >= 0x80 && b2 <= 0xbf) {
                assert(!valid_leading_and_continuation_bytes_first_codepoint(rest));
                assert(!valid_utf8(rest));
                return false;
            }
        }
        if width == 4 {
            let b3 = bytes[i + 3];
            assert(rest[3] == b3);
            if !(b3 >= 0x80 && b3 <= 0xbf) {
                assert(!valid_leading_and_continuation_bytes_first_codepoint(rest));
                assert(!valid_utf8(rest));
                return false;
            }
        }
        assert(valid_leading_and_continuation_bytes_first_codepoint(rest));
        assert(length_of_first_codepoint(rest) == width);
        // Compute the codepoint and rule out overlong and surrogate forms.
        let cp: u32;
        if width == 1 {
            cp = (b0 & 0x7f) as u32;
        } else if width == 2 {
            cp = (((b0 & 0x1f) as u32) << 6) | ((bytes[i + 1] & 0x3f) as u32);
        } else if width == 3 {
            cp = (((b0 & 0x0f) as u32) << 12) | (((bytes[i + 1] & 0x3f) as u32) << 6) | ((bytes[i
                + 2] & 0x3f) as u32);
        } else {
            cp = (((b0 & 0x07) as u32) << 18) | (((bytes[i + 1] & 0x3f) as u32) << 12) | (((bytes[i
                + 2] & 0x3f) as u32) << 6) | ((bytes[i + 3] & 0x3f) as u32);
        }
        assert(cp == decode_first_codepoint(rest));
        let overlong_or_out_of_range: bool = (width == 2 && cp < 0x80) || (width == 3 && cp < 0x800)
            || (width == 4 && !(cp >= 0x10000 && cp <= 0x10ffff));
        let surrogate: bool = cp >= 0xd800 && cp <= 0xdfff;
        if overlong_or_out_of_range || surrogate {
            assert(!valid_first_scalar(rest));
            assert(!valid_utf8(rest));
            return false;
        }
        assert(valid_first_scalar(rest));
        assert(pop_first_scalar(rest) =~= bytes@.subrange(i as int + width, n as int));
        i = i + width;
    }
    assert(bytes@.subrange(n as int, n as int) =~= Seq::<u8>::empty());
    true
}

/// Every all-ASCII byte sequence is well-formed UTF-8: each byte below 0x80
/// encodes one scalar on its own.
pub proof fn lemma_ascii_valid_utf8(s: Seq<u8>)
    requires
        forall|k: int| 0 <= k < s.len() ==> #[trigger] s[k] < 0x80,
    ensures
        valid_utf8(s),
    decreases s.len(),
{
    if s.len() != 0 {
        assert(valid_first_scalar(s));
        assert(length_of_first_scalar(s) == 1);
        let rest = s.subrange(1, s.len() as int);
        assert(forall|k: int| 0 <= k < rest.len() ==> #[trigger] rest[k] < 0x80);
        lemma_ascii_valid_utf8(rest);
        assert(pop_first_scalar(s) == rest);
    }
}

} // verus!
