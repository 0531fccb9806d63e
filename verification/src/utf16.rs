//! UTF-16 little-endian encoding of text.
//!
//! The publisher id derivation hashes the publisher string's UTF-16 code
//! units, each emitted as two bytes with the low byte first. The historical
//! reference computation fixed this byte stream, so it must be reproduced
//! exactly; re-encoding the text any other way yields incompatible ids.

use vstd::prelude::*;

verus! {

/// The UTF-16LE bytes of a single character: code points below `0x10000` are
/// one code unit, the rest a surrogate pair; every code unit is two bytes,
/// low byte first.
pub open spec fn char_utf16le(c: char) -> Seq<u8> {
    let u = c as u32;
    if u < 0x10000 {
        seq![u as u8, (u >> 8) as u8]
    } else {
        let v = (u - 0x10000) as u32;
        let hi = (0xD800 + (v >> 10)) as u32;
        let lo = (0xDC00 + (v & 0x3FF)) as u32;
        seq![hi as u8, (hi >> 8) as u8, lo as u8, (lo >> 8) as u8]
    }
}

/// The UTF-16LE bytes of a character sequence.
pub open spec fn utf16le(s: Seq<char>) -> Seq<u8>
    decreases s.len(),
{
    if s.len() == 0 {
        Seq::empty()
    } else {
        utf16le(s.drop_last()) + char_utf16le(s.last())
    }
}

/// Encodes a string as UTF-16LE bytes.
pub fn encode_utf16le(s: &str) -> (r: Vec<u8>)
    ensures
        r@ == utf16le(s@),
{
    let n = s.unicode_len();
    let mut out: Vec<u8> = Vec::new();
    let mut i: usize = 0;
    while i < n
        invariant
            n == s@.len(),
            0 <= i <= n,
            out@ == utf16le(s@.take(i as int)),
        decreases n - i,
    {
        let c = s.get_char(i);
        let u: u32 = c as u32;
        if u < 0x10000 {
            out.push(u as u8);
            out.push((u >> 8) as u8);
        } else {
            let v: u32 = u - 0x10000;
            proof {
                assert((v >> 10) <= 0x3FFFFF && (v & 0x3FF) <= 0x3FF) by (bit_vector);
            }
            let hi: u32 = 0xD800 + (v >> 10);
            let lo: u32 = 0xDC00 + (v & 0x3FF);
            out.push(hi as u8);
            out.push((hi >> 8) as u8);
            out.push(lo as u8);
            out.push((lo >> 8) as u8);
        }
        proof {
            assert(s@.take(i + 1).drop_last() =~= s@.take(i as int));
            assert(s@.take(i + 1).last() == s@[i as int]);
        }
        i += 1;
    }
    proof {
        assert(s@.take(n as int) =~= s@);
    }
    out
}

} // verus!
