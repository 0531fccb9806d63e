//! Crockford Base32 encoding of a 64-bit value into 13 characters.
//!
//! The 64 bits are consumed five at a time, most significant first; one
//! trailing zero bit pads them to 65 bits, which is exactly 13 five-bit
//! groups. Each group indexes the 32-symbol alphabet below, which omits the
//! letters `i`, `l`, `o` and `u` to avoid visual confusion with digits.

use vstd::prelude::*;

use crate::strings::push_char;

verus! {

/// The Crockford Base32 alphabet, lower case, in value order.
pub const ALPHABET: [char; 32] = [
    '0',
    '1',
    '2',
    '3',
    '4',
    '5',
    '6',
    '7',
    '8',
    '9',
    'a',
    'b',
    'c',
    'd',
    'e',
    'f',
    'g',
    'h',
    'j',
    'k',
    'm',
    'n',
    'p',
    'q',
    'r',
    's',
    't',
    'v',
    'w',
    'x',
    'y',
    'z',
];

/// Whether `c` is one of the 32 alphabet symbols (lower case).
pub open spec fn is_symbol(c: char) -> bool {
    let u = c as u32;
    // '0'..='9', or 'a'..='z' except 'i', 'l', 'o', 'u'
    (48 <= u && u <= 57) || (97 <= u && u <= 122 && u != 105 && u != 108 && u != 111 && u != 117)
}

/// The 64-bit value that eight bytes spell in big-endian order.
pub open spec fn be64(b: Seq<u8>) -> u64
    recommends
        b.len() >= 8,
{
    ((b[0] as u64) << 56) | ((b[1] as u64) << 48) | ((b[2] as u64) << 40) | ((b[3] as u64) << 32)
        | ((b[4] as u64) << 24) | ((b[5] as u64) << 16) | ((b[6] as u64) << 8) | (b[7] as u64)
}

/// Five-bit group `i` (0-based, most significant first) of `n` followed by
/// one zero padding bit.
pub open spec fn digit_of(n: u64, i: int) -> u128
    recommends
        0 <= i < 13,
{
    (((n as u128) << 1) >> ((60 - 5 * i) as u128)) & 31
}

/// Character `i` of the encoding of `n`.
pub open spec fn encoded_char(n: u64, i: int) -> char
    recommends
        0 <= i < 13,
{
    ALPHABET@[digit_of(n, i) as int]
}

/// The 13-character Crockford Base32 encoding of `n`.
pub open spec fn encode13(n: u64) -> Seq<char> {
    Seq::new(13, |i: int| encoded_char(n, i))
}

/// Every character the encoding can produce is an alphabet symbol.
pub proof fn lemma_alphabet_symbols(d: int)
    requires
        0 <= d < 32,
    ensures
        is_symbol(ALPHABET@[d]),
{
}

/// Each five-bit group is below 32.
pub proof fn lemma_digit_bound(n: u64, i: int)
    ensures
        0 <= digit_of(n, i) < 32,
{
    let m = (n as u128) << 1;
    let sh = (60 - 5 * i) as u128;
    assert((m >> sh) & 31 < 32) by (bit_vector);
}

/// Every character of an encoding is an alphabet symbol.
pub proof fn lemma_encoded_char_symbol(n: u64, i: int)
    requires
        0 <= i < 13,
    ensures
        is_symbol(encoded_char(n, i)),
{
    lemma_digit_bound(n, i);
    lemma_alphabet_symbols(digit_of(n, i) as int);
}

/// Reads the 64-bit big-endian value of the first eight bytes.
pub fn read_be64(b: &[u8]) -> (n: u64)
    requires
        b@.len() >= 8,
    ensures
        n == be64(b@),
{
    ((b[0] as u64) << 56) | ((b[1] as u64) << 48) | ((b[2] as u64) << 40) | ((b[3] as u64) << 32)
        | ((b[4] as u64) << 24) | ((b[5] as u64) << 16) | ((b[6] as u64) << 8) | (b[7] as u64)
}

/// Encodes `n` as its 13-character Crockford Base32 string.
pub fn encode13_string(n: u64) -> (r: String)
    ensures
        r@ == encode13(n),
{
    let m: u128 = (n as u128) << 1;
    let mut r = String::new();
    let mut i: usize = 0;
    while i < 13
        invariant
            m == (n as u128) << 1,
            0 <= i <= 13,
            r@ == encode13(n).take(i as int),
        decreases 13 - i,
    {
        let sh: u128 = 60 - 5 * (i as u128);
        let d: u128 = (m >> sh) & 31;
        proof {
            assert((m >> sh) & 31 < 32) by (bit_vector);
        }
        let c = ALPHABET[d as usize];
        push_char(&mut r, c);
        proof {
            assert(encode13(n).take(i + 1) =~= encode13(n).take(i as int).push(
                encoded_char(n, i as int),
            ));
        }
        i += 1;
    }
    proof {
        assert(encode13(n).take(13) =~= encode13(n));
    }
    r
}

} // verus!
