//! ASCII case folding and the case-folded byte-wise ordering.
//!
//! Every comparison and every hash projection of this crate goes through one
//! projection: the UTF-8 bytes of a string with ASCII upper-case letters
//! lowered. Keeping the projection in one place keeps equality, ordering and
//! hashing consistent with one another.

use vstd::prelude::*;

use core::cmp::Ordering;

verus! {

/// ASCII lower-casing of a single byte: `b'A'..=b'Z'` move to `b'a'..=b'z'`,
/// every other byte is unchanged.
pub open spec fn fold_byte(b: u8) -> u8 {
    if 65 <= b && b <= 90 {
        (b + 32) as u8
    } else {
        b
    }
}

/// ASCII lower-casing of a byte sequence, byte by byte.
pub open spec fn fold_bytes(s: Seq<u8>) -> Seq<u8> {
    s.map(|i: int, b: u8| fold_byte(b))
}

/// ASCII lower-casing of a character's code point: `'A'..='Z'` move to
/// `'a'..='z'`, every other code point is unchanged.
pub open spec fn fold_code(u: u32) -> u32 {
    if 65 <= u && u <= 90 {
        (u + 32) as u32
    } else {
        u
    }
}

/// The comparison key of a string: its UTF-8 bytes, ASCII-lower-cased.
/// Two strings are the same identity exactly when their keys are equal.
pub open spec fn key_of(s: Seq<char>) -> Seq<u8> {
    fold_bytes(vstd::utf8::encode_utf8(s))
}

/// Folding distributes over concatenation.
proof fn lemma_fold_bytes_concat(a: Seq<u8>, b: Seq<u8>)
    ensures
        fold_bytes(a + b) == fold_bytes(a) + fold_bytes(b),
{
    assert(fold_bytes(a + b) =~= fold_bytes(a) + fold_bytes(b));
}

/// Code points that fold to the same value have UTF-8 encodings that fold
/// to the same bytes: two such points are either identical or an ASCII
/// upper-case letter and its lower case, both a single byte.
proof fn lemma_fold_scalar(u: u32, v: u32)
    requires
        fold_code(u) == fold_code(v),
    ensures
        fold_bytes(vstd::utf8::encode_scalar(u)) == fold_bytes(vstd::utf8::encode_scalar(v)),
{
    if u != v {
        assert(u < 128 && v < 128);
        assert(u & 0x7F == u) by (bit_vector)
            requires
                u < 128,
        ;
        assert(v & 0x7F == v) by (bit_vector)
            requires
                v < 128,
        ;
        assert(fold_bytes(vstd::utf8::encode_scalar(u)) =~= fold_bytes(
            vstd::utf8::encode_scalar(v),
        ));
    }
}

/// Strings whose characters differ only by ASCII case have the same
/// comparison key: folding the characters or folding the UTF-8 bytes comes
/// to the same thing.
pub proof fn lemma_key_of_case_variants(s: Seq<char>, t: Seq<char>)
    requires
        s.len() == t.len(),
        forall|i: int|
            0 <= i < s.len() ==> fold_code(#[trigger] s[i] as u32) == fold_code(t[i] as u32),
    ensures
        key_of(s) == key_of(t),
    decreases s.len(),
{
    if s.len() == 0 {
        assert(key_of(s) =~= key_of(t));
    } else {
        assert forall|i: int|
            0 <= i < s.drop_first().len() implies fold_code(
            #[trigger] s.drop_first()[i] as u32,
        ) == fold_code(t.drop_first()[i] as u32) by {
            assert(fold_code(s[i + 1] as u32) == fold_code(t[i + 1] as u32));
        }
        lemma_key_of_case_variants(s.drop_first(), t.drop_first());
        assert(fold_code(s[0] as u32) == fold_code(t[0] as u32));
        lemma_fold_scalar(s[0] as u32, t[0] as u32);
        lemma_fold_bytes_concat(
            vstd::utf8::encode_scalar(s[0] as u32),
            vstd::utf8::encode_utf8(s.drop_first()),
        );
        lemma_fold_bytes_concat(
            vstd::utf8::encode_scalar(t[0] as u32),
            vstd::utf8::encode_utf8(t.drop_first()),
        );
    }
}

/// Strict byte-wise lexicographic order; a proper prefix comes before any
/// longer sequence it starts.
pub open spec fn lex_lt(a: Seq<u8>, b: Seq<u8>) -> bool
    decreases a.len(),
{
    if b.len() == 0 {
        false
    } else if a.len() == 0 {
        true
    } else if a[0] < b[0] {
        true
    } else if a[0] == b[0] {
        lex_lt(a.drop_first(), b.drop_first())
    } else {
        false
    }
}

/// The three-way comparison that `lex_lt` induces.
pub open spec fn lex_cmp(a: Seq<u8>, b: Seq<u8>) -> Ordering {
    if a == b {
        Ordering::Equal
    } else if lex_lt(a, b) {
        Ordering::Less
    } else {
        Ordering::Greater
    }
}

/// A sequence never comes strictly before itself.
pub proof fn lemma_lex_irreflexive(a: Seq<u8>)
    ensures
        !lex_lt(a, a),
    decreases a.len(),
{
    if a.len() > 0 {
        lemma_lex_irreflexive(a.drop_first());
    }
}

/// At most one of `a < b` and `b < a` holds.
pub proof fn lemma_lex_asymmetric(a: Seq<u8>, b: Seq<u8>)
    ensures
        !(lex_lt(a, b) && lex_lt(b, a)),
    decreases a.len(),
{
    if a.len() > 0 && b.len() > 0 && a[0] == b[0] {
        lemma_lex_asymmetric(a.drop_first(), b.drop_first());
    }
}

/// Two sequences neither of which comes before the other are equal.
pub proof fn lemma_lex_connex(a: Seq<u8>, b: Seq<u8>)
    ensures
        !lex_lt(a, b) && !lex_lt(b, a) ==> a =~= b,
    decreases a.len(),
{
    if a.len() > 0 && b.len() > 0 && a[0] == b[0] {
        lemma_lex_connex(a.drop_first(), b.drop_first());
        if !lex_lt(a, b) && !lex_lt(b, a) {
            assert(a =~= seq![a[0]] + a.drop_first());
            assert(b =~= seq![b[0]] + b.drop_first());
        }
    }
}

/// The order is transitive.
pub proof fn lemma_lex_transitive(a: Seq<u8>, b: Seq<u8>, c: Seq<u8>)
    requires
        lex_lt(a, b),
        lex_lt(b, c),
    ensures
        lex_lt(a, c),
    decreases a.len(),
{
    if a.len() > 0 && b.len() > 0 && c.len() > 0 && a[0] == b[0] && b[0] == c[0] {
        lemma_lex_transitive(a.drop_first(), b.drop_first(), c.drop_first());
    }
}

/// A mismatch at position `i` after a common prefix decides the order.
proof fn lemma_lex_from_mismatch(a: Seq<u8>, b: Seq<u8>, i: int)
    requires
        0 <= i < a.len(),
        i < b.len(),
        forall|j: int| 0 <= j < i ==> a[j] == b[j],
        a[i] < b[i],
    ensures
        lex_lt(a, b),
    decreases i,
{
    if i > 0 {
        lemma_lex_from_mismatch(a.drop_first(), b.drop_first(), i - 1);
    }
}

/// A proper prefix comes strictly first.
proof fn lemma_lex_from_prefix(a: Seq<u8>, b: Seq<u8>)
    requires
        a.len() < b.len(),
        forall|j: int| 0 <= j < a.len() ==> a[j] == b[j],
    ensures
        lex_lt(a, b),
    decreases a.len(),
{
    if a.len() > 0 {
        lemma_lex_from_prefix(a.drop_first(), b.drop_first());
    }
}

/// ASCII lower-casing of a single byte.
pub fn fold_byte_exec(b: u8) -> (r: u8)
    ensures
        r == fold_byte(b),
{
    if 65 <= b && b <= 90 {
        b + 32
    } else {
        b
    }
}

/// ASCII lower-casing of a whole byte string.
pub fn fold_slice(a: &[u8]) -> (r: Vec<u8>)
    ensures
        r@ == fold_bytes(a@),
{
    let n = a.len();
    let mut out: Vec<u8> = Vec::new();
    let mut i: usize = 0;
    while i < n
        invariant
            n == a@.len(),
            0 <= i <= n,
            out@ =~= fold_bytes(a@).take(i as int),
        decreases n - i,
    {
        out.push(fold_byte_exec(a[i]));
        i += 1;
    }
    proof {
        assert(fold_bytes(a@).take(n as int) =~= fold_bytes(a@));
    }
    out
}

/// Three-way comparison of two byte strings under ASCII case folding.
pub fn cmp_bytes_folded(a: &[u8], b: &[u8]) -> (r: Ordering)
    ensures
        r == lex_cmp(fold_bytes(a@), fold_bytes(b@)),
{
    let a_len = a.len();
    let b_len = b.len();
    let n = if a_len < b_len {
        a_len
    } else {
        b_len
    };
    let mut i: usize = 0;
    while i < n
        invariant
            n <= a@.len(),
            n <= b@.len(),
            a_len == a@.len(),
            b_len == b@.len(),
            n == if a_len < b_len { a_len as int } else { b_len as int },
            0 <= i <= n,
            forall|j: int| 0 <= j < i ==> fold_byte(a@[j]) == fold_byte(b@[j]),
        decreases n - i,
    {
        let x = fold_byte_exec(a[i]);
        let y = fold_byte_exec(b[i]);
        if x < y {
            proof {
                lemma_lex_from_mismatch(fold_bytes(a@), fold_bytes(b@), i as int);
                lemma_lex_asymmetric(fold_bytes(a@), fold_bytes(b@));
                lemma_lex_irreflexive(fold_bytes(a@));
            }
            return Ordering::Less;
        }
        if y < x {
            proof {
                lemma_lex_from_mismatch(fold_bytes(b@), fold_bytes(a@), i as int);
                lemma_lex_asymmetric(fold_bytes(a@), fold_bytes(b@));
                lemma_lex_irreflexive(fold_bytes(a@));
            }
            return Ordering::Greater;
        }
        i += 1;
    }
    if a_len == b_len {
        proof {
            assert(fold_bytes(a@) =~= fold_bytes(b@));
        }
        Ordering::Equal
    } else if a_len < b_len {
        proof {
            lemma_lex_from_prefix(fold_bytes(a@), fold_bytes(b@));
            lemma_lex_asymmetric(fold_bytes(a@), fold_bytes(b@));
            lemma_lex_irreflexive(fold_bytes(a@));
        }
        Ordering::Less
    } else {
        proof {
            lemma_lex_from_prefix(fold_bytes(b@), fold_bytes(a@));
            lemma_lex_asymmetric(fold_bytes(a@), fold_bytes(b@));
            lemma_lex_irreflexive(fold_bytes(a@));
        }
        Ordering::Greater
    }
}

} // verus!
