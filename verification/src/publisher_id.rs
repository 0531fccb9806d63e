//! The publisher id value type and its derivation.

use vstd::prelude::*;

use core::cmp::Ordering;

use crate::base32;
use crate::casefold;
use crate::casefold::{fold_code, key_of, lex_cmp};
use crate::digest;
use crate::utf16;

verus! {

/// Why a candidate publisher id string was rejected.
#[derive(Debug, PartialEq, Eq)]
pub enum PublisherIdError {
    /// The candidate is not exactly 13 characters long.
    InvalidLength,
    /// The candidate contains a character outside the restricted alphabet.
    InvalidCharacters,
}

/// Whether `c` may appear in a publisher id: an ASCII alphanumeric character
/// that, lower-cased, is one of the 32 alphabet symbols.
pub open spec fn is_id_char(c: char) -> bool {
    base32::is_symbol(c) || {
        let u = c as u32;
        // 'A'..='Z' except 'I', 'L', 'O', 'U'
        65 <= u && u <= 90 && u != 73 && u != 76 && u != 79 && u != 85
    }
}

/// Whether every character of `s` may appear in a publisher id.
pub open spec fn valid_id_chars(s: Seq<char>) -> bool {
    forall|i: int| 0 <= i < s.len() ==> is_id_char(#[trigger] s[i])
}

/// An ASCII code point bound carries over from the cast to the character.
proof fn lemma_ascii_char(c: char)
    requires
        c as u32 <= 127,
    ensures
        '\0' <= c <= '\u{7f}',
{
}

/// Valid id characters are ASCII.
proof fn lemma_id_chars_ascii(s: Seq<char>)
    requires
        valid_id_chars(s),
    ensures
        vstd::utf8::is_ascii_chars(s),
{
    assert forall|i: int| 0 <= i < s.len() implies '\0' <= #[trigger] s[i] <= '\u{7f}' by {
        assert(is_id_char(s[i]));
        lemma_ascii_char(s[i]);
    }
}

/// The id derived from publisher text: the text's UTF-16LE bytes are hashed
/// with SHA-256 and the digest's first 8 bytes are written out as 13
/// Crockford Base32 characters.
pub open spec fn derived_id(s: Seq<char>) -> Seq<char> {
    base32::encode13(base32::be64(digest::sha256_of(utf16::utf16le(s)).take(8)))
}

/// A Crockford Base32 encoded, 13-character long publisher id derived from a
/// publisher string.
///
/// The stored text keeps the case it was constructed with; comparison,
/// ordering and the hash projection fold ASCII case instead.
#[derive(Debug, Eq)]
pub struct PublisherId {
    code: String,
}

impl Clone for PublisherId {
    /// An exact copy, case included.
    fn clone(&self) -> (r: Self)
        ensures
            r == *self,
    {
        proof {
            use_type_invariant(&*self);
        }
        PublisherId { code: self.code.clone() }
    }
}

impl View for PublisherId {
    type V = Seq<char>;

    closed spec fn view(&self) -> Seq<char> {
        self.code@
    }
}

impl PublisherId {
    /// The constant length of a publisher id.
    pub const LENGTH: usize = 13;

    /// The invariant of every id: exactly 13 characters, all from the
    /// alphabet up to case.
    #[verifier::type_invariant]
    pub closed spec fn wf(self) -> bool {
        self.code@.len() == 13 && valid_id_chars(self.code@)
    }

    /// Every id's view satisfies the invariant: 13 characters, all from the
    /// alphabet up to case.
    pub proof fn lemma_wf_view(self)
        requires
            self.wf(),
        ensures
            self@.len() == 13,
            valid_id_chars(self@),
    {
    }

    /// The case-folded bytes that equality, ordering and hashing all
    /// compare, so that the three cannot fall out of step.
    pub open spec fn key(self) -> Seq<u8> {
        key_of(self@)
    }

    /// The three-way comparison that `cmp` implements.
    pub open spec fn cmp_spec(self, other: Self) -> Ordering {
        lex_cmp(self.key(), other.key())
    }

    /// Derives the id of the given identity publisher string.
    pub fn new(identity_publisher: &str) -> (r: Self)
        ensures
            r@ == derived_id(identity_publisher@),
    {
        let units = utf16::encode_utf16le(identity_publisher);
        let hash = digest::sha256(units.as_slice());
        let n = base32::read_be64(hash.as_slice());
        let code = base32::encode13_string(n);
        proof {
            assert(base32::be64(hash@.take(8)) == base32::be64(hash@));
            assert forall|i: int| 0 <= i < 13 implies is_id_char(#[trigger] code@[i]) by {
                base32::lemma_encoded_char_symbol(n, i);
            }
        }
        PublisherId { code }
    }

    /// Validates a candidate id string. Every character must belong to the
    /// alphabet up to case (else `InvalidCharacters`), and there must be
    /// exactly 13 of them (else `InvalidLength`). Characters are checked
    /// first, so a string of the wrong length containing a disallowed
    /// character reports the character error.
    pub fn parse(s: &str) -> (r: Result<Self, PublisherIdError>)
        ensures
            match r {
                Ok(id) => id@ == s@ && valid_id_chars(s@) && s@.len() == 13,
                Err(PublisherIdError::InvalidCharacters) => !valid_id_chars(s@),
                Err(PublisherIdError::InvalidLength) => valid_id_chars(s@) && s@.len() != 13,
            },
    {
        let n = s.unicode_len();
        let mut i: usize = 0;
        while i < n
            invariant
                n == s@.len(),
                0 <= i <= n,
                forall|j: int| 0 <= j < i ==> is_id_char(#[trigger] s@[j]),
            decreases n - i,
        {
            let c = s.get_char(i);
            let u: u32 = c as u32;
            let ok = (48 <= u && u <= 57) || (97 <= u && u <= 122 && u != 105 && u != 108 && u
                != 111 && u != 117) || (65 <= u && u <= 90 && u != 73 && u != 76 && u != 79 && u
                != 85);
            if !ok {
                return Err(PublisherIdError::InvalidCharacters);
            }
            i += 1;
        }
        if n != 13 {
            return Err(PublisherIdError::InvalidLength);
        }
        let code = s.to_owned();
        Ok(PublisherId { code })
    }

    /// The id as a string slice, exactly as stored.
    pub fn as_str(&self) -> (r: &str)
        ensures
            r@ == self@,
    {
        self.code.as_str()
    }

    /// The id as an owned string, exactly as stored.
    pub fn to_string(&self) -> (r: String)
        ensures
            r@ == self@,
    {
        self.code.clone()
    }

    /// The length of the id in bytes; always exactly 13.
    pub fn len(&self) -> (r: usize)
        ensures
            r == 13,
            r == self@.len(),
    {
        proof {
            use_type_invariant(&*self);
            lemma_id_chars_ascii(self.code@);
            vstd::utf8::is_ascii_chars_encode_utf8(self.code@);
        }
        self.code.as_str().len()
    }

    /// Whether the id has length zero; never true.
    pub fn is_empty(&self) -> (r: bool)
        ensures
            !r,
    {
        self.len() == 0
    }

    /// Three-way case-insensitive comparison.
    pub fn cmp(&self, other: &Self) -> (r: Ordering)
        ensures
            r == self.cmp_spec(*other),
    {
        casefold::cmp_bytes_folded(self.code.as_str().as_bytes(), other.code.as_str().as_bytes())
    }

    /// The bytes a hasher should consume for this id: its case-folded
    /// bytes. Ids that compare equal yield identical hash bytes.
    pub fn hash_bytes(&self) -> (r: Vec<u8>)
        ensures
            r@ == self.key(),
    {
        casefold::fold_slice(self.code.as_str().as_bytes())
    }
}

impl Default for PublisherId {
    /// The placeholder id: thirteen `'0'` characters.
    fn default() -> (r: Self)
        ensures
            r@ == Seq::new(13, |i: int| '0'),
    {
        let code = "0000000000000".to_owned();
        proof {
            reveal_strlit("0000000000000");
            assert(code@ =~= Seq::new(13, |i: int| '0'));
        }
        PublisherId { code }
    }
}

impl PartialEq for PublisherId {
    /// Case-insensitive equality: ids are equal when their case-folded
    /// bytes are.
    fn eq(&self, other: &Self) -> (r: bool) {
        matches!(
            casefold::cmp_bytes_folded(
                self.code.as_str().as_bytes(),
                other.code.as_str().as_bytes(),
            ),
            Ordering::Equal
        )
    }
}

impl vstd::std_specs::cmp::PartialEqSpecImpl for PublisherId {
    open spec fn obeys_eq_spec() -> bool {
        true
    }

    open spec fn eq_spec(&self, other: &Self) -> bool {
        self.key() == other.key()
    }
}

impl PartialOrd for PublisherId {
    /// Case-insensitive ordering.
    fn partial_cmp(&self, other: &Self) -> (r: Option<Ordering>) {
        Some(self.cmp(other))
    }
}

impl vstd::std_specs::cmp::PartialOrdSpecImpl for PublisherId {
    open spec fn obeys_partial_cmp_spec() -> bool {
        true
    }

    open spec fn partial_cmp_spec(&self, other: &Self) -> Option<Ordering> {
        Some(self.cmp_spec(*other))
    }
}

impl core::str::FromStr for PublisherId {
    type Err = PublisherIdError;

    fn from_str(s: &str) -> Result<Self, Self::Err> {
        PublisherId::parse(s)
    }
}

/// Law: derivation always yields a valid id — exactly 13 characters, every
/// one from the alphabet — so this construction path has no error channel.
pub proof fn lemma_derived_id_valid(s: Seq<char>)
    ensures
        derived_id(s).len() == 13,
        valid_id_chars(derived_id(s)),
{
    let n = base32::be64(digest::sha256_of(utf16::utf16le(s)).take(8));
    assert forall|i: int| 0 <= i < 13 implies is_id_char(#[trigger] derived_id(s)[i]) by {
        base32::lemma_encoded_char_symbol(n, i);
    }
}

/// Law: derivation is deterministic — two ids derived from the same
/// publisher text are the same id, and compare equal.
pub proof fn lemma_derive_deterministic(a: PublisherId, b: PublisherId, s: Seq<char>)
    requires
        a@ == derived_id(s),
        b@ == derived_id(s),
    ensures
        a@ == b@,
        a.key() == b.key(),
{
}

/// Law: the order is reflexive — every id compares `Equal` to itself.
pub proof fn lemma_id_cmp_reflexive(a: PublisherId)
    ensures
        a.cmp_spec(a) == Ordering::Equal,
{
}

/// Law: the order is antisymmetric — `Equal` holds in both directions or
/// neither, and `Less` one way is exactly `Greater` the other way.
pub proof fn lemma_id_cmp_antisymmetric(a: PublisherId, b: PublisherId)
    ensures
        a.cmp_spec(b) == Ordering::Equal <==> b.cmp_spec(a) == Ordering::Equal,
        a.cmp_spec(b) == Ordering::Less <==> b.cmp_spec(a) == Ordering::Greater,
{
    casefold::lemma_lex_asymmetric(a.key(), b.key());
    casefold::lemma_lex_connex(a.key(), b.key());
    casefold::lemma_lex_irreflexive(a.key());
    casefold::lemma_lex_irreflexive(b.key());
}

/// Law: the order is transitive.
pub proof fn lemma_id_cmp_transitive(a: PublisherId, b: PublisherId, c: PublisherId)
    requires
        a.cmp_spec(b) == Ordering::Less,
        b.cmp_spec(c) == Ordering::Less,
    ensures
        a.cmp_spec(c) == Ordering::Less,
{
    casefold::lemma_lex_transitive(a.key(), b.key(), c.key());
    casefold::lemma_lex_irreflexive(a.key());
}

/// Law: ids whose texts differ only by ASCII case compare `Equal`, so case
/// variants are equal values and hash alike.
pub proof fn lemma_id_case_variants_equal(a: PublisherId, b: PublisherId)
    requires
        a@.len() == b@.len(),
        forall|i: int| 0 <= i < a@.len() ==> fold_code(#[trigger] a@[i] as u32) == fold_code(
            b@[i] as u32,
        ),
    ensures
        a.key() == b.key(),
        a.cmp_spec(b) == Ordering::Equal,
{
    casefold::lemma_key_of_case_variants(a@, b@);
}

} // verus!
