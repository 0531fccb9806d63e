//! Package family name computation.
//!
//! A package family name is the identity string `<name>_<publisherid>` that a
//! package ecosystem derives from a package's display name and its publisher
//! string, without consulting any installed package database. The publisher id
//! is a 13-character code computed from the publisher text alone: the text is
//! encoded as UTF-16 little-endian bytes, hashed with SHA-256, the digest is
//! truncated to its first 8 bytes, and those 64 bits are written out in
//! Crockford's Base32 alphabet.
//!
//! Both value types compare, order and hash case-insensitively while storing
//! and displaying their text unchanged.

pub mod base32;
pub mod casefold;
pub mod digest;
mod publisher_id;
mod strings;
pub mod utf16;

pub use publisher_id::{
    derived_id, is_id_char, lemma_derive_deterministic, lemma_derived_id_valid,
    lemma_id_case_variants_equal, lemma_id_cmp_antisymmetric, lemma_id_cmp_reflexive,
    lemma_id_cmp_transitive, valid_id_chars, PublisherId, PublisherIdError,
};

use vstd::prelude::*;
use vstd::string::StringExecFns;

use core::cmp::Ordering;

use crate::casefold::{fold_code, key_of, lex_cmp};

verus! {

/// Why a candidate package family name string was rejected.
#[derive(Debug, PartialEq, Eq)]
pub enum PackageFamilyNameError {
    /// The candidate contains no underscore between the package name and
    /// the publisher id.
    NoUnderscore,
    /// The part after the first underscore is not a valid publisher id.
    PublisherId(PublisherIdError),
}

/// Whether `s` contains the `'_'` separator at all.
pub open spec fn has_separator(s: Seq<char>) -> bool {
    exists|i: int| 0 <= i < s.len() && s[i] == '_'
}

/// The position of the first `'_'` in `s`.
pub open spec fn separator_at(s: Seq<char>) -> int
    decreases s.len(),
{
    if s.len() == 0 {
        0
    } else if s[0] == '_' {
        0
    } else {
        1 + separator_at(s.drop_first())
    }
}

/// What the first separator position means: it holds a `'_'` and nothing
/// before it does.
pub proof fn lemma_separator_at(s: Seq<char>)
    requires
        has_separator(s),
    ensures
        0 <= separator_at(s) < s.len(),
        s[separator_at(s)] == '_',
        forall|j: int| 0 <= j < separator_at(s) ==> s[j] != '_',
    decreases s.len(),
{
    if s.len() > 0 && s[0] != '_' {
        let i = choose|i: int| 0 <= i < s.len() && s[i] == '_';
        assert(s.drop_first()[i - 1] == '_');
        lemma_separator_at(s.drop_first());
        assert forall|j: int| 0 <= j < separator_at(s) implies s[j] != '_' by {
            if j > 0 {
                assert(s.drop_first()[j - 1] != '_');
            }
        }
    }
}

/// The first separator is wherever a `'_'` is first found.
pub proof fn lemma_separator_at_is(s: Seq<char>, i: int)
    requires
        0 <= i < s.len(),
        s[i] == '_',
        forall|j: int| 0 <= j < i ==> s[j] != '_',
    ensures
        has_separator(s),
        separator_at(s) == i,
    decreases i,
{
    if i > 0 {
        assert forall|j: int| 0 <= j < i - 1 implies s.drop_first()[j] != '_' by {
            assert(s[j + 1] != '_');
        }
        assert(s.drop_first()[i - 1] == '_');
        lemma_separator_at_is(s.drop_first(), i - 1);
    }
}

/// Finds the first `'_'` of `s`, if any.
fn find_separator(s: &str) -> (r: Option<usize>)
    ensures
        match r {
            Some(i) => i < s@.len() && s@[i as int] == '_' && (forall|j: int|
                0 <= j < i ==> s@[j] != '_'),
            None => forall|j: int| 0 <= j < s@.len() ==> s@[j] != '_',
        },
{
    let n = s.unicode_len();
    let mut i: usize = 0;
    while i < n
        invariant
            n == s@.len(),
            0 <= i <= n,
            forall|j: int| 0 <= j < i ==> s@[j] != '_',
        decreases n - i,
    {
        if s.get_char(i) == '_' {
            return Some(i);
        }
        i += 1;
    }
    None
}

/// A package family name: a package's display name joined to its publisher's
/// 13-character id by a single underscore, `<name>_<publisherid>`.
///
/// The name is stored verbatim; comparison, ordering and the hash projection
/// fold ASCII case on both parts.
#[derive(Debug, Eq)]
pub struct PackageFamilyName {
    package_name: String,
    publisher_id: PublisherId,
}

impl Clone for PackageFamilyName {
    /// An exact copy, case included.
    fn clone(&self) -> (r: Self)
        ensures
            r == *self,
    {
        PackageFamilyName {
            package_name: self.package_name.clone(),
            publisher_id: self.publisher_id.clone(),
        }
    }
}

impl PackageFamilyName {
    /// The package name part.
    pub closed spec fn spec_package_name(self) -> Seq<char> {
        self.package_name@
    }

    /// The publisher id part.
    pub closed spec fn spec_publisher_id(self) -> PublisherId {
        self.publisher_id
    }

    /// The canonical text: name, separator, id.
    pub open spec fn spec_display(self) -> Seq<char> {
        self.spec_package_name() + seq!['_'] + self.spec_publisher_id()@
    }

    /// The three-way comparison that `cmp` implements: package names first,
    /// case-folded, then the publisher id as tie-break.
    pub open spec fn cmp_spec(self, other: Self) -> Ordering {
        if key_of(self.spec_package_name()) == key_of(other.spec_package_name()) {
            self.spec_publisher_id().cmp_spec(other.spec_publisher_id())
        } else {
            lex_cmp(key_of(self.spec_package_name()), key_of(other.spec_package_name()))
        }
    }

    /// Creates a package family name from a package name and an identity
    /// publisher string, deriving the publisher id.
    pub fn new(package_name: &str, identity_publisher: &str) -> (r: Self)
        ensures
            r.spec_package_name() == package_name@,
            r.spec_publisher_id()@ == derived_id(identity_publisher@),
    {
        PackageFamilyName {
            package_name: package_name.to_owned(),
            publisher_id: PublisherId::new(identity_publisher),
        }
    }

    /// Parses the canonical `<name>_<publisherid>` form. The text before the
    /// first underscore becomes the name verbatim; the text after it must be
    /// a valid publisher id; a candidate without any underscore is rejected.
    pub fn parse(s: &str) -> (r: Result<Self, PackageFamilyNameError>)
        ensures
            match r {
                Ok(p) => has_separator(s@) && p.spec_package_name() == s@.take(separator_at(s@))
                    && p.spec_publisher_id()@ == s@.skip(separator_at(s@) + 1) && valid_id_chars(
                    s@.skip(separator_at(s@) + 1),
                ) && s@.skip(separator_at(s@) + 1).len() == 13,
                Err(PackageFamilyNameError::NoUnderscore) => !has_separator(s@),
                Err(PackageFamilyNameError::PublisherId(e)) => has_separator(s@) && (match e {
                    PublisherIdError::InvalidCharacters => !valid_id_chars(
                        s@.skip(separator_at(s@) + 1),
                    ),
                    PublisherIdError::InvalidLength => valid_id_chars(
                        s@.skip(separator_at(s@) + 1),
                    ) && s@.skip(separator_at(s@) + 1).len() != 13,
                }),
            },
    {
        match find_separator(s) {
            None => Err(PackageFamilyNameError::NoUnderscore),
            Some(i) => {
                proof {
                    lemma_separator_at_is(s@, i as int);
                }
                let n = s.unicode_len();
                let name = s.substring_char(0, i);
                let rest = s.substring_char(i + 1, n);
                proof {
                    assert(name@ =~= s@.take(i as int));
                    assert(rest@ =~= s@.skip(i + 1));
                }
                match PublisherId::parse(rest) {
                    Ok(id) => Ok(
                        PackageFamilyName { package_name: name.to_owned(), publisher_id: id },
                    ),
                    Err(e) => Err(PackageFamilyNameError::PublisherId(e)),
                }
            },
        }
    }

    /// The package name as a string slice, exactly as stored.
    pub fn package_name(&self) -> (r: &str)
        ensures
            r@ == self.spec_package_name(),
    {
        self.package_name.as_str()
    }

    /// A reference to the publisher id.
    pub fn publisher_id(&self) -> (r: &PublisherId)
        ensures
            *r == self.spec_publisher_id(),
    {
        &self.publisher_id
    }

    /// The canonical text `<name>_<publisherid>`, exactly as stored.
    pub fn to_string(&self) -> (r: String)
        ensures
            r@ == self.spec_display(),
    {
        let mut out = self.package_name.clone();
        out.append("_");
        out.append(self.publisher_id.as_str());
        proof {
            reveal_strlit("_");
            assert(out@ =~= self.spec_display());
        }
        out
    }

    /// Three-way case-insensitive comparison: package names first, then the
    /// publisher id as tie-break.
    pub fn cmp(&self, other: &Self) -> (r: Ordering)
        ensures
            r == self.cmp_spec(*other),
    {
        let name_order = crate::casefold::cmp_bytes_folded(
            self.package_name.as_str().as_bytes(),
            other.package_name.as_str().as_bytes(),
        );
        match name_order {
            Ordering::Equal => self.publisher_id.cmp(&other.publisher_id),
            _ => name_order,
        }
    }

    /// The bytes a hasher should consume for this value: the case-folded
    /// name bytes, the separator, then the id's hash bytes. Values that
    /// compare equal yield identical hash bytes.
    pub fn hash_bytes(&self) -> (r: Vec<u8>)
        ensures
            r@ == key_of(self.spec_package_name()) + seq![95u8] + self.spec_publisher_id().key(),
    {
        let mut out = crate::casefold::fold_slice(self.package_name.as_str().as_bytes());
        out.push(95u8);
        let mut id_bytes = self.publisher_id.hash_bytes();
        out.append(&mut id_bytes);
        proof {
            assert(out@ =~= key_of(self.spec_package_name()) + seq![95u8]
                + self.spec_publisher_id().key());
        }
        out
    }
}

impl Default for PackageFamilyName {
    /// The placeholder value: an empty name with the placeholder id.
    fn default() -> (r: Self)
        ensures
            r.spec_package_name() == Seq::<char>::empty(),
            r.spec_publisher_id()@ == Seq::new(13, |i: int| '0'),
    {
        PackageFamilyName { package_name: String::new(), publisher_id: PublisherId::default() }
    }
}

impl PartialEq for PackageFamilyName {
    /// Case-insensitive equality on both parts.
    fn eq(&self, other: &Self) -> (r: bool) {
        matches!(self.cmp(other), Ordering::Equal)
    }
}

impl vstd::std_specs::cmp::PartialEqSpecImpl for PackageFamilyName {
    open spec fn obeys_eq_spec() -> bool {
        true
    }

    open spec fn eq_spec(&self, other: &Self) -> bool {
        key_of(self.spec_package_name()) == key_of(other.spec_package_name())
            && self.spec_publisher_id().key() == other.spec_publisher_id().key()
    }
}

impl PartialOrd for PackageFamilyName {
    /// Case-insensitive ordering.
    fn partial_cmp(&self, other: &Self) -> (r: Option<Ordering>) {
        Some(self.cmp(other))
    }
}

impl vstd::std_specs::cmp::PartialOrdSpecImpl for PackageFamilyName {
    open spec fn obeys_partial_cmp_spec() -> bool {
        true
    }

    open spec fn partial_cmp_spec(&self, other: &Self) -> Option<Ordering> {
        Some(self.cmp_spec(*other))
    }
}

impl core::str::FromStr for PackageFamilyName {
    type Err = PackageFamilyNameError;

    fn from_str(s: &str) -> Result<Self, Self::Err> {
        PackageFamilyName::parse(s)
    }
}

/// Law: a successfully parsed canonical string formats back to itself — the
/// name and id parts rejoin around the first underscore into the original
/// text.
pub proof fn lemma_format_of_parse(s: Seq<char>)
    requires
        has_separator(s),
    ensures
        s.take(separator_at(s)) + seq!['_'] + s.skip(separator_at(s) + 1) =~= s,
{
    lemma_separator_at(s);
}

/// Law: the canonical text of a constructed value parses back to the same
/// value, provided its name contains no underscore: the first underscore of
/// the canonical text is exactly the separator, the part before it is the
/// name, and the part after it is the stored id, which is valid.
pub proof fn lemma_parse_of_format(x: PackageFamilyName)
    requires
        x.spec_publisher_id().wf(),
        !has_separator(x.spec_package_name()),
    ensures
        has_separator(x.spec_display()),
        separator_at(x.spec_display()) == x.spec_package_name().len(),
        x.spec_display().take(separator_at(x.spec_display())) == x.spec_package_name(),
        x.spec_display().skip(separator_at(x.spec_display()) + 1) == x.spec_publisher_id()@,
        valid_id_chars(x.spec_display().skip(separator_at(x.spec_display()) + 1)),
        x.spec_display().skip(separator_at(x.spec_display()) + 1).len() == 13,
{
    let s = x.spec_display();
    let n = x.spec_package_name().len() as int;
    assert(s[n] == '_');
    assert forall|j: int| 0 <= j < n implies s[j] != '_' by {
        assert(s[j] == x.spec_package_name()[j]);
        if s[j] == '_' {
            assert(has_separator(x.spec_package_name()));
        }
    }
    lemma_separator_at_is(s, n);
    assert(s.take(n) =~= x.spec_package_name());
    assert(s.skip(n + 1) =~= x.spec_publisher_id()@);
    x.spec_publisher_id().lemma_wf_view();
}

/// Law: values that compare equal hash alike — equal name keys and equal id
/// keys give identical hash bytes.
pub proof fn lemma_family_hash_consistent(a: PackageFamilyName, b: PackageFamilyName)
    requires
        key_of(a.spec_package_name()) == key_of(b.spec_package_name()),
        a.spec_publisher_id().key() == b.spec_publisher_id().key(),
    ensures
        key_of(a.spec_package_name()) + seq![95u8] + a.spec_publisher_id().key() == key_of(
            b.spec_package_name(),
        ) + seq![95u8] + b.spec_publisher_id().key(),
{
}

/// Law: package family names whose texts differ only by ASCII case compare
/// `Equal` — case variants of the package name and of the publisher id are
/// the same identity, and so also hash alike.
pub proof fn lemma_family_case_variants_equal(a: PackageFamilyName, b: PackageFamilyName)
    requires
        a.spec_package_name().len() == b.spec_package_name().len(),
        forall|i: int|
            0 <= i < a.spec_package_name().len() ==> fold_code(
                #[trigger] a.spec_package_name()[i] as u32,
            ) == fold_code(b.spec_package_name()[i] as u32),
        a.spec_publisher_id()@.len() == b.spec_publisher_id()@.len(),
        forall|i: int|
            0 <= i < a.spec_publisher_id()@.len() ==> fold_code(
                #[trigger] a.spec_publisher_id()@[i] as u32,
            ) == fold_code(b.spec_publisher_id()@[i] as u32),
    ensures
        a.cmp_spec(b) == Ordering::Equal,
{
    crate::casefold::lemma_key_of_case_variants(a.spec_package_name(), b.spec_package_name());
    lemma_id_case_variants_equal(a.spec_publisher_id(), b.spec_publisher_id());
}

/// Law: the order is reflexive — every value compares `Equal` to itself.
pub proof fn lemma_family_cmp_reflexive(a: PackageFamilyName)
    ensures
        a.cmp_spec(a) == Ordering::Equal,
{
    lemma_id_cmp_reflexive(a.spec_publisher_id());
}

/// Law: the order is antisymmetric — `Equal` holds in both directions or
/// neither, and `Less` one way is exactly `Greater` the other way.
pub proof fn lemma_family_cmp_antisymmetric(a: PackageFamilyName, b: PackageFamilyName)
    ensures
        a.cmp_spec(b) == Ordering::Equal <==> b.cmp_spec(a) == Ordering::Equal,
        a.cmp_spec(b) == Ordering::Less <==> b.cmp_spec(a) == Ordering::Greater,
{
    let ka = key_of(a.spec_package_name());
    let kb = key_of(b.spec_package_name());
    crate::casefold::lemma_lex_asymmetric(ka, kb);
    crate::casefold::lemma_lex_connex(ka, kb);
    crate::casefold::lemma_lex_irreflexive(ka);
    crate::casefold::lemma_lex_irreflexive(kb);
    lemma_id_cmp_antisymmetric(a.spec_publisher_id(), b.spec_publisher_id());
}

/// Law: the order is transitive.
pub proof fn lemma_family_cmp_transitive(
    a: PackageFamilyName,
    b: PackageFamilyName,
    c: PackageFamilyName,
)
    requires
        a.cmp_spec(b) == Ordering::Less,
        b.cmp_spec(c) == Ordering::Less,
    ensures
        a.cmp_spec(c) == Ordering::Less,
{
    let ka = key_of(a.spec_package_name());
    let kb = key_of(b.spec_package_name());
    let kc = key_of(c.spec_package_name());
    if ka == kb && kb == kc {
        lemma_id_cmp_transitive(
            a.spec_publisher_id(),
            b.spec_publisher_id(),
            c.spec_publisher_id(),
        );
    } else {
        if ka != kb && kb != kc {
            crate::casefold::lemma_lex_transitive(ka, kb, kc);
        }
        crate::casefold::lemma_lex_irreflexive(ka);
        crate::casefold::lemma_lex_irreflexive(kb);
        crate::casefold::lemma_lex_irreflexive(kc);
    }
}

} // verus!
