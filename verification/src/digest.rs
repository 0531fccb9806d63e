//! The SHA-256 step of the derivation, behind a trusted shim.

use vstd::prelude::*;

verus! {

/// The SHA-256 digest of the given bytes; a pure function of them, the same
/// in every process and on every machine.
pub uninterp spec fn sha256_of(bytes: Seq<u8>) -> Seq<u8>;

/// Relies on sha2's `Sha256` through `Digest::digest`: the 32-byte SHA-256
/// digest of the input, a deterministic function of the input bytes alone.
#[verifier::external_body]
pub(crate) fn sha256(bytes: &[u8]) -> (r: Vec<u8>)
    ensures
        r@ == sha256_of(bytes@),
        r@.len() == 32,
{
    <sha2::Sha256 as sha2::Digest>::digest(bytes).to_vec()
}

} // verus!
