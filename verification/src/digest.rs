//! Trusted hashing: Keccak-256 and SHA-256 from their vetted crates. Each
//! digest is named by an uninterpreted function of the input bytes; nothing
//! here restates the hash algorithms themselves.

use vstd::prelude::*;
use sha2::Digest;

verus! {

/// What Keccak-256 returns for given input bytes.
pub uninterp spec fn keccak256_spec(data: Seq<u8>) -> Seq<u8>;

/// What SHA-256 returns for given input bytes.
pub uninterp spec fn sha256_spec(data: Seq<u8>) -> Seq<u8>;

/// Relies on `sha3::Keccak256::digest`: a 32-byte digest that depends on
/// the input bytes alone.
#[verifier::external_body]
pub(crate) fn keccak256(data: &[u8]) -> (r: Vec<u8>)
    ensures
        r@ == keccak256_spec(data@),
        r@.len() == 32,
{
    sha3::Keccak256::digest(data).to_vec()
}

/// Relies on `sha2::Sha256::digest`: a 32-byte digest that depends on the
/// input bytes alone.
#[verifier::external_body]
pub(crate) fn sha256(data: &[u8]) -> (r: Vec<u8>)
    ensures
        r@ == sha256_spec(data@),
        r@.len() == 32,
{
    sha2::Sha256::digest(data).to_vec()
}

} // verus!
