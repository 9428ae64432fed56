//! Ethereum-style address derivation: the last 20 bytes of the Keccak-256
//! hash of the uncompressed public key without its format byte.

use vstd::prelude::*;
use crate::bytesops::copy_range;
use crate::digest::{keccak256, keccak256_spec};
use crate::errors::EvmError;
use crate::hexstr::{hex_0x, hex_of};
use crate::keys::{is_normalized_form, normalizable_key, normalize_public_key};

verus! {

/// The 20 address bytes determined by an uncompressed public key.
pub open spec fn eth_address_of(key: Seq<u8>) -> Seq<u8> {
    keccak256_spec(key.subrange(1, key.len() as int)).subrange(12, 32)
}

/// Derive the 20-byte EVM address from an uncompressed 65-byte public key:
/// hash everything after the format byte, keep the last 20 bytes.
pub fn derive_evm_address(uncompressed: &[u8]) -> (r: Result<Vec<u8>, EvmError>)
    ensures
        r is Ok <==> uncompressed@.len() == 65,
        (r matches Ok(a) ==> a@ == eth_address_of(uncompressed@) && a@.len() == 20),
        r == Err::<Vec<u8>, EvmError>(EvmError::InvalidKeyLength) <==> uncompressed@.len() != 65,
{
    if uncompressed.len() != 65 {
        return Err(EvmError::InvalidKeyLength);
    }
    let body = copy_range(uncompressed, 1, 65);
    let h = keccak256(body.as_slice());
    let a = copy_range(h.as_slice(), 12, 32);
    Ok(a)
}

/// The textual EVM address of an uncompressed key: `0x` plus lowercase hex.
pub fn evm_address_string(uncompressed: &[u8]) -> (r: Result<String, EvmError>)
    ensures
        r is Ok <==> uncompressed@.len() == 65,
        (r matches Ok(s) ==> s@ == "0x"@ + hex_of(eth_address_of(uncompressed@))),
        r == Err::<String, EvmError>(EvmError::InvalidKeyLength) <==> uncompressed@.len() != 65,
{
    match derive_evm_address(uncompressed) {
        Ok(a) => Ok(hex_0x(a.as_slice())),
        Err(e) => Err(e),
    }
}

/// Normalize a raw SEC1 key (compressed or not) and derive its textual
/// address: the computing half of platform address retrieval. The
/// normalized key is unique for the input, so the address is a function of
/// the raw key bytes.
pub fn evm_address_from_key(key: &[u8]) -> (r: Result<String, EvmError>)
    ensures
        r is Ok <==> normalizable_key(key@),
        (r matches Ok(s) ==> exists|out: Seq<u8>|
            #[trigger] is_normalized_form(key@, out) && s@ == "0x"@ + hex_of(eth_address_of(out))),
        (r matches Err(e) ==> normalize_public_key_error(key@, e)),
{
    let normalized = match normalize_public_key(key) {
        Ok(k) => k,
        Err(e) => {
            return Err(e);
        },
    };
    match evm_address_string(normalized.as_slice()) {
        Ok(s) => Ok(s),
        Err(e) => Err(e),
    }
}

/// Normalization and address derivation are deterministic end to end: a
/// raw key has exactly one normalized form, and so exactly one derived
/// address — the same input always yields the same address.
pub proof fn lemma_address_derivation_deterministic(
    k: Seq<u8>,
    out1: Seq<u8>,
    out2: Seq<u8>,
)
    requires
        crate::keys::is_normalized_form(k, out1),
        crate::keys::is_normalized_form(k, out2),
    ensures
        out1 == out2,
        eth_address_of(out1) == eth_address_of(out2),
{
    if k.len() != 65 {
        crate::keys::lemma_decompression_deterministic(k, out1, out2);
    }
}

/// The error normalization reports for a key that cannot be normalized.
pub open spec fn normalize_public_key_error(k: Seq<u8>, e: EvmError) -> bool {
    if k.len() != 65 && k.len() != 33 {
        e == EvmError::InvalidKeyLength
    } else {
        e == EvmError::KeyParseError && k.len() == 33 && !crate::keys::compressed_key_ok(k)
    }
}

} // verus!
