//! Signature verification and recovery-id resolution. The threshold signer
//! returns only `(r, s)`; which of the two candidate recovery ids belongs
//! to a signature is decided here by trial recovery against the known
//! signer key — both candidates are tried, matches are checked explicitly,
//! and failure is reported, never defaulted to id 0.

use vstd::prelude::*;
use k256::ecdsa::signature::hazmat::PrehashVerifier;
use k256::elliptic_curve::sec1::ToEncodedPoint;
use crate::address::{derive_evm_address, eth_address_of};
use crate::bytesops::bytes_eq;
use crate::errors::EvmError;

verus! {

/// Whether 65 SEC1 bytes parse as a valid curve point; decided by the
/// bytes alone.
pub uninterp spec fn sec1_key_parses(key: Seq<u8>) -> bool;

/// Whether 64 signature bytes split into scalars `r`, `s` both in range;
/// decided by the bytes alone.
pub uninterp spec fn sig_scalars_parse(sig: Seq<u8>) -> bool;

/// Whether the signature verifies for the digest under the key; decided by
/// the three byte sequences alone.
pub uninterp spec fn sig_valid(digest: Seq<u8>, sig: Seq<u8>, key: Seq<u8>) -> bool;

/// The uncompressed public key that ECDSA recovery yields for a digest,
/// signature and recovery id — `None` when recovery fails; decided by the
/// arguments alone.
pub uninterp spec fn recovered_key(digest: Seq<u8>, sig: Seq<u8>, rid: nat) -> Option<Seq<u8>>;

/// Relies on `k256::ecdsa::VerifyingKey::from_sec1_bytes`,
/// `Signature::from_slice` and `verify_prehash`: parsing and verification
/// are deterministic in the input bytes; `verify_prehash` checks the
/// signature against the digest as given, without hashing again.
#[verifier::external_body]
fn ecdsa_verify_prehash(digest: &[u8], sig: &[u8], key: &[u8]) -> (r: Result<bool, EvmError>)
    requires
        digest@.len() == 32,
        sig@.len() == 64,
        key@.len() == 65,
    ensures
        (match r {
            Ok(b) => sec1_key_parses(key@) && sig_scalars_parse(sig@) && b == sig_valid(
                digest@,
                sig@,
                key@,
            ),
            Err(e) => e == EvmError::KeyParseError && !(sec1_key_parses(key@)
                && sig_scalars_parse(sig@)),
        }),
{
    let vk = match k256::ecdsa::VerifyingKey::from_sec1_bytes(key) {
        Ok(vk) => vk,
        Err(_) => return Err(EvmError::KeyParseError),
    };
    let parsed = match k256::ecdsa::Signature::from_slice(sig) {
        Ok(s) => s,
        Err(_) => return Err(EvmError::KeyParseError),
    };
    Ok(vk.verify_prehash(digest, &parsed).is_ok())
}

/// Relies on `k256::ecdsa::VerifyingKey::recover_from_prehash` (with
/// `RecoveryId::from_byte`, `Signature::from_slice` and
/// `to_encoded_point(false)`): recovery is deterministic in the inputs,
/// yields a 65-byte uncompressed key starting with `0x04`, and only
/// returns a key under which the signature verifies for this digest.
#[verifier::external_body]
fn recover_candidate(digest: &[u8], sig: &[u8], rid: u8) -> (r: Option<Vec<u8>>)
    requires
        digest@.len() == 32,
        sig@.len() == 64,
        rid <= 1,
    ensures
        (match r {
            Some(k) => recovered_key(digest@, sig@, rid as nat) == Some(k@) && k@.len() == 65
                && k@[0] == 4 && sig_valid(digest@, sig@, k@),
            None => recovered_key(digest@, sig@, rid as nat) is None,
        }),
{
    let recovery_id = k256::ecdsa::RecoveryId::from_byte(rid)?;
    let parsed = k256::ecdsa::Signature::from_slice(sig).ok()?;
    let vk = k256::ecdsa::VerifyingKey::recover_from_prehash(digest, &parsed, recovery_id).ok()?;
    Some(vk.to_encoded_point(false).as_bytes().to_vec())
}

/// Whether recovery with `rid` reproduces the known key, byte-for-byte or
/// — as a defence against encoding mismatches — by derived address.
pub open spec fn candidate_matches(digest: Seq<u8>, sig: Seq<u8>, pk: Seq<u8>, rid: nat) -> bool {
    match recovered_key(digest, sig, rid) {
        Option::Some(k) => k == pk || eth_address_of(k) == eth_address_of(pk),
        Option::None => false,
    }
}

/// The id the resolver must report: the first of {0, 1} that matches,
/// `None` when neither does.
pub open spec fn resolved_rid(digest: Seq<u8>, sig: Seq<u8>, pk: Seq<u8>) -> Option<nat> {
    if candidate_matches(digest, sig, pk, 0) {
        Option::Some(0nat)
    } else if candidate_matches(digest, sig, pk, 1) {
        Option::Some(1nat)
    } else {
        Option::None
    }
}

/// Verify an ECDSA signature over a prehashed digest: `false` for a
/// well-formed but invalid signature, a typed error for malformed inputs.
///
/// This shares the resolver's notion of validity wherever resolution can
/// succeed. The converse does not hold universally: a signature whose `r`
/// was reduced past the group order verifies here but is recoverable only
/// with the higher recovery ids the resolver does not try — such
/// signatures are astronomically rare and outside the two-candidate
/// protocol.
pub fn verify_signature(message_hash: &[u8], signature: &[u8], public_key: &[u8]) -> (r: Result<
    bool,
    EvmError,
>)
    ensures
        r == Err::<bool, EvmError>(EvmError::InvalidDigestLength) <==> message_hash@.len() != 32,
        r == Err::<bool, EvmError>(EvmError::InvalidSignatureLength) <==> (message_hash@.len()
            == 32 && signature@.len() != 64),
        r == Err::<bool, EvmError>(EvmError::InvalidKeyLength) <==> (message_hash@.len() == 32
            && signature@.len() == 64 && public_key@.len() != 65),
        r is Ok <==> (message_hash@.len() == 32 && signature@.len() == 64 && public_key@.len()
            == 65 && sec1_key_parses(public_key@) && sig_scalars_parse(signature@)),
        r == Err::<bool, EvmError>(EvmError::KeyParseError) <==> (message_hash@.len() == 32
            && signature@.len() == 64 && public_key@.len() == 65 && !(sec1_key_parses(public_key@)
            && sig_scalars_parse(signature@))),
        (r matches Ok(b) ==> b == sig_valid(message_hash@, signature@, public_key@)),
{
    if message_hash.len() != 32 {
        return Err(EvmError::InvalidDigestLength);
    }
    if signature.len() != 64 {
        return Err(EvmError::InvalidSignatureLength);
    }
    if public_key.len() != 65 {
        return Err(EvmError::InvalidKeyLength);
    }
    ecdsa_verify_prehash(message_hash, signature, public_key)
}

/// Determine the recovery id by trial recovery: try id 0 then id 1,
/// compare each recovered key with the known key byte-for-byte and by
/// derived address, and report `RecoveryIdNotFound` only after both
/// candidates failed. Resolution never defaults silently.
pub fn determine_recovery_id_with_pubkey(
    message_hash: &[u8],
    signature: &[u8],
    ic_public_key: &[u8],
) -> (r: Result<u8, EvmError>)
    ensures
        r == Err::<u8, EvmError>(EvmError::InvalidDigestLength) <==> message_hash@.len() != 32,
        r == Err::<u8, EvmError>(EvmError::InvalidSignatureLength) <==> (message_hash@.len() == 32
            && signature@.len() != 64),
        r == Err::<u8, EvmError>(EvmError::InvalidKeyLength) <==> (message_hash@.len() == 32
            && signature@.len() == 64 && ic_public_key@.len() != 65),
        r == Err::<u8, EvmError>(EvmError::KeyParseError) <==> (message_hash@.len() == 32
            && signature@.len() == 64 && ic_public_key@.len() == 65 && ic_public_key@[0] != 4),
        (message_hash@.len() == 32 && signature@.len() == 64 && ic_public_key@.len() == 65
            && ic_public_key@[0] == 4) ==> {
            &&& (r is Ok <==> resolved_rid(message_hash@, signature@, ic_public_key@) is Some)
            &&& (r matches Ok(rid) ==> rid as nat == resolved_rid(
                message_hash@,
                signature@,
                ic_public_key@,
            )->Some_0 && candidate_matches(message_hash@, signature@, ic_public_key@, rid as nat))
            &&& (r is Err ==> r == Err::<u8, EvmError>(EvmError::RecoveryIdNotFound))
            &&& (r matches Ok(rid) && recovered_key(message_hash@, signature@, rid as nat)
                matches Some(k) && k == ic_public_key@ ==> sig_valid(
                message_hash@,
                signature@,
                ic_public_key@,
            ))
        },
{
    if message_hash.len() != 32 {
        return Err(EvmError::InvalidDigestLength);
    }
    if signature.len() != 64 {
        return Err(EvmError::InvalidSignatureLength);
    }
    if ic_public_key.len() != 65 {
        return Err(EvmError::InvalidKeyLength);
    }
    if ic_public_key[0] != 4 {
        return Err(EvmError::KeyParseError);
    }
    let known_address = match derive_evm_address(ic_public_key) {
        Ok(a) => a,
        Err(_) => {
            return Err(EvmError::KeyParseError);
        },
    };
    if let Some(recovered) = recover_candidate(message_hash, signature, 0) {
        if bytes_eq(recovered.as_slice(), ic_public_key) {
            return Ok(0);
        }
        let recovered_address = match derive_evm_address(recovered.as_slice()) {
            Ok(a) => a,
            Err(_) => {
                return Err(EvmError::RecoveryIdNotFound);
            },
        };
        if bytes_eq(recovered_address.as_slice(), known_address.as_slice()) {
            return Ok(0);
        }
    }
    if let Some(recovered) = recover_candidate(message_hash, signature, 1) {
        if bytes_eq(recovered.as_slice(), ic_public_key) {
            return Ok(1);
        }
        let recovered_address = match derive_evm_address(recovered.as_slice()) {
            Ok(a) => a,
            Err(_) => {
                return Err(EvmError::RecoveryIdNotFound);
            },
        };
        if bytes_eq(recovered_address.as_slice(), known_address.as_slice()) {
            return Ok(1);
        }
    }
    Err(EvmError::RecoveryIdNotFound)
}

/// Recovery-id consistency, soundness: a reported id always matches the
/// known key (byte-for-byte or by address), and failure means neither
/// candidate matches — the resolver never short-circuits and never falls
/// back to id 0.
pub proof fn lemma_resolver_sound(digest: Seq<u8>, sig: Seq<u8>, pk: Seq<u8>)
    ensures
        (resolved_rid(digest, sig, pk) matches Some(rid) ==> rid <= 1 && candidate_matches(
            digest,
            sig,
            pk,
            rid,
        )),
        resolved_rid(digest, sig, pk) is None ==> (!candidate_matches(digest, sig, pk, 0)
            && !candidate_matches(digest, sig, pk, 1)),
{
}

/// Recovery-id consistency, completeness: when some candidate id recovers
/// a key matching the known one — the situation after a well-formed
/// signing round, a cryptographic fact no contract here can supply —
/// resolution succeeds, and with an id that matches. Together with the
/// resolver's contract this gives `Ok(rid)`, `rid <= 1`, and the match.
pub proof fn lemma_resolver_complete(digest: Seq<u8>, sig: Seq<u8>, pk: Seq<u8>)
    requires
        candidate_matches(digest, sig, pk, 0) || candidate_matches(digest, sig, pk, 1),
    ensures
        resolved_rid(digest, sig, pk) is Some,
        resolved_rid(digest, sig, pk)->Some_0 <= 1,
        candidate_matches(digest, sig, pk, resolved_rid(digest, sig, pk)->Some_0),
{
}

} // verus!
