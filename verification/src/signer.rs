//! The validating half of the remote signer adapter. The platform call
//! itself suspends and lives outside the library; what is checked here is
//! everything the core promises about it: only a 32-byte digest may be
//! submitted, and only a 64-byte `(r, s)` answer may be accepted.

use vstd::prelude::*;
use crate::errors::EvmError;

verus! {

/// Accept a digest for signing only at exactly 32 bytes.
pub fn check_signing_digest(message_hash: &[u8]) -> (r: Result<(), EvmError>)
    ensures
        r is Ok <==> message_hash@.len() == 32,
        r is Err ==> r == Err::<(), EvmError>(EvmError::InvalidDigestLength),
{
    if message_hash.len() == 32 {
        Ok(())
    } else {
        Err(EvmError::InvalidDigestLength)
    }
}

/// Accept a signer answer only at exactly 64 bytes: 32-byte `r`, 32-byte
/// `s`, no recovery bit.
pub fn check_signature_length(signature: &[u8]) -> (r: Result<(), EvmError>)
    ensures
        r is Ok <==> signature@.len() == 64,
        r is Err ==> r == Err::<(), EvmError>(EvmError::InvalidSignatureLength),
{
    if signature.len() == 64 {
        Ok(())
    } else {
        Err(EvmError::InvalidSignatureLength)
    }
}

} // verus!
