use vstd::prelude::*;

verus! {

/// Failures of the signing core. Every error is terminal for the current
/// attempt and is reported to the caller; nothing falls back silently.
#[derive(Debug, PartialEq, Eq)]
pub enum EvmError {
    /// A public key was neither 33 bytes (compressed) nor 65 bytes (uncompressed).
    InvalidKeyLength,
    /// A public key or signature had the right length but did not parse as a
    /// valid curve point or scalar pair.
    KeyParseError,
    /// A digest to sign or verify was not exactly 32 bytes.
    InvalidDigestLength,
    /// A signature was not exactly 64 bytes (32-byte r followed by 32-byte s).
    InvalidSignatureLength,
    /// Neither recovery id 0 nor 1 recovers a key matching the known signer key.
    RecoveryIdNotFound,
    /// The platform signing capability reported a failure.
    PlatformSigningFailure(String),
    /// The platform key-management capability reported a failure.
    PlatformKeyFetchFailure(String),
}

impl Clone for EvmError {
    /// The clone reports the same failure kind; platform messages keep their text.
    fn clone(&self) -> (r: Self)
        ensures
            match (self, &r) {
                (EvmError::InvalidKeyLength, EvmError::InvalidKeyLength) => true,
                (EvmError::KeyParseError, EvmError::KeyParseError) => true,
                (EvmError::InvalidDigestLength, EvmError::InvalidDigestLength) => true,
                (EvmError::InvalidSignatureLength, EvmError::InvalidSignatureLength) => true,
                (EvmError::RecoveryIdNotFound, EvmError::RecoveryIdNotFound) => true,
                (EvmError::PlatformSigningFailure(a), EvmError::PlatformSigningFailure(b)) => a@
                    == b@,
                (EvmError::PlatformKeyFetchFailure(a), EvmError::PlatformKeyFetchFailure(b)) => a@
                    == b@,
                _ => false,
            },
    {
        match self {
            EvmError::InvalidKeyLength => EvmError::InvalidKeyLength,
            EvmError::KeyParseError => EvmError::KeyParseError,
            EvmError::InvalidDigestLength => EvmError::InvalidDigestLength,
            EvmError::InvalidSignatureLength => EvmError::InvalidSignatureLength,
            EvmError::RecoveryIdNotFound => EvmError::RecoveryIdNotFound,
            EvmError::PlatformSigningFailure(s) => EvmError::PlatformSigningFailure(s.clone()),
            EvmError::PlatformKeyFetchFailure(s) => EvmError::PlatformKeyFetchFailure(s.clone()),
        }
    }
}

impl EvmError {
    /// A short text for logs; the library defines no `Display` impl.
    pub fn message(&self) -> (r: String)
        ensures
            r@.len() > 0,
    {
        let s: &str = match self {
            EvmError::InvalidKeyLength => "invalid public key length (expected 33 or 65)",
            EvmError::KeyParseError => "failed to parse public key or signature",
            EvmError::InvalidDigestLength => "invalid digest length (expected 32)",
            EvmError::InvalidSignatureLength => "invalid signature length (expected 64)",
            EvmError::RecoveryIdNotFound => "neither recovery id matches the known public key",
            EvmError::PlatformSigningFailure(_) => "platform signing failure",
            EvmError::PlatformKeyFetchFailure(_) => "platform key fetch failure",
        };
        proof {
            reveal_strlit("invalid public key length (expected 33 or 65)");
            reveal_strlit("failed to parse public key or signature");
            reveal_strlit("invalid digest length (expected 32)");
            reveal_strlit("invalid signature length (expected 64)");
            reveal_strlit("neither recovery id matches the known public key");
            reveal_strlit("platform signing failure");
            reveal_strlit("platform key fetch failure");
        }
        s.to_owned()
    }
}

} // verus!
