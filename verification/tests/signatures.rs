use evm_signer::errors::EvmError;
use evm_signer::recovery::{determine_recovery_id_with_pubkey, verify_signature};
use evm_signer::tx::build_evm_transaction;
use k256::ecdsa::signature::hazmat::PrehashSigner;
use k256::elliptic_curve::sec1::ToEncodedPoint;
use sha3::Digest;

fn signing_pair(sk_byte: u8) -> (k256::ecdsa::SigningKey, Vec<u8>) {
    let mut sk = [0u8; 32];
    sk[31] = sk_byte;
    let signing = k256::ecdsa::SigningKey::from_slice(&sk).unwrap();
    let public = signing
        .verifying_key()
        .to_encoded_point(false)
        .as_bytes()
        .to_vec();
    (signing, public)
}

fn sign_digest(signing: &k256::ecdsa::SigningKey, digest: &[u8]) -> Vec<u8> {
    let sig: k256::ecdsa::Signature = signing.sign_prehash(digest).unwrap();
    sig.to_bytes().to_vec()
}

#[test]
fn verify_accepts_fresh_signatures() {
    for b in [1u8, 2, 6, 9] {
        let (signing, public) = signing_pair(b);
        let digest = sha3::Keccak256::digest(&[b, 0x55]).to_vec();
        let sig = sign_digest(&signing, &digest);
        assert_eq!(verify_signature(&digest, &sig, &public).unwrap(), true);
    }
}

#[test]
fn verify_rejects_foreign_key() {
    let (signing, _) = signing_pair(1);
    let (_, other_public) = signing_pair(2);
    let digest = sha3::Keccak256::digest(b"payload").to_vec();
    let sig = sign_digest(&signing, &digest);
    assert_eq!(verify_signature(&digest, &sig, &other_public).unwrap(), false);
}

#[test]
fn resolver_finds_matching_recovery_id() {
    for b in [1u8, 2, 6, 9] {
        let (signing, public) = signing_pair(b);
        let digest = sha3::Keccak256::digest(&[b, 0xaa, 0xbb]).to_vec();
        let sig = sign_digest(&signing, &digest);
        let rid = determine_recovery_id_with_pubkey(&digest, &sig, &public).unwrap();
        assert!(rid <= 1);
        // Recovering with the reported id reproduces the known key exactly.
        let parsed = k256::ecdsa::Signature::from_slice(&sig).unwrap();
        let recovery_id = k256::ecdsa::RecoveryId::from_byte(rid).unwrap();
        let recovered =
            k256::ecdsa::VerifyingKey::recover_from_prehash(&digest, &parsed, recovery_id)
                .unwrap();
        assert_eq!(recovered.to_encoded_point(false).as_bytes(), &public[..]);
        // The resolver's notion of validity agrees with the verifier's.
        assert_eq!(verify_signature(&digest, &sig, &public).unwrap(), true);
    }
}

#[test]
fn resolver_rejects_foreign_key() {
    let (signing, _) = signing_pair(1);
    let (_, other_public) = signing_pair(2);
    let digest = sha3::Keccak256::digest(b"other").to_vec();
    let sig = sign_digest(&signing, &digest);
    assert_eq!(
        determine_recovery_id_with_pubkey(&digest, &sig, &other_public).unwrap_err(),
        EvmError::RecoveryIdNotFound
    );
}

#[test]
fn malformed_inputs_are_typed_errors() {
    let (signing, public) = signing_pair(1);
    let digest = sha3::Keccak256::digest(b"x").to_vec();
    let sig = sign_digest(&signing, &digest);
    assert_eq!(
        verify_signature(&digest[..31], &sig, &public).unwrap_err(),
        EvmError::InvalidDigestLength
    );
    assert_eq!(
        verify_signature(&digest, &sig[..63], &public).unwrap_err(),
        EvmError::InvalidSignatureLength
    );
    assert_eq!(
        verify_signature(&digest, &sig, &public[..64]).unwrap_err(),
        EvmError::InvalidKeyLength
    );
    // An all-zero signature has out-of-range scalars.
    assert_eq!(
        verify_signature(&digest, &[0u8; 64], &public).unwrap_err(),
        EvmError::KeyParseError
    );
    assert_eq!(
        determine_recovery_id_with_pubkey(&digest[..31], &sig, &public).unwrap_err(),
        EvmError::InvalidDigestLength
    );
    assert_eq!(
        determine_recovery_id_with_pubkey(&digest, &sig[..63], &public).unwrap_err(),
        EvmError::InvalidSignatureLength
    );
    assert_eq!(
        determine_recovery_id_with_pubkey(&digest, &sig, &public[..64]).unwrap_err(),
        EvmError::InvalidKeyLength
    );
    let mut bad_prefix = public.clone();
    bad_prefix[0] = 0x05;
    assert_eq!(
        determine_recovery_id_with_pubkey(&digest, &sig, &bad_prefix).unwrap_err(),
        EvmError::KeyParseError
    );
}

#[test]
fn full_signing_flow_produces_eip155_v() {
    // The golden-fixture flow: encode, hash, sign, resolve, re-encode.
    let data = vec![0xde, 0xad, 0xbe, 0xef];
    let unsigned =
        build_evm_transaction(7, 20_000_000_000, 3_000_000, &[0u8; 20], 0, data.clone(), 1315);
    let digest = sha3::Keccak256::digest(&unsigned).to_vec();
    let (signing, public) = signing_pair(1);
    let sig = sign_digest(&signing, &digest);
    let rid = determine_recovery_id_with_pubkey(&digest, &sig, &public).unwrap();
    assert!(rid <= 1);
    assert_eq!(verify_signature(&digest, &sig, &public).unwrap(), true);
    let signed = evm_signer::tx::build_signed_transaction(
        7,
        20_000_000_000,
        3_000_000,
        &[0u8; 20],
        0,
        data,
        &sig,
        1315,
        rid,
    )
    .unwrap();
    let v: u64 = rlp::Rlp::new(&signed).val_at(6).unwrap();
    assert_eq!(v, 1315 * 2 + 35 + rid as u64);
    assert!(v == 2665 || v == 2666);
}

#[test]
fn error_messages_cover_every_variant() {
    let variants = vec![
        EvmError::InvalidKeyLength,
        EvmError::KeyParseError,
        EvmError::InvalidDigestLength,
        EvmError::InvalidSignatureLength,
        EvmError::RecoveryIdNotFound,
        EvmError::PlatformSigningFailure("rejected".to_string()),
        EvmError::PlatformKeyFetchFailure("unavailable".to_string()),
    ];
    for v in variants {
        assert!(!v.message().is_empty());
        assert_eq!(v.clone(), v);
    }
}
