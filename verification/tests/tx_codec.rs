use evm_signer::errors::EvmError;
use sha3::Digest;
use evm_signer::tx::{
    build_evm_transaction, build_evm_transaction_for_creation, build_signed_transaction,
    build_signed_transaction_for_creation,
};

#[test]
fn unsigned_golden_encoding() {
    let data = vec![0xde, 0xad, 0xbe, 0xef];
    let tx = build_evm_transaction(7, 20_000_000_000, 3_000_000, &[0u8; 20], 0, data, 1315);
    let mut expected: Vec<u8> = vec![
        0xeb, 0x07, 0x85, 0x04, 0xa8, 0x17, 0xc8, 0x00, 0x83, 0x2d, 0xc6, 0xc0, 0x94,
    ];
    expected.extend_from_slice(&[0u8; 20]);
    expected.extend_from_slice(&[0x80, 0x84, 0xde, 0xad, 0xbe, 0xef, 0x82, 0x05, 0x23, 0x80, 0x80]);
    assert_eq!(tx, expected);
}

#[test]
fn signing_digest_matches_reference_hash() {
    let tx = build_evm_transaction(7, 20_000_000_000, 3_000_000, &[0u8; 20], 0, vec![1, 2], 1315);
    let digest = evm_signer::tx::tx_signing_digest(&tx);
    assert_eq!(digest.len(), 32);
    assert_eq!(digest, sha3::Keccak256::digest(&tx).to_vec());
}

#[test]
fn unsigned_matches_reference_encoder() {
    let data = vec![0xde, 0xad, 0xbe, 0xef];
    let to = [0u8; 20];
    let tx = build_evm_transaction(7, 20_000_000_000, 3_000_000, &to, 0, data.clone(), 1315);
    let mut stream = rlp::RlpStream::new();
    stream.begin_list(9);
    stream.append(&7u64);
    stream.append(&20_000_000_000u64);
    stream.append(&3_000_000u64);
    stream.append(&to.to_vec());
    stream.append(&0u64);
    stream.append(&data);
    stream.append(&1315u64);
    stream.append(&0u8);
    stream.append(&0u8);
    assert_eq!(tx, stream.out().to_vec());
}

#[test]
fn creation_encoding_matches_reference() {
    let data = vec![0x60, 0x80, 0x60, 0x40];
    let tx = build_evm_transaction_for_creation(3, 11, 22, 1, data.clone(), 1315);
    let mut stream = rlp::RlpStream::new();
    stream.begin_list(9);
    stream.append(&3u64);
    stream.append(&11u64);
    stream.append(&22u64);
    stream.append(&"");
    stream.append(&1u64);
    stream.append(&data);
    stream.append(&1315u64);
    stream.append(&0u8);
    stream.append(&0u8);
    assert_eq!(tx, stream.out().to_vec());
}

#[test]
fn long_payload_uses_long_list_form() {
    // Contract payloads far beyond 55 bytes force the length-of-length forms.
    let data = vec![0xabu8; 300];
    let tx = build_evm_transaction_for_creation(0, 0, 0, 0, data.clone(), 1);
    let mut stream = rlp::RlpStream::new();
    stream.begin_list(9);
    stream.append(&0u64);
    stream.append(&0u64);
    stream.append(&0u64);
    stream.append(&"");
    stream.append(&0u64);
    stream.append(&data);
    stream.append(&1u64);
    stream.append(&0u8);
    stream.append(&0u8);
    assert_eq!(tx, stream.out().to_vec());
}

#[test]
fn signature_length_boundary() {
    let to = [0u8; 20];
    let ok = build_signed_transaction(7, 1, 1, &to, 0, vec![], &[0x11u8; 64], 1315, 0);
    assert!(ok.is_ok());
    let short = build_signed_transaction(7, 1, 1, &to, 0, vec![], &[0x11u8; 63], 1315, 0);
    assert_eq!(short.unwrap_err(), EvmError::InvalidSignatureLength);
    let long = build_signed_transaction(7, 1, 1, &to, 0, vec![], &[0x11u8; 65], 1315, 0);
    assert_eq!(long.unwrap_err(), EvmError::InvalidSignatureLength);
    let creation = build_signed_transaction_for_creation(7, 1, 1, 0, vec![], &[0x11u8; 63], 1315, 1);
    assert_eq!(creation.unwrap_err(), EvmError::InvalidSignatureLength);
}

#[test]
fn encoding_is_deterministic() {
    let data = vec![1u8, 2, 3];
    let a = build_evm_transaction(9, 8, 7, &[6u8; 20], 5, data.clone(), 4);
    let b = build_evm_transaction(9, 8, 7, &[6u8; 20], 5, data.clone(), 4);
    assert_eq!(a, b);
    let sig = [0x22u8; 64];
    let sa = build_signed_transaction(9, 8, 7, &[6u8; 20], 5, data.clone(), &sig, 4, 1).unwrap();
    let sb = build_signed_transaction(9, 8, 7, &[6u8; 20], 5, data, &sig, 4, 1).unwrap();
    assert_eq!(sa, sb);
}

#[test]
fn recovery_bit_changes_only_v() {
    let data = vec![0xde, 0xad];
    let mut sig = [0u8; 64];
    for (i, b) in sig.iter_mut().enumerate() {
        *b = (i as u8).wrapping_mul(7).wrapping_add(1);
    }
    let t0 =
        build_signed_transaction(7, 20, 30, &[1u8; 20], 0, data.clone(), &sig, 1315, 0).unwrap();
    let t1 = build_signed_transaction(7, 20, 30, &[1u8; 20], 0, data, &sig, 1315, 1).unwrap();
    let r0 = rlp::Rlp::new(&t0);
    let r1 = rlp::Rlp::new(&t1);
    for i in 0..9 {
        if i != 6 {
            assert_eq!(
                r0.at(i).unwrap().as_raw(),
                r1.at(i).unwrap().as_raw(),
                "item {} must not depend on the recovery id",
                i
            );
        }
    }
    let v0: u64 = r0.val_at(6).unwrap();
    let v1: u64 = r1.val_at(6).unwrap();
    assert_eq!(v0, 1315 * 2 + 35);
    assert_eq!(v1, v0 + 1);
}

#[test]
fn signed_encoding_matches_reference_encoder() {
    // The original layout: v, then r and s reinterpreted as integers.
    let data = vec![0x01, 0x02];
    let mut sig = [0u8; 64];
    sig[31] = 0x09; // r = 9, exercising leading-zero stripping
    sig[32] = 0xff; // s with the high byte set
    let tx = build_signed_transaction(1, 2, 3, &[4u8; 20], 5, data.clone(), &sig, 1315, 1).unwrap();
    let v = 1315u64 * 2 + 35 + 1;
    let mut stream = rlp::RlpStream::new();
    stream.begin_list(9);
    stream.append(&1u64);
    stream.append(&2u64);
    stream.append(&3u64);
    stream.append(&[4u8; 20].to_vec());
    stream.append(&5u64);
    stream.append(&data);
    stream.append(&primitive_types::U256::from(v));
    stream.append(&primitive_types::U256::from_big_endian(&sig[0..32]));
    stream.append(&primitive_types::U256::from_big_endian(&sig[32..64]));
    assert_eq!(tx, stream.out().to_vec());
}
