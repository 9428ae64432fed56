use evm_signer::address::{derive_evm_address, evm_address_from_key, evm_address_string};
use evm_signer::errors::EvmError;
use evm_signer::keys::{compress_public_key, decompress_public_key, normalize_public_key};
use k256::elliptic_curve::sec1::ToEncodedPoint;

fn reference_keypair(sk_byte: u8) -> (Vec<u8>, Vec<u8>) {
    let mut sk = [0u8; 32];
    sk[31] = sk_byte;
    let signing = k256::ecdsa::SigningKey::from_slice(&sk).unwrap();
    let vk = signing.verifying_key();
    let uncompressed = vk.to_encoded_point(false).as_bytes().to_vec();
    let compressed = vk.to_encoded_point(true).as_bytes().to_vec();
    (uncompressed, compressed)
}

#[test]
fn decompression_matches_reference_points() {
    for b in 1u8..=20 {
        let (uncompressed, compressed) = reference_keypair(b);
        assert_eq!(decompress_public_key(&compressed).unwrap(), uncompressed);
        assert_eq!(normalize_public_key(&compressed).unwrap(), uncompressed);
        assert_eq!(normalize_public_key(&uncompressed).unwrap(), uncompressed);
    }
}

#[test]
fn decompression_is_repeatable() {
    let (_, compressed) = reference_keypair(5);
    let first = decompress_public_key(&compressed).unwrap();
    let second = decompress_public_key(&compressed).unwrap();
    assert_eq!(first, second);
    let a1 = evm_address_from_key(&compressed).unwrap();
    let a2 = evm_address_from_key(&compressed).unwrap();
    assert_eq!(a1, a2);
}

#[test]
fn odd_parity_prefix_yields_odd_y() {
    let mut found = false;
    for b in 1u8..=20 {
        let (uncompressed, compressed) = reference_keypair(b);
        if compressed[0] == 0x03 {
            found = true;
            let ours = decompress_public_key(&compressed).unwrap();
            assert_eq!(ours, uncompressed);
            assert_eq!(ours[64] & 1, 1);
        }
    }
    assert!(found);
}

#[test]
fn compression_round_trip() {
    for b in 1u8..=20 {
        let (uncompressed, compressed) = reference_keypair(b);
        let ours = compress_public_key(&uncompressed).unwrap();
        assert_eq!(ours, compressed);
        assert_eq!(decompress_public_key(&ours).unwrap(), uncompressed);
    }
}

#[test]
fn known_address_for_generator_point() {
    // The address of the secp256k1 generator point (private scalar one).
    let (uncompressed, compressed) = reference_keypair(1);
    let addr = evm_address_string(&uncompressed).unwrap();
    assert_eq!(addr, "0x7e5f4552091a69125d5dfcb7b8c2659029395bdf");
    assert_eq!(evm_address_from_key(&uncompressed).unwrap(), addr);
    assert_eq!(evm_address_from_key(&compressed).unwrap(), addr);
    let bytes = derive_evm_address(&uncompressed).unwrap();
    assert_eq!(bytes.len(), 20);
    assert_eq!(bytes[0], 0x7e);
    assert_eq!(bytes[19], 0xdf);
}

#[test]
fn key_length_errors() {
    assert_eq!(
        normalize_public_key(&[0u8; 32]).unwrap_err(),
        EvmError::InvalidKeyLength
    );
    assert_eq!(
        decompress_public_key(&[2u8; 65]).unwrap_err(),
        EvmError::InvalidKeyLength
    );
    assert_eq!(
        compress_public_key(&[4u8; 33]).unwrap_err(),
        EvmError::InvalidKeyLength
    );
    assert_eq!(
        derive_evm_address(&[4u8; 33]).unwrap_err(),
        EvmError::InvalidKeyLength
    );
}

#[test]
fn rejects_keys_off_the_curve() {
    // Parse failures must agree with the reference parser.
    for x in 0u8..30 {
        let mut compressed = [0u8; 33];
        compressed[0] = 0x02;
        compressed[32] = x;
        let reference_ok = k256::PublicKey::from_sec1_bytes(&compressed).is_ok();
        let ours = decompress_public_key(&compressed);
        assert_eq!(ours.is_ok(), reference_ok);
        if !reference_ok {
            assert_eq!(ours.unwrap_err(), EvmError::KeyParseError);
        }
    }
    // A bad parity prefix is a parse error.
    let (_, mut compressed) = reference_keypair(3);
    compressed[0] = 0x05;
    assert_eq!(
        decompress_public_key(&compressed).unwrap_err(),
        EvmError::KeyParseError
    );
    // An x-coordinate at or above the field prime is a parse error.
    let mut big = [0xffu8; 33];
    big[0] = 0x02;
    assert_eq!(
        decompress_public_key(&big).unwrap_err(),
        EvmError::KeyParseError
    );
}
