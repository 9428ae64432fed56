use ethabi::{encode, Token};
use evm_signer::abi::{
    build_ip_asset_registry_register_calldata, build_mint_and_register_ip_calldata,
    build_mint_calldata, parse_evm_address,
};
use primitive_types::U256;
use sha3::Digest;

#[test]
fn test_encode_simple_params() {
    let params = encode(&[Token::Address([0u8; 20].into()), Token::Uint(U256::from(1))]);
    assert_eq!(params.len(), 64);
}

#[test]
fn test_encode_string() {
    let params = encode(&[Token::String("test".to_string())]);
    assert!(params.len() > 0);
}

#[test]
fn register_calldata_matches_reference() {
    let contract_hex = "0x77319b4031e6ef1250907aa00018b8b1c67a244b";
    let out = build_ip_asset_registry_register_calldata(1315, contract_hex, 42).unwrap();
    let contract_bytes = hex::decode(&contract_hex[2..]).unwrap();
    let mut expected = hex::decode("fca247ac").unwrap();
    expected.extend_from_slice(&encode(&[
        Token::Uint(U256::from(1315u64)),
        Token::Address(ethabi::Address::from_slice(&contract_bytes)),
        Token::Uint(U256::from(42u64)),
    ]));
    assert_eq!(out, expected);
}

#[test]
fn mint_calldata_matches_reference() {
    let to_hex = "0x7e5f4552091a69125d5dfcb7b8c2659029395bdf";
    let out = build_mint_calldata(
        to_hex,
        "0xabc123".to_string(),
        "ipfs://example/metadata.json".to_string(),
    )
    .unwrap();
    let to_bytes = hex::decode(&to_hex[2..]).unwrap();
    let mut expected = hex::decode("99071190").unwrap();
    expected.extend_from_slice(&encode(&[
        Token::Address(ethabi::Address::from_slice(&to_bytes)),
        Token::String("0xabc123".to_string()),
        Token::String("ipfs://example/metadata.json".to_string()),
    ]));
    assert_eq!(out, expected);
}

#[test]
fn mint_and_register_calldata_matches_reference() {
    let spg = [0xc3u8; 20];
    let recipient_hex = "0x0707070707070707070707070707070707070707";
    let uri = "ipfs://placeholder/0xabc/metadata.json";
    let out =
        build_mint_and_register_ip_calldata(uri.to_string(), recipient_hex, &spg).unwrap();
    let metadata_hash = sha3::Keccak256::digest(uri.as_bytes()).to_vec();
    let tuple = Token::Tuple(vec![
        Token::String(uri.to_string()),
        Token::FixedBytes(metadata_hash.clone()),
        Token::String(uri.to_string()),
        Token::FixedBytes(metadata_hash),
    ]);
    let mut expected = hex::decode("a392aa86").unwrap();
    expected.extend_from_slice(&encode(&[
        Token::Address(ethabi::Address::from(spg)),
        Token::Address(ethabi::Address::from([0x07u8; 20])),
        tuple,
    ]));
    assert_eq!(out, expected);
}

#[test]
fn address_text_parsing() {
    let bytes = parse_evm_address("0x7e5f4552091a69125d5dfcb7b8c2659029395bdf").unwrap();
    assert_eq!(bytes.len(), 20);
    assert_eq!(bytes[0], 0x7e);
    assert_eq!(
        parse_evm_address("7e5f4552091a69125d5dfcb7b8c2659029395bdf").unwrap(),
        bytes
    );
    assert_eq!(
        parse_evm_address("0x7E5F4552091A69125D5DFCB7B8C2659029395BDF").unwrap(),
        bytes
    );
    assert!(parse_evm_address("0x1234").is_none());
    assert!(parse_evm_address("0xzz5f4552091a69125d5dfcb7b8c2659029395bdf").is_none());
    assert!(build_mint_calldata("0x1234", "a".to_string(), "b".to_string()).is_err());
    assert!(build_ip_asset_registry_register_calldata(1, "nonsense", 2).is_err());
}

#[test]
fn oversized_string_arguments_are_refused() {
    // One character below 2^28 is accepted territory; at 2^28 the builders
    // refuse rather than hand the encoder a string whose ABI words would
    // no longer fit its 32-bit arithmetic.
    let huge = "x".repeat(0x1000_0000);
    let to = "0x7e5f4552091a69125d5dfcb7b8c2659029395bdf";
    assert_eq!(
        build_mint_calldata(to, huge.clone(), "ok".to_string()).unwrap_err(),
        "Content hash text too long"
    );
    assert_eq!(
        build_mint_calldata(to, "ok".to_string(), huge.clone()).unwrap_err(),
        "Metadata URI too long"
    );
    let spg = [0xc3u8; 20];
    assert_eq!(
        build_mint_and_register_ip_calldata(huge, to, &spg).unwrap_err(),
        "Metadata URI too long"
    );
}
