use evm_signer::hexstr::{hex_0x, u64_to_dec};
use evm_signer::proofdata::{
    choose_tx_hash, const_error_tag, content_hash_of_prompt, data_endpoint,
    generate_placeholder_image_url, generate_simulated_tx_hash, placeholder_metadata_uri,
    trim_ascii, LedgerHashFields, ProofOfGeneration,
};
use evm_signer::rpc::{fill_from_time, http_request_cycles, is_success_status};
use sha2::Digest as Sha2Digest;
use sha3::Digest as Sha3Digest;

#[test]
fn test_content_hash_format() {
    let content_hash = "0xabc123def456";
    assert!(content_hash.starts_with("0x"));
    assert_eq!(content_hash.len(), 14); // 0x + 12 hex chars
}

#[test]
fn content_hash_matches_reference_digest() {
    let h = content_hash_of_prompt("a quiet harbour at dusk", 12345);
    let expected = format!(
        "0x{}",
        hex::encode(sha3::Keccak256::digest("a quiet harbour at dusk:12345".as_bytes()))
    );
    assert_eq!(h, expected);
    assert!(h.starts_with("0x"));
    assert_eq!(h.len(), 66);
}

#[test]
fn simulated_tx_hash_matches_reference_digest() {
    let proof = ProofOfGeneration {
        content_hash: "0xabc123".to_string(),
        model_name: "deepseek-chat".to_string(),
        timestamp: 1_729_512_000_000,
        story_ip_id: "0x0523".to_string(),
        nft_contract: "0x6853".to_string(),
        nft_token_id: 1,
        generator_address: "ICP-Canister".to_string(),
    };
    let data = "0xabc123:0x0523:0x6853:1";
    let digest = sha2::Sha256::digest(data.as_bytes());
    let expected = format!("CONST-{}", hex::encode(&digest[..16]));
    assert_eq!(generate_simulated_tx_hash(&proof), expected);
}

#[test]
fn hex_and_decimal_text() {
    assert_eq!(hex_0x(&[0xde, 0xad]), "0xdead");
    assert_eq!(hex_0x(&[]), "0x");
    assert_eq!(u64_to_dec(0), "0");
    assert_eq!(u64_to_dec(1315), "1315");
    assert_eq!(u64_to_dec(u64::MAX), "18446744073709551615");
}

#[test]
fn placeholder_texts() {
    assert_eq!(
        generate_placeholder_image_url("anything"),
        "https://ipfs.io/ipfs/bafybeigi3k77t5h5aefwpzvx3uiomuavdvqwn5rb5uhd7i7xcq466wvute"
    );
    assert_eq!(
        placeholder_metadata_uri("0xabc"),
        "ipfs://placeholder/0xabc/metadata.json"
    );
    assert_eq!(const_error_tag(17), "CONST-ERROR-17");
}

#[test]
fn endpoint_join_respects_trailing_slash() {
    assert_eq!(data_endpoint("http://node:9400"), "http://node:9400/data");
    assert_eq!(data_endpoint("http://node:9400/"), "http://node:9400/data");
}

#[test]
fn ledger_hash_selection() {
    let fields = LedgerHashFields {
        hash: None,
        transaction_hash: Some("0xbeef".to_string()),
        tx_hash: Some("shadowed".to_string()),
        tx_hash_camel: None,
    };
    assert_eq!(choose_tx_hash(Some(fields), "{}").unwrap(), "CONST-0xbeef");
    let empty = LedgerHashFields {
        hash: None,
        transaction_hash: None,
        tx_hash: None,
        tx_hash_camel: None,
    };
    assert_eq!(
        choose_tx_hash(Some(empty), "{\"ok\":true}").unwrap_err(),
        "No hash field found in response: {\"ok\":true}"
    );
    assert_eq!(choose_tx_hash(None, "  plainhash \n").unwrap(), "CONST-plainhash");
    let long_body = "x".repeat(100);
    assert_eq!(
        choose_tx_hash(None, &long_body).unwrap_err(),
        format!("Could not parse response as JSON: {}", long_body)
    );
    assert!(choose_tx_hash(None, "").is_err());
}

#[test]
fn ascii_trim() {
    assert_eq!(trim_ascii("  hi \t\r\n"), "hi");
    assert_eq!(trim_ascii(""), "");
    assert_eq!(trim_ascii(" \t "), "");
    assert_eq!(trim_ascii("solid"), "solid");
}

#[test]
fn outcall_cycle_cost() {
    // The documented rates at thirteen nodes, a 100-byte request and a
    // one-mebibyte response cap.
    assert_eq!(http_request_cycles(13, 100, 1_048_576), 13_145_820_480u128);
    assert_eq!(http_request_cycles(0, 0, 0), 0);
    assert!(is_success_status(200));
    assert!(is_success_status(299));
    assert!(!is_success_status(199));
    assert!(!is_success_status(300));
    assert!(!is_success_status(500));
}

#[test]
fn time_seeded_fill_matches_reference_rule() {
    let time: u64 = 0x0102_0304_0506_0708;
    let buf = fill_from_time(time, 20);
    let time_bytes = time.to_le_bytes();
    for (i, byte) in buf.iter().enumerate() {
        let expected = time_bytes[i % time_bytes.len()].wrapping_add(i as u8);
        assert_eq!(*byte, expected);
    }
    assert_eq!(fill_from_time(time, 0).len(), 0);
}
