use evm_signer::hexstr::parse_hex_u64;
use evm_signer::rpc::{parse_nonce_hex, select_rpc_result};

#[test]
fn test_module_compiles() {
    assert!(true);
}

#[test]
fn test_parse_nonce_from_hex() {
    let hex_str = "0xa";
    let nonce = parse_hex_u64(hex_str).unwrap();
    assert_eq!(nonce, 10);
}

#[test]
fn test_parse_nonce_from_json_response() {
    let response: serde_json::Value =
        serde_json::from_str("{\"jsonrpc\":\"2.0\",\"id\":1,\"result\":\"0x15\"}").unwrap();
    let nonce_hex = response["result"].as_str().unwrap();
    let nonce = parse_hex_u64(nonce_hex).unwrap();
    assert_eq!(nonce, 21);
}

#[test]
fn test_parse_zero_nonce() {
    let hex_str = "0x0";
    let nonce = parse_hex_u64(hex_str).unwrap();
    assert_eq!(nonce, 0);
}

#[test]
fn parse_nonce_accepts_bare_and_repeated_prefixes() {
    assert_eq!(parse_hex_u64("ff"), Some(255));
    assert_eq!(parse_hex_u64("0x0x10"), Some(16));
    assert_eq!(parse_hex_u64("0xDeadBeef"), Some(0xdead_beef));
    assert_eq!(parse_hex_u64("ffffffffffffffff"), Some(u64::MAX));
}

#[test]
fn parse_nonce_rejects_bad_quantities() {
    assert_eq!(parse_hex_u64(""), None);
    assert_eq!(parse_hex_u64("0x"), None);
    assert_eq!(parse_hex_u64("xyz"), None);
    assert_eq!(parse_hex_u64("+1"), None);
    assert_eq!(parse_hex_u64("10000000000000000"), None);
    assert_eq!(
        parse_nonce_hex("zz").unwrap_err(),
        "Failed to parse nonce hex".to_string()
    );
    assert_eq!(parse_nonce_hex("0x15").unwrap(), 21);
}

#[test]
fn rpc_result_selection() {
    assert_eq!(
        select_rpc_result(Some("0xabc".to_string()), None).unwrap(),
        "0xabc"
    );
    assert_eq!(
        select_rpc_result(Some("0xabc".to_string()), Some("boom".to_string())).unwrap_err(),
        "RPC error: boom"
    );
    assert_eq!(
        select_rpc_result(None, None).unwrap_err(),
        "No result in response"
    );
}
