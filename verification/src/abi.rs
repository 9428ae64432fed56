//! The two contract-call shapes this component needs, ABI-encoded: the
//! static `register(uint256,address,uint256)` call and the dynamic
//! mint/register calls carrying strings. Word layout is stated exactly;
//! the byte production is delegated to `ethabi::encode` behind trusted
//! wrappers.

use vstd::prelude::*;
use vstd::string::{StrSliceExecFns, StringSliceAdditionalSpecFns};
use ethabi::Token;
use vstd::utf8::encode_utf8;
use crate::digest::{keccak256, keccak256_spec};
use crate::hexstr::{hex_decode, hex_decoded, is_hex_char, strip0x};
use crate::rlp::min_be;

verus! {

/// `n` zero bytes.
pub open spec fn zero_bytes(n: nat) -> Seq<u8> {
    Seq::new(n, |i: int| 0u8)
}

/// A 32-byte ABI word holding an unsigned integer: the minimal big-endian
/// bytes, left-padded with zeros.
pub open spec fn abi_word_uint(v: nat) -> Seq<u8> {
    zero_bytes((32 - min_be(v).len()) as nat) + min_be(v)
}

/// A 32-byte ABI word holding a 20-byte address, left-padded with zeros.
pub open spec fn abi_word_addr(a: Seq<u8>) -> Seq<u8> {
    zero_bytes(12) + a
}

/// Zero padding up to the next 32-byte boundary.
pub open spec fn abi_pad_len(n: nat) -> nat {
    if n % 32 == 0 {
        0
    } else {
        (32 - (n % 32)) as nat
    }
}

/// The ABI tail encoding of a dynamic byte string: its length word, the
/// bytes, and padding to a word boundary.
pub open spec fn abi_bytes_enc(b: Seq<u8>) -> Seq<u8> {
    abi_word_uint(b.len()) + b + zero_bytes(abi_pad_len(b.len()))
}

/// The parameter encoding of `register(uint256,address,uint256)`: three
/// static words.
pub open spec fn abi_register_enc(chain_id: nat, contract: Seq<u8>, token_id: nat) -> Seq<u8> {
    abi_word_uint(chain_id) + abi_word_addr(contract) + abi_word_uint(token_id)
}

/// The longest string argument the dynamic encodings accept, in
/// characters: below `2^28` characters a UTF-8 text stays below `2^30`
/// bytes, so every ABI length and offset word fits comfortably in the
/// 32 bits the encoder writes them with.
#[verifier::inline]
pub open spec fn max_abi_text_len() -> nat {
    0x1000_0000nat
}

/// The parameter encoding of `mint(address,string,string)`: the address
/// word, two offset words (the first string starts right after the
/// three-word head), then the two string tails.
pub open spec fn abi_mint_enc(to: Seq<u8>, content_hash: Seq<u8>, uri: Seq<u8>) -> Seq<u8> {
    abi_word_addr(to) + abi_word_uint(96) + abi_word_uint(96 + abi_bytes_enc(content_hash).len())
        + abi_bytes_enc(content_hash) + abi_bytes_enc(uri)
}

/// The parameter encoding of
/// `mintAndRegisterIp(address,address,(string,bytes32,string,bytes32))`:
/// two address words, the offset of the dynamic tuple, then the tuple —
/// whose own head holds the first string's offset, the first 32-byte hash
/// inline, the second string's offset and the second hash, followed by the
/// two string tails.
pub open spec fn abi_mint_register_enc(
    spg: Seq<u8>,
    recipient: Seq<u8>,
    uri: Seq<u8>,
    uri_hash: Seq<u8>,
    nft_uri: Seq<u8>,
    nft_hash: Seq<u8>,
) -> Seq<u8> {
    abi_word_addr(spg) + abi_word_addr(recipient) + abi_word_uint(96) + abi_word_uint(128)
        + uri_hash + abi_word_uint(128 + abi_bytes_enc(uri).len()) + nft_hash + abi_bytes_enc(uri)
        + abi_bytes_enc(nft_uri)
}

/// Relies on `ethabi::encode` with `Token::Uint` and `Token::Address`:
/// static parameters become one 32-byte big-endian word each.
#[verifier::external_body]
fn ethabi_encode_register(chain_id: u64, token_contract: &[u8], token_id: u64) -> (r: Vec<u8>)
    requires
        token_contract@.len() == 20,
    ensures
        r@ == abi_register_enc(chain_id as nat, token_contract@, token_id as nat),
{
    ethabi::encode(&[
        Token::Uint(ethabi::Uint::from(chain_id)),
        Token::Address(ethabi::Address::from_slice(token_contract)),
        Token::Uint(ethabi::Uint::from(token_id)),
    ])
}

/// Relies on `ethabi::encode` with `Token::String`: dynamic parameters are
/// referenced by offset from the head and laid out as length-prefixed,
/// word-padded UTF-8 bytes. The encoder computes every length and offset
/// word in 32-bit arithmetic, so the string arguments are bounded: below
/// `2^28` characters each, all such words stay far below `2^32` and the
/// emission is exact.
#[verifier::external_body]
fn ethabi_encode_mint(to: &[u8], content_hash: &str, uri: &str) -> (r: Vec<u8>)
    requires
        to@.len() == 20,
        content_hash@.len() < max_abi_text_len(),
        uri@.len() < max_abi_text_len(),
    ensures
        r@ == abi_mint_enc(to@, content_hash.spec_bytes(), uri.spec_bytes()),
{
    ethabi::encode(&[
        Token::Address(ethabi::Address::from_slice(to)),
        Token::String(content_hash.to_owned()),
        Token::String(uri.to_owned()),
    ])
}

/// Relies on `ethabi::encode` with a dynamic `Token::Tuple` of strings and
/// `Token::FixedBytes`: the tuple is referenced by offset and encodes its
/// own head and tails in member order. As with the other dynamic shape,
/// the encoder's 32-bit length and offset words make the bound on the
/// string arguments part of what is relied on.
#[verifier::external_body]
fn ethabi_encode_mint_and_register(
    spg: &[u8],
    recipient: &[u8],
    uri: &str,
    uri_hash: &[u8],
    nft_uri: &str,
    nft_hash: &[u8],
) -> (r: Vec<u8>)
    requires
        spg@.len() == 20,
        recipient@.len() == 20,
        uri_hash@.len() == 32,
        nft_hash@.len() == 32,
        uri@.len() < max_abi_text_len(),
        nft_uri@.len() < max_abi_text_len(),
    ensures
        r@ == abi_mint_register_enc(
            spg@,
            recipient@,
            uri.spec_bytes(),
            uri_hash@,
            nft_uri.spec_bytes(),
            nft_hash@,
        ),
{
    let metadata = Token::Tuple(vec![
        Token::String(uri.to_owned()),
        Token::FixedBytes(uri_hash.to_vec()),
        Token::String(nft_uri.to_owned()),
        Token::FixedBytes(nft_hash.to_vec()),
    ]);
    ethabi::encode(&[
        Token::Address(ethabi::Address::from_slice(spg)),
        Token::Address(ethabi::Address::from_slice(recipient)),
        metadata,
    ])
}

/// What address parsing accepts: after stripping `0x` markers, exactly 40
/// hex digits.
pub open spec fn evm_address_text_ok(s: Seq<char>) -> bool {
    &&& strip0x(s).len() == 40
    &&& forall|i: int| 0 <= i < strip0x(s).len() ==> is_hex_char(#[trigger] strip0x(s)[i])
}

/// The 20 bytes an address text denotes.
pub open spec fn evm_address_bytes(s: Seq<char>) -> Seq<u8> {
    hex_decoded(strip0x(s))
}

/// Parse a textual EVM address (`0x`-prefixed or bare hex) into its 20
/// bytes.
pub fn parse_evm_address(s: &str) -> (r: Option<Vec<u8>>)
    ensures
        r is Some <==> evm_address_text_ok(s@),
        (r matches Some(v) ==> v@ == evm_address_bytes(s@) && v@.len() == 20),
{
    let n = s.unicode_len();
    let mut start: usize = 0;
    proof {
        assert(s@.subrange(0, n as int) =~= s@);
    }
    while start < n && start + 1 < n && s.get_char(start) == '0' && s.get_char(start + 1) == 'x'
        invariant
            start <= n == s@.len(),
            strip0x(s@) == strip0x(s@.subrange(start as int, n as int)),
        decreases n - start,
    {
        proof {
            let cur = s@.subrange(start as int, n as int);
            assert(cur.subrange(2, cur.len() as int) =~= s@.subrange(start as int + 2, n as int));
        }
        start = start + 2;
    }
    let digits = s.substring_char(start, n);
    proof {
        assert(strip0x(s@.subrange(start as int, n as int)) == s@.subrange(
            start as int,
            n as int,
        ));
    }
    if digits.unicode_len() != 40 {
        return None;
    }
    let decoded = hex_decode(digits)?;
    proof {
        lemma_hex_decoded_len(digits@);
    }
    Some(decoded)
}

/// Decoding `2n` hex digits yields `n` bytes.
proof fn lemma_hex_decoded_len(s: Seq<char>)
    requires
        s.len() % 2 == 0,
    ensures
        hex_decoded(s).len() == s.len() / 2,
    decreases s.len(),
{
    if s.len() >= 2 {
        lemma_hex_decoded_len(s.subrange(2, s.len() as int));
    }
}

/// Calldata for `IPAssetRegistry.register(uint256,address,uint256)`: the
/// four selector bytes of that signature, then the three parameter words.
pub fn build_ip_asset_registry_register_calldata(
    chain_id: u64,
    token_contract: &str,
    token_id: u64,
) -> (r: Result<Vec<u8>, String>)
    ensures
        r is Ok <==> evm_address_text_ok(token_contract@),
        (r matches Ok(out) ==> out@ == seq![0xfcu8, 0xa2u8, 0x47u8, 0xacu8] + abi_register_enc(
            chain_id as nat,
            evm_address_bytes(token_contract@),
            token_id as nat,
        )),
{
    let addr = match parse_evm_address(token_contract) {
        Some(a) => a,
        None => {
            return Err(String::from_str("Invalid token contract address"));
        },
    };
    let mut out: Vec<u8> = Vec::new();
    out.push(0xfc);
    out.push(0xa2);
    out.push(0x47);
    out.push(0xac);
    let mut params = ethabi_encode_register(chain_id, addr.as_slice(), token_id);
    let ghost pv = params@;
    out.append(&mut params);
    proof {
        assert(out@ =~= seq![0xfcu8, 0xa2u8, 0x47u8, 0xacu8] + pv);
    }
    Ok(out)
}

/// Calldata for `SimpleNFT.mint(address,string,string)`: the selector of
/// that signature, then the recipient and the two strings.
pub fn build_mint_calldata(to: &str, content_hash: String, metadata_uri: String) -> (r: Result<
    Vec<u8>,
    String,
>)
    ensures
        r is Ok <==> (evm_address_text_ok(to@) && content_hash@.len() < max_abi_text_len()
            && metadata_uri@.len() < max_abi_text_len()),
        (r matches Ok(out) ==> out@ == seq![0x99u8, 0x07u8, 0x11u8, 0x90u8] + abi_mint_enc(
            evm_address_bytes(to@),
            encode_utf8(content_hash@),
            encode_utf8(metadata_uri@),
        )),
{
    if content_hash.as_str().unicode_len() >= 0x1000_0000 {
        return Err(String::from_str("Content hash text too long"));
    }
    if metadata_uri.as_str().unicode_len() >= 0x1000_0000 {
        return Err(String::from_str("Metadata URI too long"));
    }
    let addr = match parse_evm_address(to) {
        Some(a) => a,
        None => {
            return Err(String::from_str("Invalid recipient address"));
        },
    };
    let mut out: Vec<u8> = Vec::new();
    out.push(0x99);
    out.push(0x07);
    out.push(0x11);
    out.push(0x90);
    let mut params = ethabi_encode_mint(addr.as_slice(), content_hash.as_str(),
        metadata_uri.as_str());
    let ghost pv = params@;
    out.append(&mut params);
    proof {
        assert(out@ =~= seq![0x99u8, 0x07u8, 0x11u8, 0x90u8] + pv);
    }
    Ok(out)
}

/// Calldata for `RegistrationWorkflows.mintAndRegisterIp`: the selector,
/// the SPG collection and recipient addresses, and the metadata tuple; the
/// metadata hash is the Keccak-256 digest of the URI, and the NFT metadata
/// reuses the same URI and hash.
pub fn build_mint_and_register_ip_calldata(
    metadata_uri: String,
    recipient: &str,
    spg_nft_contract: &[u8],
) -> (r: Result<Vec<u8>, String>)
    requires
        spg_nft_contract@.len() == 20,
    ensures
        r is Ok <==> (evm_address_text_ok(recipient@) && metadata_uri@.len()
            < max_abi_text_len()),
        (r matches Ok(out) ==> out@ == seq![0xa3u8, 0x92u8, 0xaau8, 0x86u8]
            + abi_mint_register_enc(
            spg_nft_contract@,
            evm_address_bytes(recipient@),
            encode_utf8(metadata_uri@),
            keccak256_spec(encode_utf8(metadata_uri@)),
            encode_utf8(metadata_uri@),
            keccak256_spec(encode_utf8(metadata_uri@)),
        )),
{
    if metadata_uri.as_str().unicode_len() >= 0x1000_0000 {
        return Err(String::from_str("Metadata URI too long"));
    }
    let addr = match parse_evm_address(recipient) {
        Some(a) => a,
        None => {
            return Err(String::from_str("Failed to decode recipient address"));
        },
    };
    let metadata_hash = keccak256(metadata_uri.as_str().as_bytes());
    let mut out: Vec<u8> = Vec::new();
    out.push(0xa3);
    out.push(0x92);
    out.push(0xaa);
    out.push(0x86);
    let mut params = ethabi_encode_mint_and_register(
        spg_nft_contract,
        addr.as_slice(),
        metadata_uri.as_str(),
        metadata_hash.as_slice(),
        metadata_uri.as_str(),
        metadata_hash.as_slice(),
    );
    let ghost pv = params@;
    out.append(&mut params);
    proof {
        assert(out@ =~= seq![0xa3u8, 0x92u8, 0xaau8, 0x86u8] + pv);
    }
    Ok(out)
}

} // verus!
