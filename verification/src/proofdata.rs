//! Proof-of-generation records and the deterministic text they produce:
//! content hashes, simulated ledger transaction hashes, endpoint joining,
//! and the selection rules for hashes reported back by the ledger.

use vstd::prelude::*;
use vstd::string::{StrSliceExecFns, StringExecFns, StringSliceAdditionalSpecFns};
use vstd::utf8::encode_utf8;
use crate::bytesops::copy_range;
use crate::digest::{keccak256, keccak256_spec, sha256, sha256_spec};
use crate::hexstr::{dec_str, hex_0x, hex_encode, hex_of, u64_to_dec};

verus! {

/// A record of one generation, as logged to the proof ledger.
#[derive(Debug, Clone)]
pub struct ProofOfGeneration {
    /// Content hash of the generated content.
    pub content_hash: String,
    /// AI model used.
    pub model_name: String,
    /// Timestamp of generation.
    pub timestamp: u64,
    /// IP identifier on the registration chain.
    pub story_ip_id: String,
    /// NFT contract address.
    pub nft_contract: String,
    /// NFT token id.
    pub nft_token_id: u64,
    /// Generator address.
    pub generator_address: String,
}

/// The colon-joined text a proof is condensed to before hashing.
pub open spec fn proof_digest_text(p: ProofOfGeneration) -> Seq<char> {
    p.content_hash@ + ":"@ + p.story_ip_id@ + ":"@ + p.nft_contract@ + ":"@ + dec_str(
        p.nft_token_id as nat,
    )
}

/// The deterministic stand-in transaction hash for a proof: `CONST-` plus
/// the first 16 bytes of the SHA-256 digest of the condensed record, hex.
pub fn generate_simulated_tx_hash(proof: &ProofOfGeneration) -> (r: String)
    ensures
        r@ == "CONST-"@ + hex_of(
            sha256_spec(encode_utf8(proof_digest_text(*proof))).subrange(0, 16),
        ),
{
    let data = proof.content_hash.clone().concat(":").concat(proof.story_ip_id.as_str()).concat(
        ":",
    ).concat(proof.nft_contract.as_str()).concat(":").concat(
        u64_to_dec(proof.nft_token_id).as_str(),
    );
    proof {
        assert(data@ =~= proof_digest_text(*proof));
    }
    let h = sha256(data.as_str().as_bytes());
    let first16 = copy_range(h.as_slice(), 0, 16);
    String::from_str("CONST-").concat(hex_encode(first16.as_slice()).as_str())
}

/// The content hash of a generation: `0x` plus the Keccak-256 digest of
/// `prompt:timestamp`.
pub fn content_hash_of_prompt(prompt: &str, timestamp: u64) -> (r: String)
    ensures
        r@ == "0x"@ + hex_of(
            keccak256_spec(encode_utf8(prompt@ + ":"@ + dec_str(timestamp as nat))),
        ),
{
    let data = prompt.to_owned().concat(":").concat(u64_to_dec(timestamp).as_str());
    proof {
        assert(data@ =~= prompt@ + ":"@ + dec_str(timestamp as nat));
    }
    let h = keccak256(data.as_str().as_bytes());
    hex_0x(h.as_slice())
}

/// The placeholder content location handed out until real generation and
/// pinning exist; a fixed document, whatever the prompt.
pub fn generate_placeholder_image_url(prompt: &str) -> (r: String)
    ensures
        r@ == "https://ipfs.io/ipfs/bafybeigi3k77t5h5aefwpzvx3uiomuavdvqwn5rb5uhd7i7xcq466wvute"@,
{
    let _ = prompt;
    String::from_str("https://ipfs.io/ipfs/bafybeigi3k77t5h5aefwpzvx3uiomuavdvqwn5rb5uhd7i7xcq466wvute")
}

/// The ledger's data endpoint under a base URL: append `data`, adding the
/// slash only when the base does not already end in one.
pub fn data_endpoint(metagraph_url: &str) -> (r: String)
    ensures
        r@ == if metagraph_url@.len() > 0 && metagraph_url@.last() == '/' {
            metagraph_url@ + "data"@
        } else {
            metagraph_url@ + "/data"@
        },
{
    let n = metagraph_url.unicode_len();
    if n > 0 && metagraph_url.get_char(n - 1) == '/' {
        metagraph_url.to_owned().concat("data")
    } else {
        metagraph_url.to_owned().concat("/data")
    }
}

/// The fallback tag for a failed ledger log: `CONST-ERROR-` plus the time.
pub fn const_error_tag(time: u64) -> (r: String)
    ensures
        r@ == "CONST-ERROR-"@ + dec_str(time as nat),
{
    String::from_str("CONST-ERROR-").concat(u64_to_dec(time).as_str())
}

/// The placeholder metadata location for a content hash.
pub fn placeholder_metadata_uri(content_hash: &str) -> (r: String)
    ensures
        r@ == "ipfs://placeholder/"@ + content_hash@ + "/metadata.json"@,
{
    let s = String::from_str("ipfs://placeholder/").concat(content_hash).concat("/metadata.json");
    proof {
        assert(s@ =~= "ipfs://placeholder/"@ + content_hash@ + "/metadata.json"@);
    }
    s
}

/// The identity to report for a registration: the parsed `(ipId, tokenId)`
/// when receipt parsing succeeded, otherwise the transaction hash with
/// token id zero.
pub fn choose_ip_identity(parsed: Option<(String, u64)>, tx_hash: String) -> (r: (String, u64))
    ensures
        (parsed matches Some(p) ==> r == p),
        (parsed is None ==> r.0@ == tx_hash@ && r.1 == 0),
{
    match parsed {
        Some(p) => p,
        None => (tx_hash, 0),
    }
}

/// ASCII whitespace, as found around ledger reply bodies.
pub open spec fn is_ascii_space(c: char) -> bool {
    c == ' ' || c == '\t' || c == '\n' || c == '\r'
}

/// Leading ASCII whitespace removed.
pub open spec fn trim_left(s: Seq<char>) -> Seq<char>
    decreases s.len(),
{
    if s.len() > 0 && is_ascii_space(s[0]) {
        trim_left(s.subrange(1, s.len() as int))
    } else {
        s
    }
}

/// Trailing ASCII whitespace removed.
pub open spec fn trim_right(s: Seq<char>) -> Seq<char>
    decreases s.len(),
{
    if s.len() > 0 && is_ascii_space(s.last()) {
        trim_right(s.drop_last())
    } else {
        s
    }
}

/// Both ends trimmed.
pub open spec fn trimmed(s: Seq<char>) -> Seq<char> {
    trim_right(trim_left(s))
}

/// Whether the character at `i` is ASCII whitespace.
fn ws_at(s: &str, i: usize) -> (r: bool)
    requires
        i < s@.len(),
    ensures
        r == is_ascii_space(s@[i as int]),
{
    let c = s.get_char(i);
    c == ' ' || c == '\t' || c == '\n' || c == '\r'
}

/// Trim ASCII whitespace from both ends.
pub fn trim_ascii(s: &str) -> (r: String)
    ensures
        r@ == trimmed(s@),
{
    let n = s.unicode_len();
    let mut i: usize = 0;
    proof {
        assert(s@.subrange(0, n as int) =~= s@);
    }
    while i < n && ws_at(s, i)
        invariant
            i <= n == s@.len(),
            trim_left(s@) == trim_left(s@.subrange(i as int, n as int)),
        decreases n - i,
    {
        proof {
            let cur = s@.subrange(i as int, n as int);
            assert(cur.subrange(1, cur.len() as int) =~= s@.subrange(i as int + 1, n as int));
        }
        i = i + 1;
    }
    proof {
        let cur = s@.subrange(i as int, n as int);
        assert(trim_left(cur) == cur);
    }
    let mut e: usize = n;
    while e > i && ws_at(s, e - 1)
        invariant
            i <= e <= n == s@.len(),
            trim_left(s@) == s@.subrange(i as int, n as int),
            trim_right(s@.subrange(i as int, n as int)) == trim_right(
                s@.subrange(i as int, e as int),
            ),
        decreases e,
    {
        proof {
            let cur = s@.subrange(i as int, e as int);
            assert(cur.drop_last() =~= s@.subrange(i as int, e as int - 1));
        }
        e = e - 1;
    }
    proof {
        let cur = s@.subrange(i as int, e as int);
        assert(trim_right(cur) == cur);
    }
    s.substring_char(i, e).to_owned()
}

/// The hash-bearing fields a ledger reply may carry, in the order they
/// are consulted.
pub struct LedgerHashFields {
    /// The `hash` field.
    pub hash: Option<String>,
    /// The `transactionHash` field.
    pub transaction_hash: Option<String>,
    /// The `tx_hash` field.
    pub tx_hash: Option<String>,
    /// The `txHash` field.
    pub tx_hash_camel: Option<String>,
}

/// The hash text the first populated field yields.
pub open spec fn first_hash_field(f: LedgerHashFields) -> Option<Seq<char>> {
    if f.hash is Some {
        Option::Some(f.hash->Some_0@)
    } else if f.transaction_hash is Some {
        Option::Some(f.transaction_hash->Some_0@)
    } else if f.tx_hash is Some {
        Option::Some(f.tx_hash->Some_0@)
    } else if f.tx_hash_camel is Some {
        Option::Some(f.tx_hash_camel->Some_0@)
    } else {
        Option::None
    }
}

/// Choose the transaction hash out of a ledger reply: with parsed fields,
/// the first populated hash field wins, `CONST-`-prefixed; without a
/// parsable reply, a short nonempty body is taken verbatim (trimmed),
/// anything else is an error carrying the body. `parsed` is `Some` exactly
/// when the reply was JSON; `body_bytes` is the reply's byte length.
pub fn choose_tx_hash(parsed: Option<LedgerHashFields>, body: &str) -> (r: Result<String, String>)
    ensures
        (match parsed {
            Some(f) => match first_hash_field(f) {
                Some(h) => r matches Ok(v) && v@ == "CONST-"@ + h,
                None => r matches Err(m) && m@ == "No hash field found in response: "@ + body@,
            },
            None => {
                if body@.len() > 0 && (body.spec_bytes().len() as usize) < 100 {
                    r matches Ok(v) && v@ == "CONST-"@ + trimmed(body@)
                } else {
                    r matches Err(m) && m@ == "Could not parse response as JSON: "@ + body@
                }
            },
        }),
{
    match parsed {
        Some(f) => {
            let picked: Option<String> = if f.hash.is_some() {
                f.hash
            } else if f.transaction_hash.is_some() {
                f.transaction_hash
            } else if f.tx_hash.is_some() {
                f.tx_hash
            } else {
                f.tx_hash_camel
            };
            match picked {
                Some(h) => Ok(String::from_str("CONST-").concat(h.as_str())),
                None => Err(
                    String::from_str("No hash field found in response: ").concat(body),
                ),
            }
        },
        None => {
            if !body.is_empty() && body.len() < 100 {
                Ok(String::from_str("CONST-").concat(trim_ascii(body).as_str()))
            } else {
                Err(String::from_str("Could not parse response as JSON: ").concat(body))
            }
        },
    }
}

} // verus!
