//! The legacy (pre-EIP-1559) transaction codec: 9-field RLP lists for the
//! unsigned (EIP-155) and signed shapes, for both calls and contract
//! creation. Unsigned and signed forms share the first six fields
//! byte-for-byte; they differ only in the trailing `(chainId, 0, 0)`
//! versus `(v, r, s)`.

use vstd::prelude::*;
use crate::bytesops::{copy_range, strip_leading_zeros, trim_zeros};
use crate::digest::{keccak256, keccak256_spec};
use crate::errors::EvmError;
use crate::rlp::{rlp_encode_bytes, rlp_encode_u64, rlp_finish_list, rlp_list, rlp_str, rlp_uint};

verus! {

/// The EIP-155 `v` value: `chainId * 2 + 35 + recoveryId`.
pub open spec fn eip155_v(chain_id: nat, recovery_id: nat) -> nat {
    chain_id * 2 + 35 + recovery_id
}

/// The six leading items every legacy transaction starts with.
pub open spec fn tx_prefix(
    nonce: nat,
    gas_price: nat,
    gas_limit: nat,
    to: Seq<u8>,
    value: nat,
    data: Seq<u8>,
) -> Seq<u8> {
    rlp_uint(nonce) + rlp_uint(gas_price) + rlp_uint(gas_limit) + rlp_str(to) + rlp_uint(value)
        + rlp_str(data)
}

/// The whole unsigned encoding: prefix, then `(chainId, 0, 0)`.
pub open spec fn unsigned_tx_rlp(
    nonce: nat,
    gas_price: nat,
    gas_limit: nat,
    to: Seq<u8>,
    value: nat,
    data: Seq<u8>,
    chain_id: nat,
) -> Seq<u8> {
    rlp_list(
        tx_prefix(nonce, gas_price, gas_limit, to, value, data) + rlp_uint(chain_id) + rlp_uint(0)
            + rlp_uint(0),
    )
}

/// The trailing signature items: `r` then `s`, leading zeros stripped as
/// RLP integer encoding asks.
pub open spec fn tx_sig_suffix(sig: Seq<u8>) -> Seq<u8> {
    rlp_str(trim_zeros(sig.subrange(0, 32))) + rlp_str(trim_zeros(sig.subrange(32, 64)))
}

/// The whole signed encoding: prefix, then `(v, r, s)`.
pub open spec fn signed_tx_rlp(
    nonce: nat,
    gas_price: nat,
    gas_limit: nat,
    to: Seq<u8>,
    value: nat,
    data: Seq<u8>,
    sig: Seq<u8>,
    v: nat,
) -> Seq<u8> {
    rlp_list(
        tx_prefix(nonce, gas_price, gas_limit, to, value, data) + rlp_uint(v) + tx_sig_suffix(sig),
    )
}

/// The six leading items, encoded.
fn encode_tx_prefix(
    nonce: u64,
    gas_price: u64,
    gas_limit: u64,
    to: &[u8],
    value: u64,
    data: &[u8],
) -> (r: Vec<u8>)
    ensures
        r@ == tx_prefix(
            nonce as nat,
            gas_price as nat,
            gas_limit as nat,
            to@,
            value as nat,
            data@,
        ),
{
    let mut out = rlp_encode_u64(nonce);
    let mut p = rlp_encode_u64(gas_price);
    out.append(&mut p);
    let mut p = rlp_encode_u64(gas_limit);
    out.append(&mut p);
    let mut p = rlp_encode_bytes(to);
    out.append(&mut p);
    let mut p = rlp_encode_u64(value);
    out.append(&mut p);
    let mut p = rlp_encode_bytes(data);
    out.append(&mut p);
    out
}

/// Build the unsigned EIP-155 transaction for a call: the RLP list
/// `[nonce, gasPrice, gasLimit, to, value, data, chainId, 0, 0]`.
pub fn build_evm_transaction(
    nonce: u64,
    gas_price: u64,
    gas_limit: u64,
    to: &[u8; 20],
    value: u64,
    data: Vec<u8>,
    chain_id: u64,
) -> (r: Vec<u8>)
    ensures
        r@ == unsigned_tx_rlp(
            nonce as nat,
            gas_price as nat,
            gas_limit as nat,
            to@,
            value as nat,
            data@,
            chain_id as nat,
        ),
{
    let mut out = encode_tx_prefix(nonce, gas_price, gas_limit, to.as_slice(), value,
        data.as_slice());
    let mut p = rlp_encode_u64(chain_id);
    out.append(&mut p);
    let mut p = rlp_encode_u64(0);
    out.append(&mut p);
    let mut p = rlp_encode_u64(0);
    out.append(&mut p);
    rlp_finish_list(out)
}

/// Build the unsigned EIP-155 transaction for contract creation: the same
/// list with an empty `to` field.
pub fn build_evm_transaction_for_creation(
    nonce: u64,
    gas_price: u64,
    gas_limit: u64,
    value: u64,
    data: Vec<u8>,
    chain_id: u64,
) -> (r: Vec<u8>)
    ensures
        r@ == unsigned_tx_rlp(
            nonce as nat,
            gas_price as nat,
            gas_limit as nat,
            Seq::<u8>::empty(),
            value as nat,
            data@,
            chain_id as nat,
        ),
{
    let empty_to: Vec<u8> = Vec::new();
    let mut out = encode_tx_prefix(nonce, gas_price, gas_limit, empty_to.as_slice(), value,
        data.as_slice());
    let mut p = rlp_encode_u64(chain_id);
    out.append(&mut p);
    let mut p = rlp_encode_u64(0);
    out.append(&mut p);
    let mut p = rlp_encode_u64(0);
    out.append(&mut p);
    proof {
        assert(empty_to@ =~= Seq::<u8>::empty());
    }
    rlp_finish_list(out)
}

/// The shared signed-encoding body: split the 64-byte signature into `r`
/// and `s`, compute `v`, and emit the 9-item list. A signature of any
/// other length is refused, never encoded into an unverifiable transaction.
fn encode_signed(
    nonce: u64,
    gas_price: u64,
    gas_limit: u64,
    to: &[u8],
    value: u64,
    data: &[u8],
    signature: &[u8],
    chain_id: u64,
    recovery_id: u8,
) -> (r: Result<Vec<u8>, EvmError>)
    requires
        chain_id <= (u64::MAX - 36) / 2,
        recovery_id <= 1,
    ensures
        r is Ok <==> signature@.len() == 64,
        r == Err::<Vec<u8>, EvmError>(EvmError::InvalidSignatureLength) <==> signature@.len()
            != 64,
        (r matches Ok(out) ==> out@ == signed_tx_rlp(
            nonce as nat,
            gas_price as nat,
            gas_limit as nat,
            to@,
            value as nat,
            data@,
            signature@,
            eip155_v(chain_id as nat, recovery_id as nat),
        )),
{
    if signature.len() != 64 {
        return Err(EvmError::InvalidSignatureLength);
    }
    let v: u64 = chain_id * 2 + 35 + (recovery_id as u64);
    let mut out = encode_tx_prefix(nonce, gas_price, gas_limit, to, value, data);
    let mut p = rlp_encode_u64(v);
    out.append(&mut p);
    let r_bytes = copy_range(signature, 0, 32);
    let s_bytes = copy_range(signature, 32, 64);
    let mut p = rlp_encode_bytes(strip_leading_zeros(r_bytes.as_slice()).as_slice());
    out.append(&mut p);
    let mut p = rlp_encode_bytes(strip_leading_zeros(s_bytes.as_slice()).as_slice());
    out.append(&mut p);
    Ok(rlp_finish_list(out))
}

/// Build the signed EIP-155 call transaction:
/// `[nonce, gasPrice, gasLimit, to, value, data, v, r, s]` with
/// `v = chainId * 2 + 35 + recoveryId`.
pub fn build_signed_transaction(
    nonce: u64,
    gas_price: u64,
    gas_limit: u64,
    to: &[u8; 20],
    value: u64,
    data: Vec<u8>,
    signature: &[u8],
    chain_id: u64,
    recovery_id: u8,
) -> (r: Result<Vec<u8>, EvmError>)
    requires
        chain_id <= (u64::MAX - 36) / 2,
        recovery_id <= 1,
    ensures
        r is Ok <==> signature@.len() == 64,
        r == Err::<Vec<u8>, EvmError>(EvmError::InvalidSignatureLength) <==> signature@.len()
            != 64,
        (r matches Ok(out) ==> out@ == signed_tx_rlp(
            nonce as nat,
            gas_price as nat,
            gas_limit as nat,
            to@,
            value as nat,
            data@,
            signature@,
            eip155_v(chain_id as nat, recovery_id as nat),
        )),
{
    encode_signed(nonce, gas_price, gas_limit, to.as_slice(), value, data.as_slice(), signature,
        chain_id, recovery_id)
}

/// Build the signed EIP-155 contract-creation transaction: the same list
/// with an empty `to` field.
pub fn build_signed_transaction_for_creation(
    nonce: u64,
    gas_price: u64,
    gas_limit: u64,
    value: u64,
    data: Vec<u8>,
    signature: &[u8],
    chain_id: u64,
    recovery_id: u8,
) -> (r: Result<Vec<u8>, EvmError>)
    requires
        chain_id <= (u64::MAX - 36) / 2,
        recovery_id <= 1,
    ensures
        r is Ok <==> signature@.len() == 64,
        r == Err::<Vec<u8>, EvmError>(EvmError::InvalidSignatureLength) <==> signature@.len()
            != 64,
        (r matches Ok(out) ==> out@ == signed_tx_rlp(
            nonce as nat,
            gas_price as nat,
            gas_limit as nat,
            Seq::<u8>::empty(),
            value as nat,
            data@,
            signature@,
            eip155_v(chain_id as nat, recovery_id as nat),
        )),
{
    let empty_to: Vec<u8> = Vec::new();
    proof {
        assert(empty_to@ =~= Seq::<u8>::empty());
    }
    encode_signed(nonce, gas_price, gas_limit, empty_to.as_slice(), value, data.as_slice(),
        signature, chain_id, recovery_id)
}

/// The digest a transaction is signed over: the Keccak-256 hash of its
/// unsigned encoding, always 32 bytes.
pub fn tx_signing_digest(tx: &[u8]) -> (r: Vec<u8>)
    ensures
        r@ == keccak256_spec(tx@),
        r@.len() == 32,
{
    keccak256(tx)
}

/// The recovery id reaches the encoding only through `v`: both candidate
/// signed encodings are the same items around `rlp_uint(v)`, and the two
/// `v` values differ by exactly one.
pub proof fn lemma_signed_encodings_differ_only_in_v(
    nonce: nat,
    gas_price: nat,
    gas_limit: nat,
    to: Seq<u8>,
    value: nat,
    data: Seq<u8>,
    sig: Seq<u8>,
    chain_id: nat,
)
    ensures
        eip155_v(chain_id, 1) == eip155_v(chain_id, 0) + 1,
        signed_tx_rlp(nonce, gas_price, gas_limit, to, value, data, sig, eip155_v(chain_id, 0))
            == rlp_list(
            tx_prefix(nonce, gas_price, gas_limit, to, value, data) + rlp_uint(
                eip155_v(chain_id, 0),
            ) + tx_sig_suffix(sig),
        ),
        signed_tx_rlp(nonce, gas_price, gas_limit, to, value, data, sig, eip155_v(chain_id, 1))
            == rlp_list(
            tx_prefix(nonce, gas_price, gas_limit, to, value, data) + rlp_uint(
                eip155_v(chain_id, 0) + 1,
            ) + tx_sig_suffix(sig),
        ),
{
}

/// Unsigned and signed forms differ only in the last three items: both
/// open with the same six-item prefix, byte-identical, as the
/// digest-over-unsigned / signature-over-digest relationship needs.
pub proof fn lemma_shared_prefix(
    nonce: nat,
    gas_price: nat,
    gas_limit: nat,
    to: Seq<u8>,
    value: nat,
    data: Seq<u8>,
    sig: Seq<u8>,
    chain_id: nat,
    v: nat,
)
    ensures
        unsigned_tx_rlp(nonce, gas_price, gas_limit, to, value, data, chain_id) == rlp_list(
            tx_prefix(nonce, gas_price, gas_limit, to, value, data) + (rlp_uint(chain_id)
                + rlp_uint(0) + rlp_uint(0)),
        ),
        signed_tx_rlp(nonce, gas_price, gas_limit, to, value, data, sig, v) == rlp_list(
            tx_prefix(nonce, gas_price, gas_limit, to, value, data) + (rlp_uint(v)
                + tx_sig_suffix(sig)),
        ),
{
    assert(tx_prefix(nonce, gas_price, gas_limit, to, value, data) + rlp_uint(chain_id) + rlp_uint(
        0,
    ) + rlp_uint(0) =~= tx_prefix(nonce, gas_price, gas_limit, to, value, data) + (rlp_uint(
        chain_id,
    ) + rlp_uint(0) + rlp_uint(0)));
    assert(tx_prefix(nonce, gas_price, gas_limit, to, value, data) + rlp_uint(v) + tx_sig_suffix(
        sig,
    ) =~= tx_prefix(nonce, gas_price, gas_limit, to, value, data) + (rlp_uint(v) + tx_sig_suffix(
        sig,
    )));
}

} // verus!
