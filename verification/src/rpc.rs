//! The computing side of the RPC plumbing: outcall cycle-cost accounting
//! (node count and per-byte rates as parameters, not baked-in constants),
//! HTTP status classification, JSON-RPC result selection, and nonce
//! parsing. The I/O itself lives outside the library.

use vstd::prelude::*;
use vstd::string::StringExecFns;
use crate::hexstr::{hex_chars_ok, hex_num_val, parse_hex_u64, strip0x};
use vstd::arithmetic::power2::pow2;

verus! {

/// An HTTP outcall response reduced to what the logic reads.
#[derive(Debug, Clone)]
pub struct HttpOutcallResponse {
    pub status: u32,
    pub body: String,
}

/// Whether a status code counts as success.
pub fn is_success_status(status: u32) -> (r: bool)
    ensures
        r == (200 <= status < 300),
{
    200 <= status && status < 300
}

/// The cycle cost of one HTTP outcall: a per-call base of
/// `(3_000_000 + 60_000 * nodes) * nodes`, per-byte request and response
/// rates of 400 and 800 per node, and a twenty-percent safety buffer.
pub open spec fn outcall_cycles(nodes: nat, request_size: nat, max_response_bytes: nat) -> nat {
    (((3_000_000 + 60_000 * nodes) * nodes + 400 * request_size * nodes + 800 * max_response_bytes
        * nodes) * 12) / 10
}

/// Compute the outcall cycle budget. The node count and sizes are
/// parameters: cost accounting is policy handed in by the caller.
pub fn http_request_cycles(nodes: u32, request_size: u64, max_response_bytes: u64) -> (r: u128)
    ensures
        r == outcall_cycles(nodes as nat, request_size as nat, max_response_bytes as nat),
{
    let n = nodes as u128;
    let rq = request_size as u128;
    let mr = max_response_bytes as u128;
    proof {
        assert((3_000_000 + 60_000 * n) * n <= 0x1_0000_0000_0000_0000_0000_0000u128)
            by (nonlinear_arith)
            requires
                n <= 0xFFFF_FFFFu128,
        ;
        assert((400 * rq) * n <= 0x1_0000_0000_0000_0000_0000_0000_0000u128) by (nonlinear_arith)
            requires
                n <= 0xFFFF_FFFFu128,
                rq <= 0xFFFF_FFFF_FFFF_FFFFu128,
        ;
        assert((800 * mr) * n <= 0x1_0000_0000_0000_0000_0000_0000_0000u128) by (nonlinear_arith)
            requires
                n <= 0xFFFF_FFFFu128,
                mr <= 0xFFFF_FFFF_FFFF_FFFFu128,
        ;
    }
    let base = (3_000_000 + 60_000 * n) * n;
    let req_cost = (400 * rq) * n;
    let resp_cost = (800 * mr) * n;
    ((base + req_cost + resp_cost) * 12) / 10
}

/// Pick the payload out of a JSON-RPC reply: a reported error wins, then
/// the result, and a reply carrying neither is itself an error.
pub fn select_rpc_result(result: Option<String>, error: Option<String>) -> (r: Result<
    String,
    String,
>)
    ensures
        (error matches Some(e) ==> (r matches Err(m) && m@ == "RPC error: "@ + e@)),
        ((error is None && result is Some) ==> (r matches Ok(v) && v@ == result->Some_0@)),
        ((error is None && result is None) ==> (r matches Err(m) && m@
            == "No result in response"@)),
{
    match error {
        Some(e) => Err(String::from_str("RPC error: ").concat(e.as_str())),
        None => match result {
            Some(h) => Ok(h),
            None => Err(String::from_str("No result in response")),
        },
    }
}

/// Parse the nonce quantity out of an `eth_getTransactionCount` result.
pub fn parse_nonce_hex(s: &str) -> (r: Result<u64, String>)
    ensures
        r is Ok <==> (hex_chars_ok(strip0x(s@)) && hex_num_val(strip0x(s@)) <= u64::MAX),
        (r matches Ok(v) ==> v == hex_num_val(strip0x(s@))),
        (r matches Err(m) ==> m@ == "Failed to parse nonce hex"@),
{
    match parse_hex_u64(s) {
        Some(v) => Ok(v),
        None => Err(String::from_str("Failed to parse nonce hex")),
    }
}

/// One byte of the time-seeded fill: little-endian byte `i % 8` of the
/// time, shifted by the position.
pub open spec fn time_fill_byte(time: nat, i: nat) -> u8 {
    ((((time / pow2(8 * (i % 8))) % 256) + (i % 256)) % 256) as u8
}

/// Fill a buffer of the requested length from a 64-bit time value: each
/// byte is the corresponding little-endian time byte plus its position,
/// wrapping. This is the deterministic part of the entropy shim; it is
/// not cryptographically strong and is only used where the platform
/// offers nothing better.
pub fn fill_from_time(time: u64, len: usize) -> (r: Vec<u8>)
    ensures
        r@.len() == len,
        forall|i: int| 0 <= i < len ==> r@[i] == time_fill_byte(time as nat, i as nat),
{
    let mut tb: Vec<u8> = Vec::new();
    let mut k: usize = 0;
    while k < 8
        invariant
            k <= 8,
            tb@.len() == k,
            forall|q: int| 0 <= q < k ==> tb@[q] == ((time as nat / pow2((8 * q) as nat)) % 256)
                as u8,
        decreases 8 - k,
    {
        let d: u64 = if k == 0 {
            1
        } else if k == 1 {
            0x100
        } else if k == 2 {
            0x1_0000
        } else if k == 3 {
            0x100_0000
        } else if k == 4 {
            0x1_0000_0000
        } else if k == 5 {
            0x100_0000_0000
        } else if k == 6 {
            0x1_0000_0000_0000
        } else {
            0x100_0000_0000_0000
        };
        proof {
            vstd::arithmetic::power2::lemma2_to64();
            vstd::arithmetic::power2::lemma2_to64_rest();
            assert(d == pow2((8 * k) as nat));
        }
        tb.push(((time / d) % 256) as u8);
        k = k + 1;
    }
    let mut r: Vec<u8> = Vec::new();
    let mut i: usize = 0;
    while i < len
        invariant
            i <= len,
            tb@.len() == 8,
            forall|q: int| 0 <= q < 8 ==> tb@[q] == ((time as nat / pow2((8 * q) as nat)) % 256)
                as u8,
            r@.len() == i,
            forall|q: int| 0 <= q < i ==> r@[q] == time_fill_byte(time as nat, q as nat),
        decreases len - i,
    {
        let b = tb[i % 8];
        let v: u16 = b as u16 + (i % 256) as u16;
        r.push((v % 256) as u8);
        i = i + 1;
    }
    r
}

} // verus!
