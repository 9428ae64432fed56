//! RLP: the canonical recursive length-prefixed encoding used for Ethereum
//! transactions, here for byte strings, unsigned integers and one-level
//! lists — all a legacy transaction needs.

use vstd::prelude::*;
use vstd::arithmetic::div_mod::lemma_multiply_divide_lt;
use vstd::arithmetic::power2::{lemma2_to64, lemma_pow2_adds, pow2};

verus! {

/// Minimal big-endian bytes of a number: no leading zeros, empty for zero.
pub open spec fn min_be(n: nat) -> Seq<u8>
    decreases n,
{
    if n == 0 {
        Seq::<u8>::empty()
    } else {
        min_be(n / 256) + seq![(n % 256) as u8]
    }
}

/// The RLP encoding of a byte string: itself for a single small byte, a
/// one-byte length prefix up to 55 bytes, a length-of-length form beyond.
pub open spec fn rlp_str(payload: Seq<u8>) -> Seq<u8> {
    if payload.len() == 1 && payload[0] < 0x80 {
        payload
    } else if payload.len() <= 55 {
        seq![(0x80 + payload.len()) as u8] + payload
    } else {
        seq![(0xb7 + min_be(payload.len() as nat).len()) as u8] + min_be(payload.len() as nat)
            + payload
    }
}

/// The RLP encoding of an unsigned integer: its minimal big-endian bytes,
/// framed as a string (so zero encodes as the empty string marker `0x80`).
pub open spec fn rlp_uint(n: nat) -> Seq<u8> {
    rlp_str(min_be(n))
}

/// The RLP list framing around a payload of already-encoded items.
pub open spec fn rlp_list(payload: Seq<u8>) -> Seq<u8> {
    if payload.len() <= 55 {
        seq![(0xc0 + payload.len()) as u8] + payload
    } else {
        seq![(0xf7 + min_be(payload.len() as nat).len()) as u8] + min_be(payload.len() as nat)
            + payload
    }
}

/// A number below `256^k` needs at most `k` big-endian bytes.
proof fn lemma_min_be_len(n: nat, k: nat)
    requires
        n < pow2(8 * k),
    ensures
        min_be(n).len() <= k,
    decreases k,
{
    if n == 0 {
    } else {
        assert(k > 0) by {
            if k == 0 {
                assert(pow2(0) == 1) by {
                    lemma2_to64();
                }
            }
        }
        lemma_pow2_adds(8 * (k - 1) as nat, 8);
        assert(pow2(8) == 256) by {
            lemma2_to64();
        }
        lemma_multiply_divide_lt(n as int, 256, pow2(8 * (k - 1) as nat) as int);
        lemma_min_be_len(n / 256, (k - 1) as nat);
    }
}

/// Append the minimal big-endian bytes of `v`.
fn push_min_be(out: &mut Vec<u8>, v: u64)
    ensures
        final(out)@ == old(out)@ + min_be(v as nat),
    decreases v,
{
    if v == 0 {
        proof {
            assert(old(out)@ + min_be(0) =~= old(out)@);
        }
    } else {
        push_min_be(out, v / 256);
        out.push((v % 256) as u8);
        proof {
            assert(old(out)@ + min_be(v as nat) =~= (old(out)@ + min_be((v / 256) as nat)) + seq![
                (v as nat % 256) as u8,
            ]);
        }
    }
}

/// The minimal big-endian bytes of a 64-bit number: at most eight of them.
pub fn u64_min_be(v: u64) -> (r: Vec<u8>)
    ensures
        r@ == min_be(v as nat),
        r@.len() <= 8,
{
    let mut r: Vec<u8> = Vec::new();
    push_min_be(&mut r, v);
    proof {
        lemma2_to64();
        lemma_min_be_len(v as nat, 8);
        assert(r@ =~= min_be(v as nat));
    }
    r
}

/// RLP-encode a byte string.
pub fn rlp_encode_bytes(payload: &[u8]) -> (r: Vec<u8>)
    ensures
        r@ == rlp_str(payload@),
{
    let n = payload.len();
    if n == 1 && payload[0] < 0x80 {
        let r = crate::bytesops::copy_range(payload, 0, 1);
        proof {
            assert(r@ =~= payload@);
        }
        r
    } else if n <= 55 {
        let mut r: Vec<u8> = Vec::new();
        r.push(0x80 + n as u8);
        let mut body = crate::bytesops::copy_range(payload, 0, n);
        let ghost bodyv = body@;
        r.append(&mut body);
        proof {
            assert(bodyv =~= payload@);
            assert(r@ =~= rlp_str(payload@));
        }
        r
    } else {
        let mut lenbytes = u64_min_be(n as u64);
        let ghost lbv = lenbytes@;
        let mut r: Vec<u8> = Vec::new();
        r.push(0xb7 + lenbytes.len() as u8);
        r.append(&mut lenbytes);
        let mut body = crate::bytesops::copy_range(payload, 0, n);
        let ghost bodyv = body@;
        r.append(&mut body);
        proof {
            assert(bodyv =~= payload@);
            assert(r@ =~= rlp_str(payload@));
        }
        r
    }
}

/// RLP-encode an unsigned 64-bit integer.
pub fn rlp_encode_u64(v: u64) -> (r: Vec<u8>)
    ensures
        r@ == rlp_uint(v as nat),
{
    let b = u64_min_be(v);
    rlp_encode_bytes(b.as_slice())
}

/// Frame an already-encoded run of items as an RLP list.
pub fn rlp_finish_list(payload: Vec<u8>) -> (r: Vec<u8>)
    ensures
        r@ == rlp_list(payload@),
{
    let n = payload.len();
    let mut body = payload;
    if n <= 55 {
        let mut r: Vec<u8> = Vec::new();
        r.push(0xc0 + n as u8);
        let ghost bodyv = body@;
        r.append(&mut body);
        proof {
            assert(r@ =~= rlp_list(bodyv));
        }
        r
    } else {
        let mut lenbytes = u64_min_be(n as u64);
        let mut r: Vec<u8> = Vec::new();
        r.push(0xf7 + lenbytes.len() as u8);
        r.append(&mut lenbytes);
        let ghost bodyv = body@;
        r.append(&mut body);
        proof {
            assert(r@ =~= rlp_list(bodyv));
        }
        r
    }
}

} // verus!
