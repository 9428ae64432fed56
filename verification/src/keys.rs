//! Public-key normalization: SEC1 decompression of 33-byte compressed
//! secp256k1 keys to the uncompressed 65-byte form, and the reverse
//! compression, both with exact contracts over the curve equation
//! `y^2 = x^3 + 7 (mod p)`.

use vstd::prelude::*;
use vstd::arithmetic::div_mod::{
    lemma_add_mod_noop, lemma_mod_bound, lemma_mod_multiples_vanish, lemma_mul_mod_noop_left,
    lemma_small_mod,
};
use vstd::arithmetic::power::pow;
use crate::bytesops::copy_range;
use crate::errors::EvmError;
use crate::u256::{add_mod, be_val, mul_mod, pow_mod, U256};

verus! {

/// The secp256k1 field prime `p = 2^256 - 2^32 - 977`.
pub open spec fn secp_p() -> nat {
    0xFFFFFFFF_FFFFFFFF_FFFFFFFF_FFFFFFFF_FFFFFFFF_FFFFFFFF_FFFFFFFE_FFFFFC2Fnat
}

/// The square-root exponent `(p + 1) / 4`; valid because `p == 3 (mod 4)`.
pub open spec fn sqrt_exp() -> nat {
    0x3FFFFFFF_FFFFFFFF_FFFFFFFF_FFFFFFFF_FFFFFFFF_FFFFFFFF_FFFFFFFF_BFFFFF0Cnat
}

/// The exponent really is `(p + 1) / 4`, and `p == 3 (mod 4)`.
pub proof fn lemma_sqrt_exp_form()
    ensures
        sqrt_exp() == (secp_p() + 1) / 4,
        secp_p() % 4 == 3,
{
}

/// The right-hand side of the curve equation, `x^3 + 7 (mod p)`.
pub open spec fn curve_rhs(x: nat) -> nat {
    ((x * x * x + 7) as int % (secp_p() as int)) as nat
}

/// The square-root candidate `(x^3 + 7)^((p+1)/4) mod p`.
pub open spec fn sqrt_candidate(x: nat) -> nat {
    (pow(curve_rhs(x) as int, sqrt_exp()) % (secp_p() as int)) as nat
}

/// The y-coordinate recovered from `x` and the requested parity: the
/// candidate root, parity-corrected to `p - c` when needed; `None` when the
/// candidate does not square back to `x^3 + 7` (no curve point has this x),
/// or when the correction is impossible (`c == 0`).
pub open spec fn decompressed_y(x: nat, odd: bool) -> Option<nat> {
    let c = sqrt_candidate(x);
    if (c * c) % secp_p() != curve_rhs(x) {
        Option::None
    } else if ((c % 2) == 1) == odd {
        Option::Some(c)
    } else if c == 0 {
        Option::None
    } else {
        Option::Some((secp_p() - c) as nat)
    }
}

/// A well-formed compressed key: 33 bytes, a parity prefix of `0x02` or
/// `0x03`, an x-coordinate below the field prime, and a y that exists.
pub open spec fn compressed_key_ok(k: Seq<u8>) -> bool {
    &&& k.len() == 33
    &&& (k[0] == 2 || k[0] == 3)
    &&& be_val(k.subrange(1, 33)) < secp_p()
    &&& decompressed_y(be_val(k.subrange(1, 33)), k[0] == 3) is Some
}

/// The uncompressed form that decompression of `k` must produce:
/// `0x04`, the x bytes unchanged, then the recovered y big-endian.
pub open spec fn is_decompressed_form(k: Seq<u8>, out: Seq<u8>) -> bool {
    &&& out.len() == 65
    &&& out[0] == 4
    &&& out.subrange(1, 33) == k.subrange(1, 33)
    &&& be_val(out.subrange(33, 65)) == decompressed_y(
        be_val(k.subrange(1, 33)),
        k[0] == 3,
    )->Some_0
}

/// Whatever `decompressed_y` returns lies below `p`, squares to
/// `x^3 + 7 (mod p)`, and has the requested parity.
pub proof fn lemma_decompressed_y_props(x: nat, odd: bool)
    requires
        decompressed_y(x, odd) is Some,
    ensures
        decompressed_y(x, odd)->Some_0 < secp_p(),
        (decompressed_y(x, odd)->Some_0 * decompressed_y(x, odd)->Some_0) % secp_p() == curve_rhs(
            x,
        ),
        (decompressed_y(x, odd)->Some_0 % 2 == 1) == odd,
{
    let p = secp_p() as int;
    let c = sqrt_candidate(x);
    lemma_mod_bound(pow(curve_rhs(x) as int, sqrt_exp()), p);
    lemma_mod_bound((c * c) as int, p);
    assert(c < secp_p());
    lemma_mod_bound(c as int, 2);
    if ((c % 2) == 1) == odd {
    } else {
        let d = (secp_p() - c) as nat;
        // The corrected root still squares to the same value:
        // (p - c)^2 == p * (p - 2c) + c^2.
        assert(d * d == p * (p - 2 * c) + c * c) by (nonlinear_arith)
            requires
                d == p - c,
        ;
        lemma_mod_multiples_vanish(p - 2 * c, (c * c) as int, p);
        // And its parity is the opposite of the candidate's, since p is odd.
        lemma_add_mod_noop(d as int, c as int, 2);
        lemma_mod_bound(d as int, 2);
        assert(d % 2 != c % 2);
    }
}

/// The field prime as limbs.
fn secp_p_u256() -> (r: U256)
    ensures
        r.val() == secp_p(),
{
    U256 {
        w0: 0xFFFFFFFE_FFFFFC2F,
        w1: 0xFFFFFFFF_FFFFFFFF,
        w2: 0xFFFFFFFF_FFFFFFFF,
        w3: 0xFFFFFFFF_FFFFFFFF,
    }
}

/// The square-root exponent as limbs.
fn sqrt_exp_u256() -> (r: U256)
    ensures
        r.val() == sqrt_exp(),
{
    U256 {
        w0: 0xFFFFFFFF_BFFFFF0C,
        w1: 0xFFFFFFFF_FFFFFFFF,
        w2: 0xFFFFFFFF_FFFFFFFF,
        w3: 0x3FFFFFFF_FFFFFFFF,
    }
}

/// Decompress a SEC1 compressed public key (33 bytes) to the uncompressed
/// form (65 bytes) by curve-point square-root recovery: compute
/// `y^2 = x^3 + 7 (mod p)`, take `y = (y^2)^((p+1)/4) mod p`, and flip to
/// `p - y` when the parity disagrees with the prefix.
pub fn decompress_public_key(compressed: &[u8]) -> (r: Result<Vec<u8>, EvmError>)
    ensures
        r is Ok <==> compressed_key_ok(compressed@),
        (r matches Ok(out) ==> is_decompressed_form(compressed@, out@)),
        r == Err::<Vec<u8>, EvmError>(EvmError::InvalidKeyLength) <==> compressed@.len() != 33,
        r == Err::<Vec<u8>, EvmError>(EvmError::KeyParseError) <==> (compressed@.len() == 33
            && !compressed_key_ok(compressed@)),
{
    if compressed.len() != 33 {
        return Err(EvmError::InvalidKeyLength);
    }
    let prefix = compressed[0];
    if prefix != 2 && prefix != 3 {
        return Err(EvmError::KeyParseError);
    }
    let p = secp_p_u256();
    let x = U256::from_be_bytes(copy_range(compressed, 1, 33).as_slice());
    if !x.lt(&p) {
        return Err(EvmError::KeyParseError);
    }
    let ghost xv = x.val();
    // y^2 = x^3 + 7 (mod p)
    let x2 = mul_mod(x, x, p);
    let x3 = mul_mod(x2, x, p);
    let seven = U256::from_u64(7);
    let y2 = add_mod(x3, seven, p);
    proof {
        let pi = secp_p() as int;
        lemma_mul_mod_noop_left((xv * xv) as int, xv as int, pi);
        lemma_small_mod(7nat, secp_p());
        lemma_add_mod_noop((xv * xv * xv) as int, 7, pi);
        assert(y2.val() == curve_rhs(xv));
    }
    // Candidate square root, valid exactly because p == 3 (mod 4).
    let e = sqrt_exp_u256();
    let y = pow_mod(y2, e, p);
    let check = mul_mod(y, y, p);
    if !check.equals(&y2) {
        return Err(EvmError::KeyParseError);
    }
    let want_odd = prefix == 3;
    let y_final = if y.is_odd() == want_odd {
        y
    } else {
        if y.equals(&U256::zero()) {
            return Err(EvmError::KeyParseError);
        }
        let (flipped, _borrow) = p.overflowing_sub(&y);
        flipped
    };
    proof {
        assert(decompressed_y(xv, compressed@[0] == 3) matches Some(v) && v == y_final.val());
    }
    let mut out: Vec<u8> = Vec::new();
    out.push(4);
    let mut xb = copy_range(compressed, 1, 33);
    let ghost xbv = xb@;
    out.append(&mut xb);
    let mut yb = y_final.to_be_bytes();
    let ghost ybv = yb@;
    out.append(&mut yb);
    proof {
        assert(out@.subrange(1, 33) =~= compressed@.subrange(1, 33));
        assert(out@.subrange(33, 65) =~= ybv);
    }
    Ok(out)
}

/// What normalization accepts: an already-uncompressed 65-byte key, or a
/// well-formed compressed one.
pub open spec fn normalizable_key(k: Seq<u8>) -> bool {
    k.len() == 65 || compressed_key_ok(k)
}

/// The 65-byte form that normalization must return.
pub open spec fn is_normalized_form(k: Seq<u8>, out: Seq<u8>) -> bool {
    if k.len() == 65 {
        out == k
    } else {
        is_decompressed_form(k, out)
    }
}

/// Normalize a SEC1 public key: a 65-byte key passes through unchanged, a
/// 33-byte key is decompressed, any other length is rejected.
pub fn normalize_public_key(key: &[u8]) -> (r: Result<Vec<u8>, EvmError>)
    ensures
        r is Ok <==> normalizable_key(key@),
        (r matches Ok(out) ==> is_normalized_form(key@, out@) && out@.len() == 65),
        r == Err::<Vec<u8>, EvmError>(EvmError::InvalidKeyLength) <==> (key@.len() != 65
            && key@.len() != 33),
        r == Err::<Vec<u8>, EvmError>(EvmError::KeyParseError) <==> (key@.len() == 33
            && !compressed_key_ok(key@)),
{
    let n = key.len();
    if n == 65 {
        let out = copy_range(key, 0, 65);
        proof {
            assert(out@ =~= key@);
        }
        Ok(out)
    } else if n == 33 {
        decompress_public_key(key)
    } else {
        Err(EvmError::InvalidKeyLength)
    }
}

/// The compressed rendering of an uncompressed key: the parity of y as the
/// prefix (`0x03` for odd), then the x bytes.
pub open spec fn compressed_form(k: Seq<u8>) -> Seq<u8> {
    seq![
        if be_val(k.subrange(33, 65)) % 2 == 1 {
            3u8
        } else {
            2u8
        },
    ] + k.subrange(1, 33)
}

/// A big-endian number is odd exactly when its last byte is: all higher
/// bytes contribute multiples of 256.
pub proof fn lemma_be_val_parity(s: Seq<u8>)
    requires
        s.len() > 0,
    ensures
        be_val(s) % 2 == s.last() % 2,
{
    let a = be_val(s.drop_last());
    let b = s.last() as int;
    assert(2 * ((a * 128) as int) == (a * 256) as int) by (nonlinear_arith);
    lemma_mod_multiples_vanish((a * 128) as int, b, 2);
}

/// Compress an uncompressed 65-byte public key to the 33-byte SEC1 form.
pub fn compress_public_key(key: &[u8]) -> (r: Result<Vec<u8>, EvmError>)
    ensures
        r is Ok <==> key@.len() == 65,
        (r matches Ok(out) ==> out@ == compressed_form(key@)),
        r == Err::<Vec<u8>, EvmError>(EvmError::InvalidKeyLength) <==> key@.len() != 65,
{
    if key.len() != 65 {
        return Err(EvmError::InvalidKeyLength);
    }
    let prefix: u8 = 2 + key[64] % 2;
    let mut out: Vec<u8> = Vec::new();
    out.push(prefix);
    let mut xb = copy_range(key, 1, 33);
    out.append(&mut xb);
    proof {
        lemma_be_val_parity(key@.subrange(33, 65));
        assert(key@.subrange(33, 65).last() == key@[64]);
        assert(out@ =~= compressed_form(key@));
    }
    Ok(out)
}

/// A fixed-length big-endian rendering is injective: equal values mean
/// equal bytes.
pub proof fn lemma_be_val_injective(s1: Seq<u8>, s2: Seq<u8>)
    requires
        s1.len() == s2.len(),
        be_val(s1) == be_val(s2),
    ensures
        s1 == s2,
    decreases s1.len(),
{
    if s1.len() == 0 {
        assert(s1 =~= s2);
    } else {
        let a1 = be_val(s1.drop_last()) as int;
        let l1 = s1.last() as int;
        let a2 = be_val(s2.drop_last()) as int;
        let l2 = s2.last() as int;
        vstd::arithmetic::div_mod::lemma_fundamental_div_mod_converse(
            be_val(s1) as int,
            256,
            a1,
            l1,
        );
        vstd::arithmetic::div_mod::lemma_fundamental_div_mod_converse(
            be_val(s2) as int,
            256,
            a2,
            l2,
        );
        lemma_be_val_injective(s1.drop_last(), s2.drop_last());
        assert forall|i: int| 0 <= i < s1.len() implies s1[i] == s2[i] by {
            if i < s1.len() - 1 {
                assert(s1[i] == s1.drop_last()[i]);
                assert(s2[i] == s2.drop_last()[i]);
            } else {
                assert(s1[i] == s1.last());
                assert(s2[i] == s2.last());
            }
        }
        assert(s1 =~= s2);
    }
}

/// Decompression is deterministic: the decompressed form of a key is unique,
/// so the same compressed key always yields the same uncompressed bytes (and
/// hence, further on, the same derived address).
pub proof fn lemma_decompression_deterministic(k: Seq<u8>, out1: Seq<u8>, out2: Seq<u8>)
    requires
        is_decompressed_form(k, out1),
        is_decompressed_form(k, out2),
    ensures
        out1 == out2,
{
    lemma_be_val_injective(out1.subrange(33, 65), out2.subrange(33, 65));
    assert forall|i: int| 0 <= i < 65 implies out1[i] == out2[i] by {
        if 1 <= i < 33 {
            assert(out1[i] == out1.subrange(1, 33)[i - 1]);
            assert(out2[i] == out2.subrange(1, 33)[i - 1]);
        } else if 33 <= i < 65 {
            assert(out1[i] == out1.subrange(33, 65)[i - 33]);
            assert(out2[i] == out2.subrange(33, 65)[i - 33]);
        }
    }
    assert(out1 =~= out2);
}

/// Compression then decompression keeps the x-coordinate bytes unchanged,
/// and any y it recovers is a curve point below `p` with the original y's
/// parity. (That the recovered y equals the original byte-for-byte would in
/// addition need the primality of `p`, which is beyond this development;
/// the tests check equality on concrete curve points.)
pub proof fn lemma_compress_roundtrip(k: Seq<u8>)
    requires
        k.len() == 65,
        k[0] == 4,
        be_val(k.subrange(1, 33)) < secp_p(),
    ensures
        compressed_form(k).len() == 33,
        compressed_form(k).subrange(1, 33) == k.subrange(1, 33),
        compressed_key_ok(compressed_form(k)) ==> (decompressed_y(
            be_val(k.subrange(1, 33)),
            be_val(k.subrange(33, 65)) % 2 == 1,
        ) matches Some(y) && y < secp_p() && (y * y) % secp_p() == curve_rhs(
            be_val(k.subrange(1, 33)),
        ) && y % 2 == be_val(k.subrange(33, 65)) % 2),
{
    let ck = compressed_form(k);
    assert(ck.subrange(1, 33) =~= k.subrange(1, 33));
    if compressed_key_ok(ck) {
        let odd = be_val(k.subrange(33, 65)) % 2 == 1;
        assert((ck[0] == 3) == odd);
        lemma_decompressed_y_props(be_val(k.subrange(1, 33)), odd);
        lemma_mod_bound(be_val(k.subrange(33, 65)) as int, 2);
    }
}

} // verus!
