//! Fixed-width 256-bit unsigned integers and the modular-arithmetic kernel
//! (`add_mod`, `mul_mod`, `pow_mod`) used for curve-point recovery.
//!
//! A value is four 64-bit limbs, least significant first. All modular results
//! lie in `[0, m)`; `mul_mod` never truncates: it reduces after every doubling
//! step, so no double-width intermediate is ever dropped.

use vstd::prelude::*;
use vstd::arithmetic::div_mod::{
    lemma_add_mod_noop, lemma_basic_div, lemma_div_basics, lemma_div_denominator,
    lemma_fundamental_div_mod,
    lemma_fundamental_div_mod_converse_mod, lemma_mod_bound, lemma_mul_mod_noop_general,
    lemma_mul_mod_noop_right, lemma_small_mod,
};
use vstd::arithmetic::power::{lemma_pow0, lemma_pow1, lemma_pow_adds, pow};
use vstd::arithmetic::power2::{lemma2_to64, lemma_pow2_adds, lemma_pow2_pos, lemma_pow2_unfold, pow2};
use vstd::bits::lemma_u64_shr_is_div;

verus! {

/// Base of one limb, `2^64`.
#[verifier::inline]
pub open spec fn b64() -> nat {
    0x1_0000_0000_0000_0000nat
}

/// `2^128`.
#[verifier::inline]
pub open spec fn b128() -> nat {
    0x1_0000_0000_0000_0000_0000_0000_0000_0000nat
}

/// `2^192`.
#[verifier::inline]
pub open spec fn b192() -> nat {
    0x1_0000_0000_0000_0000_0000_0000_0000_0000_0000_0000_0000_0000nat
}

/// `2^256`, one past the largest representable value.
#[verifier::inline]
pub open spec fn b256() -> nat {
    0x1_0000_0000_0000_0000_0000_0000_0000_0000_0000_0000_0000_0000_0000_0000_0000_0000nat
}

/// A 256-bit unsigned integer; `w0` is the least significant limb.
#[derive(Debug, Clone, Copy, PartialEq, Eq, Structural)]
pub struct U256 {
    pub w0: u64,
    pub w1: u64,
    pub w2: u64,
    pub w3: u64,
}

impl U256 {
    /// The mathematical value of the four limbs.
    pub open spec fn val(self) -> nat {
        (self.w0 + self.w1 * b64() + self.w2 * b128() + self.w3 * b192()) as nat
    }

    pub fn zero() -> (r: U256)
        ensures
            r.val() == 0,
    {
        U256 { w0: 0, w1: 0, w2: 0, w3: 0 }
    }

    pub fn one() -> (r: U256)
        ensures
            r.val() == 1,
    {
        U256 { w0: 1, w1: 0, w2: 0, w3: 0 }
    }

    pub fn from_u64(v: u64) -> (r: U256)
        ensures
            r.val() == v,
    {
        U256 { w0: v, w1: 0, w2: 0, w3: 0 }
    }

    /// Values are equal exactly when the limbs are.
    pub fn equals(&self, other: &U256) -> (r: bool)
        ensures
            r == (self.val() == other.val()),
    {
        self.w0 == other.w0 && self.w1 == other.w1 && self.w2 == other.w2 && self.w3 == other.w3
    }

    /// Strict comparison, most significant limb first.
    pub fn lt(&self, other: &U256) -> (r: bool)
        ensures
            r == (self.val() < other.val()),
    {
        if self.w3 != other.w3 {
            self.w3 < other.w3
        } else if self.w2 != other.w2 {
            self.w2 < other.w2
        } else if self.w1 != other.w1 {
            self.w1 < other.w1
        } else {
            self.w0 < other.w0
        }
    }

    /// Whether the value is even or odd is decided by the low limb alone.
    pub fn is_odd(&self) -> (r: bool)
        ensures
            r == (self.val() % 2 == 1),
    {
        proof {
            lemma_parity(*self);
        }
        self.w0 % 2 == 1
    }
}

/// The value is even exactly when the low limb is: the higher limbs
/// contribute only multiples of `2^64`.
proof fn lemma_parity(a: U256)
    ensures
        a.val() % 2 == a.w0 % 2,
{
    let rest = (a.w1 * b64() + a.w2 * b128() + a.w3 * b192()) as int;
    let h = a.w1 * 0x8000_0000_0000_0000 + a.w2 * 0x8000_0000_0000_0000_0000_0000_0000_0000int + a.w3
        * 0x8000_0000_0000_0000_0000_0000_0000_0000_0000_0000_0000_0000int;
    assert(rest == h * 2);
    lemma_fundamental_div_mod_converse_mod(rest, 2, h, 0);
    assert(a.val() == a.w0 + rest);
    lemma_add_mod_noop(a.w0 as int, rest, 2);
    lemma_small_mod((a.w0 % 2) as nat, 2);
}

/// One limb addition with carry in and out: `a + b + c == r.0 + r.1 * 2^64`.
fn limb_adc(a: u64, b: u64, c: bool) -> (r: (u64, bool))
    ensures
        a + b + (if c { 1int } else { 0int }) == r.0 + (if r.1 { 1int } else { 0int }) * b64(),
{
    let s: u128 = a as u128 + b as u128 + (if c { 1u128 } else { 0u128 });
    let lo: u128 = s % 0x1_0000_0000_0000_0000u128;
    let hi: u128 = s / 0x1_0000_0000_0000_0000u128;
    proof {
        lemma_fundamental_div_mod(s as int, b64() as int);
        lemma_mod_bound(s as int, b64() as int);
    }
    (lo as u64, hi == 1)
}

/// One limb subtraction with borrow in and out:
/// `a - b - c == r.0 - r.1 * 2^64`.
fn limb_sbb(a: u64, b: u64, c: bool) -> (r: (u64, bool))
    ensures
        a - b - (if c { 1int } else { 0int }) == r.0 - (if r.1 { 1int } else { 0int }) * b64(),
{
    let d: u128 = (a as u128 + 0x1_0000_0000_0000_0000u128) - b as u128 - (if c {
        1u128
    } else {
        0u128
    });
    let lo: u128 = d % 0x1_0000_0000_0000_0000u128;
    let hi: u128 = d / 0x1_0000_0000_0000_0000u128;
    proof {
        lemma_fundamental_div_mod(d as int, b64() as int);
        lemma_mod_bound(d as int, b64() as int);
    }
    (lo as u64, hi == 0)
}

impl U256 {
    /// Wraparound-aware addition: `a + b == r.0 + r.1 * 2^256`.
    pub fn overflowing_add(&self, other: &U256) -> (r: (U256, bool))
        ensures
            self.val() + other.val() == r.0.val() + (if r.1 { 1int } else { 0int }) * b256(),
    {
        let (s0, c0) = limb_adc(self.w0, other.w0, false);
        let (s1, c1) = limb_adc(self.w1, other.w1, c0);
        let (s2, c2) = limb_adc(self.w2, other.w2, c1);
        let (s3, c3) = limb_adc(self.w3, other.w3, c2);
        (U256 { w0: s0, w1: s1, w2: s2, w3: s3 }, c3)
    }

    /// Wraparound-safe subtraction: `a - b == r.0 - r.1 * 2^256`,
    /// and the borrow `r.1` is set exactly when `a < b`.
    pub fn overflowing_sub(&self, other: &U256) -> (r: (U256, bool))
        ensures
            self.val() - other.val() == r.0.val() - (if r.1 { 1int } else { 0int }) * b256(),
            r.1 == (self.val() < other.val()),
    {
        let (s0, c0) = limb_sbb(self.w0, other.w0, false);
        let (s1, c1) = limb_sbb(self.w1, other.w1, c0);
        let (s2, c2) = limb_sbb(self.w2, other.w2, c1);
        let (s3, c3) = limb_sbb(self.w3, other.w3, c2);
        (U256 { w0: s0, w1: s1, w2: s2, w3: s3 }, c3)
    }
}

/// Modular addition over values already reduced: the result is
/// `(a + b) % m`, correct even when the raw sum wraps past `2^256`.
pub fn add_mod(a: U256, b: U256, m: U256) -> (r: U256)
    requires
        a.val() < m.val(),
        b.val() < m.val(),
    ensures
        r.val() == (a.val() + b.val()) % m.val(),
        r.val() < m.val(),
{
    let (s, carry) = a.overflowing_add(&b);
    if carry || !s.lt(&m) {
        let (d, _borrow) = s.overflowing_sub(&m);
        proof {
            let total = a.val() + b.val();
            if carry {
                assert(total == s.val() + b256());
                assert(total - m.val() < m.val());
                assert(s.val() < m.val());
            }
            assert(d.val() == total - m.val());
            lemma_fundamental_div_mod_converse_mod(total as int, m.val() as int, 1, (total
                - m.val()) as int);
        }
        d
    } else {
        proof {
            lemma_small_mod(s.val(), m.val());
        }
        s
    }
}

/// Limb `i` of `b`, least significant first.
pub open spec fn limb(b: U256, i: int) -> u64 {
    if i == 0 {
        b.w0
    } else if i == 1 {
        b.w1
    } else if i == 2 {
        b.w2
    } else {
        b.w3
    }
}

/// The value of limbs `i` and above of `b`, read as a base-2^64 number.
pub open spec fn high_val(b: U256, i: int) -> nat
    decreases 4 - i,
{
    if i >= 4 || i < 0 {
        0
    } else {
        high_val(b, i + 1) * b64() + limb(b, i) as nat
    }
}

proof fn lemma_high_val_all(b: U256)
    ensures
        high_val(b, 0) == b.val(),
{
    assert(high_val(b, 4) == 0);
    assert(high_val(b, 3) == b.w3);
    assert(high_val(b, 2) == b.w3 * b64() + b.w2);
    assert(high_val(b, 1) == (b.w3 * b64() + b.w2) * b64() + b.w1);
    assert(high_val(b, 0) == ((b.w3 * b64() + b.w2) * b64() + b.w1) * b64() + b.w0);
}

/// Scanning one more bit: the top bits of `w` down to position `j` are twice
/// the top bits down to `j + 1`, plus bit `j` itself.
proof fn lemma_shift_bit(w: u64, j: u64)
    requires
        j < 64,
    ensures
        w as nat / pow2(j as nat) == 2 * (w as nat / pow2((j + 1) as nat)) + ((w >> j) & 1),
        ((w >> j) & 1) <= 1,
{
    lemma_u64_shr_is_div(w, j);
    let t = w >> j;
    assert(t & 1 == t % 2) by (bit_vector);
    lemma_mod_bound(t as int, 2);
    lemma_pow2_unfold((j + 1) as nat);
    lemma_pow2_pos(j as nat);
    lemma_div_denominator(w as int, pow2(j as nat) as int, 2);
    lemma_fundamental_div_mod((w as nat / pow2(j as nat)) as int, 2);
}

/// One scanned bit extends the processed prefix: with `b1 == 2 * b3` and the
/// remaining-bits relation `dd == 2 * cc + bit`, doubling and adding the bit
/// advances `p0`-based prefixes by one position.
proof fn lemma_prefix_step(prefix: nat, pre: nat, bit: nat, p0: nat, b3: nat, b1: nat, cc: nat, dd: nat)
    requires
        prefix == 2 * pre + bit,
        pre == p0 * b3 + cc,
        dd == 2 * cc + bit,
        b1 == 2 * b3,
    ensures
        prefix == p0 * b1 + dd,
{
    assert(prefix == p0 * b1 + dd) by (nonlinear_arith)
        requires
            prefix == 2 * pre + bit,
            pre == p0 * b3 + cc,
            dd == 2 * cc + bit,
            b1 == 2 * b3,
    ;
}

/// Modular multiplication without truncation: the result is
/// `(a * b) % m`, computed by 256 reduced doubling steps, so no
/// double-width product is ever cut down to 256 bits.
pub fn mul_mod(a: U256, b: U256, m: U256) -> (r: U256)
    requires
        a.val() < m.val(),
        b.val() < m.val(),
    ensures
        r.val() == (a.val() * b.val()) % m.val(),
        r.val() < m.val(),
{
    let mut acc = U256::zero();
    let ghost mut prefix: nat = 0nat;
    proof {
        lemma_small_mod(0nat, m.val());
        assert(a.val() * 0nat == 0) by (nonlinear_arith);
    }
    let mut i: usize = 4;
    while i > 0
        invariant
            a.val() < m.val(),
            b.val() < m.val(),
            i <= 4,
            acc.val() < m.val(),
            acc.val() == (a.val() * prefix) % m.val(),
            prefix == high_val(b, i as int),
        decreases i,
    {
        i = i - 1;
        let w: u64 = if i == 3 {
            b.w3
        } else if i == 2 {
            b.w2
        } else if i == 1 {
            b.w1
        } else {
            b.w0
        };
        let ghost p0: nat = prefix;
        proof {
            lemma2_to64();
            lemma_basic_div(w as int, pow2(64) as int);
            assert(pow2(0) == 1);
            assert(w as nat / pow2(64) == 0);
            assert(p0 * pow2(0) == p0) by (nonlinear_arith)
                requires
                    pow2(0) == 1,
            ;
            assert(prefix == p0 * pow2((64 - 64) as nat) + w as nat / pow2(64nat));
        }
        let mut j: usize = 64;
        while j > 0
            invariant
                a.val() < m.val(),
                j <= 64,
                acc.val() < m.val(),
                acc.val() == (a.val() * prefix) % m.val(),
                prefix == p0 * pow2((64 - j) as nat) + w as nat / pow2(j as nat),
            decreases j,
        {
            j = j - 1;
            let bit: u64 = (w >> (j as u64)) & 1;
            let ghost pre = prefix;
            let ghost acc0 = acc;
            acc = add_mod(acc, acc, m);
            let ghost acc1 = acc;
            if bit == 1 {
                acc = add_mod(acc, a, m);
            }
            proof {
                lemma_shift_bit(w, j as u64);
                assert(w as nat / pow2(j as nat) == 2 * (w as nat / pow2((j + 1) as nat))
                    + bit);
                let av = a.val() as int;
                let mv = m.val() as int;
                // Doubling the accumulator doubles the tracked product.
                assert(acc1.val() == ((acc0.val() + acc0.val()) as int) % mv);
                lemma_mul_mod_noop_right(2, (av * pre) as int, mv);
                assert(acc0.val() + acc0.val() == 2 * (((av * pre) as int) % mv));
                assert(2 * (av * pre) == av * (2 * pre)) by (nonlinear_arith);
                assert(acc1.val() == (av * (2 * pre) as int) % mv);
                if bit == 1 {
                    lemma_small_mod(a.val(), m.val());
                    lemma_add_mod_noop((av * (2 * pre)) as int, av, mv);
                    assert(av * (2 * pre) + av == av * (2 * pre + 1)) by (nonlinear_arith);
                    assert(acc.val() == (av * (2 * pre + 1) as int) % mv);
                }
                prefix = 2 * pre + bit as nat;
                assert(acc.val() == (a.val() * prefix) % m.val());
                // The scanned prefix of `w` advances by one bit.
                let t = (63 - j) as nat;
                assert(pre == p0 * pow2(t) + w as nat / pow2((j + 1) as nat));
                lemma_pow2_unfold((t + 1) as nat);
                assert(p0 * pow2(t + 1) == 2 * (p0 * pow2(t))) by (nonlinear_arith)
                    requires
                        pow2(t + 1) == 2 * pow2(t),
                ;
                assert(pow2((64 - j) as nat) == pow2(t + 1));
                lemma_prefix_step(
                    prefix,
                    pre,
                    bit as nat,
                    p0,
                    pow2(t),
                    pow2((64 - j) as nat),
                    w as nat / pow2((j + 1) as nat),
                    w as nat / pow2(j as nat),
                );
                assert(prefix == p0 * pow2((64 - j) as nat) + w as nat / pow2(j as nat));
            }
        }
        proof {
            lemma2_to64();
            lemma_div_basics(w as int);
            assert(prefix == p0 * b64() + w);
        }
    }
    proof {
        lemma_high_val_all(b);
    }
    acc
}

/// Modular exponentiation by square-and-multiply: `O(log exp)` reduced
/// multiplications, result `pow(base, exp) % m`.
pub fn pow_mod(base: U256, exp: U256, m: U256) -> (r: U256)
    requires
        base.val() < m.val(),
        m.val() >= 2,
    ensures
        r.val() == pow(base.val() as int, exp.val()) % (m.val() as int),
        r.val() < m.val(),
{
    let mut acc = U256::one();
    let ghost mut prefix: nat = 0nat;
    proof {
        lemma_pow0(base.val() as int);
        lemma_small_mod(1nat, m.val());
    }
    let mut i: usize = 4;
    while i > 0
        invariant
            base.val() < m.val(),
            m.val() >= 2,
            i <= 4,
            acc.val() < m.val(),
            acc.val() == pow(base.val() as int, prefix) % (m.val() as int),
            prefix == high_val(exp, i as int),
        decreases i,
    {
        i = i - 1;
        let w: u64 = if i == 3 {
            exp.w3
        } else if i == 2 {
            exp.w2
        } else if i == 1 {
            exp.w1
        } else {
            exp.w0
        };
        let ghost p0: nat = prefix;
        proof {
            lemma2_to64();
            lemma_basic_div(w as int, pow2(64) as int);
            assert(pow2(0) == 1);
            assert(w as nat / pow2(64) == 0);
            assert(p0 * pow2(0) == p0) by (nonlinear_arith)
                requires
                    pow2(0) == 1,
            ;
            assert(prefix == p0 * pow2((64 - 64) as nat) + w as nat / pow2(64nat));
        }
        let mut j: usize = 64;
        while j > 0
            invariant
                base.val() < m.val(),
                m.val() >= 2,
                j <= 64,
                acc.val() < m.val(),
                acc.val() == pow(base.val() as int, prefix) % (m.val() as int),
                prefix == p0 * pow2((64 - j) as nat) + w as nat / pow2(j as nat),
            decreases j,
        {
            j = j - 1;
            let bit: u64 = (w >> (j as u64)) & 1;
            let ghost pre = prefix;
            let ghost acc0 = acc;
            acc = mul_mod(acc, acc, m);
            let ghost acc1 = acc;
            if bit == 1 {
                acc = mul_mod(acc, base, m);
            }
            proof {
                lemma_shift_bit(w, j as u64);
                assert(w as nat / pow2(j as nat) == 2 * (w as nat / pow2((j + 1) as nat))
                    + bit);
                let bv = base.val() as int;
                let mv = m.val() as int;
                let p = pow(bv, pre);
                // Squaring the accumulator doubles the tracked exponent.
                assert(acc1.val() == ((acc0.val() * acc0.val()) as int) % mv);
                lemma_mul_mod_noop_general(p, p, mv);
                lemma_pow_adds(bv, pre, pre);
                assert(acc1.val() == pow(bv, 2 * pre) % mv);
                if bit == 1 {
                    lemma_small_mod(base.val(), m.val());
                    lemma_mul_mod_noop_general(pow(bv, 2 * pre), bv, mv);
                    lemma_pow_adds(bv, 2 * pre, 1);
                    lemma_pow1(bv);
                    assert(acc.val() == pow(bv, 2 * pre + 1) % mv);
                }
                prefix = 2 * pre + bit as nat;
                assert(acc.val() == pow(bv, prefix) % mv);
                // The scanned prefix of `w` advances by one bit.
                let t = (63 - j) as nat;
                assert(pre == p0 * pow2(t) + w as nat / pow2((j + 1) as nat));
                lemma_pow2_unfold((t + 1) as nat);
                assert(p0 * pow2(t + 1) == 2 * (p0 * pow2(t))) by (nonlinear_arith)
                    requires
                        pow2(t + 1) == 2 * pow2(t),
                ;
                assert(pow2((64 - j) as nat) == pow2(t + 1));
                lemma_prefix_step(
                    prefix,
                    pre,
                    bit as nat,
                    p0,
                    pow2(t),
                    pow2((64 - j) as nat),
                    w as nat / pow2((j + 1) as nat),
                    w as nat / pow2(j as nat),
                );
                assert(prefix == p0 * pow2((64 - j) as nat) + w as nat / pow2(j as nat));
            }
        }
        proof {
            lemma2_to64();
            lemma_div_basics(w as int);
            assert(prefix == p0 * b64() + w);
        }
    }
    proof {
        lemma_high_val_all(exp);
    }
    acc
}

/// The number denoted by a byte sequence read big-endian.
pub open spec fn be_val(s: Seq<u8>) -> nat
    decreases s.len(),
{
    if s.len() == 0 {
        0
    } else {
        be_val(s.drop_last()) * 256 + s.last() as nat
    }
}

/// Splitting a big-endian number at position `k`: the head is scaled by
/// `2^(8 * tail_len)` and the tail added.
pub proof fn lemma_be_val_split(s: Seq<u8>, k: int)
    requires
        0 <= k <= s.len(),
    ensures
        be_val(s) == be_val(s.subrange(0, k)) * pow2((8 * (s.len() - k)) as nat) + be_val(
            s.subrange(k, s.len() as int),
        ),
    decreases s.len(),
{
    lemma2_to64();
    if k == s.len() {
        assert(s.subrange(0, k) =~= s);
        assert(s.subrange(k, s.len() as int) =~= Seq::<u8>::empty());
        assert(be_val(s) * pow2(0) == be_val(s)) by (nonlinear_arith)
            requires
                pow2(0) == 1,
        ;
    } else {
        let dl = s.drop_last();
        lemma_be_val_split(dl, k);
        assert(dl.subrange(0, k) =~= s.subrange(0, k));
        let tail = s.subrange(k, s.len() as int);
        assert(dl.subrange(k, dl.len() as int) =~= tail.drop_last());
        assert(tail.last() == s.last());
        lemma_pow2_adds((8 * (s.len() - 1 - k)) as nat, 8);
        let a = be_val(s.subrange(0, k));
        let b = be_val(tail.drop_last());
        let c = s.last() as nat;
        let p = pow2((8 * (s.len() - 1 - k)) as nat);
        let q = pow2((8 * (s.len() - k)) as nat);
        assert(q == p * pow2(8));
        assert(p * pow2(8) == p * 256) by (nonlinear_arith)
            requires
                pow2(8) == 256,
        ;
        assert(be_val(s) == (a * p + b) * 256 + c);
        assert(be_val(tail) == b * 256 + c);
        assert((a * p + b) * 256 + c == a * (p * 256) + (b * 256 + c)) by (nonlinear_arith);
        assert(a * (p * 256) == a * q) by (nonlinear_arith)
            requires
                q == p * 256,
        ;
    }
}

/// Read 8 bytes starting at `start` as one big-endian limb.
fn read_be_limb(bytes: &[u8], start: usize) -> (w: u64)
    requires
        start + 8 <= bytes@.len(),
    ensures
        w == be_val(bytes@.subrange(start as int, start as int + 8)),
{
    let n = bytes.len();
    let mut w: u64 = 0;
    let mut k: usize = 0;
    proof {
        assert(bytes@.subrange(start as int, start as int) =~= Seq::<u8>::empty());
        lemma2_to64();
    }
    while k < 8
        invariant
            start + 8 <= n == bytes@.len(),
            k <= 8,
            w == be_val(bytes@.subrange(start as int, start as int + k)),
            w < pow2((8 * k) as nat),
        decreases 8 - k,
    {
        proof {
            lemma2_to64();
            lemma_pow2_adds((8 * k) as nat, 8);
            assert(pow2((8 * k) as nat) * pow2(8) == pow2((8 * k) as nat) * 256)
                by (nonlinear_arith)
                requires
                    pow2(8) == 256,
            ;
            let e = (8 * k) as nat;
            assert(w * 256 <= (pow2(e) - 1) * 256);
            if k < 7 {
                vstd::arithmetic::power2::lemma_pow2_strictly_increases(e + 8, 64);
            } else {
                assert(e + 8 == 64);
            }
            assert(pow2(e) * 256 <= pow2(64));
            assert(w * 256 + 255 < 0x1_0000_0000_0000_0000int);
        }
        let b = bytes[start + k];
        w = w * 256 + (b as u64);
        proof {
            let s1 = bytes@.subrange(start as int, start as int + k + 1);
            assert(s1.drop_last() =~= bytes@.subrange(start as int, start as int + k));
            assert(s1.last() == bytes@[start as int + k]);
        }
        k = k + 1;
    }
    w
}

/// Write one limb as 8 big-endian bytes.
fn limb_to_be(w: u64) -> (r: Vec<u8>)
    ensures
        r@.len() == 8,
        be_val(r@) == w,
{
    let mut r: Vec<u8> = Vec::new();
    let mut k: usize = 0;
    proof {
        lemma2_to64();
        lemma_basic_div(w as int, pow2(64) as int);
        assert(r@ =~= Seq::<u8>::empty());
    }
    while k < 8
        invariant
            k <= 8,
            r@.len() == k,
            be_val(r@) == w as nat / pow2((8 * (8 - k)) as nat),
        decreases 8 - k,
    {
        let d: u64 = if k == 0 {
            0x100_0000_0000_0000
        } else if k == 1 {
            0x1_0000_0000_0000
        } else if k == 2 {
            0x100_0000_0000
        } else if k == 3 {
            0x1_0000_0000
        } else if k == 4 {
            0x100_0000
        } else if k == 5 {
            0x1_0000
        } else if k == 6 {
            0x100
        } else {
            1
        };
        proof {
            lemma2_to64();
            vstd::arithmetic::power2::lemma2_to64_rest();
            assert(d == pow2((8 * (7 - k)) as nat));
        }
        let byte: u8 = ((w / d) % 256) as u8;
        let ghost r0 = r@;
        r.push(byte);
        proof {
            let shift = (8 * (7 - k)) as nat;
            let x = w as nat / pow2(shift);
            lemma_pow2_pos(shift);
            lemma_pow2_adds(shift, 8);
            lemma_div_denominator(w as int, pow2(shift) as int, 256);
            lemma_fundamental_div_mod(x as int, 256);
            assert(r@.drop_last() =~= r0);
            assert(be_val(r@) == be_val(r0) * 256 + byte);
            assert(x / 256 == w as nat / pow2((8 * (8 - k)) as nat));
        }
        k = k + 1;
    }
    proof {
        lemma2_to64();
        lemma_div_basics(w as int);
    }
    r
}

impl U256 {
    /// Parse a 32-byte big-endian sequence.
    pub fn from_be_bytes(bytes: &[u8]) -> (r: U256)
        requires
            bytes@.len() == 32,
        ensures
            r.val() == be_val(bytes@),
    {
        let w3 = read_be_limb(bytes, 0);
        let w2 = read_be_limb(bytes, 8);
        let w1 = read_be_limb(bytes, 16);
        let w0 = read_be_limb(bytes, 24);
        let r = U256 { w0, w1, w2, w3 };
        proof {
            lemma_be_limbs(bytes@, w0, w1, w2, w3);
        }
        r
    }

    /// Serialize as 32 big-endian bytes.
    pub fn to_be_bytes(&self) -> (r: Vec<u8>)
        ensures
            r@.len() == 32,
            be_val(r@) == self.val(),
    {
        let mut r = limb_to_be(self.w3);
        let mut p2 = limb_to_be(self.w2);
        let mut p1 = limb_to_be(self.w1);
        let mut p0 = limb_to_be(self.w0);
        let ghost b3 = r@;
        let ghost b2 = p2@;
        let ghost b1 = p1@;
        let ghost b0 = p0@;
        r.append(&mut p2);
        r.append(&mut p1);
        r.append(&mut p0);
        proof {
            assert(r@.subrange(0, 8) =~= b3);
            assert(r@.subrange(8, 16) =~= b2);
            assert(r@.subrange(16, 24) =~= b1);
            assert(r@.subrange(24, 32) =~= b0);
            lemma_be_limbs(r@, self.w0, self.w1, self.w2, self.w3);
        }
        r
    }
}

/// A 32-byte big-endian sequence whose four 8-byte groups read `w3..w0`
/// denotes exactly the four-limb value.
proof fn lemma_be_limbs(s: Seq<u8>, w0: u64, w1: u64, w2: u64, w3: u64)
    requires
        s.len() == 32,
        be_val(s.subrange(0, 8)) == w3,
        be_val(s.subrange(8, 16)) == w2,
        be_val(s.subrange(16, 24)) == w1,
        be_val(s.subrange(24, 32)) == w0,
    ensures
        be_val(s) == (U256 { w0, w1, w2, w3 }).val(),
{
    lemma_be_val_split(s, 8);
    let t8 = s.subrange(8, 32);
    lemma_be_val_split(t8, 8);
    let t16 = t8.subrange(8, 24);
    lemma_be_val_split(t16, 8);
    assert(t8.subrange(0, 8) =~= s.subrange(8, 16));
    assert(t16 =~= s.subrange(16, 32));
    assert(t16.subrange(0, 8) =~= s.subrange(16, 24));
    assert(t16.subrange(8, 16) =~= s.subrange(24, 32));
    lemma_pow2_adds(64, 64);
    lemma_pow2_adds(128, 64);
    lemma2_to64();
    assert(pow2(128) == b128());
    assert(pow2(192) == b192());
    assert(be_val(s) == w3 * pow2(192) + be_val(t8));
    assert(be_val(t8) == w2 * pow2(128) + be_val(t16));
    assert(be_val(t16) == w1 * pow2(64) + w0);
    assert(w3 * pow2(192) == w3 * b192()) by (nonlinear_arith)
        requires
            pow2(192) == b192(),
    ;
    assert(w2 * pow2(128) == w2 * b128()) by (nonlinear_arith)
        requires
            pow2(128) == b128(),
    ;
    assert(w1 * pow2(64) == w1 * b64()) by (nonlinear_arith)
        requires
            pow2(64) == b64(),
    ;
}

} // verus!
