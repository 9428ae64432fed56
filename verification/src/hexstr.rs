//! Hexadecimal and decimal text: lowercase hex rendering of bytes (through
//! the `hex` crate, with an exact byte-to-digit contract), hex parsing for
//! RPC quantities, and decimal rendering of integers.

use vstd::prelude::*;
use vstd::string::{StrSliceExecFns, StringExecFns};

verus! {

/// The lowercase hex digit for a nibble.
pub open spec fn hex_digit(n: nat) -> char {
    if n == 0 {
        '0'
    } else if n == 1 {
        '1'
    } else if n == 2 {
        '2'
    } else if n == 3 {
        '3'
    } else if n == 4 {
        '4'
    } else if n == 5 {
        '5'
    } else if n == 6 {
        '6'
    } else if n == 7 {
        '7'
    } else if n == 8 {
        '8'
    } else if n == 9 {
        '9'
    } else if n == 10 {
        'a'
    } else if n == 11 {
        'b'
    } else if n == 12 {
        'c'
    } else if n == 13 {
        'd'
    } else if n == 14 {
        'e'
    } else {
        'f'
    }
}

/// Lowercase hex rendering: two digits per byte, high nibble first.
pub open spec fn hex_of(bytes: Seq<u8>) -> Seq<char>
    decreases bytes.len(),
{
    if bytes.len() == 0 {
        Seq::<char>::empty()
    } else {
        hex_of(bytes.drop_last()) + seq![
            hex_digit((bytes.last() / 16) as nat),
            hex_digit((bytes.last() % 16) as nat),
        ]
    }
}

/// Relies on `hex::encode`: lowercase hex, two digits per byte, high nibble
/// first, determined by the input bytes alone.
#[verifier::external_body]
pub(crate) fn hex_encode(data: &[u8]) -> (r: String)
    ensures
        r@ == hex_of(data@),
{
    hex::encode(data)
}

/// `0x`-prefixed lowercase hex, the textual form used for addresses,
/// transaction payloads and content hashes.
pub fn hex_0x(data: &[u8]) -> (r: String)
    ensures
        r@ == "0x"@ + hex_of(data@),
{
    let s = String::from_str("0x");
    s.concat(hex_encode(data).as_str())
}

/// A hex digit of either case.
pub open spec fn is_hex_char(c: char) -> bool {
    let u = c as int;
    (48 <= u && u <= 57) || (97 <= u && u <= 102) || (65 <= u && u <= 70)
}

/// The value of one hex digit.
pub open spec fn hex_char_val(c: char) -> nat {
    let u = c as int;
    (if 48 <= u && u <= 57 {
        u - 48
    } else if 97 <= u && u <= 102 {
        u - 87
    } else if 65 <= u && u <= 70 {
        u - 55
    } else {
        0
    }) as nat
}

/// The bytes denoted by an even run of hex digits.
pub open spec fn hex_decoded(s: Seq<char>) -> Seq<u8>
    decreases s.len(),
{
    if s.len() < 2 {
        Seq::<u8>::empty()
    } else {
        seq![(hex_char_val(s[0]) * 16 + hex_char_val(s[1])) as u8] + hex_decoded(
            s.subrange(2, s.len() as int),
        )
    }
}

/// Relies on `hex::decode`: succeeds exactly on an even number of hex
/// digits of either case, and then yields one byte per digit pair.
#[verifier::external_body]
pub(crate) fn hex_decode(s: &str) -> (r: Option<Vec<u8>>)
    ensures
        r is Some <==> (s@.len() % 2 == 0 && (forall|i: int|
            0 <= i < s@.len() ==> is_hex_char(#[trigger] s@[i]))),
        (r matches Some(v) ==> v@ == hex_decoded(s@)),
{
    hex::decode(s).ok()
}

/// Leading `0x` markers removed, repeatedly, as the nonce parser strips them.
pub open spec fn strip0x(s: Seq<char>) -> Seq<char>
    decreases s.len(),
{
    if s.len() >= 2 && s[0] == '0' && s[1] == 'x' {
        strip0x(s.subrange(2, s.len() as int))
    } else {
        s
    }
}

/// A nonempty, all-hex-digit run.
pub open spec fn hex_chars_ok(s: Seq<char>) -> bool {
    s.len() > 0 && (forall|i: int| 0 <= i < s.len() ==> is_hex_char(#[trigger] s[i]))
}

/// The number denoted by a run of hex digits.
pub open spec fn hex_num_val(s: Seq<char>) -> nat
    decreases s.len(),
{
    if s.len() == 0 {
        0
    } else {
        hex_num_val(s.drop_last()) * 16 + hex_char_val(s.last())
    }
}

/// A prefix of a digit run never denotes more than the whole run.
proof fn lemma_hex_prefix_le(s: Seq<char>, k: int)
    requires
        0 <= k <= s.len(),
    ensures
        hex_num_val(s.subrange(0, k)) <= hex_num_val(s),
    decreases s.len(),
{
    if k == s.len() {
        assert(s.subrange(0, k) =~= s);
    } else {
        let dl = s.drop_last();
        lemma_hex_prefix_le(dl, k);
        assert(dl.subrange(0, k) =~= s.subrange(0, k));
        assert(hex_num_val(dl) * 16 >= hex_num_val(dl));
    }
}

/// Parse a `0x`-prefixed (or bare) hex quantity, as RPC nonces arrive:
/// `Some` exactly when, after stripping `0x` markers, a nonempty run of hex
/// digits remains whose value fits in a `u64`.
pub fn parse_hex_u64(s: &str) -> (r: Option<u64>)
    ensures
        r is Some <==> (hex_chars_ok(strip0x(s@)) && hex_num_val(strip0x(s@)) <= u64::MAX),
        (r matches Some(v) ==> v == hex_num_val(strip0x(s@))),
{
    let n = s.unicode_len();
    let mut start: usize = 0;
    proof {
        assert(s@.subrange(0, n as int) =~= s@);
    }
    while start < n && start + 1 < n && s.get_char(start) == '0' && s.get_char(start + 1) == 'x'
        invariant
            start <= n == s@.len(),
            strip0x(s@) == strip0x(s@.subrange(start as int, n as int)),
        decreases n - start,
    {
        proof {
            let cur = s@.subrange(start as int, n as int);
            assert(cur.subrange(2, cur.len() as int) =~= s@.subrange(start as int + 2, n as int));
        }
        start = start + 2;
    }
    let ghost digits = s@.subrange(start as int, n as int);
    proof {
        assert(strip0x(digits) == digits);
    }
    if start == n {
        return None;
    }
    let mut acc: u128 = 0;
    let mut i: usize = start;
    proof {
        assert(digits.subrange(0, 0) =~= Seq::<char>::empty());
    }
    while i < n
        invariant
            start <= i <= n == s@.len(),
            digits == s@.subrange(start as int, n as int),
            strip0x(s@) == digits,
            digits.len() > 0,
            acc == hex_num_val(digits.subrange(0, i - start)),
            acc <= u64::MAX,
            forall|q: int| 0 <= q < i - start ==> is_hex_char(#[trigger] digits[q]),
        decreases n - i,
    {
        let c = s.get_char(i);
        let u = c as u32;
        let d: u32 = if 48 <= u && u <= 57 {
            u - 48
        } else if 97 <= u && u <= 102 {
            u - 87
        } else if 65 <= u && u <= 70 {
            u - 55
        } else {
            proof {
                assert(digits[i - start] == s@[i as int]);
                assert(!is_hex_char(digits[i - start]));
            }
            return None;
        };
        acc = acc * 16 + (d as u128);
        proof {
            let pre = digits.subrange(0, i - start);
            let cur = digits.subrange(0, i + 1 - start);
            assert(cur.drop_last() =~= pre);
            assert(cur.last() == s@[i as int]);
            assert(hex_char_val(cur.last()) == d);
        }
        if acc > 0xFFFF_FFFF_FFFF_FFFFu128 {
            proof {
                lemma_hex_prefix_le(digits, i + 1 - start);
            }
            return None;
        }
        i = i + 1;
    }
    proof {
        assert(digits.subrange(0, n - start) =~= digits);
    }
    Some(acc as u64)
}

/// Decimal rendering of a number, most significant digit first; for digits
/// below ten the decimal and hex digit characters coincide.
pub open spec fn dec_str(n: nat) -> Seq<char>
    decreases n,
{
    if n < 10 {
        seq![hex_digit(n)]
    } else {
        dec_str(n / 10) + seq![hex_digit(n % 10)]
    }
}

/// One decimal digit as a string literal.
fn dec_digit_str(n: u64) -> (r: &'static str)
    requires
        n < 10,
    ensures
        r@ == seq![hex_digit(n as nat)],
{
    proof {
        reveal_strlit("0");
        reveal_strlit("1");
        reveal_strlit("2");
        reveal_strlit("3");
        reveal_strlit("4");
        reveal_strlit("5");
        reveal_strlit("6");
        reveal_strlit("7");
        reveal_strlit("8");
        reveal_strlit("9");
    }
    let r: &'static str = if n == 0 {
        "0"
    } else if n == 1 {
        "1"
    } else if n == 2 {
        "2"
    } else if n == 3 {
        "3"
    } else if n == 4 {
        "4"
    } else if n == 5 {
        "5"
    } else if n == 6 {
        "6"
    } else if n == 7 {
        "7"
    } else if n == 8 {
        "8"
    } else {
        "9"
    };
    proof {
        assert(r@ =~= seq![hex_digit(n as nat)]);
    }
    r
}

/// Append the decimal rendering of `n`.
fn push_dec(s: &mut String, n: u64)
    ensures
        final(s)@ == old(s)@ + dec_str(n as nat),
    decreases n,
{
    if n >= 10 {
        push_dec(s, n / 10);
        s.append(dec_digit_str(n % 10));
        proof {
            assert(old(s)@ + dec_str(n as nat) =~= (old(s)@ + dec_str((n / 10) as nat)) + seq![
                hex_digit((n % 10) as nat),
            ]);
        }
    } else {
        s.append(dec_digit_str(n));
        proof {
            assert(old(s)@ + dec_str(n as nat) =~= old(s)@ + seq![hex_digit(n as nat)]);
        }
    }
}

/// The decimal text of a 64-bit number.
pub fn u64_to_dec(n: u64) -> (r: String)
    ensures
        r@ == dec_str(n as nat),
{
    let mut s = String::new();
    push_dec(&mut s, n);
    proof {
        assert(s@ =~= dec_str(n as nat));
    }
    s
}

} // verus!
