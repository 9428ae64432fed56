//! Small byte-sequence utilities shared by the key and transaction codecs.

use vstd::prelude::*;

verus! {

/// Copy `bytes[from..to]` into a fresh vector.
pub fn copy_range(bytes: &[u8], from: usize, to: usize) -> (r: Vec<u8>)
    requires
        from <= to <= bytes@.len(),
    ensures
        r@ == bytes@.subrange(from as int, to as int),
{
    let mut r: Vec<u8> = Vec::new();
    let mut i: usize = from;
    proof {
        assert(r@ =~= bytes@.subrange(from as int, from as int));
    }
    while i < to
        invariant
            from <= i <= to <= bytes@.len(),
            r@ == bytes@.subrange(from as int, i as int),
        decreases to - i,
    {
        r.push(bytes[i]);
        proof {
            assert(r@ =~= bytes@.subrange(from as int, i as int + 1));
        }
        i = i + 1;
    }
    r
}

/// Byte-for-byte equality of two slices.
pub fn bytes_eq(a: &[u8], b: &[u8]) -> (r: bool)
    ensures
        r == (a@ == b@),
{
    let n = a.len();
    if n != b.len() {
        proof {
            assert(a@ != b@);
        }
        return false;
    }
    let mut i: usize = 0;
    while i < n
        invariant
            i <= n == a@.len() == b@.len(),
            forall|q: int| 0 <= q < i ==> a@[q] == b@[q],
        decreases n - i,
    {
        if a[i] != b[i] {
            proof {
                assert(a@[i as int] != b@[i as int]);
            }
            return false;
        }
        i = i + 1;
    }
    proof {
        assert(a@ =~= b@);
    }
    true
}

/// The sequence with leading zero bytes removed.
pub open spec fn trim_zeros(s: Seq<u8>) -> Seq<u8>
    decreases s.len(),
{
    if s.len() == 0 {
        s
    } else if s[0] == 0 {
        trim_zeros(s.subrange(1, s.len() as int))
    } else {
        s
    }
}

/// Drop leading zero bytes, as the minimal big-endian integer encoding asks.
pub fn strip_leading_zeros(bytes: &[u8]) -> (r: Vec<u8>)
    ensures
        r@ == trim_zeros(bytes@),
{
    let n = bytes.len();
    let mut i: usize = 0;
    proof {
        assert(bytes@.subrange(0, n as int) =~= bytes@);
    }
    while i < n && bytes[i] == 0
        invariant
            i <= n == bytes@.len(),
            trim_zeros(bytes@) == trim_zeros(bytes@.subrange(i as int, n as int)),
        decreases n - i,
    {
        proof {
            let cur = bytes@.subrange(i as int, n as int);
            assert(cur.subrange(1, cur.len() as int) =~= bytes@.subrange(i as int + 1, n as int));
        }
        i = i + 1;
    }
    let r = copy_range(bytes, i, n);
    proof {
        let cur = bytes@.subrange(i as int, n as int);
        if i < n {
            assert(cur[0] != 0);
        }
        assert(trim_zeros(cur) == cur);
    }
    r
}

} // verus!
