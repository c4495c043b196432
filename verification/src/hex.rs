//! Lowercase hex encoding of byte strings, in plain and byte-reversed order.
//!
//! Transaction hashes are conventionally displayed with their bytes reversed;
//! signature scripts are displayed in byte order.

use vstd::prelude::*;

verus! {

/// ASCII code of the lowercase hex digit for a nibble value.
pub open spec fn hex_digit(n: u8) -> u8 {
    if n < 10 {
        (48 + n) as u8
    } else {
        (87 + n) as u8
    }
}

/// The two lowercase hex digits of one byte, high nibble first.
pub open spec fn hex_pair(b: u8) -> Seq<u8> {
    seq![hex_digit(b / 16), hex_digit(b % 16)]
}

/// Lowercase hex encoding of a byte string, in byte order.
pub open spec fn hex_of(s: Seq<u8>) -> Seq<u8>
    decreases s.len(),
{
    if s.len() == 0 {
        Seq::empty()
    } else {
        hex_of(s.drop_last()) + hex_pair(s.last())
    }
}

/// Lowercase hex encoding of a byte string with the byte order reversed:
/// the conventional display form of a transaction hash.
pub open spec fn hex_swapped_of(s: Seq<u8>) -> Seq<u8>
    decreases s.len(),
{
    if s.len() == 0 {
        Seq::empty()
    } else {
        hex_pair(s.last()) + hex_swapped_of(s.drop_last())
    }
}

pub proof fn lemma_hex_of_len(s: Seq<u8>)
    ensures
        hex_of(s).len() == 2 * s.len(),
    decreases s.len(),
{
    if s.len() > 0 {
        lemma_hex_of_len(s.drop_last());
    }
}

/// Prepending a byte to the input appends its hex pair to the reversed encoding.
proof fn lemma_hex_swapped_of_prepend(x: u8, s: Seq<u8>)
    ensures
        hex_swapped_of(seq![x] + s) == hex_swapped_of(s) + hex_pair(x),
    decreases s.len(),
{
    let t = seq![x] + s;
    if s.len() == 0 {
        assert(t.drop_last() =~= Seq::<u8>::empty());
        assert(t.last() == x);
        assert(hex_swapped_of(Seq::<u8>::empty()) == Seq::<u8>::empty());
        assert(hex_swapped_of(t) =~= hex_swapped_of(s) + hex_pair(x));
    } else {
        assert(t.last() == s.last());
        assert(t.drop_last() =~= seq![x] + s.drop_last());
        lemma_hex_swapped_of_prepend(x, s.drop_last());
        assert(hex_swapped_of(t) =~= hex_swapped_of(s) + hex_pair(x));
    }
}

/// The hex digit of a nibble, as executable code.
fn hex_digit_x(n: u8) -> (r: u8)
    requires
        n < 16,
    ensures
        r == hex_digit(n),
{
    if n < 10 {
        48 + n
    } else {
        87 + n
    }
}

/// Lowercase hex encoding of a byte string, in byte order.
pub fn to_hex(bytes: &Vec<u8>) -> (r: Vec<u8>)
    ensures
        r@ == hex_of(bytes@),
{
    let mut r: Vec<u8> = Vec::new();
    let n = bytes.len();
    for i in 0..n
        invariant
            n == bytes.len(),
            r@ == hex_of(bytes@.subrange(0, i as int)),
    {
        let b = bytes[i];
        r.push(hex_digit_x(b / 16));
        r.push(hex_digit_x(b % 16));
        proof {
            let pre = bytes@.subrange(0, i as int);
            let cur = bytes@.subrange(0, i + 1);
            assert(cur.drop_last() =~= pre);
            assert(cur.last() == b);
            assert(r@ =~= hex_of(pre) + hex_pair(b));
        }
    }
    proof {
        assert(bytes@.subrange(0, bytes@.len() as int) =~= bytes@);
    }
    r
}

/// Lowercase hex encoding of a byte string with the byte order reversed.
pub fn to_hex_swapped(bytes: &Vec<u8>) -> (r: Vec<u8>)
    ensures
        r@ == hex_swapped_of(bytes@),
{
    let mut r: Vec<u8> = Vec::new();
    let n = bytes.len();
    for i in 0..n
        invariant
            n == bytes.len(),
            r@ == hex_swapped_of(bytes@.subrange(n - i, n as int)),
    {
        let b = bytes[n - 1 - i];
        r.push(hex_digit_x(b / 16));
        r.push(hex_digit_x(b % 16));
        proof {
            let suf = bytes@.subrange(n - i, n as int);
            let ext = bytes@.subrange(n - i - 1, n as int);
            assert(ext =~= seq![b] + suf);
            lemma_hex_swapped_of_prepend(b, suf);
            assert(r@ =~= hex_swapped_of(suf) + hex_pair(b));
        }
    }
    proof {
        assert(bytes@.subrange(0, bytes@.len() as int) =~= bytes@);
    }
    r
}

/// A copy of a byte string with the same contents.
pub fn clone_bytes(v: &Vec<u8>) -> (r: Vec<u8>)
    ensures
        r@ == v@,
{
    let mut r: Vec<u8> = Vec::new();
    let n = v.len();
    for i in 0..n
        invariant
            n == v.len(),
            r@ == v@.subrange(0, i as int),
    {
        r.push(v[i]);
        proof {
            assert(r@ =~= v@.subrange(0, i + 1));
        }
    }
    proof {
        assert(v@.subrange(0, v@.len() as int) =~= v@);
    }
    r
}

/// Byte-string equality, decided element by element.
pub fn bytes_eq(a: &Vec<u8>, b: &Vec<u8>) -> (r: bool)
    ensures
        r <==> a@ == b@,
{
    if a.len() != b.len() {
        proof {
            assert(a@.len() != b@.len());
        }
        return false;
    }
    let n = a.len();
    for i in 0..n
        invariant
            n == a.len() && n == b.len(),
            forall|j: int| 0 <= j < i ==> a@[j] == b@[j],
    {
        if a[i] != b[i] {
            return false;
        }
    }
    proof {
        assert(a@ =~= b@);
    }
    true
}

} // verus!
