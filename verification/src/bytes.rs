//! Byte-string helpers shared by the identifier and topic types.

use vstd::prelude::*;

verus! {

/// Compare two byte strings for equality of their contents.
pub fn bytes_eq(a: &Vec<u8>, b: &Vec<u8>) -> (r: bool)
    ensures
        r == (a@ == b@),
{
    if a.len() != b.len() {
        assert(a@ != b@) by {
            assert(a@.len() != b@.len());
        }
        return false;
    }
    let mut i: usize = 0;
    while i < a.len()
        invariant
            i <= a.len(),
            a@.len() == b@.len(),
            forall|j: int| 0 <= j < i ==> a@[j] == b@[j],
        decreases a.len() - i,
    {
        if a[i] != b[i] {
            return false;
        }
        i += 1;
    }
    assert(a@ =~= b@);
    true
}

/// Copy a byte string.
pub fn bytes_dup(a: &Vec<u8>) -> (r: Vec<u8>)
    ensures
        r@ == a@,
{
    let mut r: Vec<u8> = Vec::new();
    let mut i: usize = 0;
    while i < a.len()
        invariant
            i <= a.len(),
            r@ == a@.subrange(0, i as int),
        decreases a.len() - i,
    {
        r.push(a[i]);
        i += 1;
        assert(r@ =~= a@.subrange(0, i as int));
    }
    assert(r@ =~= a@);
    r
}

/// How many leading bytes of `b` carry a sequence number: eight, or all
/// of them when fewer.
pub open spec fn be_prefix_len(b: Seq<u8>) -> int {
    if b.len() < 8 {
        b.len() as int
    } else {
        8
    }
}

/// The big-endian value of the first `k` bytes of `b`.
pub open spec fn be_prefix_value(b: Seq<u8>, k: int) -> u64
    decreases k,
{
    if k <= 0 {
        0u64
    } else {
        (be_prefix_value(b, k - 1) << 8) | (b[k - 1] as u64)
    }
}

/// Read a big-endian sequence number off the first eight bytes of a wire
/// field (all of them when shorter).
pub fn be_prefix_u64(b: &Vec<u8>) -> (r: u64)
    ensures
        r == be_prefix_value(b@, be_prefix_len(b@)),
{
    let n: usize = if b.len() < 8 {
        b.len()
    } else {
        8
    };
    let mut r: u64 = 0;
    let mut i: usize = 0;
    while i < n
        invariant
            i <= n,
            n == be_prefix_len(b@),
            n <= b.len(),
            r == be_prefix_value(b@, i as int),
        decreases n - i,
    {
        r = (r << 8) | (b[i] as u64);
        i += 1;
    }
    r
}

} // verus!
