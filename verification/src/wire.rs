//! Byte-order helpers: network (big-endian) encodings of the multi-byte
//! header fields, and copying a range of a buffer.
use vstd::prelude::*;

verus! {

/// The big-endian bytes of a 16-bit field.
pub open spec fn be16(x: u16) -> Seq<u8> {
    seq![(x >> 8) as u8, x as u8]
}

/// The 16-bit value read from two big-endian bytes.
pub open spec fn be16_of(b0: u8, b1: u8) -> u16 {
    (((b0 as u16) << 8) | (b1 as u16)) as u16
}

/// The big-endian bytes of a 32-bit field.
pub open spec fn be32(x: u32) -> Seq<u8> {
    seq![(x >> 24) as u8, (x >> 16) as u8, (x >> 8) as u8, x as u8]
}

/// The 32-bit value read from four big-endian bytes.
pub open spec fn be32_of(b0: u8, b1: u8, b2: u8, b3: u8) -> u32 {
    (((b0 as u32) << 24) | ((b1 as u32) << 16) | ((b2 as u32) << 8) | (b3 as u32)) as u32
}

/// Reading back the big-endian bytes of a 16-bit value gives the value.
pub proof fn lemma_be16_roundtrip(x: u16)
    ensures
        be16_of((x >> 8) as u8, x as u8) == x,
{
    assert((((((x >> 8) as u8) as u16) << 8) | ((x as u8) as u16)) as u16 == x) by (bit_vector);
}

/// Reading back the big-endian bytes of a 32-bit value gives the value.
pub proof fn lemma_be32_roundtrip(x: u32)
    ensures
        be32_of((x >> 24) as u8, (x >> 16) as u8, (x >> 8) as u8, x as u8) == x,
{
    assert(((((x >> 24) as u8 as u32) << 24) | (((x >> 16) as u8 as u32) << 16) | (((x >> 8)
        as u8 as u32) << 8) | (x as u8 as u32)) as u32 == x) by (bit_vector);
}

/// Joins two big-endian bytes into a 16-bit value.
pub fn join_be16(b0: u8, b1: u8) -> (r: u16)
    ensures
        r == be16_of(b0, b1),
{
    ((b0 as u16) << 8) | (b1 as u16)
}

/// Joins four big-endian bytes into a 32-bit value.
pub fn join_be32(b0: u8, b1: u8, b2: u8, b3: u8) -> (r: u32)
    ensures
        r == be32_of(b0, b1, b2, b3),
{
    ((b0 as u32) << 24) | ((b1 as u32) << 16) | ((b2 as u32) << 8) | (b3 as u32)
}

/// Copies `n` bytes of `b` starting at `start` into a fresh vector.
pub fn copy_range(b: &Vec<u8>, start: usize, n: usize) -> (r: Vec<u8>)
    requires
        start + n <= b@.len(),
    ensures
        r@ == b@.subrange(start as int, start as int + n as int),
{
    let len: usize = b.len();
    let mut r: Vec<u8> = Vec::new();
    let mut j: usize = 0;
    while j < n
        invariant
            start + n <= len,
            len == b@.len(),
            j <= n,
            r@.len() == j,
            forall|i: int| 0 <= i < j ==> r@[i] == b@[start + i],
        decreases n - j,
    {
        r.push(b[start + j]);
        j = j + 1;
    }
    assert(r@ =~= b@.subrange(start as int, start as int + n as int));
    r
}

/// A vector of `n` zero bytes.
pub fn zero_bytes(n: usize) -> (r: Vec<u8>)
    ensures
        r@.len() == n,
        forall|i: int| 0 <= i < n ==> r@[i] == 0u8,
{
    let mut r: Vec<u8> = Vec::new();
    let mut j: usize = 0;
    while j < n
        invariant
            j <= n,
            r@.len() == j,
            forall|i: int| 0 <= i < j ==> r@[i] == 0u8,
        decreases n - j,
    {
        r.push(0u8);
        j = j + 1;
    }
    r
}

/// Copies a byte vector.
pub fn copy_bytes(b: &Vec<u8>) -> (r: Vec<u8>)
    ensures
        r@ == b@,
{
    let n: usize = b.len();
    let r: Vec<u8> = copy_range(b, 0, n);
    assert(r@ =~= b@);
    r
}

} // verus!
