//! Big-endian encoding of 32-bit unsigned integers.
use vstd::prelude::*;

verus! {

/// The value of four bytes read as a big-endian unsigned integer.
pub open spec fn be_u32(b: Seq<u8>) -> u32 {
    ((b[0] as u32) << 24u32) | ((b[1] as u32) << 16u32) | ((b[2] as u32) << 8u32) | (b[3] as u32)
}

/// The four bytes of `v`, most significant first.
pub open spec fn be_bytes(v: u32) -> Seq<u8> {
    seq![(v >> 24u32) as u8, (v >> 16u32) as u8, (v >> 8u32) as u8, v as u8]
}

/// `b` with the four bytes at `at` replaced by the big-endian bytes of `v`.
pub open spec fn put_u32(b: Seq<u8>, at: int, v: u32) -> Seq<u8> {
    b.subrange(0, at) + be_bytes(v) + b.subrange(at + 4, b.len() as int)
}

/// `b` with the four bytes at `at` replaced by `v`'s bytes when a value is given.
pub open spec fn put_opt(b: Seq<u8>, at: int, v: Option<u32>) -> Seq<u8> {
    match v {
        Some(v) => put_u32(b, at, v),
        None => b,
    }
}

/// Reading back the bytes of `v` gives `v`.
pub proof fn lemma_be_round_trip(v: u32)
    ensures
        be_u32(be_bytes(v)) == v,
{
    assert(((((v >> 24u32) as u8) as u32) << 24u32) | ((((v >> 16u32) as u8) as u32) << 16u32)
        | ((((v >> 8u32) as u8) as u32) << 8u32) | ((v as u8) as u32) == v) by (bit_vector);
}

/// Reads four bytes starting at `at` as a big-endian integer.
pub fn read_be_u32(b: &[u8], at: usize) -> (r: u32)
    requires
        at + 4 <= b@.len(),
    ensures
        r == be_u32(b@.subrange(at as int, at + 4)),
{
    ((b[at] as u32) << 24u32) | ((b[at + 1] as u32) << 16u32) | ((b[at + 2] as u32) << 8u32) | (
    b[at + 3] as u32)
}

/// The big-endian bytes of `v`.
pub fn to_be_bytes(v: u32) -> (r: [u8; 4])
    ensures
        r@ == be_bytes(v),
{
    let r = [(v >> 24u32) as u8, (v >> 16u32) as u8, (v >> 8u32) as u8, v as u8];
    assert(r@ =~= be_bytes(v));
    r
}

/// Overwrites the four bytes at `at` with the big-endian bytes of `v`.
pub fn write_be_u32(buf: &mut Vec<u8>, at: usize, v: u32)
    requires
        at + 4 <= old(buf)@.len(),
    ensures
        final(buf)@ == put_u32(old(buf)@, at as int, v),
{
    let b = to_be_bytes(v);
    let len: usize = buf.len();
    assert(at + 3 < len);
    buf[at] = b[0];
    buf[at + 1] = b[1];
    buf[at + 2] = b[2];
    buf[at + 3] = b[3];
    assert(buf@ =~= put_u32(old(buf)@, at as int, v));
}

} // verus!
