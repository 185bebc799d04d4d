//! Big-endian integers on the wire.

use byteorder::{BigEndian, ByteOrder};
use vstd::prelude::*;

verus! {

/// The 16-bit value whose big-endian encoding is the first two bytes of `b`.
pub open spec fn be16(b: Seq<u8>) -> int
    recommends
        b.len() >= 2,
{
    b[0] as int * 256 + b[1] as int
}

/// The 32-bit value whose big-endian encoding is the first four bytes of `b`.
pub open spec fn be32(b: Seq<u8>) -> int
    recommends
        b.len() >= 4,
{
    b[0] as int * 16777216 + b[1] as int * 65536 + b[2] as int * 256 + b[3] as int
}

/// The big-endian encoding of `n` in two bytes.
pub open spec fn u16_be(n: u16) -> Seq<u8> {
    seq![(n / 256) as u8, (n % 256) as u8]
}

/// The big-endian encoding of `n` in four bytes.
pub open spec fn u32_be(n: u32) -> Seq<u8> {
    seq![
        (n / 16777216) as u8,
        ((n / 65536) % 256) as u8,
        ((n / 256) % 256) as u8,
        (n % 256) as u8,
    ]
}

/// A 32-bit value is the sum of its four bytes, each at its weight.
proof fn lemma_split32(n: u32)
    by (bit_vector)
    ensures
        n / 16777216 < 256,
        (n / 16777216) * 16777216 + ((n / 65536) % 256) * 65536 + ((n / 256) % 256) * 256 + n % 256
            == n,
{
}

/// Each of four bytes is read back from the value they add up to.
proof fn lemma_join32(b0: u8, b1: u8, b2: u8, b3: u8, v: u32)
    by (bit_vector)
    requires
        v == (b0 as u32) * 16777216 + (b1 as u32) * 65536 + (b2 as u32) * 256 + (b3 as u32),
    ensures
        v / 16777216 == b0 as u32,
        (v / 65536) % 256 == b1 as u32,
        (v / 256) % 256 == b2 as u32,
        v % 256 == b3 as u32,
{
}

/// A 16-bit value is the sum of its two bytes, each at its weight.
proof fn lemma_split16(n: u16)
    by (bit_vector)
    ensures
        n / 256 < 256,
        (n / 256) * 256 + n % 256 == n,
{
}

/// Each of two bytes is read back from the value they add up to.
proof fn lemma_join16(b0: u8, b1: u8, v: u16)
    by (bit_vector)
    requires
        v == (b0 as u16) * 256 + (b1 as u16),
    ensures
        v / 256 == b0 as u16,
        v % 256 == b1 as u16,
{
}

/// Decoding undoes encoding, and four bytes are the encoding of their value.
pub proof fn lemma_be32_round_trip(n: u32, b: Seq<u8>)
    requires
        b.len() == 4,
    ensures
        be32(u32_be(n)) == n,
        0 <= be32(b) <= u32::MAX,
        u32_be(be32(b) as u32) == b,
{
    lemma_split32(n);
    let v = be32(b) as u32;
    lemma_join32(b[0], b[1], b[2], b[3], v);
    assert(u32_be(v) =~= b);
}

/// Decoding undoes encoding, and two bytes are the encoding of their value.
pub proof fn lemma_be16_round_trip(n: u16, b: Seq<u8>)
    requires
        b.len() == 2,
    ensures
        be16(u16_be(n)) == n,
        0 <= be16(b) <= u16::MAX,
        u16_be(be16(b) as u16) == b,
{
    lemma_split16(n);
    let v = be16(b) as u16;
    lemma_join16(b[0], b[1], v);
    assert(u16_be(v) =~= b);
}

/// Calls `byteorder::BigEndian::read_u16`, which decodes the first two bytes
/// of `buf` as a big-endian integer and panics on a shorter buffer.
#[verifier::external_body]
pub(crate) fn read_be16(buf: &[u8]) -> (r: u16)
    requires
        buf@.len() >= 2,
    ensures
        r as int == be16(buf@),
{
    BigEndian::read_u16(buf)
}

/// Calls `byteorder::BigEndian::read_u32`, which decodes the first four bytes
/// of `buf` as a big-endian integer and panics on a shorter buffer.
#[verifier::external_body]
pub(crate) fn read_be32(buf: &[u8]) -> (r: u32)
    requires
        buf@.len() >= 4,
    ensures
        r as int == be32(buf@),
{
    BigEndian::read_u32(buf)
}

/// Calls `byteorder::BigEndian::write_u16` on a two-byte buffer, which it
/// fills with the big-endian encoding of `n`.
#[verifier::external_body]
pub(crate) fn be16_bytes(n: u16) -> (r: [u8; 2])
    ensures
        be16(r@) == n as int,
{
    let mut buf = [0u8; 2];
    BigEndian::write_u16(&mut buf, n);
    buf
}

/// Calls `byteorder::BigEndian::write_u32` on a four-byte buffer, which it
/// fills with the big-endian encoding of `n`.
#[verifier::external_body]
pub(crate) fn be32_bytes(n: u32) -> (r: [u8; 4])
    ensures
        be32(r@) == n as int,
{
    let mut buf = [0u8; 4];
    BigEndian::write_u32(&mut buf, n);
    buf
}

/// The `N` bytes of `buf` that start at `off`, as an array.
pub(crate) fn array_at<const N: usize>(buf: &[u8], off: usize) -> (r: [u8; N])
    requires
        off + N <= buf@.len(),
    ensures
        r@ == buf@.subrange(off as int, off + N),
{
    let len = buf.len();
    let mut out = [0u8; N];
    let mut i: usize = 0;
    while i < N
        invariant
            i <= N,
            off + N <= len == buf@.len(),
            out@.len() == N,
            forall|j: int| 0 <= j < i ==> out@[j] == buf@[off + j],
        decreases N - i,
    {
        out[i] = buf[off + i];
        i += 1;
    }
    assert(out@ =~= buf@.subrange(off as int, off + N));
    out
}

/// Whether `buf` holds exactly the bytes of `want` from `off` on.
pub(crate) fn bytes_match(buf: &[u8], off: usize, want: &[u8]) -> (r: bool)
    requires
        off + want@.len() <= buf@.len(),
    ensures
        r == (buf@.subrange(off as int, off + want@.len()) == want@),
{
    let n = want.len();
    let len = buf.len();
    let mut i: usize = 0;
    while i < n
        invariant
            i <= n,
            n == want@.len(),
            off + n <= len == buf@.len(),
            forall|j: int| 0 <= j < i ==> buf@[off + j] == want@[j],
        decreases n - i,
    {
        if buf[off + i] != want[i] {
            assert(buf@.subrange(off as int, off + n)[i as int] != want@[i as int]);
            return false;
        }
        i += 1;
    }
    assert(buf@.subrange(off as int, off + n) =~= want@);
    true
}

} // verus!
