//! Fixed-width integer byte encodings and byte-buffer helpers used by every wire format.
use vstd::prelude::*;

verus! {

/// Little-endian value of two bytes.
pub open spec fn le_u16(s: Seq<u8>) -> int {
    s[0] + s[1] * 256
}

/// Little-endian value of four bytes.
pub open spec fn le_u32(s: Seq<u8>) -> int {
    s[0] + s[1] * 256 + s[2] * 65536 + s[3] * 16777216
}

/// Little-endian value of eight bytes.
pub open spec fn le_u64(s: Seq<u8>) -> int {
    le_u32(s.subrange(0, 4)) + le_u32(s.subrange(4, 8)) * 4294967296
}

/// Big-endian value of two bytes.
pub open spec fn be_u16(s: Seq<u8>) -> int {
    s[0] * 256 + s[1]
}

/// Big-endian value of four bytes.
pub open spec fn be_u32(s: Seq<u8>) -> int {
    s[0] * 16777216 + s[1] * 65536 + s[2] * 256 + s[3]
}

/// Big-endian value of eight bytes.
pub open spec fn be_u64(s: Seq<u8>) -> int {
    be_u32(s.subrange(0, 4)) * 4294967296 + be_u32(s.subrange(4, 8))
}

/// Little-endian encoding of a 16-bit value.
pub open spec fn u16_le(x: u16) -> Seq<u8> {
    seq![(x % 256) as u8, (x / 256) as u8]
}

/// Little-endian encoding of a 32-bit value.
pub open spec fn u32_le(x: u32) -> Seq<u8> {
    seq![(x % 256) as u8, ((x / 256) % 256) as u8, ((x / 65536) % 256) as u8, (x / 16777216) as u8]
}

/// Big-endian encoding of a 32-bit value.
pub open spec fn u32_be(x: u32) -> Seq<u8> {
    seq![(x / 16777216) as u8, ((x / 65536) % 256) as u8, ((x / 256) % 256) as u8, (x % 256) as u8]
}

/// Big-endian encoding of a 64-bit value.
pub open spec fn u64_be(x: u64) -> Seq<u8> {
    u32_be((x / 4294967296) as u32) + u32_be((x % 4294967296) as u32)
}

/// Little-endian encoding of a 64-bit value.
pub open spec fn u64_le(x: u64) -> Seq<u8> {
    u32_le((x % 4294967296) as u32) + u32_le((x / 4294967296) as u32)
}

/// Reading back the little-endian encoding of a 16-bit value gives the value.
pub proof fn lemma_u16_le_round_trip(x: u16)
    ensures
        u16_le(x).len() == 2,
        le_u16(u16_le(x)) == x,
{
}

/// Reading back the little-endian encoding of a 32-bit value gives the value.
pub proof fn lemma_u32_le_round_trip(x: u32)
    ensures
        u32_le(x).len() == 4,
        le_u32(u32_le(x)) == x,
{
    let a = x % 256;
    let b = (x / 256) % 256;
    let c = (x / 65536) % 256;
    let d = x / 16777216;
    assert(x == a + 256 * (x / 256));
    assert(x / 256 == b + 256 * (x / 65536)) by {
        assert(x / 65536 == (x / 256) / 256);
    }
    assert(x / 65536 == c + 256 * d) by {
        assert(x / 16777216 == (x / 65536) / 256);
    }
}

/// Reading back the little-endian encoding of a 64-bit value gives the value.
pub proof fn lemma_u64_le_round_trip(x: u64)
    ensures
        u64_le(x).len() == 8,
        le_u64(u64_le(x)) == x,
{
    let lo = (x % 4294967296) as u32;
    let hi = (x / 4294967296) as u32;
    lemma_u32_le_round_trip(lo);
    lemma_u32_le_round_trip(hi);
    assert(u64_le(x).subrange(0, 4) =~= u32_le(lo));
    assert(u64_le(x).subrange(4, 8) =~= u32_le(hi));
}

/// Reads a little-endian `u16` at `off`.
pub fn read_le_u16_at(b: &[u8], off: usize) -> (r: u16)
    requires
        off + 2 <= b@.len(),
    ensures
        r == le_u16(b@.subrange(off as int, off + 2)),
{
    (b[off] as u16) + (b[off + 1] as u16) * 256
}

/// Reads a little-endian `u32` at `off`.
pub fn read_le_u32_at(b: &[u8], off: usize) -> (r: u32)
    requires
        off + 4 <= b@.len(),
    ensures
        r == le_u32(b@.subrange(off as int, off + 4)),
{
    (b[off] as u32) + (b[off + 1] as u32) * 256 + (b[off + 2] as u32) * 65536 + (b[off + 3] as u32)
        * 16777216
}

/// Reads a little-endian `u64` at `off`.
pub fn read_le_u64_at(b: &[u8], off: usize) -> (r: u64)
    requires
        off + 8 <= b@.len(),
    ensures
        r == le_u64(b@.subrange(off as int, off + 8)),
{
    let _n = b.len();
    let lo = read_le_u32_at(b, off) as u64;
    let hi = read_le_u32_at(b, off + 4) as u64;
    let ghost s = b@.subrange(off as int, off + 8);
    assert(s.subrange(0, 4) =~= b@.subrange(off as int, off + 4));
    assert(s.subrange(4, 8) =~= b@.subrange(off + 4, off + 8));
    lo + hi * 4294967296
}

/// Reads a big-endian `u16` at `off`.
pub fn read_be_u16_at(b: &[u8], off: usize) -> (r: u16)
    requires
        off + 2 <= b@.len(),
    ensures
        r == be_u16(b@.subrange(off as int, off + 2)),
{
    (b[off] as u16) * 256 + (b[off + 1] as u16)
}

/// Reads a big-endian `u32` at `off`.
pub fn read_be_u32_at(b: &[u8], off: usize) -> (r: u32)
    requires
        off + 4 <= b@.len(),
    ensures
        r == be_u32(b@.subrange(off as int, off + 4)),
{
    (b[off] as u32) * 16777216 + (b[off + 1] as u32) * 65536 + (b[off + 2] as u32) * 256 + (b[off
        + 3] as u32)
}

/// Reads a big-endian `u64` at `off`.
pub fn read_be_u64_at(b: &[u8], off: usize) -> (r: u64)
    requires
        off + 8 <= b@.len(),
    ensures
        r == be_u64(b@.subrange(off as int, off + 8)),
{
    let _n = b.len();
    let hi = read_be_u32_at(b, off) as u64;
    let lo = read_be_u32_at(b, off + 4) as u64;
    let ghost s = b@.subrange(off as int, off + 8);
    assert(s.subrange(0, 4) =~= b@.subrange(off as int, off + 4));
    assert(s.subrange(4, 8) =~= b@.subrange(off + 4, off + 8));
    hi * 4294967296 + lo
}

/// Little-endian bytes of a `u16`.
pub fn u16_to_le(x: u16) -> (r: [u8; 2])
    ensures
        r@ == u16_le(x),
{
    let r = [(x % 256) as u8, (x / 256) as u8];
    assert(r@ =~= u16_le(x));
    r
}

/// Little-endian bytes of a `u32`.
pub fn u32_to_le(x: u32) -> (r: [u8; 4])
    ensures
        r@ == u32_le(x),
{
    let r = [(x % 256) as u8, ((x / 256) % 256) as u8, ((x / 65536) % 256) as u8, (x / 16777216) as u8];
    assert(r@ =~= u32_le(x));
    r
}

/// Appends `s` to `v`.
pub fn extend_bytes(v: &mut Vec<u8>, s: &[u8])
    ensures
        final(v)@ == old(v)@ + s@,
{
    let ghost start = v@;
    let mut i: usize = 0;
    while i < s.len()
        invariant
            i <= s@.len(),
            v@ == start + s@.subrange(0, i as int),
        decreases s@.len() - i,
    {
        v.push(s[i]);
        i = i + 1;
        assert(v@ =~= start + s@.subrange(0, i as int));
    }
    assert(s@.subrange(0, s@.len() as int) =~= s@);
}

/// Appends the little-endian bytes of a `u16`.
pub fn push_u16_le(v: &mut Vec<u8>, x: u16)
    ensures
        final(v)@ == old(v)@ + u16_le(x),
{
    let b = u16_to_le(x);
    extend_bytes(v, &b);
}

/// Appends the little-endian bytes of a `u32`.
pub fn push_u32_le(v: &mut Vec<u8>, x: u32)
    ensures
        final(v)@ == old(v)@ + u32_le(x),
{
    let b = u32_to_le(x);
    extend_bytes(v, &b);
}

/// Appends the little-endian bytes of a `u64`.
pub fn push_u64_le(v: &mut Vec<u8>, x: u64)
    ensures
        final(v)@ == old(v)@ + u64_le(x),
{
    let lo = (x % 4294967296) as u32;
    let hi = (x / 4294967296) as u32;
    push_u32_le(v, lo);
    push_u32_le(v, hi);
    assert(final(v)@ =~= old(v)@ + u64_le(x)) by {
    }
}

/// Copies `s[off..off + 32]` into a fresh 32-byte array.
pub fn copy_32(s: &[u8], off: usize) -> (r: [u8; 32])
    requires
        off + 32 <= s@.len(),
    ensures
        r@ == s@.subrange(off as int, off + 32),
{
    let _n = s.len();
    let mut r = [0u8; 32];
    let mut i: usize = 0;
    while i < 32
        invariant
            i <= 32,
            off + 32 <= s@.len(),
            r@.len() == 32,
            forall|j: int| 0 <= j < i ==> r@[j] == s@[off + j],
            s@.len() <= usize::MAX,
        decreases 32 - i,
    {
        r[i] = s[off + i];
        i = i + 1;
    }
    assert(r@ =~= s@.subrange(off as int, off + 32));
    r
}

/// Byte-wise equality of a slice window with a byte sequence held in an array.
pub fn bytes_eq_at(s: &[u8], off: usize, expected: &[u8]) -> (r: bool)
    requires
        off + expected@.len() <= s@.len(),
    ensures
        r == (s@.subrange(off as int, off + expected@.len()) == expected@),
{
    let _n = s.len();
    let mut i: usize = 0;
    while i < expected.len()
        invariant
            i <= expected@.len(),
            off + expected@.len() <= s@.len(),
            forall|j: int| 0 <= j < i ==> s@[off + j] == expected@[j],
            s@.len() <= usize::MAX,
        decreases expected@.len() - i,
    {
        if s[off + i] != expected[i] {
            assert(s@.subrange(off as int, off + expected@.len())[i as int] != expected@[i as int]);
            return false;
        }
        i = i + 1;
    }
    assert(s@.subrange(off as int, off + expected@.len()) =~= expected@);
    true
}

/// Appends the big-endian bytes of a `u32`.
pub fn push_u32_be(v: &mut Vec<u8>, x: u32)
    ensures
        final(v)@ == old(v)@ + u32_be(x),
{
    let b = [(x / 16777216) as u8, ((x / 65536) % 256) as u8, ((x / 256) % 256) as u8, (x % 256) as u8];
    assert(b@ =~= u32_be(x));
    extend_bytes(v, &b);
}

/// Appends the big-endian bytes of a `u64`.
pub fn push_u64_be(v: &mut Vec<u8>, x: u64)
    ensures
        final(v)@ == old(v)@ + u64_be(x),
{
    push_u32_be(v, (x / 4294967296) as u32);
    push_u32_be(v, (x % 4294967296) as u32);
    assert(final(v)@ =~= old(v)@ + u64_be(x));
}

/// Overwrites `out` with `src`, which has the same length.
pub fn copy_into(out: &mut [u8], src: &[u8])
    requires
        old(out)@.len() == src@.len(),
    ensures
        final(out)@ == src@,
{
    let n = src.len();
    let mut i: usize = 0;
    while i < n
        invariant
            n == src@.len(),
            out@.len() == n,
            i <= n,
            forall|j: int| 0 <= j < i ==> out@[j] == src@[j],
        decreases n - i,
    {
        out[i] = src[i];
        i = i + 1;
    }
    assert(out@ =~= src@);
}

} // verus!
