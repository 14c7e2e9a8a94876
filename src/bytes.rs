//! Byte-buffer helpers and the little-endian integer encodings of the wire format.
use vstd::prelude::*;

verus! {

/// The four little-endian bytes of `v`.
pub open spec fn u32_le(v: u32) -> Seq<u8> {
    seq![v as u8, (v >> 8u32) as u8, (v >> 16u32) as u8, (v >> 24u32) as u8]
}

/// The eight little-endian bytes of `v`.
pub open spec fn u64_le(v: u64) -> Seq<u8> {
    seq![
        v as u8, (v >> 8u64) as u8, (v >> 16u64) as u8, (v >> 24u64) as u8,
        (v >> 32u64) as u8, (v >> 40u64) as u8, (v >> 48u64) as u8, (v >> 56u64) as u8,
    ]
}

/// The integer that four little-endian bytes encode.
pub open spec fn le_u32(s: Seq<u8>) -> u32
    recommends s.len() >= 4,
{
    (s[0] as u32) | ((s[1] as u32) << 8u32) | ((s[2] as u32) << 16u32) | ((s[3] as u32) << 24u32)
}

/// The integer that eight little-endian bytes encode.
pub open spec fn le_u64(s: Seq<u8>) -> u64
    recommends s.len() >= 8,
{
    (s[0] as u64) | ((s[1] as u64) << 8u64) | ((s[2] as u64) << 16u64) | ((s[3] as u64) << 24u64)
        | ((s[4] as u64) << 32u64) | ((s[5] as u64) << 40u64) | ((s[6] as u64) << 48u64)
        | ((s[7] as u64) << 56u64)
}

proof fn lemma_u32_bits(v: u32)
    ensures
        (v as u8 as u32) | (((v >> 8u32) as u8 as u32) << 8u32) | (((v >> 16u32) as u8 as u32)
            << 16u32) | (((v >> 24u32) as u8 as u32) << 24u32) == v,
{
    assert((v & 0xffu32) | (((v >> 8u32) & 0xffu32) << 8u32) | (((v >> 16u32) & 0xffu32)
        << 16u32) | (((v >> 24u32) & 0xffu32) << 24u32) == v) by (bit_vector);
    assert(v as u8 as u32 == v & 0xffu32) by (bit_vector);
    assert((v >> 8u32) as u8 as u32 == (v >> 8u32) & 0xffu32) by (bit_vector);
    assert((v >> 16u32) as u8 as u32 == (v >> 16u32) & 0xffu32) by (bit_vector);
    assert((v >> 24u32) as u8 as u32 == (v >> 24u32) & 0xffu32) by (bit_vector);
}

/// Decoding the little-endian bytes of a `u32` gives it back.
pub proof fn lemma_u32_round_trip(v: u32)
    ensures
        le_u32(u32_le(v)) == v,
{
    lemma_u32_bits(v);
}

proof fn lemma_u64_bits(v: u64)
    ensures
        (v as u8 as u64) | (((v >> 8u64) as u8 as u64) << 8u64) | (((v >> 16u64) as u8 as u64)
            << 16u64) | (((v >> 24u64) as u8 as u64) << 24u64) | (((v >> 32u64) as u8 as u64)
            << 32u64) | (((v >> 40u64) as u8 as u64) << 40u64) | (((v >> 48u64) as u8 as u64)
            << 48u64) | (((v >> 56u64) as u8 as u64) << 56u64) == v,
{
    assert((v & 0xffu64) | (((v >> 8u64) & 0xffu64) << 8u64) | (((v >> 16u64) & 0xffu64)
        << 16u64) | (((v >> 24u64) & 0xffu64) << 24u64) | (((v >> 32u64) & 0xffu64) << 32u64)
        | (((v >> 40u64) & 0xffu64) << 40u64) | (((v >> 48u64) & 0xffu64) << 48u64) | (((v
        >> 56u64) & 0xffu64) << 56u64) == v) by (bit_vector);
    assert(v as u8 as u64 == v & 0xffu64) by (bit_vector);
    assert((v >> 8u64) as u8 as u64 == (v >> 8u64) & 0xffu64) by (bit_vector);
    assert((v >> 16u64) as u8 as u64 == (v >> 16u64) & 0xffu64) by (bit_vector);
    assert((v >> 24u64) as u8 as u64 == (v >> 24u64) & 0xffu64) by (bit_vector);
    assert((v >> 32u64) as u8 as u64 == (v >> 32u64) & 0xffu64) by (bit_vector);
    assert((v >> 40u64) as u8 as u64 == (v >> 40u64) & 0xffu64) by (bit_vector);
    assert((v >> 48u64) as u8 as u64 == (v >> 48u64) & 0xffu64) by (bit_vector);
    assert((v >> 56u64) as u8 as u64 == (v >> 56u64) & 0xffu64) by (bit_vector);
}

/// Decoding the little-endian bytes of a `u64` gives it back.
pub proof fn lemma_u64_round_trip(v: u64)
    ensures
        le_u64(u64_le(v)) == v,
{
    lemma_u64_bits(v);
}

/// Appends `src` to `dst`.
pub fn append_bytes(dst: &mut Vec<u8>, src: &[u8])
    ensures
        final(dst)@ == old(dst)@ + src@,
{
    let mut i: usize = 0;
    while i < src.len()
        invariant
            i <= src@.len(),
            dst@ == old(dst)@ + src@.subrange(0, i as int),
        decreases src@.len() - i,
    {
        dst.push(src[i]);
        i = i + 1;
        assert(dst@ =~= old(dst)@ + src@.subrange(0, i as int));
    }
    assert(src@.subrange(0, src@.len() as int) =~= src@);
}

/// A new vector that holds `s[start..end]`.
pub fn copy_range(s: &[u8], start: usize, end: usize) -> (r: Vec<u8>)
    requires
        start <= end <= s@.len(),
    ensures
        r@ == s@.subrange(start as int, end as int),
{
    let mut r: Vec<u8> = Vec::with_capacity(end - start);
    let mut i: usize = start;
    while i < end
        invariant
            start <= i <= end <= s@.len(),
            r@ == s@.subrange(start as int, i as int),
        decreases end - i,
    {
        r.push(s[i]);
        i = i + 1;
        assert(r@ =~= s@.subrange(start as int, i as int));
    }
    r
}

/// Appends the four little-endian bytes of `v`.
pub fn push_u32_le(dst: &mut Vec<u8>, v: u32)
    ensures
        final(dst)@ == old(dst)@ + u32_le(v),
{
    dst.push(v as u8);
    dst.push((v >> 8u32) as u8);
    dst.push((v >> 16u32) as u8);
    dst.push((v >> 24u32) as u8);
    assert(dst@ =~= old(dst)@ + u32_le(v));
}

/// Appends the eight little-endian bytes of `v`.
pub fn push_u64_le(dst: &mut Vec<u8>, v: u64)
    ensures
        final(dst)@ == old(dst)@ + u64_le(v),
{
    dst.push(v as u8);
    dst.push((v >> 8u64) as u8);
    dst.push((v >> 16u64) as u8);
    dst.push((v >> 24u64) as u8);
    dst.push((v >> 32u64) as u8);
    dst.push((v >> 40u64) as u8);
    dst.push((v >> 48u64) as u8);
    dst.push((v >> 56u64) as u8);
    assert(dst@ =~= old(dst)@ + u64_le(v));
}

/// Reads a little-endian `u32` at `off`.
pub fn read_u32_le(s: &[u8], off: usize) -> (r: u32)
    requires
        off + 4 <= s@.len(),
    ensures
        r == le_u32(s@.subrange(off as int, off + 4)),
{
    (s[off] as u32) | ((s[off + 1] as u32) << 8u32) | ((s[off + 2] as u32) << 16u32) | ((s[off
        + 3] as u32) << 24u32)
}

/// Reads a little-endian `u64` at `off`.
pub fn read_u64_le(s: &[u8], off: usize) -> (r: u64)
    requires
        off + 8 <= s@.len(),
    ensures
        r == le_u64(s@.subrange(off as int, off + 8)),
{
    (s[off] as u64) | ((s[off + 1] as u64) << 8u64) | ((s[off + 2] as u64) << 16u64) | ((s[off
        + 3] as u64) << 24u64) | ((s[off + 4] as u64) << 32u64) | ((s[off + 5] as u64) << 40u64)
        | ((s[off + 6] as u64) << 48u64) | ((s[off + 7] as u64) << 56u64)
}

/// Whether two byte strings are equal.
pub fn bytes_eq(a: &[u8], b: &[u8]) -> (r: bool)
    ensures
        r == (a@ == b@),
{
    if a.len() != b.len() {
        return false;
    }
    let mut i: usize = 0;
    while i < a.len()
        invariant
            a@.len() == b@.len(),
            i <= a@.len(),
            forall|j: int| 0 <= j < i ==> a@[j] == b@[j],
        decreases a@.len() - i,
    {
        if a[i] != b[i] {
            return false;
        }
        i = i + 1;
    }
    assert(a@ =~= b@);
    true
}

/// Overwrites every byte of `v` with zero, so that key material does not
/// outlive its use.
pub fn wipe_bytes(v: &mut Vec<u8>)
    ensures
        final(v)@.len() == old(v)@.len(),
        forall|i: int| 0 <= i < final(v)@.len() ==> final(v)@[i] == 0,
{
    let mut i: usize = 0;
    while i < v.len()
        invariant
            v@.len() == old(v)@.len(),
            i <= v@.len(),
            forall|j: int| 0 <= j < i ==> v@[j] == 0,
        decreases v@.len() - i,
    {
        v.set(i, 0);
        i = i + 1;
    }
}

/// The ChaCha20-Poly1305 nonce of a WireGuard counter: four zero bytes, then
/// the counter little-endian.
pub open spec fn counter_nonce_of(n: u64) -> Seq<u8> {
    seq![0u8, 0u8, 0u8, 0u8] + u64_le(n)
}

/// Builds the nonce of counter `n`.
pub fn counter_nonce(n: u64) -> (r: Vec<u8>)
    ensures
        r@ == counter_nonce_of(n),
        r@.len() == 12,
{
    let mut r: Vec<u8> = vec![0u8, 0u8, 0u8, 0u8];
    let ghost z = r@;
    assert(z =~= seq![0u8, 0u8, 0u8, 0u8]);
    push_u64_le(&mut r, n);
    r
}

} // verus!
