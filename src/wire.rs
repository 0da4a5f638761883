//! Big-endian field encoding and the RFC-1071 checksum of a datagram.
use vstd::prelude::*;

verus! {

/// The two octets of `v`, most significant first.
pub open spec fn be16_bytes(v: u16) -> Seq<u8> {
    seq![(v >> 8u16) as u8, (v & 0xffu16) as u8]
}

/// The eight octets of `v`, most significant first.
pub open spec fn be64_bytes(v: u64) -> Seq<u8> {
    seq![
        (v >> 56u64) as u8,
        ((v >> 48u64) & 0xffu64) as u8,
        ((v >> 40u64) & 0xffu64) as u8,
        ((v >> 32u64) & 0xffu64) as u8,
        ((v >> 24u64) & 0xffu64) as u8,
        ((v >> 16u64) & 0xffu64) as u8,
        ((v >> 8u64) & 0xffu64) as u8,
        (v & 0xffu64) as u8,
    ]
}

/// The big-endian 16-bit value stored at `s[i..i + 2]`.
pub open spec fn be16_at(s: Seq<u8>, i: int) -> u16 {
    ((s[i] as u16) << 8u16) | (s[i + 1] as u16)
}

/// The big-endian 64-bit value stored at `s[i..i + 8]`.
pub open spec fn be64_at(s: Seq<u8>, i: int) -> u64 {
    ((s[i] as u64) << 56u64) | ((s[i + 1] as u64) << 48u64) | ((s[i + 2] as u64) << 40u64) | ((
    s[i + 3] as u64) << 32u64) | ((s[i + 4] as u64) << 24u64) | ((s[i + 5] as u64) << 16u64) | ((
    s[i + 6] as u64) << 8u64) | (s[i + 7] as u64)
}

/// What the Internet checksum (RFC 1071) of a byte sequence is.
pub uninterp spec fn internet_checksum_of(data: Seq<u8>) -> Seq<u8>;

proof fn lemma_be16_bits(v: u16)
    ensures
        ((((v >> 8u16) as u8) as u16) << 8u16) | (((v & 0xffu16) as u8) as u16) == v,
{
    assert(((((v >> 8u16) as u8) as u16) << 8u16) | (((v & 0xffu16) as u8) as u16) == v)
        by (bit_vector);
}

proof fn lemma_be64_bits(v: u64)
    ensures
        ((((v >> 56u64) as u8) as u64) << 56u64) | (((((v >> 48u64) & 0xffu64) as u8) as u64)
            << 48u64) | (((((v >> 40u64) & 0xffu64) as u8) as u64) << 40u64) | (((((v >> 32u64)
            & 0xffu64) as u8) as u64) << 32u64) | (((((v >> 24u64) & 0xffu64) as u8) as u64)
            << 24u64) | (((((v >> 16u64) & 0xffu64) as u8) as u64) << 16u64) | (((((v >> 8u64)
            & 0xffu64) as u8) as u64) << 8u64) | (((v & 0xffu64) as u8) as u64) == v,
{
    assert(((((v >> 56u64) as u8) as u64) << 56u64) | (((((v >> 48u64) & 0xffu64) as u8) as u64)
        << 48u64) | (((((v >> 40u64) & 0xffu64) as u8) as u64) << 40u64) | (((((v >> 32u64)
        & 0xffu64) as u8) as u64) << 32u64) | (((((v >> 24u64) & 0xffu64) as u8) as u64)
        << 24u64) | (((((v >> 16u64) & 0xffu64) as u8) as u64) << 16u64) | (((((v >> 8u64)
        & 0xffu64) as u8) as u64) << 8u64) | (((v & 0xffu64) as u8) as u64) == v)
        by (bit_vector);
}

/// Reading back the two octets written for `v` gives `v`, wherever they stand.
pub proof fn lemma_be16_round_trip(s: Seq<u8>, i: int, v: u16)
    requires
        0 <= i,
        i + 2 <= s.len(),
        s.subrange(i, i + 2) == be16_bytes(v),
    ensures
        be16_at(s, i) == v,
{
    assert(s[i] == s.subrange(i, i + 2)[0]);
    assert(s[i + 1] == s.subrange(i, i + 2)[1]);
    lemma_be16_bits(v);
}

/// Reading back the eight octets written for `v` gives `v`, wherever they stand.
pub proof fn lemma_be64_round_trip(s: Seq<u8>, i: int, v: u64)
    requires
        0 <= i,
        i + 8 <= s.len(),
        s.subrange(i, i + 8) == be64_bytes(v),
    ensures
        be64_at(s, i) == v,
{
    let w = s.subrange(i, i + 8);
    assert(s[i] == w[0]);
    assert(s[i + 1] == w[1]);
    assert(s[i + 2] == w[2]);
    assert(s[i + 3] == w[3]);
    assert(s[i + 4] == w[4]);
    assert(s[i + 5] == w[5]);
    assert(s[i + 6] == w[6]);
    assert(s[i + 7] == w[7]);
    lemma_be64_bits(v);
}

/// Appends the big-endian octets of `v`.
pub fn push_be16(buf: &mut Vec<u8>, v: u16)
    ensures
        final(buf)@ == old(buf)@ + be16_bytes(v),
{
    buf.push((v >> 8u16) as u8);
    buf.push((v & 0xffu16) as u8);
    assert(final(buf)@ =~= old(buf)@ + be16_bytes(v));
}

/// Appends the big-endian octets of `v`.
pub fn push_be64(buf: &mut Vec<u8>, v: u64)
    ensures
        final(buf)@ == old(buf)@ + be64_bytes(v),
{
    buf.push((v >> 56u64) as u8);
    buf.push(((v >> 48u64) & 0xffu64) as u8);
    buf.push(((v >> 40u64) & 0xffu64) as u8);
    buf.push(((v >> 32u64) & 0xffu64) as u8);
    buf.push(((v >> 24u64) & 0xffu64) as u8);
    buf.push(((v >> 16u64) & 0xffu64) as u8);
    buf.push(((v >> 8u64) & 0xffu64) as u8);
    buf.push((v & 0xffu64) as u8);
    assert(final(buf)@ =~= old(buf)@ + be64_bytes(v));
}

/// Reads the big-endian 16-bit value at `buf[i..i + 2]`.
pub fn read_be16(buf: &[u8], i: usize) -> (r: u16)
    requires
        i + 2 <= buf@.len(),
    ensures
        r == be16_at(buf@, i as int),
{
    ((buf[i] as u16) << 8u16) | (buf[i + 1] as u16)
}

/// Reads the big-endian 64-bit value at `buf[i..i + 8]`.
pub fn read_be64(buf: &[u8], i: usize) -> (r: u64)
    requires
        i + 8 <= buf@.len(),
    ensures
        r == be64_at(buf@, i as int),
{
    ((buf[i] as u64) << 56u64) | ((buf[i + 1] as u64) << 48u64) | ((buf[i + 2] as u64) << 40u64)
        | ((buf[i + 3] as u64) << 32u64) | ((buf[i + 4] as u64) << 24u64) | ((buf[i + 5] as u64)
        << 16u64) | ((buf[i + 6] as u64) << 8u64) | (buf[i + 7] as u64)
}

/// Relies on `internet_checksum::checksum`: the RFC-1071 ones'-complement
/// checksum of `data`, as the two octets to store in a header.
#[verifier::external_body]
pub(crate) fn checksum(data: &[u8]) -> (r: [u8; 2])
    ensures
        r@ == internet_checksum_of(data@),
{
    internet_checksum::checksum(data)
}

} // verus!
