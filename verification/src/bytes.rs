//! Big-endian encodings of the fixed-width integers that the HTTP/2 wire
//! format uses: 16-, 24- and 32-bit values, most significant byte first.
use vstd::prelude::*;

verus! {

/// The value of two bytes read most significant first.
pub open spec fn be16_val(b0: u8, b1: u8) -> u16 {
    (b0 as int * 0x100 + b1 as int) as u16
}

/// The value of three bytes read most significant first.
pub open spec fn be24_val(b0: u8, b1: u8, b2: u8) -> u32 {
    (b0 as int * 0x10000 + b1 as int * 0x100 + b2 as int) as u32
}

/// The value of four bytes read most significant first.
pub open spec fn be32_val(b0: u8, b1: u8, b2: u8, b3: u8) -> u32 {
    (b0 as int * 0x1000000 + b1 as int * 0x10000 + b2 as int * 0x100 + b3 as int) as u32
}

/// The two-byte big-endian encoding of a 16-bit value.
pub open spec fn be16_bytes(v: u16) -> Seq<u8> {
    seq![
        ((v as int / 0x100) % 0x100) as u8,
        (v as int % 0x100) as u8,
    ]
}

/// The three-byte big-endian encoding of a value below 2^24.
pub open spec fn be24_bytes(v: u32) -> Seq<u8> {
    seq![
        ((v as int / 0x10000) % 0x100) as u8,
        ((v as int / 0x100) % 0x100) as u8,
        (v as int % 0x100) as u8,
    ]
}

/// The four-byte big-endian encoding of a 32-bit value.
pub open spec fn be32_bytes(v: u32) -> Seq<u8> {
    seq![
        ((v as int / 0x1000000) % 0x100) as u8,
        ((v as int / 0x10000) % 0x100) as u8,
        ((v as int / 0x100) % 0x100) as u8,
        (v as int % 0x100) as u8,
    ]
}

pub proof fn lemma_be16_round(v: u16)
    ensures
        be16_val(be16_bytes(v)[0], be16_bytes(v)[1]) == v,
{
    assert(((v / 0x100) % 0x100) * 0x100 + (v % 0x100) == v) by (bit_vector);
}

pub proof fn lemma_be24_round(v: u32)
    requires
        v < 0x1000000,
    ensures
        be24_val(be24_bytes(v)[0], be24_bytes(v)[1], be24_bytes(v)[2]) == v,
{
    assert(((v / 0x10000) % 0x100) * 0x10000 + ((v / 0x100) % 0x100) * 0x100 + (v % 0x100) == v)
        by (bit_vector)
        requires
            v < 0x1000000,
    ;
}

pub proof fn lemma_be32_round(v: u32)
    ensures
        be32_val(be32_bytes(v)[0], be32_bytes(v)[1], be32_bytes(v)[2], be32_bytes(v)[3]) == v,
{
    assert(((v / 0x1000000) % 0x100) * 0x1000000 + ((v / 0x10000) % 0x100) * 0x10000 + ((v
        / 0x100) % 0x100) * 0x100 + (v % 0x100) == v) by (bit_vector);
}

/// Append the two-byte big-endian encoding of `v`.
pub fn push_be16(out: &mut Vec<u8>, v: u16)
    ensures
        final(out)@ == old(out)@ + be16_bytes(v),
{
    out.push(((v / 0x100) % 0x100) as u8);
    out.push((v % 0x100) as u8);
    assert(final(out)@ =~= old(out)@ + be16_bytes(v));
}

/// Append the three-byte big-endian encoding of `v`; only values below 2^24
/// are representable.
pub fn push_be24(out: &mut Vec<u8>, v: u32)
    requires
        v < 0x1000000,
    ensures
        final(out)@ == old(out)@ + be24_bytes(v),
{
    out.push(((v / 0x10000) % 0x100) as u8);
    out.push(((v / 0x100) % 0x100) as u8);
    out.push((v % 0x100) as u8);
    assert(final(out)@ =~= old(out)@ + be24_bytes(v));
}

/// Append the four-byte big-endian encoding of `v`.
pub fn push_be32(out: &mut Vec<u8>, v: u32)
    ensures
        final(out)@ == old(out)@ + be32_bytes(v),
{
    out.push(((v / 0x1000000) % 0x100) as u8);
    out.push(((v / 0x10000) % 0x100) as u8);
    out.push(((v / 0x100) % 0x100) as u8);
    out.push((v % 0x100) as u8);
    assert(final(out)@ =~= old(out)@ + be32_bytes(v));
}

/// Combine two bytes, most significant first.
pub fn be16_from(b0: u8, b1: u8) -> (v: u16)
    ensures
        v == be16_val(b0, b1),
{
    (b0 as u16) * 0x100 + (b1 as u16)
}

/// Combine three bytes, most significant first.
pub fn be24_from(b0: u8, b1: u8, b2: u8) -> (v: u32)
    ensures
        v == be24_val(b0, b1, b2),
        v < 0x1000000,
{
    (b0 as u32) * 0x10000 + (b1 as u32) * 0x100 + (b2 as u32)
}

/// Combine four bytes, most significant first.
pub fn be32_from(b0: u8, b1: u8, b2: u8, b3: u8) -> (v: u32)
    ensures
        v == be32_val(b0, b1, b2, b3),
{
    (b0 as u32) * 0x1000000 + (b1 as u32) * 0x10000 + (b2 as u32) * 0x100 + (b3 as u32)
}

} // verus!
