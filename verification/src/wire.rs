//! Big-endian (network byte order) integer encodings shared by the binary
//! protocol.
use vstd::arithmetic::div_mod::lemma_fundamental_div_mod_converse;
use vstd::prelude::*;

verus! {

/// Two bytes of `value`, most significant first.
pub open spec fn be_u16(value: u16) -> Seq<u8> {
    seq![(value / 0x100) as u8, (value % 0x100) as u8]
}

/// Four bytes of `value`, most significant first.
pub open spec fn be_u32(value: u32) -> Seq<u8> {
    seq![
        (value / 0x1000000) as u8,
        ((value / 0x10000) % 0x100) as u8,
        ((value / 0x100) % 0x100) as u8,
        (value % 0x100) as u8,
    ]
}

/// Eight bytes of `value`, most significant first.
pub open spec fn be_u64(value: u64) -> Seq<u8> {
    be_u32((value / 0x1_0000_0000) as u32) + be_u32((value % 0x1_0000_0000) as u32)
}

/// The value of two bytes read most significant first.
pub open spec fn u16_from_be(bytes: Seq<u8>) -> u16 {
    (bytes[0] as int * 0x100 + bytes[1] as int) as u16
}

/// The value of four bytes read most significant first.
pub open spec fn u32_from_be(bytes: Seq<u8>) -> u32 {
    (bytes[0] as int * 0x1000000 + bytes[1] as int * 0x10000 + bytes[2] as int * 0x100
        + bytes[3] as int) as u32
}

/// The value of eight bytes read most significant first.
pub open spec fn u64_from_be(bytes: Seq<u8>) -> u64 {
    (u32_from_be(bytes.subrange(0, 4)) as int * 0x1_0000_0000 + u32_from_be(bytes.subrange(4, 8))
        as int) as u64
}

pub proof fn lemma_be_u16_roundtrip(value: u16)
    ensures
        be_u16(value).len() == 2,
        u16_from_be(be_u16(value)) == value,
{
}

pub proof fn lemma_be_u16_canonical(bytes: Seq<u8>)
    requires
        bytes.len() == 2,
    ensures
        be_u16(u16_from_be(bytes)) == bytes,
{
    assert(be_u16(u16_from_be(bytes)) =~= bytes);
}

pub proof fn lemma_be_u32_roundtrip(value: u32)
    ensures
        be_u32(value).len() == 4,
        u32_from_be(be_u32(value)) == value,
{
}

pub proof fn lemma_be_u32_canonical(bytes: Seq<u8>)
    requires
        bytes.len() == 4,
    ensures
        be_u32(u32_from_be(bytes)) == bytes,
{
    let (b0, b1, b2, b3) = (bytes[0] as int, bytes[1] as int, bytes[2] as int, bytes[3] as int);
    let x = b0 * 0x1000000 + b1 * 0x10000 + b2 * 0x100 + b3;
    assert(u32_from_be(bytes) as int == x);
    lemma_fundamental_div_mod_converse(x, 0x1000000, b0, b1 * 0x10000 + b2 * 0x100 + b3);
    lemma_fundamental_div_mod_converse(x, 0x10000, b0 * 0x100 + b1, b2 * 0x100 + b3);
    lemma_fundamental_div_mod_converse(b0 * 0x100 + b1, 0x100, b0, b1);
    lemma_fundamental_div_mod_converse(x, 0x100, b0 * 0x10000 + b1 * 0x100 + b2, b3);
    lemma_fundamental_div_mod_converse(b0 * 0x10000 + b1 * 0x100 + b2, 0x100, b0 * 0x100 + b1, b2);
    assert(be_u32(u32_from_be(bytes)) =~= bytes);
}

pub proof fn lemma_be_u64_roundtrip(value: u64)
    ensures
        be_u64(value).len() == 8,
        u64_from_be(be_u64(value)) == value,
{
    let hi = (value / 0x1_0000_0000) as u32;
    let lo = (value % 0x1_0000_0000) as u32;
    lemma_be_u32_roundtrip(hi);
    lemma_be_u32_roundtrip(lo);
    assert(be_u64(value).subrange(0, 4) =~= be_u32(hi));
    assert(be_u64(value).subrange(4, 8) =~= be_u32(lo));
}

pub proof fn lemma_be_u64_canonical(bytes: Seq<u8>)
    requires
        bytes.len() == 8,
    ensures
        be_u64(u64_from_be(bytes)) == bytes,
{
    let hi = u32_from_be(bytes.subrange(0, 4));
    let lo = u32_from_be(bytes.subrange(4, 8));
    let value = u64_from_be(bytes);
    assert(value as int == hi as int * 0x1_0000_0000 + lo as int);
    assert((value / 0x1_0000_0000) as u32 == hi);
    assert((value % 0x1_0000_0000) as u32 == lo);
    lemma_be_u32_canonical(bytes.subrange(0, 4));
    lemma_be_u32_canonical(bytes.subrange(4, 8));
    assert(be_u64(value) =~= bytes);
}

/// Append `value` in network byte order.
pub fn push_be_u16(out: &mut Vec<u8>, value: u16)
    ensures
        final(out)@ == old(out)@ + be_u16(value),
{
    out.push((value / 0x100) as u8);
    out.push((value % 0x100) as u8);
    assert(final(out)@ =~= old(out)@ + be_u16(value));
}

/// Append `value` in network byte order.
pub fn push_be_u32(out: &mut Vec<u8>, value: u32)
    ensures
        final(out)@ == old(out)@ + be_u32(value),
{
    out.push((value / 0x1000000) as u8);
    out.push(((value / 0x10000) % 0x100) as u8);
    out.push(((value / 0x100) % 0x100) as u8);
    out.push((value % 0x100) as u8);
    assert(final(out)@ =~= old(out)@ + be_u32(value));
}

/// Append `value` in network byte order.
pub fn push_be_u64(out: &mut Vec<u8>, value: u64)
    ensures
        final(out)@ == old(out)@ + be_u64(value),
{
    let ghost start = out@;
    push_be_u32(out, (value / 0x1_0000_0000) as u32);
    push_be_u32(out, (value % 0x1_0000_0000) as u32);
    assert(out@ =~= start + be_u64(value));
}

/// Read two bytes at `offset` in network byte order.
pub fn read_be_u16(bytes: &[u8], offset: usize) -> (value: u16)
    requires
        offset + 2 <= bytes@.len(),
    ensures
        value == u16_from_be(bytes@.subrange(offset as int, offset + 2)),
{
    (bytes[offset] as u16) * 0x100 + (bytes[offset + 1] as u16)
}

/// Read four bytes at `offset` in network byte order.
pub fn read_be_u32(bytes: &[u8], offset: usize) -> (value: u32)
    requires
        offset + 4 <= bytes@.len(),
    ensures
        value == u32_from_be(bytes@.subrange(offset as int, offset + 4)),
{
    (bytes[offset] as u32) * 0x1000000 + (bytes[offset + 1] as u32) * 0x10000 + (bytes[offset
        + 2] as u32) * 0x100 + (bytes[offset + 3] as u32)
}

/// Read eight bytes at `offset` in network byte order.
pub fn read_be_u64(bytes: &[u8], offset: usize) -> (value: u64)
    requires
        offset + 8 <= bytes@.len(),
    ensures
        value == u64_from_be(bytes@.subrange(offset as int, offset + 8)),
{
    let len = bytes.len();
    assert(offset + 8 <= len);
    let hi = read_be_u32(bytes, offset);
    let lo = read_be_u32(bytes, offset + 4);
    let ghost whole = bytes@.subrange(offset as int, offset + 8);
    assert(whole.subrange(0, 4) =~= bytes@.subrange(offset as int, offset + 4));
    assert(whole.subrange(4, 8) =~= bytes@.subrange(offset + 4, offset + 8));
    (hi as u64) * 0x1_0000_0000 + (lo as u64)
}

} // verus!
