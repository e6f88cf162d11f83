//! Big-endian integers as they stand in a packet header.

use vstd::prelude::*;

verus! {

/// The two bytes of `x`, most significant first.
pub open spec fn be_u16(x: u16) -> Seq<u8> {
    seq![(x / 0x100) as u8, (x % 0x100) as u8]
}

/// The four bytes of `x`, most significant first.
pub open spec fn be_u32(x: u32) -> Seq<u8> {
    seq![
        (x / 0x100_0000) as u8,
        ((x / 0x1_0000) % 0x100) as u8,
        ((x / 0x100) % 0x100) as u8,
        (x % 0x100) as u8,
    ]
}

/// The number that the first two bytes of `s` spell, most significant first.
pub open spec fn u16_from_be(s: Seq<u8>) -> u16
    recommends
        s.len() >= 2,
{
    (s[0] as int * 0x100 + s[1] as int) as u16
}

/// The number that the first four bytes of `s` spell, most significant first.
pub open spec fn u32_from_be(s: Seq<u8>) -> u32
    recommends
        s.len() >= 4,
{
    (s[0] as int * 0x100_0000 + s[1] as int * 0x1_0000 + s[2] as int * 0x100 + s[3] as int) as u32
}

/// The signed number that the first four bytes of `s` spell in two's
/// complement, most significant first.
pub open spec fn i32_from_be(s: Seq<u8>) -> i32
    recommends
        s.len() >= 4,
{
    let u: int = u32_from_be(s) as int;
    if u >= 0x8000_0000 {
        (u - 0x1_0000_0000) as i32
    } else {
        u as i32
    }
}

/// Reading back what `be_u16` wrote gives the number.
pub proof fn lemma_be_u16_roundtrip(x: u16)
    ensures
        be_u16(x).len() == 2,
        u16_from_be(be_u16(x)) == x,
{
}

/// Reading back what `be_u32` wrote gives the number.
pub proof fn lemma_be_u32_roundtrip(x: u32)
    ensures
        be_u32(x).len() == 4,
        u32_from_be(be_u32(x)) == x,
{
}

/// Appends the two bytes of `x` to `buf`, most significant first.
pub fn put_u16(buf: &mut Vec<u8>, x: u16)
    ensures
        final(buf)@ == old(buf)@ + be_u16(x),
{
    buf.push((x / 0x100) as u8);
    buf.push((x % 0x100) as u8);
    assert(buf@ =~= old(buf)@ + be_u16(x));
}

/// Appends the four bytes of `x` to `buf`, most significant first.
pub fn put_u32(buf: &mut Vec<u8>, x: u32)
    ensures
        final(buf)@ == old(buf)@ + be_u32(x),
{
    buf.push((x / 0x100_0000) as u8);
    buf.push(((x / 0x1_0000) % 0x100) as u8);
    buf.push(((x / 0x100) % 0x100) as u8);
    buf.push((x % 0x100) as u8);
    assert(buf@ =~= old(buf)@ + be_u32(x));
}

/// Reads the big-endian 16-bit number that starts at `at`.
pub fn get_u16(input: &[u8], at: usize) -> (x: u16)
    requires
        at + 2 <= input@.len(),
    ensures
        x == u16_from_be(input@.subrange(at as int, at + 2)),
{
    let hi: u16 = input[at] as u16;
    let lo: u16 = input[at + 1] as u16;
    hi * 0x100 + lo
}

/// Reads the big-endian 32-bit number that starts at `at`.
pub fn get_u32(input: &[u8], at: usize) -> (x: u32)
    requires
        at + 4 <= input@.len(),
    ensures
        x == u32_from_be(input@.subrange(at as int, at + 4)),
{
    let b0: u32 = input[at] as u32;
    let b1: u32 = input[at + 1] as u32;
    let b2: u32 = input[at + 2] as u32;
    let b3: u32 = input[at + 3] as u32;
    b0 * 0x100_0000 + b1 * 0x1_0000 + b2 * 0x100 + b3
}

} // verus!
