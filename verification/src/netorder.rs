//! 16-bit values in network byte order (big endian).

use vstd::prelude::*;

verus! {

/// High (first) byte of `x` in network byte order.
pub open spec fn be_high(x: u16) -> u8 {
    (x / 256) as u8
}

/// Low (second) byte of `x` in network byte order.
pub open spec fn be_low(x: u16) -> u8 {
    (x % 256) as u8
}

/// The 16-bit value of two bytes in network byte order.
pub open spec fn be_u16(hi: u8, lo: u8) -> u16 {
    ((hi as nat) * 256 + (lo as nat)) as u16
}

/// The two bytes of `x` in network byte order (`u16::to_be_bytes`).
pub fn u16_to_be(x: u16) -> (r: (u8, u8))
    ensures
        r.0 == be_high(x),
        r.1 == be_low(x),
{
    ((x / 256) as u8, (x % 256) as u8)
}

/// The value of two bytes in network byte order (`u16::from_be_bytes`).
pub fn u16_from_be(hi: u8, lo: u8) -> (r: u16)
    ensures
        r == be_u16(hi, lo),
{
    (hi as u16) * 256 + (lo as u16)
}

/// Splitting a value into its two bytes and joining them gives it back, and
/// the other way round.
pub proof fn lemma_be_roundtrip(x: u16, hi: u8, lo: u8)
    ensures
        be_u16(be_high(x), be_low(x)) == x,
        be_high(be_u16(hi, lo)) == hi,
        be_low(be_u16(hi, lo)) == lo,
{
}

} // verus!
