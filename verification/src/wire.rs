//! Big-endian integers on the wire.

use vstd::prelude::*;
use vstd::arithmetic::div_mod::lemma_fundamental_div_mod_converse;

verus! {

/// The two bytes of a 16-bit number in network order.
pub open spec fn u16_be(number: u16) -> Seq<u8> {
    seq![(number / 256) as u8, (number % 256) as u8]
}

/// The 16-bit number that two bytes in network order stand for.
pub open spec fn u16_from_be(high: u8, low: u8) -> u16 {
    (high * 256 + low) as u16
}

/// The four bytes of a 32-bit number in network order.
pub open spec fn u32_be(number: u32) -> Seq<u8> {
    seq![
        (number / 0x100_0000) as u8,
        ((number / 0x1_0000) % 256) as u8,
        ((number / 0x100) % 256) as u8,
        (number % 256) as u8,
    ]
}

/// The 32-bit number that four bytes in network order stand for.
pub open spec fn u32_from_be(b0: u8, b1: u8, b2: u8, b3: u8) -> u32 {
    (b0 * 0x100_0000 + b1 * 0x1_0000 + b2 * 0x100 + b3) as u32
}

/// Splitting a 16-bit number into bytes and joining them gives it back.
pub proof fn lemma_u16_round_trip(number: u16)
    ensures
        u16_from_be(u16_be(number)[0], u16_be(number)[1]) == number,
{
}

/// Joining two bytes and splitting the number gives them back.
pub proof fn lemma_u16_bytes_round_trip(high: u8, low: u8)
    ensures
        u16_be(u16_from_be(high, low)) == seq![high, low],
{
    lemma_fundamental_div_mod_converse(high * 256 + low, 256, high as int, low as int);
}

/// Splitting a 32-bit number into bytes and joining them gives it back.
pub proof fn lemma_u32_round_trip(number: u32)
    ensures
        u32_from_be(
            u32_be(number)[0],
            u32_be(number)[1],
            u32_be(number)[2],
            u32_be(number)[3],
        ) == number,
{
}

/// Joining four bytes and splitting the number gives them back.
pub proof fn lemma_u32_bytes_round_trip(b0: u8, b1: u8, b2: u8, b3: u8)
    ensures
        u32_be(u32_from_be(b0, b1, b2, b3)) == seq![b0, b1, b2, b3],
{
    let number = u32_from_be(b0, b1, b2, b3) as int;
    lemma_fundamental_div_mod_converse(number, 0x100_0000, b0 as int, b1 * 0x1_0000 + b2 * 0x100 + b3);
    lemma_fundamental_div_mod_converse(number, 0x1_0000, b0 * 0x100 + b1, b2 * 0x100 + b3);
    lemma_fundamental_div_mod_converse(b0 * 0x100 + b1, 256, b0 as int, b1 as int);
    lemma_fundamental_div_mod_converse(number, 0x100, b0 * 0x1_0000 + b1 * 0x100 + b2, b3 as int);
    lemma_fundamental_div_mod_converse(b0 * 0x1_0000 + b1 * 0x100 + b2, 256, b0 * 0x100 + b1, b2 as int);
}

/// Reads the 16-bit number whose two bytes start at `at`.
pub fn read_u16(bytes: &[u8], at: usize) -> (number: u16)
    requires
        at + 2 <= bytes@.len(),
    ensures
        number == u16_from_be(bytes@[at as int], bytes@[at + 1]),
{
    let high: u16 = bytes[at] as u16;
    let low: u16 = bytes[at + 1] as u16;
    high * 256 + low
}

/// Joins four bytes in network order into a 32-bit number.
pub fn join_u32(b0: u8, b1: u8, b2: u8, b3: u8) -> (number: u32)
    ensures
        number == u32_from_be(b0, b1, b2, b3),
{
    (b0 as u32) * 0x100_0000 + (b1 as u32) * 0x1_0000 + (b2 as u32) * 0x100 + (b3 as u32)
}

/// Reads the 32-bit number whose four bytes start at `at`.
pub fn read_u32(bytes: &[u8], at: usize) -> (number: u32)
    requires
        at + 4 <= bytes@.len(),
    ensures
        number == u32_from_be(
            bytes@[at as int],
            bytes@[at + 1],
            bytes@[at + 2],
            bytes@[at + 3],
        ),
{
    join_u32(bytes[at], bytes[at + 1], bytes[at + 2], bytes[at + 3])
}

} // verus!
