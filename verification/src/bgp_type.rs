//! Basic value types of the protocol.

pub use crate::autonomous_system_number::AutonomousSystemNumber;
use vstd::prelude::*;
use crate::wire::{join_u32, u32_be, u32_from_be};

verus! {

/// An IPv4 address, held as the 32-bit number whose most significant byte is
/// the first octet of the dotted form.
#[derive(PartialEq, Eq, PartialOrd, Ord, Hash, Debug, Clone, Copy, Structural)]
pub struct Ipv4Address(pub u32);

impl Ipv4Address {
    /// The four octets of the address, first octet first.
    pub open spec fn spec_octets(self) -> Seq<u8> {
        u32_be(self.0)
    }

    /// The address `a.b.c.d`.
    pub fn new(a: u8, b: u8, c: u8, d: u8) -> (address: Self)
        ensures
            address.0 == u32_from_be(a, b, c, d),
            address.spec_octets() == seq![a, b, c, d],
    {
        proof {
            crate::wire::lemma_u32_bytes_round_trip(a, b, c, d);
        }
        Ipv4Address(join_u32(a, b, c, d))
    }

    /// The four octets of the address, first octet first.
    pub fn octets(&self) -> (octets: [u8; 4])
        ensures
            octets@ == self.spec_octets(),
    {
        let number = self.0;
        let octets = [
            (number / 0x100_0000) as u8,
            ((number / 0x1_0000) % 256) as u8,
            ((number / 0x100) % 256) as u8,
            (number % 256) as u8,
        ];
        octets
    }
}

} // verus!
