//! Autonomous system numbers.

use vstd::prelude::*;
use std::cmp::Ordering;

verus! {

/// A two-octet autonomous system number. Equality and ordering are those of
/// the number it holds.
#[derive(PartialEq, Eq, Ord, Hash, Debug, Clone, Copy, Structural)]
pub struct AutonomousSystemNumber(pub u16);

impl PartialOrd for AutonomousSystemNumber {
    fn partial_cmp(&self, other: &Self) -> (order: Option<Ordering>) {
        if self.0 < other.0 {
            Some(Ordering::Less)
        } else if self.0 == other.0 {
            Some(Ordering::Equal)
        } else {
            Some(Ordering::Greater)
        }
    }
}

impl vstd::std_specs::cmp::PartialOrdSpecImpl for AutonomousSystemNumber {
    open spec fn obeys_partial_cmp_spec() -> bool {
        true
    }

    /// The order of two AS numbers is the order of the numbers they hold.
    open spec fn partial_cmp_spec(&self, other: &Self) -> Option<Ordering> {
        if self.0 < other.0 {
            Some(Ordering::Less)
        } else if self.0 == other.0 {
            Some(Ordering::Equal)
        } else {
            Some(Ordering::Greater)
        }
    }
}

impl From<u16> for AutonomousSystemNumber {
    fn from(as_number: u16) -> (asn: Self)
        ensures
            asn.0 == as_number,
    {
        Self(as_number)
    }
}

impl vstd::std_specs::convert::FromSpecImpl<u16> for AutonomousSystemNumber {
    open spec fn obeys_from_spec() -> bool {
        true
    }

    open spec fn from_spec(as_number: u16) -> Self {
        AutonomousSystemNumber(as_number)
    }
}

impl From<AutonomousSystemNumber> for u16 {
    fn from(asn: AutonomousSystemNumber) -> (as_number: u16)
        ensures
            as_number == asn.0,
    {
        asn.0
    }
}

impl vstd::std_specs::convert::FromSpecImpl<AutonomousSystemNumber> for u16 {
    open spec fn obeys_from_spec() -> bool {
        true
    }

    open spec fn from_spec(asn: AutonomousSystemNumber) -> u16 {
        asn.0
    }
}

} // verus!
