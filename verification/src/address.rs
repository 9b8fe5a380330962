//! Account addresses.

use vstd::prelude::*;

verus! {

/// A 256-bit account address, held as two 128-bit halves.
///
/// The all-zero address is reserved: it stands for "nobody" wherever an
/// address field has not been filled in yet.
#[derive(Clone, Copy, Debug, PartialEq, Eq, Structural)]
pub struct Address {
    pub hi: u128,
    pub lo: u128,
}

impl Address {
    /// The reserved all-zero address.
    pub open spec fn spec_zero() -> Address {
        Address { hi: 0, lo: 0 }
    }

    /// Whether this is the reserved all-zero address.
    pub open spec fn spec_is_zero(&self) -> bool {
        self.hi == 0 && self.lo == 0
    }

    /// The address with the given halves.
    pub fn new(hi: u128, lo: u128) -> (a: Address)
        ensures
            a == (Address { hi, lo }),
    {
        Address { hi, lo }
    }

    /// The reserved all-zero address.
    #[verifier::when_used_as_spec(spec_zero)]
    pub fn zero() -> (a: Address)
        ensures
            a == Address::spec_zero(),
    {
        Address { hi: 0, lo: 0 }
    }

    /// Whether this is the reserved all-zero address.
    #[verifier::when_used_as_spec(spec_is_zero)]
    pub fn is_zero(&self) -> (z: bool)
        ensures
            z == self.spec_is_zero(),
            z == (*self == Address::spec_zero()),
    {
        self.hi == 0 && self.lo == 0
    }
}

/// Whether no address occurs twice in `list`.
pub fn all_distinct(list: &Vec<Address>) -> (distinct: bool)
    ensures
        distinct == list@.no_duplicates(),
{
    let mut i: usize = 0;
    while i < list.len()
        invariant
            i <= list@.len(),
            forall|a: int, b: int| 0 <= a < b < i ==> list@[a] != list@[b],
        decreases list@.len() - i,
    {
        let mut j: usize = 0;
        while j < i
            invariant
                i < list@.len(),
                j <= i,
                forall|a: int| 0 <= a < j ==> list@[a] != list@[i as int],
            decreases i - j,
        {
            if list[j] == list[i] {
                return false;
            }
            j += 1;
        }
        i += 1;
    }
    true
}

/// Whether the zero address does not occur in `list`.
pub fn none_zero(list: &Vec<Address>) -> (none: bool)
    ensures
        none == forall|k: int| 0 <= k < list@.len() ==> !(#[trigger] list@[k]).is_zero(),
{
    let mut i: usize = 0;
    while i < list.len()
        invariant
            i <= list@.len(),
            forall|k: int| 0 <= k < i ==> !(#[trigger] list@[k]).is_zero(),
        decreases list@.len() - i,
    {
        if list[i].is_zero() {
            return false;
        }
        i += 1;
    }
    true
}

} // verus!
