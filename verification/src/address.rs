//! Addresses in the heap and references to the objects in it.

use vstd::prelude::*;

verus! {

/// An address in memory.
#[derive(Clone, Copy, Debug, PartialEq, Eq, Structural)]
pub struct Address(pub usize);

/// A reference to an object: the address at which the object starts.
#[derive(Clone, Copy, Debug, PartialEq, Eq, Structural)]
pub struct ObjectReference(pub Address);

/// A reference as native code hands it over: the address of an object, or zero for none.
#[derive(Clone, Copy, Debug, PartialEq, Eq, Structural)]
pub struct NullableObjectReference(pub usize);

/// The addresses from `start` up to, and without, `end`.
#[derive(Clone, Copy, Debug, PartialEq, Eq, Structural)]
pub struct AddressRange {
    pub start: Address,
    pub end: Address,
}

impl Address {
    /// The address as an integer.
    pub open spec fn at(self) -> int {
        self.0 as int
    }

    /// The address that lies `bytes` above this one.
    pub fn plus(self, bytes: usize) -> (sum: Address)
        requires
            self.at() + bytes <= usize::MAX,
        ensures
            sum.at() == self.at() + bytes,
            sum.0 == self.0 + bytes,
    {
        Address(self.0 + bytes)
    }

    /// The address that lies `bytes` above this one, or below it where `bytes` is negative.
    pub fn offset(self, bytes: i32) -> (sum: Address)
        requires
            0 <= self.at() + bytes <= usize::MAX,
        ensures
            sum.at() == self.at() + bytes,
            sum.0 == self.0 + bytes,
    {
        if bytes >= 0 {
            Address(self.0 + bytes as usize)
        } else {
            Address(self.0 - (-(bytes as i64)) as usize)
        }
    }

    /// The address that lies `bytes` above this one, or below it where `bytes` is negative, if it
    /// exists.
    pub fn checked_offset(self, bytes: i32) -> (sum: Option<Address>)
        ensures
            match sum {
                Some(sum) => sum.at() == self.at() + bytes,
                None => !(0 <= self.at() + bytes <= usize::MAX),
            },
            match sum {
                Some(sum) => sum.0 == self.0 + bytes,
                None => self.0 + bytes < 0 || self.0 + bytes > usize::MAX,
            },
    {
        let exists = if bytes >= 0 {
            bytes as usize <= usize::MAX - self.0
        } else {
            (-(bytes as i64)) as usize <= self.0
        };
        if exists {
            Some(self.offset(bytes))
        } else {
            None
        }
    }

    /// The number of bytes from `lower` up to this address.
    pub fn minus(self, lower: Address) -> (bytes: usize)
        requires
            lower.at() <= self.at(),
        ensures
            bytes == self.at() - lower.at(),
            bytes == self.0 - lower.0,
    {
        self.0 - lower.0
    }
}

impl ObjectReference {
    /// The address at which the object starts.
    pub fn to_raw_address(self) -> (address: Address)
        ensures
            address == self.0,
    {
        self.0
    }
}

impl NullableObjectReference {
    /// The reference that native code handed over, if it is one.
    pub open spec fn spec_to_option(self) -> Option<ObjectReference> {
        if self.0 == 0 {
            None
        } else {
            Some(ObjectReference(Address(self.0)))
        }
    }

    /// The reference that native code handed over, or `None` for zero.
    pub fn to_option(self) -> (reference: Option<ObjectReference>)
        ensures
            reference == self.spec_to_option(),
            self.0 == 0 <==> reference is None,
            reference matches Some(object) ==> object.0.0 == self.0,
    {
        if self.0 == 0 {
            None
        } else {
            Some(ObjectReference(Address(self.0)))
        }
    }
}

/// An address is its number.
pub proof fn law_address_is_its_number(address: Address)
    ensures
        address.at() == address.0,
{
}

/// Zero is no reference, and every other number is the reference to the object that starts there.
pub proof fn law_only_zero_is_no_reference(number: usize)
    ensures
        NullableObjectReference(number).spec_to_option() is None <==> number == 0,
        number != 0 ==> NullableObjectReference(number).spec_to_option() == Some(
            ObjectReference(Address(number)),
        ),
{
}

} // verus!
