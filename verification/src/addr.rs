use vstd::prelude::*;

verus! {

/// The two address families a domain binding may carry.
#[derive(Clone, Copy, Debug, PartialEq, Eq, Structural)]
pub enum Family {
    V4,
    V6,
}

/// An IP address as plain bits: 32 for v4, 128 for v6.
#[derive(Clone, Copy, Debug, PartialEq, Eq, Structural)]
pub enum Address {
    V4(u32),
    V6(u128),
}

/// The address of the given family among a binding's two optional columns.
pub open spec fn addr_of(v4: Option<u32>, v6: Option<u128>, family: Family) -> Option<Address> {
    match family {
        Family::V4 => match v4 {
            Some(a) => Some(Address::V4(a)),
            None => None,
        },
        Family::V6 => match v6 {
            Some(a) => Some(Address::V6(a)),
            None => None,
        },
    }
}

} // verus!
