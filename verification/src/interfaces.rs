//! The choice of the address on which a stand-in console listens.

use vstd::prelude::*;
use crate::error::Error;

verus! {

/// An address of a network interface.
#[derive(Debug, Clone, Copy)]
pub enum Address {
    V4([u8; 4]),
    V6,
}

/// A network interface: its name and its addresses, in the system's order.
#[derive(Debug)]
pub struct Interface {
    pub name: String,
    pub addresses: Vec<Address>,
}

/// A console can listen on `a`: an IPv4 address outside 127.0.0.0/8.
pub open spec fn is_bindable(a: Address) -> bool {
    match a {
        Address::V4(ip) => ip[0] != 127,
        Address::V6 => false,
    }
}

/// One of the addresses is one that a console can listen on.
pub open spec fn has_bindable(addresses: Seq<Address>) -> bool {
    exists|i: int| 0 <= i < addresses.len() && is_bindable(#[trigger] addresses[i])
}

/// The first IPv4 address among `addresses`.
pub open spec fn first_v4(addresses: Seq<Address>) -> Option<[u8; 4]>
    decreases addresses.len(),
{
    if addresses.len() == 0 {
        None
    } else {
        match addresses[0] {
            Address::V4(ip) => Some(ip),
            Address::V6 => first_v4(addresses.skip(1)),
        }
    }
}

/// The address that the choice of interface number `choice` gives.
pub open spec fn bind_address(interfaces: Seq<Interface>, choice: usize) -> Result<
    [u8; 4],
    Error,
> {
    if choice >= interfaces.len() {
        Err(Error::InvalidChoice)
    } else {
        match first_v4(interfaces[choice as int].addresses@) {
            Some(ip) => Ok(ip),
            None => Err(Error::NoIpv4Address),
        }
    }
}

impl Interface {
    /// Whether the interface is offered for choice: whether it has an IPv4
    /// address that is not a loopback address.
    pub fn is_candidate(&self) -> (r: bool)
        ensures
            r == has_bindable(self.addresses@),
    {
        let mut i: usize = 0;
        while i < self.addresses.len()
            invariant
                i <= self.addresses.len(),
                forall|j: int| 0 <= j < i ==> !is_bindable(#[trigger] self.addresses@[j]),
            decreases self.addresses.len() - i,
        {
            match self.addresses[i] {
                Address::V4(ip) => {
                    if ip[0] != 127 {
                        assert(is_bindable(self.addresses@[i as int]));
                        return true;
                    }
                },
                Address::V6 => {},
            }
            i = i + 1;
        }
        false
    }
}

/// The address to listen on when interface number `choice` of `interfaces` was
/// chosen: its first IPv4 address.
pub fn choose_bind_addr(interfaces: &Vec<Interface>, choice: usize) -> (r: Result<[u8; 4], Error>)
    ensures
        r == bind_address(interfaces@, choice),
{
    if choice >= interfaces.len() {
        return Err(Error::InvalidChoice);
    }
    let addresses = &interfaces[choice].addresses;
    let mut i: usize = 0;
    proof {
        assert(addresses@.skip(0) =~= addresses@);
    }
    while i < addresses.len()
        invariant
            i <= addresses.len(),
            choice < interfaces.len(),
            addresses@ == interfaces@[choice as int].addresses@,
            first_v4(addresses@) == first_v4(addresses@.skip(i as int)),
        decreases addresses.len() - i,
    {
        proof {
            assert(addresses@.skip(i as int)[0] == addresses@[i as int]);
            assert(addresses@.skip(i as int).skip(1) =~= addresses@.skip(i + 1));
        }
        match addresses[i] {
            Address::V4(ip) => {
                return Ok(ip);
            },
            Address::V6 => {},
        }
        i = i + 1;
    }
    Err(Error::NoIpv4Address)
}

} // verus!
