//! Addressing of the smoltcp interface that sits on the AXI device.
use crate::net::wire::{Ipv4Address, Ipv4Cidr};
use vstd::prelude::*;

verus! {

/// The address block the interface is configured with: 172.16.1.2/30.
pub open spec fn interface_cidr() -> Ipv4Cidr {
    Ipv4Cidr { address: Ipv4Address([172u8, 16u8, 1u8, 2u8]), prefix_len: 30 }
}

/// The address the interface is set up with.
pub fn set_up() -> (cidr: Ipv4Cidr)
    ensures
        cidr == interface_cidr(),
{
    Ipv4Cidr { address: Ipv4Address([172, 16, 1, 2]), prefix_len: 30 }
}

} // verus!
