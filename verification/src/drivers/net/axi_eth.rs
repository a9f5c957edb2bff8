//! Bring-up of the AXI Ethernet MAC at its fixed board address.
use crate::drivers::{eth_bringup, eth_ops, EthOp};
use vstd::prelude::*;

verus! {

/// Base address of the AXI Ethernet core.
pub const AXI_ETHERNET_BASE_ADDR: usize = 0x60140000;

/// MAC address the core is given.
pub const MAC_ADDR: [u8; 6] = [0x00, 0x0A, 0x35, 0x01, 0x02, 0x03];

/// Bring-up of the Ethernet MAC with `MAC_ADDR`.
pub fn init() -> (ops: Vec<EthOp>)
    ensures
        ops@ == eth_bringup(MAC_ADDR),
{
    eth_ops(MAC_ADDR)
}

} // verus!
