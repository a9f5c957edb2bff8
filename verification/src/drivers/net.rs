//! The AXI network device: bring-up of its DMA engine and MAC, and the
//! capabilities it offers the network stack.
pub mod axi_eth;

use crate::config::NetConfig;
use crate::drivers::{dma_bringup, dma_ops, driver_ops, eth_bringup, eth_ops, DmaOp, DriverOp, EthOp};
use vstd::prelude::*;

verus! {

/// Bring-up of the DMA engine with the configured descriptor-ring sizes.
pub fn dma_init(config: &NetConfig) -> (ops: Vec<DmaOp>)
    ensures
        ops@ == dma_bringup(config.tx_bd_cnt, config.rx_bd_cnt),
{
    dma_ops(config.tx_bd_cnt, config.rx_bd_cnt)
}

/// Bring-up of the Ethernet MAC with the configured MAC address.
pub fn eth_init(config: &NetConfig) -> (ops: Vec<EthOp>)
    ensures
        ops@ == eth_bringup(config.mac_addr),
{
    eth_ops(config.mac_addr)
}

/// The device bring-up: the DMA engine first, then the MAC.
pub open spec fn device_bringup(config: NetConfig) -> Seq<DriverOp> {
    dma_bringup(config.tx_bd_cnt, config.rx_bd_cnt).map_values(|op: DmaOp| DriverOp::Dma(op))
        + eth_bringup(config.mac_addr).map_values(|op: EthOp| DriverOp::Eth(op))
}

/// Bring-up of the network device.
pub fn init(config: &NetConfig) -> (ops: Vec<DriverOp>)
    ensures
        ops@ == device_bringup(*config),
{
    let dma = dma_init(config);
    let eth = eth_init(config);
    driver_ops(&dma, &eth)
}

/// The medium a device carries.
#[derive(Clone, Copy, Debug, PartialEq, Eq)]
pub enum Medium {
    Ethernet,
    Ip,
}

/// What a device offers the network stack.
#[derive(Clone, Copy, Debug, PartialEq, Eq)]
pub struct DeviceCapabilities {
    pub medium: Medium,
    pub max_transmission_unit: usize,
    pub max_burst_size: Option<usize>,
}

/// The AXI device's capabilities: Ethernet frames of up to the configured
/// MTU, one frame per burst.
pub fn capabilities(config: &NetConfig) -> (caps: DeviceCapabilities)
    ensures
        caps == (DeviceCapabilities {
            medium: Medium::Ethernet,
            max_transmission_unit: config.mtu,
            max_burst_size: Some(1),
        }),
{
    DeviceCapabilities { medium: Medium::Ethernet, max_transmission_unit: config.mtu, max_burst_size: Some(1) }
}

} // verus!
