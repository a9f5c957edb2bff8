//! Bring-up of the AXI DMA engine with fixed descriptor-ring sizes.
use crate::drivers::{dma_bringup, DmaOp};
use vstd::prelude::*;

verus! {

/// Receive descriptors in the cyclic ring.
pub const RX_BD_CNT: usize = 500;

/// Transmit descriptors in the cyclic ring.
pub const TX_BD_CNT: usize = 500;

/// Bring-up of the DMA engine with 500 descriptors in each ring.
pub fn init() -> (ops: Vec<DmaOp>)
    ensures
        ops@ == dma_bringup(TX_BD_CNT, RX_BD_CNT),
{
    crate::drivers::dma_ops(TX_BD_CNT, RX_BD_CNT)
}

} // verus!
