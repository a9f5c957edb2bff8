//! DMA engine driver.
pub mod axi_dma;

use crate::drivers::{dma_bringup, DmaOp};
use vstd::prelude::*;

verus! {

/// Bring-up of the DMA engine.
pub fn init() -> (ops: Vec<DmaOp>)
    ensures
        ops@ == dma_bringup(axi_dma::TX_BD_CNT, axi_dma::RX_BD_CNT),
{
    axi_dma::init()
}

} // verus!
