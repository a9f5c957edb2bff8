use vstd::prelude::*;

verus! {

/// Boot kernel stack size allocated in the entry code for a single CPU.
pub const BOOT_STACK_SIZE: usize = 0x4_0000;

/// Number of harts the kernel runs on.
pub const CPU_NUM: usize = 1;

/// Total boot kernel stack size.
pub const TOTAL_BOOT_STACK_SIZE: usize = BOOT_STACK_SIZE * CPU_NUM;

/// Size of the kernel heap.
pub const KERNEL_HEAP_SIZE: usize = 0x20_000;

/// Frequency of the `time` counter, in ticks per second.
pub const CLOCK_FREQ: usize = 10_000_000;

/// Microseconds per second.
pub const USEC_PER_SEC: usize = 1_000_000;

} // verus!

verus! {

/// How the network driver waits for DMA transfers: by polling, or by
/// parking futures that the DMA interrupts wake.
#[derive(Clone, Copy, Debug, PartialEq, Eq, Structural)]
pub enum NetMode {
    Sync,
    Async,
}

/// Board configuration of the Ethernet MAC and its DMA engine.
#[derive(Clone, Copy, Debug, PartialEq, Eq)]
pub struct NetConfig {
    pub mac_addr: [u8; 6],
    pub eth_baseaddr: usize,
    pub dma_baseaddr: usize,
    pub tx_bd_cnt: usize,
    pub rx_bd_cnt: usize,
    pub mtu: usize,
}

} // verus!
