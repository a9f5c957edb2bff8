//! Verified core of a RISC-V network kernel built on an AXI Ethernet/DMA
//! pair: interrupt-controller context arithmetic and programming plans,
//! trap decoding, device bring-up plans and reply-frame construction.
pub mod boot;
pub mod config;
pub mod drivers;
pub mod plic;
pub mod trap;
pub mod net;
