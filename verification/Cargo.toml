[package]
name = "axi_net"
version = "0.1.0"
edition = "2021"
publish = false

[dependencies]
smoltcp = "0.10"
log = "0.4"
spin = "0.9"
lazy_static = "1"
crossbeam = "0.8"
riscv = "0.10"
sbi-rt = "0.0.2"
axi-dma = "0.1"
