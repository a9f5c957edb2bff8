# axi_net

The verified core of a small RISC-V kernel that drives a Xilinx AXI
Ethernet MAC through an AXI DMA engine and runs smoltcp on top of it.

- `src/` is the library, verified with Verus: interrupt-controller context
  arithmetic and programming plans (`plic`), trap decoding (`trap`), device
  bring-up plans and link/task decisions (`drivers`), the network interrupt
  and echo decisions (`net`), and construction of ARP and IPv4/TCP reply
  frames (`net::reply`), whose header emission is delegated to smoltcp's
  `wire` module (`net::wire`).
- `app/` is the kernel around it: entry code, trap entry, register and MMIO
  access, the smoltcp device and sockets, and the loops that perform the
  steps the library plans.
- `tests/` exercises the library on concrete values.
