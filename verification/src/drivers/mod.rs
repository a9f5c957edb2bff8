//! Device drivers: bring-up plans for the DMA engine and the Ethernet MAC,
//! the link decisions taken from the PHY, and the scheduling state of the
//! test executor's task.
pub mod dma;
pub mod net;

use crate::config::NetConfig;
use vstd::prelude::*;

verus! {

/// One programming step of the DMA engine.
#[derive(Clone, Copy, Debug, PartialEq, Eq)]
pub enum DmaOp {
    Reset,
    TxCyclicEnable,
    RxCyclicEnable,
    /// Create the cyclic transmit ring with this many descriptors.
    TxBdCreate(usize),
    /// Create the cyclic receive ring with this many descriptors.
    RxBdCreate(usize),
    TxIntrEnable,
    RxIntrEnable,
}

/// DMA bring-up: reset, cyclic mode on both channels, the two descriptor
/// rings, then both channels' interrupts.
pub open spec fn dma_bringup(tx_bd_cnt: usize, rx_bd_cnt: usize) -> Seq<DmaOp> {
    seq![
        DmaOp::Reset,
        DmaOp::TxCyclicEnable,
        DmaOp::RxCyclicEnable,
        DmaOp::TxBdCreate(tx_bd_cnt),
        DmaOp::RxBdCreate(rx_bd_cnt),
        DmaOp::TxIntrEnable,
        DmaOp::RxIntrEnable,
    ]
}

/// The DMA bring-up steps for the given ring sizes.
pub fn dma_ops(tx_bd_cnt: usize, rx_bd_cnt: usize) -> (ops: Vec<DmaOp>)
    ensures
        ops@ == dma_bringup(tx_bd_cnt, rx_bd_cnt),
{
    let ops = vec![
        DmaOp::Reset,
        DmaOp::TxCyclicEnable,
        DmaOp::RxCyclicEnable,
        DmaOp::TxBdCreate(tx_bd_cnt),
        DmaOp::RxBdCreate(rx_bd_cnt),
        DmaOp::TxIntrEnable,
        DmaOp::RxIntrEnable,
    ];
    assert(ops@ =~= dma_bringup(tx_bd_cnt, rx_bd_cnt));
    ops
}

/// One programming step of the Ethernet MAC.
#[derive(Clone, Copy, Debug, PartialEq, Eq)]
pub enum EthOp {
    Reset,
    /// Read the option word and write it back with jumbo frames enabled.
    EnableJumbo,
    DetectPhy,
    /// Read the PHY's negotiated speed, run the MAC at it and record the
    /// link status `link_status_for_speed` gives.
    ApplyPhySpeed,
    SetMacAddress([u8; 6]),
    EnableRxMemovr,
    EnableRxRject,
    EnableRxCmplt,
    EnableTxCmplt,
    ClearTxCmplt,
    Start,
}

/// MAC bring-up: reset, jumbo frames, PHY detection and speed, the MAC
/// address, the receive interrupts (memory overrun, reject, complete), and
/// start.
pub open spec fn eth_bringup(mac: [u8; 6]) -> Seq<EthOp> {
    seq![
        EthOp::Reset,
        EthOp::EnableJumbo,
        EthOp::DetectPhy,
        EthOp::ApplyPhySpeed,
        EthOp::SetMacAddress(mac),
        EthOp::EnableRxMemovr,
        EthOp::EnableRxRject,
        EthOp::EnableRxCmplt,
        EthOp::Start,
    ]
}

/// The MAC bring-up steps for MAC address `mac`.
pub fn eth_ops(mac: [u8; 6]) -> (ops: Vec<EthOp>)
    ensures
        ops@ == eth_bringup(mac),
{
    let ops = vec![
        EthOp::Reset,
        EthOp::EnableJumbo,
        EthOp::DetectPhy,
        EthOp::ApplyPhySpeed,
        EthOp::SetMacAddress(mac),
        EthOp::EnableRxMemovr,
        EthOp::EnableRxRject,
        EthOp::EnableRxCmplt,
        EthOp::Start,
    ];
    assert(ops@ =~= eth_bringup(mac));
    ops
}

/// One step of the network device's bring-up.
#[derive(Clone, Copy, Debug, PartialEq, Eq)]
pub enum DriverOp {
    Dma(DmaOp),
    Eth(EthOp),
}

/// The device steps of DMA steps `dma` followed by MAC steps `eth`.
pub fn driver_ops(dma: &Vec<DmaOp>, eth: &Vec<EthOp>) -> (ops: Vec<DriverOp>)
    ensures
        ops@ == dma@.map_values(|op: DmaOp| DriverOp::Dma(op)) + eth@.map_values(
            |op: EthOp| DriverOp::Eth(op),
        ),
{
    let mut ops: Vec<DriverOp> = Vec::new();
    let mut i: usize = 0;
    while i < dma.len()
        invariant
            i <= dma.len(),
            ops@ == dma@.take(i as int).map_values(|op: DmaOp| DriverOp::Dma(op)),
        decreases dma.len() - i,
    {
        ops.push(DriverOp::Dma(dma[i]));
        proof {
            assert(ops@ =~= dma@.take(i + 1).map_values(|op: DmaOp| DriverOp::Dma(op)));
        }
        i = i + 1;
    }
    let ghost dma_part = ops@;
    let mut j: usize = 0;
    while j < eth.len()
        invariant
            j <= eth.len(),
            ops@ == dma_part + eth@.take(j as int).map_values(|op: EthOp| DriverOp::Eth(op)),
        decreases eth.len() - j,
    {
        ops.push(DriverOp::Eth(eth[j]));
        proof {
            assert(ops@ =~= dma_part + eth@.take(j + 1).map_values(|op: EthOp| DriverOp::Eth(op)));
        }
        j = j + 1;
    }
    proof {
        assert(dma@.take(dma.len() as int) =~= dma@);
        assert(eth@.take(eth.len() as int) =~= eth@);
    }
    ops
}

/// MAC bring-up for the transmit test: the regular bring-up without the
/// final start, then transmit-complete interrupts enabled and any pending
/// one cleared. The MAC is started only after the test transfer.
pub open spec fn eth_test_bringup(mac: [u8; 6]) -> Seq<EthOp> {
    eth_bringup(mac).drop_last() + seq![EthOp::EnableTxCmplt, EthOp::ClearTxCmplt]
}

/// The device steps of the transmit test before its transfer: the DMA
/// bring-up with the configured rings, then the test's MAC bring-up.
pub open spec fn eth_test_bringup_plan(config: NetConfig) -> Seq<DriverOp> {
    dma_bringup(config.tx_bd_cnt, config.rx_bd_cnt).map_values(|op: DmaOp| DriverOp::Dma(op))
        + eth_test_bringup(config.mac_addr).map_values(|op: EthOp| DriverOp::Eth(op))
}

/// The device steps the transmit test takes before its transfer.
pub fn eth_test_plan(config: &NetConfig) -> (ops: Vec<DriverOp>)
    ensures
        ops@ == eth_test_bringup_plan(*config),
{
    let dma = dma_ops(config.tx_bd_cnt, config.rx_bd_cnt);
    let eth = vec![
        EthOp::Reset,
        EthOp::EnableJumbo,
        EthOp::DetectPhy,
        EthOp::ApplyPhySpeed,
        EthOp::SetMacAddress(config.mac_addr),
        EthOp::EnableRxMemovr,
        EthOp::EnableRxRject,
        EthOp::EnableRxCmplt,
        EthOp::EnableTxCmplt,
        EthOp::ClearTxCmplt,
    ];
    assert(eth@ =~= eth_test_bringup(config.mac_addr));
    driver_ops(&dma, &eth)
}

/// The MAC option word with the jumbo-frame option bit(s) set.
pub fn jumbo_options(options: u32, jumbo_option: u32) -> (r: u32)
    ensures
        r == options | jumbo_option,
{
    options | jumbo_option
}

/// Bring-up of every driver: the network device.
pub fn init(config: &NetConfig) -> (ops: Vec<DriverOp>)
    ensures
        ops@ == net::device_bringup(*config),
{
    net::init(config)
}

/// State of an Ethernet link.
#[derive(Clone, Copy, Debug, PartialEq, Eq, Structural)]
pub enum LinkStatus {
    EthLinkDown,
    EthLinkUp,
}

/// The link is down exactly when the PHY reports speed 0.
pub fn link_status_for_speed(speed: u32) -> (status: LinkStatus)
    ensures
        status == (if speed == 0 {
            LinkStatus::EthLinkDown
        } else {
            LinkStatus::EthLinkUp
        }),
{
    if speed == 0 {
        LinkStatus::EthLinkDown
    } else {
        LinkStatus::EthLinkUp
    }
}

/// A task that can be polled.
pub const TASK_RUNNABLE: u32 = 0;

/// A task that returned pending and waits for a wake-up.
pub const TASK_PARKED: u32 = 1;

/// A task that has been woken.
pub const TASK_WOKEN: u32 = 2;

/// Whether the executor polls a task in `state`: unless it is parked.
pub open spec fn should_poll(state: u32) -> bool {
    state != TASK_PARKED
}

/// The state of a task that returned pending: parked if it was runnable,
/// unchanged otherwise (a woken task stays woken).
pub open spec fn state_after_pending(state: u32) -> u32 {
    if state == TASK_RUNNABLE {
        TASK_PARKED
    } else {
        state
    }
}

/// Whether the executor polls a task in `state`.
pub fn task_should_poll(state: u32) -> (r: bool)
    ensures
        r == should_poll(state),
{
    state != TASK_PARKED
}

/// The state of a task after a poll returned pending.
pub fn task_state_after_pending(state: u32) -> (r: u32)
    ensures
        r == state_after_pending(state),
{
    if state == TASK_RUNNABLE {
        TASK_PARKED
    } else {
        state
    }
}

/// A runnable task that returns pending is parked and not polled again
/// until a wake marks it woken; a woken task is polled, and returning
/// pending again leaves it woken and polled.
pub proof fn lemma_task_parks_until_woken()
    ensures
        !should_poll(state_after_pending(TASK_RUNNABLE)),
        state_after_pending(TASK_PARKED) == TASK_PARKED,
        should_poll(TASK_WOKEN),
        state_after_pending(TASK_WOKEN) == TASK_WOKEN,
{
}

/// Device bring-up is 16 steps: the 7 DMA steps, with the configured ring
/// sizes, before any MAC step; the MAC gets the configured address and is
/// started last.
pub proof fn lemma_device_bringup_order(config: NetConfig)
    ensures
        net::device_bringup(config).len() == 16,
        forall|k: int| 0 <= k < 7 ==> #[trigger] net::device_bringup(config)[k] is Dma,
        forall|k: int| 7 <= k < 16 ==> #[trigger] net::device_bringup(config)[k] is Eth,
        net::device_bringup(config)[3] == DriverOp::Dma(DmaOp::TxBdCreate(config.tx_bd_cnt)),
        net::device_bringup(config)[4] == DriverOp::Dma(DmaOp::RxBdCreate(config.rx_bd_cnt)),
        net::device_bringup(config)[11] == DriverOp::Eth(EthOp::SetMacAddress(config.mac_addr)),
        net::device_bringup(config)[15] == DriverOp::Eth(EthOp::Start),
{
    let d = dma_bringup(config.tx_bd_cnt, config.rx_bd_cnt).map_values(|op: DmaOp| DriverOp::Dma(op));
    let e = eth_bringup(config.mac_addr).map_values(|op: EthOp| DriverOp::Eth(op));
    assert(net::device_bringup(config) == d + e);
    assert forall|k: int| 7 <= k < 16 implies #[trigger] net::device_bringup(config)[k] is Eth by {
        assert(net::device_bringup(config)[k] == e[k - 7]);
    }
    assert(net::device_bringup(config)[11] == e[4]);
    assert(net::device_bringup(config)[15] == e[8]);
}

} // verus!
