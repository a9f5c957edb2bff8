use axi_net::config::NetConfig;
use axi_net::drivers::dma::axi_dma::{RX_BD_CNT, TX_BD_CNT};
use axi_net::drivers::net::axi_eth::MAC_ADDR;
use axi_net::drivers::net::{capabilities, dma_init, eth_init, DeviceCapabilities, Medium};
use axi_net::drivers::{
    eth_test_plan, jumbo_options,
    dma, link_status_for_speed, net, task_should_poll, task_state_after_pending, DmaOp, DriverOp,
    EthOp, LinkStatus, TASK_PARKED, TASK_RUNNABLE, TASK_WOKEN,
};

fn config() -> NetConfig {
    NetConfig {
        mac_addr: [0x00, 0x0a, 0x35, 0x01, 0x02, 0x03],
        eth_baseaddr: 0x6014_0000,
        dma_baseaddr: 0x6010_0000,
        tx_bd_cnt: 16,
        rx_bd_cnt: 32,
        mtu: 1514,
    }
}

fn dma_steps(tx: usize, rx: usize) -> Vec<DmaOp> {
    vec![
        DmaOp::Reset,
        DmaOp::TxCyclicEnable,
        DmaOp::RxCyclicEnable,
        DmaOp::TxBdCreate(tx),
        DmaOp::RxBdCreate(rx),
        DmaOp::TxIntrEnable,
        DmaOp::RxIntrEnable,
    ]
}

fn eth_steps(mac: [u8; 6]) -> Vec<EthOp> {
    vec![
        EthOp::Reset,
        EthOp::EnableJumbo,
        EthOp::DetectPhy,
        EthOp::ApplyPhySpeed,
        EthOp::SetMacAddress(mac),
        EthOp::EnableRxMemovr,
        EthOp::EnableRxRject,
        EthOp::EnableRxCmplt,
        EthOp::Start,
    ]
}

#[test]
fn dma_bringup_uses_configured_rings() {
    assert_eq!(dma_init(&config()), dma_steps(16, 32));
}

#[test]
fn fixed_dma_bringup() {
    assert_eq!(TX_BD_CNT, 500);
    assert_eq!(RX_BD_CNT, 500);
    assert_eq!(dma::axi_dma::init(), dma_steps(500, 500));
    assert_eq!(dma::init(), dma_steps(500, 500));
}

#[test]
fn eth_bringup_uses_configured_mac() {
    assert_eq!(eth_init(&config()), eth_steps(config().mac_addr));
    assert_eq!(net::axi_eth::init(), eth_steps(MAC_ADDR));
}

#[test]
fn device_bringup_dma_then_mac() {
    let ops = net::init(&config());
    let mut expected: Vec<DriverOp> = dma_steps(16, 32).into_iter().map(DriverOp::Dma).collect();
    expected.extend(eth_steps(config().mac_addr).into_iter().map(DriverOp::Eth));
    assert_eq!(ops, expected);
    assert_eq!(axi_net::drivers::init(&config()), expected);
    assert_eq!(ops.len(), 16);
}

#[test]
fn link_follows_speed() {
    assert_eq!(link_status_for_speed(0), LinkStatus::EthLinkDown);
    assert_eq!(link_status_for_speed(1000), LinkStatus::EthLinkUp);
    assert_eq!(link_status_for_speed(10), LinkStatus::EthLinkUp);
}

#[test]
fn capabilities_of_device() {
    assert_eq!(
        capabilities(&config()),
        DeviceCapabilities { medium: Medium::Ethernet, max_transmission_unit: 1514, max_burst_size: Some(1) }
    );
}

#[test]
fn task_parks_until_woken() {
    assert!(task_should_poll(TASK_RUNNABLE));
    let s = task_state_after_pending(TASK_RUNNABLE);
    assert_eq!(s, TASK_PARKED);
    assert!(!task_should_poll(s));
    assert!(task_should_poll(TASK_WOKEN));
    assert_eq!(task_state_after_pending(TASK_WOKEN), TASK_WOKEN);
    assert_eq!(task_state_after_pending(TASK_PARKED), TASK_PARKED);
}

#[test]
fn transmit_test_plan() {
    let ops = eth_test_plan(&config());
    let mut expected: Vec<DriverOp> = dma_steps(16, 32).into_iter().map(DriverOp::Dma).collect();
    let mut eth = eth_steps(config().mac_addr);
    eth.pop();
    eth.push(EthOp::EnableTxCmplt);
    eth.push(EthOp::ClearTxCmplt);
    expected.extend(eth.into_iter().map(DriverOp::Eth));
    assert_eq!(ops, expected);
    assert_eq!(ops.len(), 17);
}

#[test]
fn jumbo_bit_is_or_ed() {
    assert_eq!(jumbo_options(0x0000_0001, 0x0000_0002), 0x0000_0003);
    assert_eq!(jumbo_options(0x0000_0002, 0x0000_0002), 0x0000_0002);
    assert_eq!(jumbo_options(0, 0x40), 0x40);
}
