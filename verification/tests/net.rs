use axi_net::config::NetMode;
use axi_net::net::interface::set_up;
use axi_net::net::wire::{Ipv4Address, Ipv4Cidr};
use axi_net::net::{
    eth_irq_action, init, net_interrupt_handler, tcp_echo_reply, EthIrqAction, NetIrqAction,
};

#[test]
fn echo_reverses_and_drops_newlines() {
    let (n, reply) = tcp_echo_reply(b"hello\nworld\n");
    assert_eq!(reply, b"dlrowolleh".to_vec());
    assert_eq!(n, 10);
}

#[test]
fn echo_of_empty_is_empty() {
    let (n, reply) = tcp_echo_reply(b"");
    assert_eq!(n, 0);
    assert!(reply.is_empty());
}

#[test]
fn echo_of_only_newlines_is_empty() {
    let (n, reply) = tcp_echo_reply(b"\n\n\n");
    assert_eq!(n, 0);
    assert!(reply.is_empty());
}

#[test]
fn echo_without_newlines_is_reverse() {
    let (n, reply) = tcp_echo_reply(b"abc");
    assert_eq!(n, 3);
    assert_eq!(reply, b"cba".to_vec());
}

#[test]
fn echo_keeps_carriage_returns() {
    let (_, reply) = tcp_echo_reply(b"a\r\nb");
    assert_eq!(reply, b"b\ra".to_vec());
}

#[test]
fn irq_lines_sync() {
    assert_eq!(net_interrupt_handler(2, NetMode::Sync), NetIrqAction::MacEvent);
    assert_eq!(net_interrupt_handler(3, NetMode::Sync), NetIrqAction::EthStatus);
    assert_eq!(net_interrupt_handler(4, NetMode::Sync), NetIrqAction::Ignore);
    assert_eq!(net_interrupt_handler(5, NetMode::Sync), NetIrqAction::Ignore);
    assert_eq!(net_interrupt_handler(1, NetMode::Sync), NetIrqAction::Ignore);
}

#[test]
fn irq_lines_async() {
    assert_eq!(net_interrupt_handler(2, NetMode::Async), NetIrqAction::MacEvent);
    assert_eq!(net_interrupt_handler(3, NetMode::Async), NetIrqAction::EthStatus);
    assert_eq!(net_interrupt_handler(4, NetMode::Async), NetIrqAction::WakeTx);
    assert_eq!(net_interrupt_handler(5, NetMode::Async), NetIrqAction::WakeRx);
    assert_eq!(net_interrupt_handler(6, NetMode::Async), NetIrqAction::Ignore);
}

#[test]
fn eth_status_priority() {
    assert_eq!(eth_irq_action(true, true), EthIrqAction::ClearRx);
    assert_eq!(eth_irq_action(true, false), EthIrqAction::ClearRx);
    assert_eq!(eth_irq_action(false, true), EthIrqAction::ClearTx);
    assert_eq!(eth_irq_action(false, false), EthIrqAction::Report);
}

#[test]
fn interface_address() {
    let expected = Ipv4Cidr { address: Ipv4Address([172, 16, 1, 2]), prefix_len: 30 };
    assert_eq!(set_up(), expected);
    assert_eq!(init(NetMode::Sync), Some(expected));
    assert_eq!(init(NetMode::Async), None);
}
