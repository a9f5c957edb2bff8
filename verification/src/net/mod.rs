//! Network stack glue: the frames this kernel replies with and the
//! decisions its network interrupt handler and test loops take.
pub mod interface;
pub mod reply;
pub mod wire;

use crate::config::NetMode;
use crate::net::wire::Ipv4Cidr;
use vstd::prelude::*;

verus! {

/// The line-feed byte.
pub const NEWLINE: u8 = 0x0a;

/// Whether a byte is kept in an echo reply: every byte but a line feed.
pub open spec fn kept_in_echo(b: u8) -> bool {
    b != NEWLINE
}

/// The reply the TCP echo loop sends for received data: the data with every
/// line feed removed, in reverse order.
pub open spec fn echo_reply(data: Seq<u8>) -> Seq<u8> {
    data.filter(|b: u8| kept_in_echo(b)).reverse()
}

/// What the TCP echo loop does with the data a receive offers: it consumes
/// as many bytes as its reply has and returns that reply.
pub fn tcp_echo_reply(data: &[u8]) -> (r: (usize, Vec<u8>))
    ensures
        r.1@ == echo_reply(data@),
        r.0 == r.1.len(),
{
    let ghost pred = |b: u8| kept_in_echo(b);
    let mut kept: Vec<u8> = Vec::new();
    let mut i: usize = 0;
    while i < data.len()
        invariant
            i <= data.len(),
            pred == (|b: u8| kept_in_echo(b)),
            kept@ == data@.take(i as int).filter(pred),
        decreases data.len() - i,
    {
        let ghost prefix = data@.take(i + 1);
        proof {
            reveal(Seq::filter);
            assert(prefix.drop_last() =~= data@.take(i as int));
            assert(prefix.last() == data@[i as int]);
            assert(prefix.filter(pred) == if pred(prefix.last()) {
                prefix.drop_last().filter(pred).push(prefix.last())
            } else {
                prefix.drop_last().filter(pred)
            });
        }
        if data[i] != NEWLINE {
            kept.push(data[i]);
        }
        i = i + 1;
    }
    assert(data@.take(data.len() as int) =~= data@);
    let mut reply: Vec<u8> = Vec::new();
    let mut j: usize = 0;
    while j < kept.len()
        invariant
            j <= kept.len(),
            reply.len() == j,
            forall|k: int| 0 <= k < j ==> reply@[k] == kept@[kept.len() - 1 - k],
        decreases kept.len() - j,
    {
        reply.push(kept[kept.len() - 1 - j]);
        j = j + 1;
    }
    assert(reply@ =~= kept@.reverse());
    (reply.len(), reply)
}

/// What the network interrupt handler does for an interrupt line.
#[derive(Clone, Copy, Debug, PartialEq, Eq)]
pub enum NetIrqAction {
    /// The MAC signalled an event; it is only noted.
    MacEvent,
    /// The Ethernet core signalled completion; its status decides.
    EthStatus,
    /// A DMA transmit finished: wake the oldest waiting sender.
    WakeTx,
    /// A DMA receive finished: wake the oldest waiting receiver.
    WakeRx,
    /// The line is not one the network handler serves.
    Ignore,
}

/// The action for interrupt line `irq`: line 2 is the MAC, line 3 the
/// Ethernet core, and in asynchronous mode lines 4 and 5 are DMA transmit
/// and receive.
pub open spec fn net_irq_action(irq: u16, mode: NetMode) -> NetIrqAction {
    if irq == 2 {
        NetIrqAction::MacEvent
    } else if irq == 3 {
        NetIrqAction::EthStatus
    } else if irq == 4 && mode == NetMode::Async {
        NetIrqAction::WakeTx
    } else if irq == 5 && mode == NetMode::Async {
        NetIrqAction::WakeRx
    } else {
        NetIrqAction::Ignore
    }
}

/// Which action the network interrupt handler takes for line `irq`.
pub fn net_interrupt_handler(irq: u16, mode: NetMode) -> (r: NetIrqAction)
    ensures
        r == net_irq_action(irq, mode),
{
    if irq == 2 {
        NetIrqAction::MacEvent
    } else if irq == 3 {
        NetIrqAction::EthStatus
    } else if irq == 4 && mode == NetMode::Async {
        NetIrqAction::WakeTx
    } else if irq == 5 && mode == NetMode::Async {
        NetIrqAction::WakeRx
    } else {
        NetIrqAction::Ignore
    }
}

/// What the handler does with the Ethernet core's completion status.
#[derive(Clone, Copy, Debug, PartialEq, Eq)]
pub enum EthIrqAction {
    /// Acknowledge a completed receive.
    ClearRx,
    /// Record the transmit time and acknowledge a completed transmit.
    ClearTx,
    /// Neither completed: report the raw interrupt status.
    Report,
}

/// The action for the Ethernet core's status: a completed receive is served
/// first, then a completed transmit.
pub open spec fn eth_irq_action_spec(rx_cmplt: bool, tx_cmplt: bool) -> EthIrqAction {
    if rx_cmplt {
        EthIrqAction::ClearRx
    } else if tx_cmplt {
        EthIrqAction::ClearTx
    } else {
        EthIrqAction::Report
    }
}

/// Which completion of the Ethernet core the handler serves; the transmit
/// flag only matters when no receive completed.
pub fn eth_irq_action(rx_cmplt: bool, tx_cmplt: bool) -> (r: EthIrqAction)
    ensures
        r == eth_irq_action_spec(rx_cmplt, tx_cmplt),
{
    if rx_cmplt {
        EthIrqAction::ClearRx
    } else if tx_cmplt {
        EthIrqAction::ClearTx
    } else {
        EthIrqAction::Report
    }
}

/// Network start-up: in synchronous mode the smoltcp interface is given its
/// address; in asynchronous mode there is no interface to set up.
pub fn init(mode: NetMode) -> (r: Option<Ipv4Cidr>)
    ensures
        r == (if mode == NetMode::Sync {
            Some(interface::interface_cidr())
        } else {
            None
        }),
{
    match mode {
        NetMode::Sync => Some(interface::set_up()),
        NetMode::Async => None,
    }
}

/// Filtering out line feeds keeps a sequence that has none unchanged.
proof fn lemma_filter_keeps_all(data: Seq<u8>)
    requires
        forall|i: int| 0 <= i < data.len() ==> kept_in_echo(#[trigger] data[i]),
    ensures
        data.filter(|b: u8| kept_in_echo(b)) == data,
    decreases data.len(),
{
    reveal(Seq::filter);
    if data.len() > 0 {
        lemma_filter_keeps_all(data.drop_last());
        assert(data.drop_last().push(data.last()) =~= data);
    }
}

/// An echo reply is never longer than the data it answers, so the bytes
/// it consumes are always available; it holds no line feed; read
/// backwards it is the data without its line feeds; and data without line
/// feeds is echoed reversed.
pub proof fn lemma_echo_reply_shape(data: Seq<u8>)
    ensures
        echo_reply(data).len() <= data.len(),
        forall|i: int| 0 <= i < echo_reply(data).len() ==> #[trigger] echo_reply(data)[i] != NEWLINE,
        echo_reply(data).reverse() == data.filter(|b: u8| kept_in_echo(b)),
        (forall|i: int| 0 <= i < data.len() ==> #[trigger] data[i] != NEWLINE) ==> echo_reply(data)
            == data.reverse(),
{
    let pred = |b: u8| kept_in_echo(b);
    let kept = data.filter(pred);
    data.lemma_filter_len(pred);
    assert forall|i: int| 0 <= i < echo_reply(data).len() implies #[trigger] echo_reply(data)[i]
        != NEWLINE by {
        data.lemma_filter_pred(pred, kept.len() - 1 - i);
    }
    assert(echo_reply(data).reverse() =~= kept);
    if forall|i: int| 0 <= i < data.len() ==> #[trigger] data[i] != NEWLINE {
        lemma_filter_keeps_all(data);
    }
}

/// Line 2 is the MAC and line 3 the Ethernet core in both modes; the DMA
/// lines 4 and 5 wake transfers only in asynchronous mode; no other line is
/// served. At the Ethernet core a completed receive is served before a
/// completed transmit, and with neither the status is reported.
pub proof fn lemma_modes_differ_only_on_dma_lines(irq: u16)
    ensures
        irq != 4 && irq != 5 ==> net_irq_action(irq, NetMode::Sync) == net_irq_action(
            irq,
            NetMode::Async,
        ),
        net_irq_action(irq, NetMode::Sync) != NetIrqAction::WakeTx,
        net_irq_action(irq, NetMode::Sync) != NetIrqAction::WakeRx,
        net_irq_action(2, NetMode::Sync) == NetIrqAction::MacEvent,
        net_irq_action(3, NetMode::Sync) == NetIrqAction::EthStatus,
        net_irq_action(4, NetMode::Async) == NetIrqAction::WakeTx,
        net_irq_action(5, NetMode::Async) == NetIrqAction::WakeRx,
        !(2 <= irq <= 5) ==> net_irq_action(irq, NetMode::Async) == NetIrqAction::Ignore,
        eth_irq_action_spec(true, false) == EthIrqAction::ClearRx,
        eth_irq_action_spec(true, true) == EthIrqAction::ClearRx,
        eth_irq_action_spec(false, true) == EthIrqAction::ClearTx,
        eth_irq_action_spec(false, false) == EthIrqAction::Report,
{
}

} // verus!
