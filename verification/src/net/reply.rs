//! Construction of the reply headers and of whole Ethernet frames carrying
//! either an ARP packet or an IPv4/TCP segment.
use crate::net::wire::{
    arp_operation_code, arp_operation_of_code, checksum_data, fold16, ip_protocol_of_code,
    lemma_ipv4_header_reads_back, lemma_tcp_checksum_verifies, lemma_tcp_segment_reads_back,
    tcp_flags_word, tcp_option_bytes, tcp_pseudo_sum, tcp_segment_unchecked, word_sum, arp_packet_bytes, ethertype_of_code, lemma_read_be16_of, emit_arp_packet, emit_ethernet_header, emit_ipv4_header,
    emit_tcp_segment, ethernet_header_bytes, ethertype_code, ip_protocol_code, ipv4_header_bytes,
    be16, be32, ipv4_total_len, lemma_be16_read, lemma_be32_read, read_be16, read_be32, sack_block_count, tcp_header_len, seq_add, spec_segment_len, tcp_buffer_len, tcp_checksum_fits, tcp_packet_ack,
    tcp_packet_ack_number, tcp_packet_dst_port, tcp_packet_fin, tcp_packet_flag,
    tcp_packet_header_len, tcp_packet_segment_len, tcp_packet_seq_number, tcp_packet_src_port,
    tcp_packet_syn, tcp_packet_window_len, tcp_seq_add, tcp_segment_bytes, ArpOperation, ArpRepr,
    EthernetAddress, EthernetProtocol, EthernetRepr, IpProtocol, Ipv4Address, Ipv4Repr, TcpControl,
    TcpRepr, TcpReprView, TcpSeqNumber, ETHERNET_HEADER_LEN, IPV4_HEADER_LEN, TCP_FLG_ACK,
    TCP_FLG_FIN, TCP_FLG_SYN,
};
use vstd::prelude::*;

verus! {

/// Length of an Ethernet/IPv4 ARP packet.
pub const ARP_LEN: usize = 28;

/// Hop limit of every IPv4 header this kernel builds.
pub const REPLY_HOP_LIMIT: u8 = 128;

/// Maximum segment size this kernel advertises.
pub const REPLY_MSS: u16 = 1460;

/// Window scale this kernel advertises when acknowledging.
pub const REPLY_WINDOW_SCALE: u8 = 8;

/// Window this kernel advertises on the segments it originates.
pub const REPLY_WINDOW_LEN: u16 = 1460;

/// An Ethernet header from its addresses and EtherType.
pub fn build_eth_repr(
    src_mac_addr: EthernetAddress,
    dst_mac_addr: EthernetAddress,
    ethertype: EthernetProtocol,
) -> (r: EthernetRepr)
    ensures
        r == (EthernetRepr { src_addr: src_mac_addr, dst_addr: dst_mac_addr, ethertype }),
{
    EthernetRepr { src_addr: src_mac_addr, dst_addr: dst_mac_addr, ethertype }
}

/// An ARP reply from `src` (hardware and protocol address) to `dst`.
pub fn build_arp_repr(
    src_mac_addr: EthernetAddress,
    src_ip: Ipv4Address,
    dst_mac_addr: EthernetAddress,
    dst_ip: Ipv4Address,
) -> (r: ArpRepr)
    ensures
        r == (ArpRepr::EthernetIpv4 {
            operation: ArpOperation::Reply,
            source_hardware_addr: src_mac_addr,
            source_protocol_addr: src_ip,
            target_hardware_addr: dst_mac_addr,
            target_protocol_addr: dst_ip,
        }),
{
    ArpRepr::EthernetIpv4 {
        operation: ArpOperation::Reply,
        source_hardware_addr: src_mac_addr,
        source_protocol_addr: src_ip,
        target_hardware_addr: dst_mac_addr,
        target_protocol_addr: dst_ip,
    }
}

/// An IPv4 header from `src_ip` to `dst_ip` carrying `payload_len` bytes of
/// `protocol`, with hop limit 128.
pub fn build_ipv4_repr(
    src_ip: Ipv4Address,
    dst_ip: Ipv4Address,
    protocol: IpProtocol,
    payload_len: usize,
) -> (r: Ipv4Repr)
    ensures
        r == (Ipv4Repr {
            src_addr: src_ip,
            dst_addr: dst_ip,
            next_header: protocol,
            payload_len,
            hop_limit: REPLY_HOP_LIMIT,
        }),
{
    Ipv4Repr {
        src_addr: src_ip,
        dst_addr: dst_ip,
        next_header: protocol,
        payload_len,
        hop_limit: REPLY_HOP_LIMIT,
    }
}


/// The received segment `p` can be read and acknowledged: its fixed fields
/// are present, its header fits, and its sequence-space length is one a
/// sequence number can be advanced by.
pub open spec fn ackable_tcp_packet(p: Seq<u8>) -> bool {
    &&& p.len() >= 16
    &&& tcp_packet_header_len(p) <= p.len()
    &&& spec_segment_len(p) <= i32::MAX
}

/// The acknowledgement this kernel sends for the received segment `p`: the
/// ports swapped, SYN or FIN echoed (SYN first), the sequence number taken
/// from `p`'s acknowledgement number when `p` carries one and zero
/// otherwise, acknowledging everything `p` occupies in sequence space, with
/// `p`'s window, window scale 8, MSS 1460 and no payload.
pub open spec fn ack_reply(p: Seq<u8>) -> TcpReprView {
    TcpReprView {
        src_port: read_be16(p, 2),
        dst_port: read_be16(p, 0),
        control: if tcp_packet_flag(p, TCP_FLG_SYN) {
            TcpControl::Syn
        } else if tcp_packet_flag(p, TCP_FLG_FIN) {
            TcpControl::Fin
        } else {
            TcpControl::NoFlag
        },
        seq_number: if tcp_packet_flag(p, TCP_FLG_ACK) {
            read_be32(p, 8) as i32
        } else {
            0i32
        },
        ack_number: Some(seq_add(read_be32(p, 4) as i32, spec_segment_len(p))),
        window_len: read_be16(p, 14),
        window_scale: Some(REPLY_WINDOW_SCALE),
        max_seg_size: Some(REPLY_MSS),
        sack_permitted: false,
        sack_ranges: seq![None, None, None],
        payload: Seq::empty(),
    }
}

/// The acknowledgement for the received TCP segment `packet`.
pub fn build_tcp_ack_repr<'a>(packet: &'a [u8]) -> (r: TcpRepr<'a>)
    requires
        ackable_tcp_packet(packet@),
    ensures
        r@ == ack_reply(packet@),
{
    let src_port = tcp_packet_dst_port(packet);
    let dst_port = tcp_packet_src_port(packet);
    let control = if tcp_packet_syn(packet) {
        TcpControl::Syn
    } else if tcp_packet_fin(packet) {
        TcpControl::Fin
    } else {
        TcpControl::NoFlag
    };
    let ack_number = tcp_seq_add(tcp_packet_seq_number(packet), tcp_packet_segment_len(packet));
    let seq_number = if tcp_packet_ack(packet) {
        tcp_packet_ack_number(packet)
    } else {
        TcpSeqNumber(0)
    };
    let empty: &'a [u8] = &[];
    let r = TcpRepr {
        src_port,
        dst_port,
        control,
        seq_number,
        ack_number: Some(ack_number),
        window_len: tcp_packet_window_len(packet),
        window_scale: Some(REPLY_WINDOW_SCALE),
        max_seg_size: Some(REPLY_MSS),
        sack_permitted: false,
        sack_ranges: [None; 3],
        payload: empty,
    };
    assert(r@.sack_ranges =~= seq![None, None, None]);
    assert(r@.payload =~= Seq::empty());
    r
}

/// A TCP segment this kernel originates: window 1460, MSS 1460, no window
/// scaling and no selective acknowledgement.
pub fn build_tcp_repr<'a>(
    src_port: u16,
    dst_port: u16,
    control: TcpControl,
    seq_number: TcpSeqNumber,
    ack_number: Option<TcpSeqNumber>,
    payload: &'a [u8],
) -> (r: TcpRepr<'a>)
    ensures
        r.src_port == src_port,
        r.dst_port == dst_port,
        r.control == control,
        r.seq_number == seq_number,
        r.ack_number == ack_number,
        r.window_len == REPLY_WINDOW_LEN,
        r.window_scale is None,
        r.max_seg_size == Some(REPLY_MSS),
        !r.sack_permitted,
        r.sack_ranges@ == seq![None::<(u32, u32)>, None, None],
        r.payload == payload,
{
    let r = TcpRepr {
        src_port,
        dst_port,
        control,
        seq_number,
        ack_number,
        window_len: REPLY_WINDOW_LEN,
        window_scale: None,
        max_seg_size: Some(REPLY_MSS),
        sack_permitted: false,
        sack_ranges: [None; 3],
        payload,
    };
    assert(r.sack_ranges@ =~= seq![None::<(u32, u32)>, None, None]);
    r
}

/// Bytes of the Ethernet header `eth`.
pub open spec fn eth_header_of(eth: EthernetRepr) -> Seq<u8> {
    ethernet_header_bytes(eth.dst_addr.0@, eth.src_addr.0@, ethertype_code(eth.ethertype))
}

/// Bytes of the ARP packet `arp`.
pub open spec fn arp_packet_of(arp: ArpRepr) -> Seq<u8> {
    match arp {
        ArpRepr::EthernetIpv4 {
            operation,
            source_hardware_addr,
            source_protocol_addr,
            target_hardware_addr,
            target_protocol_addr,
        } => arp_packet_bytes(
            arp_operation_code(operation),
            source_hardware_addr.0@,
            source_protocol_addr.0@,
            target_hardware_addr.0@,
            target_protocol_addr.0@,
        ),
    }
}

/// Bytes of the IPv4 header `ip`.
pub open spec fn ipv4_header_of(ip: Ipv4Repr) -> Seq<u8> {
    ipv4_header_bytes(
        ip.src_addr.0@,
        ip.dst_addr.0@,
        ip_protocol_code(ip.next_header),
        ip.payload_len,
        ip.hop_limit,
    )
}

/// Bytes of the TCP segment `tcp` sent inside the IPv4 header `ip`.
pub open spec fn tcp_segment_of(ip: Ipv4Repr, tcp: TcpReprView) -> Seq<u8> {
    tcp_segment_bytes(tcp, ip.src_addr.0@, ip.dst_addr.0@)
}

/// The IPv4/TCP part of a frame can be emitted: the IPv4 total length does
/// not overflow 16 bits, the frame's length fits in `usize`, and the sum of
/// the segment's words fits smoltcp's 32-bit checksum accumulator.
pub open spec fn emittable_ipv4_tcp(ip: Ipv4Repr, tcp: TcpReprView) -> bool {
    &&& ip.payload_len % 0x1_0000 + 20 <= u16::MAX
    &&& ETHERNET_HEADER_LEN + IPV4_HEADER_LEN + tcp_buffer_len(tcp) <= usize::MAX
    &&& tcp_checksum_fits(tcp)
}

/// The frame `build_eth_frame` produces: an ARP frame when an ARP packet is
/// given, otherwise an IPv4/TCP frame when a segment is given, otherwise
/// nothing.
pub open spec fn eth_frame(
    eth: EthernetRepr,
    arp: Option<ArpRepr>,
    ipv4: Option<(Ipv4Repr, TcpReprView)>,
) -> Option<Seq<u8>> {
    match arp {
        Some(a) => Some(eth_header_of(eth) + arp_packet_of(a)),
        None => match ipv4 {
            Some((ip, tcp)) => Some(eth_header_of(eth) + ipv4_header_of(ip) + tcp_segment_of(ip, tcp)),
            None => None,
        },
    }
}

/// What `build_eth_frame` needs of its arguments: an IPv4/TCP segment that
/// is emitted (no ARP packet given) must be emittable.
pub open spec fn frame_emittable(arp: Option<ArpRepr>, ipv4: Option<(Ipv4Repr, TcpReprView)>) -> bool {
    match (arp, ipv4) {
        (None, Some((ip, tcp))) => emittable_ipv4_tcp(ip, tcp),
        _ => true,
    }
}

/// Header fields of the IPv4/TCP frame `frame` built for `ip` and `tcp`,
/// spelled out octet by octet: the frame length, the IPv4 header's version
/// and length, total length, flags, hop limit, protocol and addresses, and
/// the TCP header's ports, sequence and acknowledgement numbers and window,
/// followed by the payload.
pub open spec fn tcp_frame_fields(frame: Seq<u8>, ip: Ipv4Repr, tcp: TcpReprView) -> bool {
    &&& frame.len() == 34 + tcp_buffer_len(tcp)
    &&& frame[14] == 0x45
    &&& frame.subrange(16, 18) == be16(ipv4_total_len(ip.payload_len))
    &&& frame[20] == 0x40
    &&& frame[22] == ip.hop_limit
    &&& frame[23] == ip_protocol_code(ip.next_header)
    &&& frame.subrange(26, 30) == ip.src_addr.0@
    &&& frame.subrange(30, 34) == ip.dst_addr.0@
    &&& frame.subrange(34, 36) == be16(tcp.src_port)
    &&& frame.subrange(36, 38) == be16(tcp.dst_port)
    &&& frame.subrange(38, 42) == be32(tcp.seq_number as u32)
    &&& frame.subrange(42, 46) == be32(
        match tcp.ack_number {
            Some(n) => n as u32,
            None => 0u32,
        },
    )
    &&& frame.subrange(48, 50) == be16(tcp.window_len)
    &&& frame.skip(34 + tcp_header_len(tcp) as int) == tcp.payload
}

/// The known header fields of an IPv4/TCP frame hold whenever one is built.
pub open spec fn frame_fields(
    arp: Option<ArpRepr>,
    ipv4: Option<(Ipv4Repr, TcpReprView)>,
    frame: Option<Seq<u8>>,
) -> bool {
    match (arp, ipv4, frame) {
        (None, Some((ip, tcp)), Some(f)) => tcp_frame_fields(f, ip, tcp),
        _ => true,
    }
}

/// The view of an optional IPv4/TCP pair.
pub open spec fn ipv4_tcp_view(ipv4: Option<(Ipv4Repr, TcpRepr)>) -> Option<(Ipv4Repr, TcpReprView)> {
    match ipv4 {
        Some((ip, tcp)) => Some((ip, tcp@)),
        None => None,
    }
}

/// The view of an optional frame.
pub open spec fn frame_view(frame: Option<Vec<u8>>) -> Option<Seq<u8>> {
    match frame {
        Some(v) => Some(v@),
        None => None,
    }
}

/// Two equally long sequences that agree from `k` on agree at every index
/// and on every range from `k` on.
proof fn lemma_agree_after(s: Seq<u8>, t: Seq<u8>, k: int)
    requires
        s.len() == t.len(),
        0 <= k <= s.len(),
        s.skip(k) == t.skip(k),
    ensures
        forall|i: int| k <= i < s.len() ==> #[trigger] s[i] == t[i],
        forall|a: int, b: int|
            k <= a <= b <= s.len() ==> #[trigger] s.subrange(a, b) == t.subrange(a, b),
{
    assert forall|i: int| k <= i < s.len() implies #[trigger] s[i] == t[i] by {
        assert(s[i] == s.skip(k)[i - k]);
        assert(t[i] == t.skip(k)[i - k]);
    }
    assert forall|a: int, b: int| k <= a <= b <= s.len() implies #[trigger] s.subrange(a, b)
        == t.subrange(a, b) by {
        assert(s.subrange(a, b) =~= t.subrange(a, b));
    }
}

/// The Ethernet frame carrying `arp_repr` if given, else the IPv4/TCP
/// segment `ipv4_repr` if given; `None` when neither is.
pub fn build_eth_frame(
    eth_repr: EthernetRepr,
    arp_repr: Option<ArpRepr>,
    ipv4_repr: Option<(Ipv4Repr, TcpRepr)>,
) -> (r: Option<Vec<u8>>)
    requires
        frame_emittable(arp_repr, ipv4_tcp_view(ipv4_repr)),
    ensures
        frame_view(r) == eth_frame(eth_repr, arp_repr, ipv4_tcp_view(ipv4_repr)),
        frame_fields(arp_repr, ipv4_tcp_view(ipv4_repr), frame_view(r)),
{
    match arp_repr {
        Some(arp) => {
            let mut buf: Vec<u8> = vec![0u8; ETHERNET_HEADER_LEN + ARP_LEN];
            let ArpRepr::EthernetIpv4 {
                operation,
                source_hardware_addr,
                source_protocol_addr,
                target_hardware_addr,
                target_protocol_addr,
            } = arp;
            emit_arp_packet(
                &mut buf,
                ETHERNET_HEADER_LEN,
                operation.code(),
                source_hardware_addr.0,
                source_protocol_addr.0,
                target_hardware_addr.0,
                target_protocol_addr.0,
            );
            let ghost with_arp = buf@;
            emit_ethernet_header(
                &mut buf,
                eth_repr.dst_addr.0,
                eth_repr.src_addr.0,
                eth_repr.ethertype.code(),
            );
            proof {
                assert(with_arp.skip(14) =~= arp_packet_of(arp));
            }
            Some(buf)
        },
        None => match ipv4_repr {
            Some((ipv4, tcp)) => {
                let len = ETHERNET_HEADER_LEN + IPV4_HEADER_LEN + tcp.buffer_len();
                let mut buf: Vec<u8> = vec![0u8; len];
                emit_tcp_segment(
                    &mut buf,
                    ETHERNET_HEADER_LEN + IPV4_HEADER_LEN,
                    &tcp,
                    ipv4.src_addr.0,
                    ipv4.dst_addr.0,
                );
                let ghost with_tcp = buf@;
                emit_ipv4_header(
                    &mut buf,
                    ETHERNET_HEADER_LEN,
                    ipv4.src_addr.0,
                    ipv4.dst_addr.0,
                    ipv4.next_header.code(),
                    ipv4.payload_len,
                    ipv4.hop_limit,
                );
                let ghost with_ip = buf@;
                emit_ethernet_header(
                    &mut buf,
                    eth_repr.dst_addr.0,
                    eth_repr.src_addr.0,
                    eth_repr.ethertype.code(),
                );
                proof {
                    let seg = tcp_segment_of(ipv4, tcp@);
                    let iph = ipv4_header_of(ipv4);
                    assert(iph.len() == 20);
                    assert(with_ip.skip(34) =~= with_tcp.skip(34));
                    assert(buf@.skip(14) =~= with_ip.skip(14));
                    assert(buf@.skip(34) =~= with_ip.skip(34));
                    lemma_agree_after(buf@, with_tcp, 34);
                    lemma_agree_after(buf@, with_ip, 14);
                    assert(with_tcp.skip(34) =~= seg);
                    assert(with_ip.skip(14) =~= iph + seg);
                    assert(buf@ =~= eth_header_of(eth_repr) + iph + seg);
                    assert(buf@.skip(34 + tcp_header_len(tcp@) as int) =~= with_tcp.skip(
                        34 + tcp_header_len(tcp@) as int,
                    ));
                }
                Some(buf)
            },
            None => None,
        },
    }
}

/// A frame around the acknowledgement of a received segment `p` answers
/// `p`: its source port is `p`'s destination port and its destination port
/// `p`'s source port, octet for octet; it advertises `p`'s window; when `p`
/// carries an acknowledgement, the reply's sequence number is that number;
/// and, having no payload and a 28-octet header, the frame is 62 octets.
pub proof fn lemma_ack_frame_answers_segment(p: Seq<u8>, ip: Ipv4Repr, frame: Seq<u8>)
    requires
        ackable_tcp_packet(p),
        tcp_frame_fields(frame, ip, ack_reply(p)),
    ensures
        frame.subrange(34, 36) == p.subrange(2, 4),
        frame.subrange(36, 38) == p.subrange(0, 2),
        frame.subrange(48, 50) == p.subrange(14, 16),
        tcp_packet_flag(p, TCP_FLG_ACK) ==> frame.subrange(38, 42) == p.subrange(8, 12),
        frame.len() == 62,
{
    lemma_be16_read(p, 0);
    lemma_be16_read(p, 2);
    lemma_be16_read(p, 14);
    lemma_be32_read(p, 8);
    let r = ack_reply(p);
    assert(sack_block_count(r.sack_ranges) == 0);
    assert(tcp_header_len(r) == 28);
}

/// The frame `f` reads back as the Ethernet header `eth` and the ARP packet
/// `a`: 42 octets, the addresses and EtherType, hardware type 1, protocol
/// type 0x0800, address lengths 6 and 4, the operation and the four
/// addresses.
pub open spec fn arp_frame_reads_as(f: Seq<u8>, eth: EthernetRepr, a: ArpRepr) -> bool {
    match a {
        ArpRepr::EthernetIpv4 {
            operation,
            source_hardware_addr,
            source_protocol_addr,
            target_hardware_addr,
            target_protocol_addr,
        } => {
            &&& f.len() == 42
            &&& f.subrange(0, 6) == eth.dst_addr.0@
            &&& f.subrange(6, 12) == eth.src_addr.0@
            &&& ethertype_of_code(read_be16(f, 12)) == eth.ethertype
            &&& read_be16(f, 14) == 1
            &&& read_be16(f, 16) == 0x0800
            &&& f[18] == 6
            &&& f[19] == 4
            &&& arp_operation_of_code(read_be16(f, 20)) == operation
            &&& f.subrange(22, 28) == source_hardware_addr.0@
            &&& f.subrange(28, 32) == source_protocol_addr.0@
            &&& f.subrange(32, 38) == target_hardware_addr.0@
            &&& f.subrange(38, 42) == target_protocol_addr.0@
        },
    }
}

/// A value reads back as itself from its number unless it is an `Unknown`
/// holding a number a named value has.
pub open spec fn unambiguous_ethertype(p: EthernetProtocol) -> bool {
    !(p matches EthernetProtocol::Unknown(v) && (v == 0x0800 || v == 0x0806 || v == 0x86dd))
}

/// An ARP operation that reads back as itself from its number.
pub open spec fn unambiguous_arp_operation(op: ArpOperation) -> bool {
    !(op matches ArpOperation::Unknown(v) && (v == 1 || v == 2))
}

/// A frame is built from an ARP packet whenever one is given, whatever
/// IPv4/TCP segment is given beside it, and it reads back as the Ethernet
/// header and the ARP packet (an `Unknown` EtherType or operation holding
/// a named value's number reads back as that named value).
pub proof fn lemma_arp_frame_round_trip(
    eth: EthernetRepr,
    a: ArpRepr,
    ipv4: Option<(Ipv4Repr, TcpReprView)>,
)
    requires
        unambiguous_ethertype(eth.ethertype),
        unambiguous_arp_operation(a->operation),
    ensures
        eth_frame(eth, Some(a), ipv4) == eth_frame(eth, Some(a), None),
        eth_frame(eth, Some(a), ipv4) matches Some(f) && arp_frame_reads_as(f, eth, a),
{
    let f = eth_header_of(eth) + arp_packet_of(a);
    let ArpRepr::EthernetIpv4 {
        operation,
        source_hardware_addr,
        source_protocol_addr,
        target_hardware_addr,
        target_protocol_addr,
    } = a;
    assert(f.subrange(0, 6) =~= eth.dst_addr.0@);
    assert(f.subrange(6, 12) =~= eth.src_addr.0@);
    assert(f.subrange(12, 14) =~= be16(ethertype_code(eth.ethertype)));
    assert(f.subrange(14, 16) =~= be16(1));
    assert(f.subrange(16, 18) =~= be16(0x0800));
    assert(f.subrange(20, 22) =~= be16(arp_operation_code(operation)));
    lemma_read_be16_of(f, 12, ethertype_code(eth.ethertype));
    lemma_read_be16_of(f, 14, 1);
    lemma_read_be16_of(f, 16, 0x0800);
    lemma_read_be16_of(f, 20, arp_operation_code(operation));
    assert(f.subrange(22, 28) =~= source_hardware_addr.0@);
    assert(f.subrange(28, 32) =~= source_protocol_addr.0@);
    assert(f.subrange(32, 38) =~= target_hardware_addr.0@);
    assert(f.subrange(38, 42) =~= target_protocol_addr.0@);
}

/// An IP protocol that reads back as itself from its number.
pub open spec fn unambiguous_ip_protocol(p: IpProtocol) -> bool {
    !(p matches IpProtocol::Unknown(v) && ip_protocol_of_code(v) != IpProtocol::Unknown(v))
}

/// The frame `f` reads back as the Ethernet header `eth`, the IPv4 header
/// `ip` with a verifying checksum, and the TCP segment `tcp` with a
/// checksum that verifies against the pseudo-header of `ip`'s addresses.
pub open spec fn tcp_frame_reads_as(f: Seq<u8>, eth: EthernetRepr, ip: Ipv4Repr, tcp: TcpReprView) -> bool {
    let seg = f.skip(34);
    let opts = tcp_option_bytes(tcp);
    &&& f.len() == 34 + tcp_buffer_len(tcp)
    &&& f.subrange(0, 6) == eth.dst_addr.0@
    &&& f.subrange(6, 12) == eth.src_addr.0@
    &&& ethertype_of_code(read_be16(f, 12)) == eth.ethertype
    &&& f[14] == 0x45
    &&& read_be16(f, 16) - 20 == ip.payload_len
    &&& f[22] == ip.hop_limit
    &&& ip_protocol_of_code(f[23]) == ip.next_header
    &&& f.subrange(26, 30) == ip.src_addr.0@
    &&& f.subrange(30, 34) == ip.dst_addr.0@
    &&& checksum_data(f.subrange(14, 34)) == 0xffff
    &&& read_be16(seg, 0) == tcp.src_port
    &&& read_be16(seg, 2) == tcp.dst_port
    &&& read_be32(seg, 4) as i32 == tcp.seq_number
    &&& (tcp.ack_number matches Some(n) ==> read_be32(seg, 8) as i32 == n)
    &&& read_be16(seg, 12) == tcp_flags_word(tcp)
    &&& tcp_packet_header_len(seg) == tcp_header_len(tcp)
    &&& read_be16(seg, 14) == tcp.window_len
    &&& seg.subrange(20, 20 + opts.len() as int) == opts
    &&& seg.skip(tcp_header_len(tcp) as int) == tcp.payload
    &&& fold16(tcp_pseudo_sum(ip.src_addr.0@, ip.dst_addr.0@, seg.len() as int) + checksum_data(seg))
        == 0xffff
}

/// An IPv4/TCP frame reads back as what it was built from when the IPv4
/// payload length is the segment's length: the Ethernet and IPv4 headers,
/// both checksums verifying, and the segment's ports, numbers, flags,
/// window, options and payload (an `Unknown` EtherType or protocol holding
/// a named value's number reads back as that named value; the receiver's
/// 32-bit word sum over the segment must not overflow).
pub proof fn lemma_tcp_frame_round_trip(eth: EthernetRepr, ip: Ipv4Repr, tcp: TcpReprView)
    requires
        unambiguous_ethertype(eth.ethertype),
        unambiguous_ip_protocol(ip.next_header),
        ip.payload_len == tcp_buffer_len(tcp),
        tcp_buffer_len(tcp) + 20 <= u16::MAX,
        word_sum(tcp_segment_unchecked(tcp)) + 0xffff <= u32::MAX,
    ensures
        eth_frame(eth, None, Some((ip, tcp))) matches Some(f) && tcp_frame_reads_as(f, eth, ip, tcp),
{
    let src = ip.src_addr.0@;
    let dst = ip.dst_addr.0@;
    let iph = ipv4_header_of(ip);
    let seg = tcp_segment_of(ip, tcp);
    lemma_ipv4_header_reads_back(src, dst, ip_protocol_code(ip.next_header), ip.payload_len, ip.hop_limit);
    lemma_tcp_segment_reads_back(tcp, src, dst);
    lemma_tcp_checksum_verifies(tcp, src, dst);
    let f = eth_header_of(eth) + iph + seg;
    assert(f.subrange(0, 6) =~= eth.dst_addr.0@);
    assert(f.subrange(6, 12) =~= eth.src_addr.0@);
    assert(f.subrange(12, 14) =~= be16(ethertype_code(eth.ethertype)));
    lemma_read_be16_of(f, 12, ethertype_code(eth.ethertype));
    assert(f.subrange(14, 34) =~= iph);
    assert(f.skip(34) =~= seg);
    assert(f[14] == iph[0]);
    assert(f[22] == iph[8]);
    assert(f[23] == iph[9]);
    assert(f.subrange(26, 30) =~= iph.subrange(12, 16));
    assert(f.subrange(30, 34) =~= iph.subrange(16, 20));
    assert(read_be16(f, 16) == read_be16(iph, 2));
    assert(ipv4_total_len(ip.payload_len) == 20 + ip.payload_len);
    lemma_be32_read(seg, 4);
    lemma_be32_read(seg, 8);
    let sq = read_be32(seg, 4);
    assert((sq as i32) as u32 == sq) by (bit_vector);
    let sn = tcp.seq_number;
    assert(((sn as u32) as i32) == sn) by (bit_vector);
    if tcp.ack_number is Some {
        let n = tcp.ack_number->0;
        assert(((n as u32) as i32) == n) by (bit_vector);
    }
}

/// The flags word of a received segment, read through its two octets: the
/// data offset is the high nibble of octet 12, and each flag bit below
/// 0x100 is the same bit of octet 13.
proof fn lemma_flags_word_octets(p: Seq<u8>)
    requires
        p.len() >= 14,
    ensures
        tcp_packet_header_len(p) == (p[12] / 16) as int * 4,
        tcp_packet_flag(p, TCP_FLG_SYN) == (p[13] & 2u8 != 0),
        tcp_packet_flag(p, TCP_FLG_FIN) == (p[13] & 1u8 != 0),
        tcp_packet_flag(p, TCP_FLG_ACK) == (p[13] & 0x10u8 != 0),
{
    let hi: u8 = p[12];
    let lo: u8 = p[13];
    let w: u16 = read_be16(p, 12);
    assert(w == hi as int * 256 + lo as int);
    assert(w / 4096 == hi / 16);
    assert(w == hi as int * 256 + lo as int ==> (w & 2u16 != 0) == (lo & 2u8 != 0)) by (bit_vector);
    assert(w == hi as int * 256 + lo as int ==> (w & 1u16 != 0) == (lo & 1u8 != 0)) by (bit_vector);
    assert(w == hi as int * 256 + lo as int ==> (w & 0x10u16 != 0) == (lo & 0x10u8 != 0))
        by (bit_vector);
}

/// The acknowledgement of a received segment `p` answers `p` as the octets
/// on the wire say: its ports are `p`'s destination and source ports; it
/// acknowledges `p`'s sequence number advanced, modulo 2^32, by the
/// octets after `p`'s header (whose length is four times the data offset,
/// the high nibble of octet 12) plus one for SYN and one for FIN (bits
/// 0x02 and 0x01 of octet 13); it echoes SYN if `p` has SYN, else FIN if
/// `p` has FIN, and otherwise carries no control flag, whatever other flags
/// `p` has; its sequence number is `p`'s acknowledgement number when `p`
/// has ACK (bit 0x10 of octet 13) and zero otherwise; and it carries no
/// payload; it advertises `p`'s window, window scale 8 and MSS 1460, and
/// no selective acknowledgement. (Sequence numbers are taken as smoltcp reads them: the
/// big-endian octets as two's complement bits.)
pub proof fn lemma_ack_reply_answers_octets(p: Seq<u8>)
    requires
        ackable_tcp_packet(p),
    ensures
        ack_reply(p).src_port == p[2] as int * 256 + p[3] as int,
        ack_reply(p).dst_port == p[0] as int * 256 + p[1] as int,
        ack_reply(p).ack_number == Some(
            ((read_be32(p, 4) as i32) as int + (p.len() - (p[12] / 16) as int * 4) + (if p[13] & 2u8 != 0 {
                1int
            } else {
                0int
            }) + (if p[13] & 1u8 != 0 {
                1int
            } else {
                0int
            })) as i32,
        ),
        (ack_reply(p).control == TcpControl::Syn) == (p[13] & 2u8 != 0),
        (ack_reply(p).control == TcpControl::Fin) == (p[13] & 2u8 == 0 && p[13] & 1u8 != 0),
        (ack_reply(p).control == TcpControl::NoFlag) == (p[13] & 3u8 == 0),
        ack_reply(p).control != TcpControl::Rst,
        ack_reply(p).control != TcpControl::Psh,
        ack_reply(p).seq_number == (if p[13] & 0x10u8 != 0 {
            read_be32(p, 8) as i32
        } else {
            0i32
        }),
        ack_reply(p).payload.len() == 0,
        ack_reply(p).window_len == p[14] as int * 256 + p[15] as int,
        ack_reply(p).window_scale == Some(8u8),
        ack_reply(p).max_seg_size == Some(1460u16),
        !ack_reply(p).sack_permitted,
        ack_reply(p).sack_ranges == seq![None::<(u32, u32)>, None, None],
{
    lemma_flags_word_octets(p);
    let f: u8 = p[13];
    assert((f & 3u8 == 0) == (f & 2u8 == 0 && f & 1u8 == 0)) by (bit_vector);
}

} // verus!
