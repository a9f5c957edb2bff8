use smoltcp::wire as w;
use axi_net::net::reply::{
    build_arp_repr, build_eth_frame, build_eth_repr, build_ipv4_repr, build_tcp_ack_repr,
    build_tcp_repr, ARP_LEN,
};
use axi_net::net::wire::{
    ArpOperation, ArpRepr, EthernetAddress, EthernetProtocol, IpProtocol, Ipv4Address, TcpControl,
    TcpSeqNumber,
};

const OUR_MAC: EthernetAddress = EthernetAddress([0x00, 0x0a, 0x35, 0x01, 0x02, 0x03]);
const PEER_MAC: EthernetAddress = EthernetAddress([0x11, 0x22, 0x33, 0x44, 0x55, 0x66]);
const OUR_IP: Ipv4Address = Ipv4Address([172, 16, 1, 2]);
const PEER_IP: Ipv4Address = Ipv4Address([172, 16, 1, 1]);

fn ones_complement_sum(data: &[u8]) -> u32 {
    let mut sum: u32 = 0;
    let mut i = 0;
    while i + 1 < data.len() {
        sum += ((data[i] as u32) << 8) | data[i + 1] as u32;
        i += 2;
    }
    if i < data.len() {
        sum += (data[i] as u32) << 8;
    }
    while sum > 0xffff {
        sum = (sum & 0xffff) + (sum >> 16);
    }
    sum
}

fn tcp_checksum_ok(src: [u8; 4], dst: [u8; 4], segment: &[u8]) -> bool {
    let mut pseudo = Vec::new();
    pseudo.extend_from_slice(&src);
    pseudo.extend_from_slice(&dst);
    pseudo.push(0);
    pseudo.push(6);
    pseudo.push((segment.len() >> 8) as u8);
    pseudo.push(segment.len() as u8);
    pseudo.extend_from_slice(segment);
    ones_complement_sum(&pseudo) == 0xffff
}

/// A received segment: ports 5000 -> 80, seq 0x01020304, ack 0x0a0b0c0d,
/// header length 20, the given flags, window 0x2000, and `payload`.
fn segment(flags: u16, payload: &[u8]) -> Vec<u8> {
    let mut p = vec![0x13, 0x88, 0x00, 0x50, 1, 2, 3, 4, 0x0a, 0x0b, 0x0c, 0x0d];
    let word = (5u16 << 12) | flags;
    p.push((word >> 8) as u8);
    p.push(word as u8);
    p.extend_from_slice(&[0x20, 0x00, 0, 0, 0, 0]);
    p.extend_from_slice(payload);
    p
}

#[test]
fn eth_repr_keeps_fields() {
    let r = build_eth_repr(OUR_MAC, PEER_MAC, EthernetProtocol::Arp);
    assert_eq!(r.src_addr, OUR_MAC);
    assert_eq!(r.dst_addr, PEER_MAC);
    assert_eq!(r.ethertype, EthernetProtocol::Arp);
}

#[test]
fn arp_repr_is_reply() {
    let r = build_arp_repr(OUR_MAC, OUR_IP, PEER_MAC, PEER_IP);
    assert_eq!(
        r,
        ArpRepr::EthernetIpv4 {
            operation: ArpOperation::Reply,
            source_hardware_addr: OUR_MAC,
            source_protocol_addr: OUR_IP,
            target_hardware_addr: PEER_MAC,
            target_protocol_addr: PEER_IP,
        }
    );
}

#[test]
fn ipv4_repr_hop_limit_128() {
    let r = build_ipv4_repr(OUR_IP, PEER_IP, IpProtocol::Tcp, 28);
    assert_eq!(r.hop_limit, 128);
    assert_eq!(r.payload_len, 28);
    assert_eq!(r.next_header, IpProtocol::Tcp);
    assert_eq!(r.src_addr, OUR_IP);
    assert_eq!(r.dst_addr, PEER_IP);
}

#[test]
fn tcp_repr_defaults() {
    let data = [1u8, 2, 3];
    let r = build_tcp_repr(80, 5000, TcpControl::Psh, TcpSeqNumber(7), Some(TcpSeqNumber(9)), &data);
    assert_eq!(r.window_len, 1460);
    assert_eq!(r.window_scale, None);
    assert_eq!(r.max_seg_size, Some(1460));
    assert!(!r.sack_permitted);
    assert_eq!(r.sack_ranges, [None; 3]);
    assert_eq!(r.payload, &data);
    assert_eq!(r.header_len(), 24);
    assert_eq!(r.buffer_len(), 27);
}

#[test]
fn ack_of_syn() {
    let p = segment(0x002, &[]);
    let r = build_tcp_ack_repr(&p);
    assert_eq!(r.src_port, 80);
    assert_eq!(r.dst_port, 5000);
    assert_eq!(r.control, TcpControl::Syn);
    assert_eq!(r.seq_number, TcpSeqNumber(0));
    assert_eq!(r.ack_number, Some(TcpSeqNumber(0x01020305)));
    assert_eq!(r.window_len, 0x2000);
    assert_eq!(r.window_scale, Some(8));
    assert_eq!(r.max_seg_size, Some(1460));
    assert!(r.payload.is_empty());
    assert_eq!(r.header_len(), 28);
}

#[test]
fn ack_of_fin_with_data_and_ack() {
    let p = segment(0x001 | 0x010, b"hello");
    let r = build_tcp_ack_repr(&p);
    assert_eq!(r.control, TcpControl::Fin);
    assert_eq!(r.seq_number, TcpSeqNumber(0x0a0b0c0d));
    assert_eq!(r.ack_number, Some(TcpSeqNumber(0x01020304 + 6)));
}

#[test]
fn ack_wraps_sequence_space() {
    let mut p = segment(0x010, b"abc");
    p[4..8].copy_from_slice(&[0xff, 0xff, 0xff, 0xfe]);
    let r = build_tcp_ack_repr(&p);
    assert_eq!(r.control, TcpControl::NoFlag);
    assert_eq!(r.ack_number, Some(TcpSeqNumber(1)));
}

#[test]
fn syn_takes_precedence_over_fin() {
    let p = segment(0x003, &[]);
    let r = build_tcp_ack_repr(&p);
    assert_eq!(r.control, TcpControl::Syn);
    assert_eq!(r.ack_number, Some(TcpSeqNumber(0x01020304 + 2)));
}

#[test]
fn arp_frame_layout() {
    let eth = build_eth_repr(OUR_MAC, PEER_MAC, EthernetProtocol::Arp);
    let arp = build_arp_repr(OUR_MAC, OUR_IP, PEER_MAC, PEER_IP);
    let frame = build_eth_frame(eth, Some(arp), None).unwrap();
    assert_eq!(frame.len(), 14 + ARP_LEN);
    let mut expected = Vec::new();
    expected.extend_from_slice(&PEER_MAC.0);
    expected.extend_from_slice(&OUR_MAC.0);
    expected.extend_from_slice(&[0x08, 0x06, 0, 1, 0x08, 0x00, 6, 4, 0, 2]);
    expected.extend_from_slice(&OUR_MAC.0);
    expected.extend_from_slice(&OUR_IP.0);
    expected.extend_from_slice(&PEER_MAC.0);
    expected.extend_from_slice(&PEER_IP.0);
    assert_eq!(frame, expected);
}

#[test]
fn arp_takes_precedence_over_tcp() {
    let eth = build_eth_repr(OUR_MAC, PEER_MAC, EthernetProtocol::Arp);
    let arp = build_arp_repr(OUR_MAC, OUR_IP, PEER_MAC, PEER_IP);
    let ip = build_ipv4_repr(OUR_IP, PEER_IP, IpProtocol::Tcp, 20);
    let tcp = build_tcp_repr(80, 5000, TcpControl::NoFlag, TcpSeqNumber(0), None, &[]);
    let with = build_eth_frame(eth, Some(arp), Some((ip, tcp))).unwrap();
    let without = build_eth_frame(eth, Some(arp), None).unwrap();
    assert_eq!(with, without);
}

#[test]
fn no_frame_without_payload_repr() {
    let eth = build_eth_repr(OUR_MAC, PEER_MAC, EthernetProtocol::Ipv4);
    assert_eq!(build_eth_frame(eth, None, None), None);
}

#[test]
fn tcp_frame_layout_and_checksums() {
    let eth = build_eth_repr(OUR_MAC, PEER_MAC, EthernetProtocol::Ipv4);
    let data = b"pong";
    let tcp = build_tcp_repr(80, 5000, TcpControl::Psh, TcpSeqNumber(-2), Some(TcpSeqNumber(0x100)), data);
    let ip = build_ipv4_repr(OUR_IP, PEER_IP, IpProtocol::Tcp, tcp.buffer_len());
    let frame = build_eth_frame(eth, None, Some((ip, tcp))).unwrap();
    assert_eq!(frame.len(), 14 + 20 + 24 + 4);
    // Ethernet header.
    assert_eq!(&frame[0..6], &PEER_MAC.0);
    assert_eq!(&frame[6..12], &OUR_MAC.0);
    assert_eq!(&frame[12..14], &[0x08, 0x00]);
    // IPv4 header.
    assert_eq!(frame[14], 0x45);
    assert_eq!(frame[15], 0);
    assert_eq!(&frame[16..18], &[0, 48]);
    assert_eq!(&frame[18..22], &[0, 0, 0x40, 0]);
    assert_eq!(frame[22], 128);
    assert_eq!(frame[23], 6);
    assert_eq!(&frame[26..30], &OUR_IP.0);
    assert_eq!(&frame[30..34], &PEER_IP.0);
    assert_eq!(ones_complement_sum(&frame[14..34]), 0xffff);
    // TCP segment.
    assert_eq!(&frame[34..38], &[0, 80, 0x13, 0x88]);
    assert_eq!(&frame[38..42], &[0xff, 0xff, 0xff, 0xfe]);
    assert_eq!(&frame[42..46], &[0, 0, 1, 0]);
    assert_eq!(frame[46], 0x60);
    assert_eq!(frame[47], 0x18);
    assert_eq!(&frame[48..50], &[0x05, 0xb4]);
    assert_eq!(&frame[52..54], &[0, 0]);
    assert_eq!(&frame[54..58], &[2, 4, 0x05, 0xb4]);
    assert_eq!(&frame[58..], b"pong");
    assert!(tcp_checksum_ok(OUR_IP.0, PEER_IP.0, &frame[34..]));
}

#[test]
fn ack_frame_answers_segment() {
    let p = segment(0x002, &[]);
    let tcp = build_tcp_ack_repr(&p);
    let ip = build_ipv4_repr(OUR_IP, PEER_IP, IpProtocol::Tcp, tcp.buffer_len());
    let eth = build_eth_repr(OUR_MAC, PEER_MAC, EthernetProtocol::Ipv4);
    let frame = build_eth_frame(eth, None, Some((ip, tcp))).unwrap();
    assert_eq!(frame.len(), 62);
    assert_eq!(&frame[34..36], &p[2..4]);
    assert_eq!(&frame[36..38], &p[0..2]);
    assert_eq!(&frame[48..50], &p[14..16]);
    assert_eq!(&frame[42..46], &[1, 2, 3, 5]);
    assert_eq!(frame[47], 0x12);
    assert_eq!(&frame[54..62], &[2, 4, 0x05, 0xb4, 3, 3, 8, 0]);
    assert!(tcp_checksum_ok(OUR_IP.0, PEER_IP.0, &frame[34..]));
    assert_eq!(ones_complement_sum(&frame[14..34]), 0xffff);
}

#[test]
fn codes_of_protocols() {
    assert_eq!(EthernetProtocol::Ipv4.code(), 0x0800);
    assert_eq!(EthernetProtocol::Arp.code(), 0x0806);
    assert_eq!(EthernetProtocol::Ipv6.code(), 0x86dd);
    assert_eq!(EthernetProtocol::Unknown(0x1234).code(), 0x1234);
    assert_eq!(ArpOperation::Request.code(), 1);
    assert_eq!(ArpOperation::Reply.code(), 2);
    assert_eq!(IpProtocol::Tcp.code(), 6);
    assert_eq!(IpProtocol::Udp.code(), 17);
    assert_eq!(IpProtocol::Unknown(200).code(), 200);
}

#[test]
fn unknown_ethertype_is_written_verbatim() {
    let eth = build_eth_repr(OUR_MAC, PEER_MAC, EthernetProtocol::Unknown(0x88b5));
    let arp = build_arp_repr(OUR_MAC, OUR_IP, PEER_MAC, PEER_IP);
    let frame = build_eth_frame(eth, Some(arp), None).unwrap();
    assert_eq!(&frame[12..14], &[0x88, 0xb5]);
}

fn word_sum(s: &[u8]) -> u64 {
    let mut sum = 0u64;
    for (i, b) in s.iter().enumerate() {
        sum += if i % 2 == 0 { (*b as u64) << 8 } else { *b as u64 };
    }
    sum
}

fn fold16(x: u64) -> u64 {
    let s = x / 0x10000 + x % 0x10000;
    s / 0x10000 + s % 0x10000
}

fn be16(v: u16) -> [u8; 2] {
    v.to_be_bytes()
}

fn expected_ipv4(src: [u8; 4], dst: [u8; 4], proto: u8, payload_len: usize, hop: u8) -> Vec<u8> {
    let mut h = vec![0x45, 0];
    h.extend_from_slice(&be16((20 + payload_len % 0x10000) as u16));
    h.extend_from_slice(&[0, 0, 0x40, 0, hop, proto, 0, 0]);
    h.extend_from_slice(&src);
    h.extend_from_slice(&dst);
    let c = (0xffff - fold16(word_sum(&h))) as u16;
    h[10..12].copy_from_slice(&be16(c));
    h
}

fn expected_tcp(r: &axi_net::net::wire::TcpRepr, src: [u8; 4], dst: [u8; 4]) -> Vec<u8> {
    let hdr = r.header_len();
    let mut s = Vec::new();
    s.extend_from_slice(&be16(r.src_port));
    s.extend_from_slice(&be16(r.dst_port));
    s.extend_from_slice(&(r.seq_number.0 as u32).to_be_bytes());
    s.extend_from_slice(&(r.ack_number.map(|n| n.0 as u32).unwrap_or(0)).to_be_bytes());
    let bits = match r.control {
        TcpControl::NoFlag => 0,
        TcpControl::Fin => 1,
        TcpControl::Syn => 2,
        TcpControl::Rst => 4,
        TcpControl::Psh => 8,
    };
    let flags = ((hdr / 4) as u16) << 12 | bits | if r.ack_number.is_some() { 0x10 } else { 0 };
    s.extend_from_slice(&be16(flags));
    s.extend_from_slice(&be16(r.window_len));
    s.extend_from_slice(&[0, 0, 0, 0]);
    if let Some(m) = r.max_seg_size {
        s.extend_from_slice(&[2, 4]);
        s.extend_from_slice(&be16(m));
    }
    if let Some(w) = r.window_scale {
        s.extend_from_slice(&[3, 3, w]);
    }
    let n = r.sack_ranges.iter().filter(|b| b.is_some()).count();
    if r.sack_permitted {
        s.extend_from_slice(&[4, 2]);
    } else if r.ack_number.is_some() && n > 0 {
        s.extend_from_slice(&[5, (8 * n + 2) as u8]);
        for (a, b) in r.sack_ranges.iter().flatten() {
            s.extend_from_slice(&a.to_be_bytes());
            s.extend_from_slice(&b.to_be_bytes());
        }
    }
    while s.len() < hdr {
        s.push(0);
    }
    s.extend_from_slice(r.payload);
    let mut pl = vec![0, 6];
    pl.extend_from_slice(&be16((s.len() % 0x10000) as u16));
    let pseudo = fold16(fold16(word_sum(&src)) + fold16(word_sum(&dst)) + fold16(word_sum(&pl)));
    let c = (0xffff - fold16(pseudo + fold16(word_sum(&s)))) as u16;
    s[16..18].copy_from_slice(&be16(c));
    s
}

fn check_exact_frame(tcp: axi_net::net::wire::TcpRepr) {
    let eth = build_eth_repr(OUR_MAC, PEER_MAC, EthernetProtocol::Ipv4);
    let ip = build_ipv4_repr(OUR_IP, PEER_IP, IpProtocol::Tcp, tcp.buffer_len());
    let frame = build_eth_frame(eth, None, Some((ip, tcp))).unwrap();
    let mut expected = Vec::new();
    expected.extend_from_slice(&PEER_MAC.0);
    expected.extend_from_slice(&OUR_MAC.0);
    expected.extend_from_slice(&[0x08, 0x00]);
    expected.extend(expected_ipv4(OUR_IP.0, PEER_IP.0, 6, tcp.buffer_len(), 128));
    expected.extend(expected_tcp(&tcp, OUR_IP.0, PEER_IP.0));
    assert_eq!(frame, expected);
}

#[test]
fn tcp_frame_bytes_exact_odd_payload() {
    let data = b"odd";
    check_exact_frame(build_tcp_repr(1, 2, TcpControl::Rst, TcpSeqNumber(5), None, data));
}

#[test]
fn tcp_frame_bytes_exact_ack_reply() {
    let p = segment(0x011, b"payload!");
    check_exact_frame(build_tcp_ack_repr(&p));
}

#[test]
fn tcp_frame_bytes_exact_sack_blocks() {
    let data = [7u8; 40];
    let mut tcp = build_tcp_repr(443, 40000, TcpControl::Psh, TcpSeqNumber(i32::MIN), Some(TcpSeqNumber(-1)), &data);
    tcp.window_scale = Some(3);
    tcp.sack_ranges = [Some((10, 20)), None, Some((0xffff_fff0, 0xffff_ffff))];
    assert_eq!(tcp.header_len(), 20 + 4 + 3 + 18 + 3);
    check_exact_frame(tcp);
}

#[test]
fn tcp_frame_bytes_exact_sack_permitted_with_blocks() {
    let mut tcp = build_tcp_repr(9, 9, TcpControl::Syn, TcpSeqNumber(0), Some(TcpSeqNumber(0)), &[]);
    tcp.sack_permitted = true;
    tcp.sack_ranges = [Some((1, 2)), None, None];
    check_exact_frame(tcp);
}

#[test]
fn tcp_frame_bytes_exact_zero_sum() {
    let tcp = build_tcp_repr(0, 0, TcpControl::NoFlag, TcpSeqNumber(0), None, &[0u8; 7]);
    check_exact_frame(tcp);
}

#[test]
fn arp_frame_parses_back_with_smoltcp() {
    let eth = build_eth_repr(OUR_MAC, PEER_MAC, EthernetProtocol::Arp);
    let arp = build_arp_repr(OUR_MAC, OUR_IP, PEER_MAC, PEER_IP);
    let frame = build_eth_frame(eth, Some(arp), None).unwrap();
    let f = w::EthernetFrame::new_checked(&frame[..]).unwrap();
    let e = w::EthernetRepr::parse(&f).unwrap();
    assert_eq!(e.src_addr, w::EthernetAddress(OUR_MAC.0));
    assert_eq!(e.dst_addr, w::EthernetAddress(PEER_MAC.0));
    assert_eq!(e.ethertype, w::EthernetProtocol::Arp);
    let a = w::ArpRepr::parse(&w::ArpPacket::new_checked(f.payload()).unwrap()).unwrap();
    assert_eq!(
        a,
        w::ArpRepr::EthernetIpv4 {
            operation: w::ArpOperation::Reply,
            source_hardware_addr: w::EthernetAddress(OUR_MAC.0),
            source_protocol_addr: w::Ipv4Address(OUR_IP.0),
            target_hardware_addr: w::EthernetAddress(PEER_MAC.0),
            target_protocol_addr: w::Ipv4Address(PEER_IP.0),
        }
    );
}

#[test]
fn tcp_frame_parses_back_with_smoltcp() {
    let caps = smoltcp::phy::ChecksumCapabilities::default();
    let data = b"hello";
    let tcp = build_tcp_repr(80, 5000, TcpControl::Psh, TcpSeqNumber(77), Some(TcpSeqNumber(99)), data);
    let ip = build_ipv4_repr(OUR_IP, PEER_IP, IpProtocol::Tcp, tcp.buffer_len());
    let eth = build_eth_repr(OUR_MAC, PEER_MAC, EthernetProtocol::Ipv4);
    let frame = build_eth_frame(eth, None, Some((ip, tcp))).unwrap();
    let f = w::EthernetFrame::new_checked(&frame[..]).unwrap();
    assert_eq!(w::EthernetRepr::parse(&f).unwrap().ethertype, w::EthernetProtocol::Ipv4);
    let ipp = w::Ipv4Packet::new_checked(f.payload()).unwrap();
    let ipr = w::Ipv4Repr::parse(&ipp, &caps).unwrap();
    assert_eq!(ipr.src_addr, w::Ipv4Address(OUR_IP.0));
    assert_eq!(ipr.dst_addr, w::Ipv4Address(PEER_IP.0));
    assert_eq!(ipr.next_header, w::IpProtocol::Tcp);
    assert_eq!(ipr.payload_len, tcp.buffer_len());
    assert_eq!(ipr.hop_limit, 128);
    let tp = w::TcpPacket::new_checked(&f.payload()[20..]).unwrap();
    let tr = w::TcpRepr::parse(&tp, &ipr.src_addr.into(), &ipr.dst_addr.into(), &caps).unwrap();
    assert_eq!(tr.src_port, 80);
    assert_eq!(tr.dst_port, 5000);
    assert_eq!(tr.control, w::TcpControl::Psh);
    assert_eq!(tr.seq_number, w::TcpSeqNumber(77));
    assert_eq!(tr.ack_number, Some(w::TcpSeqNumber(99)));
    assert_eq!(tr.window_len, 1460);
    assert_eq!(tr.max_seg_size, Some(1460));
    assert_eq!(tr.window_scale, None);
    assert_eq!(tr.payload, data);
}
