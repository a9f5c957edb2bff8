//! Plain-value models of the link, network and transport headers this
//! kernel emits and reads, their byte layouts, and the calls into smoltcp's
//! `wire` module that read and write them.
use smoltcp::wire::IpAddress;
use smoltcp::wire::Ipv4Address as WireIpv4;
use smoltcp::wire::TcpControl as WireControl;
use smoltcp::wire::TcpPacket;
use smoltcp::wire::TcpRepr as WireTcpRepr;
use smoltcp::wire::TcpSeqNumber as WireSeq;
use vstd::prelude::*;

verus! {

/// Length of an Ethernet II header.
pub const ETHERNET_HEADER_LEN: usize = 14;

/// Length of an IPv4 header without options.
pub const IPV4_HEADER_LEN: usize = 20;

/// Length of a TCP header without options.
pub const TCP_HEADER_LEN: usize = 20;

/// A six-octet Ethernet II address.
#[derive(Clone, Copy, Debug, PartialEq, Eq)]
pub struct EthernetAddress(pub [u8; 6]);

/// A four-octet IPv4 address.
#[derive(Clone, Copy, Debug, PartialEq, Eq)]
pub struct Ipv4Address(pub [u8; 4]);

/// An IPv4 address block: an address and a prefix length.
#[derive(Clone, Copy, Debug, PartialEq, Eq)]
pub struct Ipv4Cidr {
    pub address: Ipv4Address,
    pub prefix_len: u8,
}

/// The EtherType carried in an Ethernet II header.
#[derive(Clone, Copy, Debug, PartialEq, Eq)]
pub enum EthernetProtocol {
    Ipv4,
    Arp,
    Ipv6,
    Unknown(u16),
}

/// The numeric EtherType of a protocol.
pub open spec fn ethertype_code(p: EthernetProtocol) -> u16 {
    match p {
        EthernetProtocol::Ipv4 => 0x0800,
        EthernetProtocol::Arp => 0x0806,
        EthernetProtocol::Ipv6 => 0x86dd,
        EthernetProtocol::Unknown(v) => v,
    }
}

impl EthernetProtocol {
    /// The numeric EtherType of this protocol.
    pub fn code(&self) -> (r: u16)
        ensures
            r == ethertype_code(*self),
    {
        match *self {
            EthernetProtocol::Ipv4 => 0x0800,
            EthernetProtocol::Arp => 0x0806,
            EthernetProtocol::Ipv6 => 0x86dd,
            EthernetProtocol::Unknown(v) => v,
        }
    }
}

/// The operation of an ARP packet.
#[derive(Clone, Copy, Debug, PartialEq, Eq)]
pub enum ArpOperation {
    Request,
    Reply,
    Unknown(u16),
}

/// The numeric code of an ARP operation.
pub open spec fn arp_operation_code(op: ArpOperation) -> u16 {
    match op {
        ArpOperation::Request => 1,
        ArpOperation::Reply => 2,
        ArpOperation::Unknown(v) => v,
    }
}

impl ArpOperation {
    /// The numeric code of this operation.
    pub fn code(&self) -> (r: u16)
        ensures
            r == arp_operation_code(*self),
    {
        match *self {
            ArpOperation::Request => 1,
            ArpOperation::Reply => 2,
            ArpOperation::Unknown(v) => v,
        }
    }
}

/// The protocol carried in an IP datagram.
#[derive(Clone, Copy, Debug, PartialEq, Eq)]
pub enum IpProtocol {
    HopByHop,
    Icmp,
    Igmp,
    Tcp,
    Udp,
    Ipv6Route,
    Ipv6Frag,
    Icmpv6,
    Ipv6NoNxt,
    Ipv6Opts,
    Unknown(u8),
}

/// The IANA protocol number of an IP protocol.
pub open spec fn ip_protocol_code(p: IpProtocol) -> u8 {
    match p {
        IpProtocol::HopByHop => 0x00,
        IpProtocol::Icmp => 0x01,
        IpProtocol::Igmp => 0x02,
        IpProtocol::Tcp => 0x06,
        IpProtocol::Udp => 0x11,
        IpProtocol::Ipv6Route => 0x2b,
        IpProtocol::Ipv6Frag => 0x2c,
        IpProtocol::Icmpv6 => 0x3a,
        IpProtocol::Ipv6NoNxt => 0x3b,
        IpProtocol::Ipv6Opts => 0x3c,
        IpProtocol::Unknown(v) => v,
    }
}

impl IpProtocol {
    /// The IANA protocol number of this protocol.
    pub fn code(&self) -> (r: u8)
        ensures
            r == ip_protocol_code(*self),
    {
        match *self {
            IpProtocol::HopByHop => 0x00,
            IpProtocol::Icmp => 0x01,
            IpProtocol::Igmp => 0x02,
            IpProtocol::Tcp => 0x06,
            IpProtocol::Udp => 0x11,
            IpProtocol::Ipv6Route => 0x2b,
            IpProtocol::Ipv6Frag => 0x2c,
            IpProtocol::Icmpv6 => 0x3a,
            IpProtocol::Ipv6NoNxt => 0x3b,
            IpProtocol::Ipv6Opts => 0x3c,
            IpProtocol::Unknown(v) => v,
        }
    }
}

/// An Ethernet II header.
#[derive(Clone, Copy, Debug, PartialEq, Eq)]
pub struct EthernetRepr {
    pub src_addr: EthernetAddress,
    pub dst_addr: EthernetAddress,
    pub ethertype: EthernetProtocol,
}

/// An ARP packet for Ethernet hardware and IPv4 protocol addresses.
#[derive(Clone, Copy, Debug, PartialEq, Eq)]
pub enum ArpRepr {
    EthernetIpv4 {
        operation: ArpOperation,
        source_hardware_addr: EthernetAddress,
        source_protocol_addr: Ipv4Address,
        target_hardware_addr: EthernetAddress,
        target_protocol_addr: Ipv4Address,
    },
}

/// An IPv4 header without options.
#[derive(Clone, Copy, Debug, PartialEq, Eq)]
pub struct Ipv4Repr {
    pub src_addr: Ipv4Address,
    pub dst_addr: Ipv4Address,
    pub next_header: IpProtocol,
    pub payload_len: usize,
    pub hop_limit: u8,
}

/// The control flag a TCP segment carries.
#[derive(Clone, Copy, Debug, PartialEq, Eq)]
pub enum TcpControl {
    NoFlag,
    Psh,
    Syn,
    Fin,
    Rst,
}

/// A TCP sequence number: an integer modulo 2^32 stored as its two's
/// complement bits.
#[derive(Clone, Copy, Debug, PartialEq, Eq)]
pub struct TcpSeqNumber(pub i32);

/// A TCP segment: header fields, options and payload.
#[derive(Clone, Copy, Debug, PartialEq, Eq)]
pub struct TcpRepr<'a> {
    pub src_port: u16,
    pub dst_port: u16,
    pub control: TcpControl,
    pub seq_number: TcpSeqNumber,
    pub ack_number: Option<TcpSeqNumber>,
    pub window_len: u16,
    pub window_scale: Option<u8>,
    pub max_seg_size: Option<u16>,
    pub sack_permitted: bool,
    pub sack_ranges: [Option<(u32, u32)>; 3],
    pub payload: &'a [u8],
}

/// A TCP segment with its payload taken as a sequence of bytes.
pub struct TcpReprView {
    pub src_port: u16,
    pub dst_port: u16,
    pub control: TcpControl,
    pub seq_number: i32,
    pub ack_number: Option<i32>,
    pub window_len: u16,
    pub window_scale: Option<u8>,
    pub max_seg_size: Option<u16>,
    pub sack_permitted: bool,
    pub sack_ranges: Seq<Option<(u32, u32)>>,
    pub payload: Seq<u8>,
}

impl<'a> View for TcpRepr<'a> {
    type V = TcpReprView;

    open spec fn view(&self) -> TcpReprView {
        TcpReprView {
            src_port: self.src_port,
            dst_port: self.dst_port,
            control: self.control,
            seq_number: self.seq_number.0,
            ack_number: match self.ack_number {
                Some(n) => Some(n.0),
                None => None,
            },
            window_len: self.window_len,
            window_scale: self.window_scale,
            max_seg_size: self.max_seg_size,
            sack_permitted: self.sack_permitted,
            sack_ranges: self.sack_ranges@,
            payload: self.payload@,
        }
    }
}

/// Number of SACK blocks present among the three slots.
pub open spec fn sack_block_count(ranges: Seq<Option<(u32, u32)>>) -> nat {
    (if ranges[0] is Some { 1nat } else { 0nat }) + (if ranges[1] is Some { 1nat } else { 0nat })
        + (if ranges[2] is Some { 1nat } else { 0nat })
}

/// Header length before padding: the fixed header plus every option the
/// segment asks for.
pub open spec fn tcp_unpadded_header_len(r: TcpReprView) -> nat {
    let n = sack_block_count(r.sack_ranges);
    20 + (if r.max_seg_size is Some { 4nat } else { 0nat }) + (if r.window_scale is Some {
        3nat
    } else {
        0nat
    }) + (if r.sack_permitted { 2nat } else { 0nat }) + (if n > 0 { 8 * n + 2 } else { 0nat })
}

/// Length of the emitted TCP header: the unpadded length rounded up to a
/// multiple of four.
pub open spec fn tcp_header_len(r: TcpReprView) -> nat {
    let l = tcp_unpadded_header_len(r);
    if l % 4 == 0 {
        l
    } else {
        (l + 4 - l % 4) as nat
    }
}

/// Length of the emitted TCP segment: header and payload.
pub open spec fn tcp_buffer_len(r: TcpReprView) -> nat {
    tcp_header_len(r) + r.payload.len()
}

impl<'a> TcpRepr<'a> {
    /// Length of the header this segment is emitted with.
    pub fn header_len(&self) -> (len: usize)
        ensures
            len == tcp_header_len(self@),
    {
        let mut length: usize = TCP_HEADER_LEN;
        if self.max_seg_size.is_some() {
            length = length + 4;
        }
        if self.window_scale.is_some() {
            length = length + 3;
        }
        if self.sack_permitted {
            length = length + 2;
        }
        let mut sack_range_len: usize = 0;
        if self.sack_ranges[0].is_some() {
            sack_range_len = sack_range_len + 8;
        }
        if self.sack_ranges[1].is_some() {
            sack_range_len = sack_range_len + 8;
        }
        if self.sack_ranges[2].is_some() {
            sack_range_len = sack_range_len + 8;
        }
        if sack_range_len > 0 {
            length = length + sack_range_len + 2;
        }
        if length % 4 != 0 {
            length = length + 4 - length % 4;
        }
        length
    }

    /// Length of the emitted segment: header and payload.
    pub fn buffer_len(&self) -> (len: usize)
        requires
            tcp_buffer_len(self@) <= usize::MAX,
        ensures
            len == tcp_buffer_len(self@),
    {
        self.header_len() + self.payload.len()
    }
}

/// Two octets of `v`, most significant first.
pub open spec fn be16(v: u16) -> Seq<u8> {
    seq![(v / 256) as u8, (v % 256) as u8]
}

/// Four octets of `v`, most significant first.
pub open spec fn be32(v: u32) -> Seq<u8> {
    seq![(v / 0x100_0000) as u8, ((v / 0x1_0000) % 256) as u8, ((v / 256) % 256) as u8, (v % 256) as u8]
}

/// The big-endian 16-bit value at offset `i` of `s`.
pub open spec fn read_be16(s: Seq<u8>, i: int) -> u16 {
    (s[i] as int * 256 + s[i + 1] as int) as u16
}

/// The big-endian 32-bit value at offset `i` of `s`.
pub open spec fn read_be32(s: Seq<u8>, i: int) -> u32 {
    (s[i] as int * 0x100_0000 + s[i + 1] as int * 0x1_0000 + s[i + 2] as int * 256 + s[i
        + 3] as int) as u32
}

/// Bytes of an Ethernet II header: destination, source, EtherType.
pub open spec fn ethernet_header_bytes(dst: Seq<u8>, src: Seq<u8>, ethertype: u16) -> Seq<u8> {
    dst + src + be16(ethertype)
}

/// Bytes of an Ethernet/IPv4 ARP packet.
pub open spec fn arp_packet_bytes(
    operation: u16,
    sha: Seq<u8>,
    spa: Seq<u8>,
    tha: Seq<u8>,
    tpa: Seq<u8>,
) -> Seq<u8> {
    be16(1) + be16(0x0800) + seq![6u8, 4u8] + be16(operation) + sha + spa + tha + tpa
}

/// Sum of the big-endian 16-bit words of `s`; an odd last octet is the
/// high half of a word.
pub open spec fn word_sum(s: Seq<u8>) -> int
    decreases s.len(),
{
    if s.len() == 0 {
        0
    } else if s.len() == 1 {
        s[0] as int * 256
    } else {
        s[0] as int * 256 + s[1] as int + word_sum(s.skip(2))
    }
}

/// Folds a 32-bit sum to 16 bits with end-around carry, twice.
pub open spec fn fold16(x: int) -> int {
    let s = x / 0x1_0000 + x % 0x1_0000;
    s / 0x1_0000 + s % 0x1_0000
}

/// The RFC 1071 sum of `s` before complementing: its words added with
/// end-around carry.
pub open spec fn checksum_data(s: Seq<u8>) -> int {
    fold16(word_sum(s))
}

/// The IPv4 header for these fields with a zero checksum: version 4,
/// length 20, zero DSCP/ECN, the total length, zero identification, only
/// the don't-fragment flag, hop limit, protocol and the two addresses.
pub open spec fn ipv4_header_unchecked(
    src: Seq<u8>,
    dst: Seq<u8>,
    next_header: u8,
    payload_len: usize,
    hop_limit: u8,
) -> Seq<u8> {
    seq![0x45u8, 0u8] + be16(ipv4_total_len(payload_len)) + seq![
        0u8,
        0u8,
        0x40u8,
        0u8,
        hop_limit,
        next_header,
        0u8,
        0u8,
    ] + src + dst
}

/// The IPv4 header checksum: the complement of the RFC 1071 sum of the
/// header taken with a zero checksum.
pub open spec fn ipv4_checksum(
    src: Seq<u8>,
    dst: Seq<u8>,
    next_header: u8,
    payload_len: usize,
    hop_limit: u8,
) -> u16 {
    (0xffff - checksum_data(ipv4_header_unchecked(src, dst, next_header, payload_len, hop_limit))) as u16
}

/// The IPv4 header for these fields, checksum included.
#[verifier::opaque]
pub open spec fn ipv4_header_bytes(
    src: Seq<u8>,
    dst: Seq<u8>,
    next_header: u8,
    payload_len: usize,
    hop_limit: u8,
) -> Seq<u8> {
    let h = ipv4_header_unchecked(src, dst, next_header, payload_len, hop_limit);
    h.take(10) + be16(ipv4_checksum(src, dst, next_header, payload_len, hop_limit)) + h.skip(12)
}

/// The bits a control flag sets in the TCP flags word.
pub open spec fn control_bits(c: TcpControl) -> int {
    match c {
        TcpControl::NoFlag => 0,
        TcpControl::Fin => 0x001,
        TcpControl::Syn => 0x002,
        TcpControl::Rst => 0x004,
        TcpControl::Psh => 0x008,
    }
}

/// The TCP data-offset-and-flags word: the header length in 32-bit words
/// in the top four bits, the control flag, and ACK when an acknowledgement
/// number is present.
pub open spec fn tcp_flags_word(r: TcpReprView) -> u16 {
    ((tcp_header_len(r) / 4) * 0x1000 + control_bits(r.control) + (if r.ack_number is Some {
        0x010int
    } else {
        0int
    })) as u16
}

/// The octets of one SACK block, or none for an empty slot.
pub open spec fn sack_block_bytes(block: Option<(u32, u32)>) -> Seq<u8> {
    match block {
        Some((left, right)) => be32(left) + be32(right),
        None => Seq::empty(),
    }
}

/// The TCP options emitted for a segment, in order: MSS, window scale, then
/// either SACK-permitted or, when an acknowledgement is carried, the SACK
/// blocks present.
pub open spec fn tcp_option_bytes(r: TcpReprView) -> Seq<u8> {
    let n = sack_block_count(r.sack_ranges);
    (match r.max_seg_size {
        Some(v) => seq![2u8, 4u8] + be16(v),
        None => Seq::empty(),
    }) + (match r.window_scale {
        Some(v) => seq![3u8, 3u8, v],
        None => Seq::empty(),
    }) + (if r.sack_permitted {
        seq![4u8, 2u8]
    } else if r.ack_number is Some && n > 0 {
        seq![5u8, (8 * n + 2) as u8] + sack_block_bytes(r.sack_ranges[0]) + sack_block_bytes(
            r.sack_ranges[1],
        ) + sack_block_bytes(r.sack_ranges[2])
    } else {
        Seq::empty()
    })
}

/// `n` zero octets.
pub open spec fn zero_bytes(n: int) -> Seq<u8> {
    Seq::new(n as nat, |i: int| 0u8)
}

/// The TCP segment with a zero checksum: ports, sequence and
/// acknowledgement numbers (zero when absent), flags word, window, zero
/// checksum and urgent pointer, the options padded with zero octets to the
/// header length, then the payload.
pub open spec fn tcp_segment_unchecked(r: TcpReprView) -> Seq<u8> {
    let opts = tcp_option_bytes(r);
    be16(r.src_port) + be16(r.dst_port) + be32(r.seq_number as u32) + be32(
        match r.ack_number {
            Some(n) => n as u32,
            None => 0u32,
        },
    ) + be16(tcp_flags_word(r)) + be16(r.window_len) + seq![0u8, 0u8, 0u8, 0u8] + opts
        + zero_bytes(tcp_header_len(r) - 20 - opts.len()) + r.payload
}

/// The RFC 1071 sum of the IPv4 pseudo-header of a TCP segment of `len`
/// octets between `src` and `dst`.
pub open spec fn tcp_pseudo_sum(src: Seq<u8>, dst: Seq<u8>, len: int) -> int {
    fold16(checksum_data(src) + checksum_data(dst) + checksum_data(seq![0u8, 6u8] + be16((len % 0x1_0000) as u16)))
}

/// The TCP checksum: the complement of the pseudo-header sum added, with
/// end-around carry, to the sum of the segment taken with a zero checksum.
pub open spec fn tcp_checksum(r: TcpReprView, src: Seq<u8>, dst: Seq<u8>) -> u16 {
    let seg = tcp_segment_unchecked(r);
    (0xffff - fold16(tcp_pseudo_sum(src, dst, seg.len() as int) + checksum_data(seg))) as u16
}

/// The TCP segment for this segment between these IPv4 addresses,
/// checksum included.
#[verifier::opaque]
pub open spec fn tcp_segment_bytes(r: TcpReprView, src: Seq<u8>, dst: Seq<u8>) -> Seq<u8> {
    let seg = tcp_segment_unchecked(r);
    seg.take(16) + be16(tcp_checksum(r, src, dst)) + seg.skip(18)
}

/// smoltcp's checksum routine sums the segment's words in a `u32`, so the
/// segment can be emitted when that sum fits.
pub open spec fn tcp_checksum_fits(r: TcpReprView) -> bool {
    word_sum(tcp_segment_unchecked(r)) <= u32::MAX
}

/// The total-length field smoltcp writes into an IPv4 header: the header
/// length plus the payload length taken modulo 2^16.
pub open spec fn ipv4_total_len(payload_len: usize) -> u16 {
    (20 + payload_len % 0x1_0000) as u16
}

/// Calls smoltcp's `EthernetRepr::emit` on the first 14 bytes of `buf`.
/// Claimed: those bytes become destination, source and the big-endian
/// EtherType (smoltcp's `EthernetProtocol::from(ethertype)` converts back to
/// the same number); the rest of `buf` is untouched.
#[verifier::external_body]
pub(crate) fn emit_ethernet_header(buf: &mut Vec<u8>, dst: [u8; 6], src: [u8; 6], ethertype: u16)
    requires
        old(buf).len() >= ETHERNET_HEADER_LEN,
    ensures
        final(buf)@ == ethernet_header_bytes(dst@, src@, ethertype) + old(buf)@.skip(14),
{
    let repr = smoltcp::wire::EthernetRepr {
        src_addr: smoltcp::wire::EthernetAddress(src),
        dst_addr: smoltcp::wire::EthernetAddress(dst),
        ethertype: smoltcp::wire::EthernetProtocol::from(ethertype),
    };
    repr.emit(&mut smoltcp::wire::EthernetFrame::new_unchecked(&mut buf[..]));
}

/// Calls smoltcp's `ArpRepr::emit` on the 28 bytes of `buf` at `offset`.
/// Claimed: they become hardware type 1, protocol type 0x0800, lengths 6
/// and 4, the big-endian operation code and the four addresses; the rest of
/// `buf` is untouched.
#[verifier::external_body]
pub(crate) fn emit_arp_packet(
    buf: &mut Vec<u8>,
    offset: usize,
    operation: u16,
    sha: [u8; 6],
    spa: [u8; 4],
    tha: [u8; 6],
    tpa: [u8; 4],
)
    requires
        offset + 28 <= old(buf).len(),
    ensures
        final(buf)@ == old(buf)@.take(offset as int) + arp_packet_bytes(
            operation,
            sha@,
            spa@,
            tha@,
            tpa@,
        ) + old(buf)@.skip(offset + 28),
{
    let repr = smoltcp::wire::ArpRepr::EthernetIpv4 {
        operation: smoltcp::wire::ArpOperation::from(operation),
        source_hardware_addr: smoltcp::wire::EthernetAddress(sha),
        source_protocol_addr: smoltcp::wire::Ipv4Address(spa),
        target_hardware_addr: smoltcp::wire::EthernetAddress(tha),
        target_protocol_addr: smoltcp::wire::Ipv4Address(tpa),
    };
    repr.emit(&mut smoltcp::wire::ArpPacket::new_unchecked(&mut buf[offset..offset + 28]));
}

/// Calls smoltcp's `Ipv4Repr::emit` (default checksum capabilities) on the
/// 20 bytes of `buf` at `offset`; smoltcp adds the header length to the
/// payload length as `u16`, which `requires` keeps from overflowing.
/// Claimed: those bytes become `ipv4_header_bytes` of the fields, a header
/// with version 4 and length 20, zero DSCP/ECN, the total length, zero
/// identification, only the don't-fragment flag, the hop limit, the
/// protocol, the RFC 1071 header checksum and both addresses; the rest of
/// `buf` is untouched.
#[verifier::external_body]
pub(crate) fn emit_ipv4_header(
    buf: &mut Vec<u8>,
    offset: usize,
    src: [u8; 4],
    dst: [u8; 4],
    next_header: u8,
    payload_len: usize,
    hop_limit: u8,
)
    requires
        offset + 20 <= old(buf).len(),
        payload_len % 0x1_0000 + 20 <= u16::MAX,
    ensures
        final(buf)@ == old(buf)@.take(offset as int) + ipv4_header_bytes(
            src@,
            dst@,
            next_header,
            payload_len,
            hop_limit,
        ) + old(buf)@.skip(offset + 20),
        final(buf)@.len() == old(buf)@.len(),
        final(buf)@[offset as int] == 0x45,
        final(buf)@[offset + 1] == 0,
        final(buf)@.subrange(offset + 2, offset + 4) == be16(ipv4_total_len(payload_len)),
        final(buf)@[offset + 4] == 0,
        final(buf)@[offset + 5] == 0,
        final(buf)@[offset + 6] == 0x40,
        final(buf)@[offset + 7] == 0,
        final(buf)@[offset + 8] == hop_limit,
        final(buf)@[offset + 9] == next_header,
        final(buf)@.subrange(offset + 12, offset + 16) == src@,
        final(buf)@.subrange(offset + 16, offset + 20) == dst@,
{
    let repr = smoltcp::wire::Ipv4Repr {
        src_addr: smoltcp::wire::Ipv4Address(src),
        dst_addr: smoltcp::wire::Ipv4Address(dst),
        next_header: smoltcp::wire::IpProtocol::from(next_header),
        payload_len,
        hop_limit,
    };
    let mut packet = smoltcp::wire::Ipv4Packet::new_unchecked(&mut buf[offset..offset + 20]);
    repr.emit(&mut packet, &smoltcp::phy::ChecksumCapabilities::default());
}

/// Calls smoltcp's `TcpRepr::emit` (default checksum capabilities, IPv4
/// pseudo-header from `src` and `dst`) on the tail of `buf` from `offset`,
/// which must be exactly as long as the segment; smoltcp sums the
/// segment's words in a `u32`, which `requires` keeps from overflowing.
/// Claimed: the tail becomes `tcp_segment_bytes` of the segment and
/// addresses: the big-endian ports, sequence number, acknowledgement number
/// (zero when absent), data offset and flags (ACK when an acknowledgement
/// is present), window, the checksum over the IPv4 pseudo-header and the
/// segment, a zero urgent pointer, the options padded with zero octets,
/// and the payload; the head of `buf` is untouched.
#[verifier::external_body]
pub(crate) fn emit_tcp_segment(buf: &mut Vec<u8>, offset: usize, repr: &TcpRepr, src: [u8; 4], dst: [u8; 4])
    requires
        offset + tcp_buffer_len(repr@) == old(buf).len(),
        tcp_checksum_fits(repr@),
    ensures
        final(buf)@ == old(buf)@.take(offset as int) + tcp_segment_bytes(repr@, src@, dst@),
        final(buf)@.len() == old(buf)@.len(),
        final(buf)@.subrange(offset as int, offset + 2) == be16(repr.src_port),
        final(buf)@.subrange(offset + 2, offset + 4) == be16(repr.dst_port),
        final(buf)@.subrange(offset + 4, offset + 8) == be32(repr.seq_number.0 as u32),
        final(buf)@.subrange(offset + 8, offset + 12) == be32(
            match repr.ack_number {
                Some(n) => n.0 as u32,
                None => 0u32,
            },
        ),
        final(buf)@.subrange(offset + 14, offset + 16) == be16(repr.window_len),
        final(buf)@.skip(offset + tcp_header_len(repr@)) == repr.payload@,
{
    let control = match repr.control {
        TcpControl::NoFlag => WireControl::None,
        TcpControl::Psh => WireControl::Psh,
        TcpControl::Syn => WireControl::Syn,
        TcpControl::Fin => WireControl::Fin,
        TcpControl::Rst => WireControl::Rst,
    };
    let ack_number = repr.ack_number.map(|n| WireSeq(n.0));
    let TcpRepr { src_port, dst_port, window_len, window_scale, max_seg_size, sack_permitted,
        sack_ranges, payload, .. } = *repr;
    let r = WireTcpRepr { src_port, dst_port, control, seq_number: WireSeq(repr.seq_number.0),
        ack_number, window_len, window_scale, max_seg_size, sack_permitted, sack_ranges, payload };
    let (s, d) = (IpAddress::Ipv4(WireIpv4(src)), IpAddress::Ipv4(WireIpv4(dst)));
    r.emit(&mut TcpPacket::new_unchecked(&mut buf[offset..]), &s, &d, &Default::default());
}

/// The header-length field of a received TCP segment, in octets.
pub open spec fn tcp_packet_header_len(p: Seq<u8>) -> int {
    (read_be16(p, 12) / 4096) as int * 4
}

/// Whether the flag bits `mask` are set in a received TCP segment.
pub open spec fn tcp_packet_flag(p: Seq<u8>, mask: u16) -> bool {
    read_be16(p, 12) & mask != 0
}

/// FIN, SYN and ACK flag masks.
pub const TCP_FLG_FIN: u16 = 0x001;
pub const TCP_FLG_SYN: u16 = 0x002;
pub const TCP_FLG_ACK: u16 = 0x010;

/// Sequence-space length of a received TCP segment: its payload plus one
/// for each of SYN and FIN.
pub open spec fn spec_segment_len(p: Seq<u8>) -> int {
    p.len() - tcp_packet_header_len(p) + (if tcp_packet_flag(p, TCP_FLG_SYN) { 1int } else { 0int })
        + (if tcp_packet_flag(p, TCP_FLG_FIN) { 1int } else { 0int })
}

/// A sequence number advanced by `n`, modulo 2^32.
pub open spec fn seq_add(seq: i32, n: int) -> i32 {
    (seq as int + n) as i32
}

/// Calls smoltcp's `TcpPacket::src_port`. Claimed: the big-endian value of
/// octets 0..2.
#[verifier::external_body]
pub(crate) fn tcp_packet_src_port(packet: &[u8]) -> (r: u16)
    requires
        packet.len() >= 2,
    ensures
        r == read_be16(packet@, 0),
{
    smoltcp::wire::TcpPacket::new_unchecked(packet).src_port()
}

/// Calls smoltcp's `TcpPacket::dst_port`. Claimed: the big-endian value of
/// octets 2..4.
#[verifier::external_body]
pub(crate) fn tcp_packet_dst_port(packet: &[u8]) -> (r: u16)
    requires
        packet.len() >= 4,
    ensures
        r == read_be16(packet@, 2),
{
    smoltcp::wire::TcpPacket::new_unchecked(packet).dst_port()
}

/// Calls smoltcp's `TcpPacket::seq_number`. Claimed: the big-endian value of
/// octets 4..8, taken as two's complement bits.
#[verifier::external_body]
pub(crate) fn tcp_packet_seq_number(packet: &[u8]) -> (r: TcpSeqNumber)
    requires
        packet.len() >= 8,
    ensures
        r.0 == read_be32(packet@, 4) as i32,
{
    TcpSeqNumber(smoltcp::wire::TcpPacket::new_unchecked(packet).seq_number().0)
}

/// Calls smoltcp's `TcpPacket::ack_number`. Claimed: the big-endian value of
/// octets 8..12, taken as two's complement bits.
#[verifier::external_body]
pub(crate) fn tcp_packet_ack_number(packet: &[u8]) -> (r: TcpSeqNumber)
    requires
        packet.len() >= 12,
    ensures
        r.0 == read_be32(packet@, 8) as i32,
{
    TcpSeqNumber(smoltcp::wire::TcpPacket::new_unchecked(packet).ack_number().0)
}

/// Calls smoltcp's `TcpPacket::syn`. Claimed: whether bit 0x002 of the
/// big-endian flags word at octets 12..14 is set.
#[verifier::external_body]
pub(crate) fn tcp_packet_syn(packet: &[u8]) -> (r: bool)
    requires
        packet.len() >= 14,
    ensures
        r == tcp_packet_flag(packet@, TCP_FLG_SYN),
{
    smoltcp::wire::TcpPacket::new_unchecked(packet).syn()
}

/// Calls smoltcp's `TcpPacket::fin`. Claimed: whether bit 0x001 of the
/// big-endian flags word at octets 12..14 is set.
#[verifier::external_body]
pub(crate) fn tcp_packet_fin(packet: &[u8]) -> (r: bool)
    requires
        packet.len() >= 14,
    ensures
        r == tcp_packet_flag(packet@, TCP_FLG_FIN),
{
    smoltcp::wire::TcpPacket::new_unchecked(packet).fin()
}

/// Calls smoltcp's `TcpPacket::ack`. Claimed: whether bit 0x010 of the
/// big-endian flags word at octets 12..14 is set.
#[verifier::external_body]
pub(crate) fn tcp_packet_ack(packet: &[u8]) -> (r: bool)
    requires
        packet.len() >= 14,
    ensures
        r == tcp_packet_flag(packet@, TCP_FLG_ACK),
{
    smoltcp::wire::TcpPacket::new_unchecked(packet).ack()
}

/// Calls smoltcp's `TcpPacket::window_len`. Claimed: the big-endian value of
/// octets 14..16.
#[verifier::external_body]
pub(crate) fn tcp_packet_window_len(packet: &[u8]) -> (r: u16)
    requires
        packet.len() >= 16,
    ensures
        r == read_be16(packet@, 14),
{
    smoltcp::wire::TcpPacket::new_unchecked(packet).window_len()
}

/// Calls smoltcp's `TcpPacket::segment_len`, which subtracts the header
/// length from the buffer length and so needs the header to fit. Claimed:
/// the payload length plus one for SYN and one for FIN.
#[verifier::external_body]
pub(crate) fn tcp_packet_segment_len(packet: &[u8]) -> (r: usize)
    requires
        packet.len() >= 14,
        tcp_packet_header_len(packet@) <= packet.len(),
    ensures
        r == spec_segment_len(packet@),
{
    smoltcp::wire::TcpPacket::new_unchecked(packet).segment_len()
}

/// Calls smoltcp's `TcpSeqNumber + usize`, which panics above `i32::MAX`.
/// Claimed: the sequence number advanced by `n` modulo 2^32.
#[verifier::external_body]
pub(crate) fn tcp_seq_add(seq: TcpSeqNumber, n: usize) -> (r: TcpSeqNumber)
    requires
        n <= i32::MAX,
    ensures
        r.0 == seq_add(seq.0, n as int),
{
    TcpSeqNumber((WireSeq(seq.0) + n).0)
}

/// Writing back a 16-bit value read big-endian gives the octets read.
pub proof fn lemma_be16_read(s: Seq<u8>, i: int)
    requires
        0 <= i,
        i + 2 <= s.len(),
    ensures
        be16(read_be16(s, i)) == s.subrange(i, i + 2),
{
    let v = read_be16(s, i);
    assert(v == s[i] as int * 256 + s[i + 1] as int);
    assert(v / 256 == s[i] as int);
    assert(v % 256 == s[i + 1] as int);
    assert(be16(v) =~= s.subrange(i, i + 2));
}

/// Writing back a 32-bit value read big-endian, even through its two's
/// complement reading, gives the octets read.
pub proof fn lemma_be32_read(s: Seq<u8>, i: int)
    requires
        0 <= i,
        i + 4 <= s.len(),
    ensures
        be32((read_be32(s, i) as i32) as u32) == s.subrange(i, i + 4),
{
    let v = read_be32(s, i);
    let x = (v as i32) as u32;
    assert((v as i32) as u32 == v) by (bit_vector);
    let (a, b, c, d) = (s[i] as int, s[i + 1] as int, s[i + 2] as int, s[i + 3] as int);
    assert(v == a * 0x100_0000 + b * 0x1_0000 + c * 256 + d);
    assert(v / 0x100_0000 == a);
    assert((v / 0x1_0000) % 256 == b);
    assert((v / 256) % 256 == c);
    assert(v % 256 == d);
    assert(be32(x) =~= s.subrange(i, i + 4));
}

/// Folding keeps a 32-bit sum modulo 0xffff, lands in 0..=0xffff, is zero
/// only for zero, and leaves 16-bit values alone.
pub proof fn lemma_fold16(x: int)
    requires
        0 <= x <= u32::MAX,
    ensures
        fold16(x) % 0xffff == x % 0xffff,
        0 <= fold16(x) <= 0xffff,
        fold16(x) == 0 <==> x == 0,
        x <= 0xffff ==> fold16(x) == x,
{
    let q = x / 0x1_0000;
    let m = x % 0x1_0000;
    assert(x == 0x1_0000 * q + m);
    assert(q <= 0xffff);
    let t = q + m;
    assert((x - t) == 0xffff * q);
    assert((x - t) % 0xffff == 0) by (nonlinear_arith)
        requires
            (x - t) == 0xffff * q,
    ;
    if t < 0x1_0000 {
        assert(fold16(x) == t);
    } else {
        assert(fold16(x) == t - 0xffff);
    }
    assert(fold16(x) % 0xffff == x % 0xffff) by (nonlinear_arith)
        requires
            (x - t) % 0xffff == 0,
            fold16(x) == t || fold16(x) == t - 0xffff,
    ;
}

/// Adding the complement of a folded sum to that sum gives a sum that folds
/// to 0xffff: the check a receiver makes on an RFC 1071 checksum.
pub proof fn lemma_fold16_complement(w: int, p: int)
    requires
        0 <= w,
        w + 0xffff <= u32::MAX,
        0 <= p <= 0xffff,
    ensures
        fold16(p + fold16(w + (0xffff - fold16(p + fold16(w))))) == 0xffff,
{
    lemma_fold16(w);
    let fw = fold16(w);
    lemma_fold16(p + fw);
    let c = 0xffff - fold16(p + fw);
    lemma_fold16(w + c);
    let y = p + fold16(w + c);
    lemma_fold16(y);
    assert(y % 0xffff == 0) by (nonlinear_arith)
        requires
            fold16(w + c) % 0xffff == (w + c) % 0xffff,
            fw % 0xffff == w % 0xffff,
            fold16(p + fw) % 0xffff == (p + fw) % 0xffff,
            c == 0xffff - fold16(p + fw),
            y == p + fold16(w + c),
    ;
    if y == 0 {
        assert(w + c == 0);
        assert(w == 0);
        assert(fw == 0);
        assert(fold16(p + fw) == p);
        assert(c == 0xffff - p);
        assert(p == 0xffff);
        assert(false);
    }
    assert(y == 0xffff || y == 2 * 0xffff) by (nonlinear_arith)
        requires
            y % 0xffff == 0,
            0 < y <= 2 * 0xffff,
    ;
}

/// The word sum of a concatenation whose first part has even length is the
/// sum of the parts' word sums.
pub proof fn lemma_word_sum_append(a: Seq<u8>, b: Seq<u8>)
    requires
        a.len() % 2 == 0,
    ensures
        word_sum(a + b) == word_sum(a) + word_sum(b),
    decreases a.len(),
{
    if a.len() == 0 {
        assert(a + b =~= b);
    } else {
        assert((a + b).skip(2) =~= a.skip(2) + b);
        lemma_word_sum_append(a.skip(2), b);
    }
}

/// A big-endian 16-bit value is its own word sum.
pub proof fn lemma_word_sum_be16(v: u16)
    ensures
        word_sum(be16(v)) == v,
{
    let b = be16(v);
    assert(b.len() == 2);
    assert(b[0] as int == v / 256);
    assert(b[1] as int == v % 256);
    assert(b.skip(2) =~= Seq::<u8>::empty());
    assert(word_sum(b) == b[0] as int * 256 + b[1] as int + word_sum(b.skip(2)));
}

/// Replacing the zero word at even offset `k` of `s` by `v` adds `v` to the
/// word sum.
pub proof fn lemma_word_sum_set_word(s: Seq<u8>, k: int, v: u16)
    requires
        k % 2 == 0,
        0 <= k,
        k + 2 <= s.len(),
        s[k] == 0,
        s[k + 1] == 0,
    ensures
        word_sum(s.take(k) + be16(v) + s.skip(k + 2)) == word_sum(s) + v,
{
    lemma_word_sum_append(s.take(k), be16(v) + s.skip(k + 2));
    lemma_word_sum_append(be16(v), s.skip(k + 2));
    lemma_word_sum_be16(v);
    assert(s.take(k) + be16(v) + s.skip(k + 2) =~= s.take(k) + (be16(v) + s.skip(k + 2)));
    let z = seq![0u8, 0u8];
    assert(s =~= s.take(k) + (z + s.skip(k + 2)));
    lemma_word_sum_append(s.take(k), z + s.skip(k + 2));
    lemma_word_sum_append(z, s.skip(k + 2));
    assert(z.skip(2) =~= Seq::<u8>::empty());
    assert(word_sum(z.skip(2)) == 0);
    assert(word_sum(z) == 0);
    assert(word_sum(s) == word_sum(s.take(k)) + word_sum(s.skip(k + 2)));
    assert(word_sum(be16(v) + s.skip(k + 2)) == v + word_sum(s.skip(k + 2)));
}

/// A word sum is at most 0xffff per (possibly partial) word.
proof fn lemma_word_sum_bound(s: Seq<u8>)
    ensures
        0 <= word_sum(s) <= (s.len() as int + 1) / 2 * 0xffff,
    decreases s.len(),
{
    if s.len() >= 2 {
        lemma_word_sum_bound(s.skip(2));
    }
}

/// Every IPv4 header smoltcp emits carries a checksum that verifies: the
/// RFC 1071 sum over the whole header is 0xffff.
pub proof fn lemma_ipv4_checksum_verifies(
    src: Seq<u8>,
    dst: Seq<u8>,
    next_header: u8,
    payload_len: usize,
    hop_limit: u8,
)
    requires
        src.len() == 4,
        dst.len() == 4,
    ensures
        ipv4_header_bytes(src, dst, next_header, payload_len, hop_limit).len() == 20,
        checksum_data(ipv4_header_bytes(src, dst, next_header, payload_len, hop_limit)) == 0xffff,
{
    reveal(ipv4_header_bytes);
    let h = ipv4_header_unchecked(src, dst, next_header, payload_len, hop_limit);
    let c = ipv4_checksum(src, dst, next_header, payload_len, hop_limit);
    assert(h[10] == 0 && h[11] == 0);
    lemma_word_sum_bound(h);
    lemma_fold16(word_sum(h));
    lemma_word_sum_set_word(h, 10, c);
    assert(h.take(10) + be16(c) + h.skip(12) == ipv4_header_bytes(
        src,
        dst,
        next_header,
        payload_len,
        hop_limit,
    ));
    lemma_fold16_complement(word_sum(h), 0);
    lemma_fold16(word_sum(h));
    assert(fold16(0 + fold16(word_sum(h))) == fold16(word_sum(h)));
}

/// Every TCP segment smoltcp emits carries a checksum that verifies against
/// the IPv4 pseudo-header, whenever the receiver's 32-bit word sum over the
/// segment does not overflow.
pub proof fn lemma_tcp_checksum_verifies(r: TcpReprView, src: Seq<u8>, dst: Seq<u8>)
    requires
        src.len() == 4,
        dst.len() == 4,
        word_sum(tcp_segment_unchecked(r)) + 0xffff <= u32::MAX,
    ensures
        tcp_segment_bytes(r, src, dst).len() == tcp_segment_unchecked(r).len(),
        fold16(
            tcp_pseudo_sum(src, dst, tcp_segment_bytes(r, src, dst).len() as int) + checksum_data(
                tcp_segment_bytes(r, src, dst),
            ),
        ) == 0xffff,
{
    reveal(tcp_segment_bytes);
    let seg = tcp_segment_unchecked(r);
    let c = tcp_checksum(r, src, dst);
    assert(seg[16] == 0 && seg[17] == 0);
    lemma_word_sum_set_word(seg, 16, c);
    let w = word_sum(seg);
    let p = tcp_pseudo_sum(src, dst, seg.len() as int);
    lemma_word_sum_nonneg(seg);
    lemma_pseudo_sum_bound(src, dst, seg.len() as int);
    lemma_fold16(w);
    lemma_fold16(p + fold16(w));
    lemma_fold16_complement(w, p);
}

/// Word sums are never negative.
proof fn lemma_word_sum_nonneg(s: Seq<u8>)
    ensures
        word_sum(s) >= 0,
    decreases s.len(),
{
    if s.len() >= 2 {
        lemma_word_sum_nonneg(s.skip(2));
    }
}

/// The pseudo-header sum is a 16-bit value.
proof fn lemma_pseudo_sum_bound(src: Seq<u8>, dst: Seq<u8>, len: int)
    requires
        src.len() == 4,
        dst.len() == 4,
    ensures
        0 <= tcp_pseudo_sum(src, dst, len) <= 0xffff,
{
    let pl = seq![0u8, 6u8] + be16((len % 0x1_0000) as u16);
    assert(src.skip(2).skip(2) =~= Seq::<u8>::empty());
    assert(dst.skip(2).skip(2) =~= Seq::<u8>::empty());
    assert(pl.skip(2).skip(2) =~= Seq::<u8>::empty());
    lemma_word_sum_bound(src);
    lemma_word_sum_bound(dst);
    lemma_word_sum_bound(pl);
    lemma_fold16(word_sum(src));
    lemma_fold16(word_sum(dst));
    lemma_fold16(word_sum(pl));
    lemma_fold16(checksum_data(src) + checksum_data(dst) + checksum_data(pl));
}

/// The EtherType smoltcp reads back from its number.
pub open spec fn ethertype_of_code(v: u16) -> EthernetProtocol {
    if v == 0x0800 {
        EthernetProtocol::Ipv4
    } else if v == 0x0806 {
        EthernetProtocol::Arp
    } else if v == 0x86dd {
        EthernetProtocol::Ipv6
    } else {
        EthernetProtocol::Unknown(v)
    }
}

/// The ARP operation smoltcp reads back from its number.
pub open spec fn arp_operation_of_code(v: u16) -> ArpOperation {
    if v == 1 {
        ArpOperation::Request
    } else if v == 2 {
        ArpOperation::Reply
    } else {
        ArpOperation::Unknown(v)
    }
}

/// The IP protocol smoltcp reads back from its number.
pub open spec fn ip_protocol_of_code(v: u8) -> IpProtocol {
    if v == 0x00 {
        IpProtocol::HopByHop
    } else if v == 0x01 {
        IpProtocol::Icmp
    } else if v == 0x02 {
        IpProtocol::Igmp
    } else if v == 0x06 {
        IpProtocol::Tcp
    } else if v == 0x11 {
        IpProtocol::Udp
    } else if v == 0x2b {
        IpProtocol::Ipv6Route
    } else if v == 0x2c {
        IpProtocol::Ipv6Frag
    } else if v == 0x3a {
        IpProtocol::Icmpv6
    } else if v == 0x3b {
        IpProtocol::Ipv6NoNxt
    } else if v == 0x3c {
        IpProtocol::Ipv6Opts
    } else {
        IpProtocol::Unknown(v)
    }
}

/// Reading back a value written big-endian gives the value.
pub proof fn lemma_read_be16_of(s: Seq<u8>, i: int, v: u16)
    requires
        0 <= i,
        i + 2 <= s.len(),
        s.subrange(i, i + 2) == be16(v),
    ensures
        read_be16(s, i) == v,
{
    assert(s[i] == s.subrange(i, i + 2)[0]);
    assert(s[i + 1] == s.subrange(i, i + 2)[1]);
}

/// Reading back a 32-bit value written big-endian gives the value.
pub proof fn lemma_read_be32_of(s: Seq<u8>, i: int, v: u32)
    requires
        0 <= i,
        i + 4 <= s.len(),
        s.subrange(i, i + 4) == be32(v),
    ensures
        read_be32(s, i) == v,
{
    assert(s[i] == s.subrange(i, i + 4)[0]);
    assert(s[i + 1] == s.subrange(i, i + 4)[1]);
    assert(s[i + 2] == s.subrange(i, i + 4)[2]);
    assert(s[i + 3] == s.subrange(i, i + 4)[3]);
}

/// The header fields of an emitted IPv4 header read back as the values
/// emitted, and its checksum verifies.
pub proof fn lemma_ipv4_header_reads_back(
    src: Seq<u8>,
    dst: Seq<u8>,
    next_header: u8,
    payload_len: usize,
    hop_limit: u8,
)
    requires
        src.len() == 4,
        dst.len() == 4,
    ensures
        ({
            let h = ipv4_header_bytes(src, dst, next_header, payload_len, hop_limit);
            &&& h.len() == 20
            &&& h[0] == 0x45
            &&& read_be16(h, 2) == ipv4_total_len(payload_len)
            &&& h[8] == hop_limit
            &&& h[9] == next_header
            &&& h.subrange(12, 16) == src
            &&& h.subrange(16, 20) == dst
            &&& checksum_data(h) == 0xffff
        }),
{
    lemma_ipv4_checksum_verifies(src, dst, next_header, payload_len, hop_limit);
    reveal(ipv4_header_bytes);
    let h = ipv4_header_bytes(src, dst, next_header, payload_len, hop_limit);
    assert(h.subrange(2, 4) =~= be16(ipv4_total_len(payload_len)));
    lemma_read_be16_of(h, 2, ipv4_total_len(payload_len));
    assert(h.subrange(12, 16) =~= src);
    assert(h.subrange(16, 20) =~= dst);
}

/// Emitted TCP headers are at most 56 octets, a multiple of four.
pub proof fn lemma_tcp_header_len_bound(r: TcpReprView)
    ensures
        20 <= tcp_header_len(r) <= 56,
        tcp_header_len(r) % 4 == 0,
        tcp_option_bytes(r).len() <= tcp_header_len(r) - 20,
{
}

/// The fields of an emitted TCP segment read back as the values emitted:
/// ports, sequence number, acknowledgement number when present, the data
/// offset and flags word, window, options and payload.
pub proof fn lemma_tcp_segment_reads_back(r: TcpReprView, src: Seq<u8>, dst: Seq<u8>)
    ensures
        ({
            let seg = tcp_segment_bytes(r, src, dst);
            let opts = tcp_option_bytes(r);
            &&& seg.len() == tcp_buffer_len(r)
            &&& read_be16(seg, 0) == r.src_port
            &&& read_be16(seg, 2) == r.dst_port
            &&& read_be32(seg, 4) == r.seq_number as u32
            &&& (r.ack_number matches Some(n) ==> read_be32(seg, 8) == n as u32)
            &&& read_be16(seg, 12) == tcp_flags_word(r)
            &&& tcp_packet_header_len(seg) == tcp_header_len(r)
            &&& read_be16(seg, 14) == r.window_len
            &&& seg.subrange(20, 20 + opts.len() as int) == opts
            &&& seg.skip(tcp_header_len(r) as int) == r.payload
        }),
{
    reveal(tcp_segment_bytes);
    lemma_tcp_header_len_bound(r);
    let u = tcp_segment_unchecked(r);
    let opts = tcp_option_bytes(r);
    let seg = tcp_segment_bytes(r, src, dst);
    let hl = tcp_header_len(r) as int;
    assert(u.len() == hl + r.payload.len());
    assert(seg.len() == u.len());
    assert forall|i: int| 0 <= i < seg.len() && !(16 <= i < 18) implies seg[i] == u[i] by {}
    assert(seg.subrange(0, 2) =~= be16(r.src_port));
    assert(seg.subrange(2, 4) =~= be16(r.dst_port));
    assert(seg.subrange(4, 8) =~= be32(r.seq_number as u32));
    let ack: u32 = match r.ack_number {
        Some(n) => n as u32,
        None => 0u32,
    };
    assert(seg.subrange(8, 12) =~= be32(ack));
    assert(seg.subrange(12, 14) =~= be16(tcp_flags_word(r)));
    assert(seg.subrange(14, 16) =~= be16(r.window_len));
    assert(seg.subrange(20, 20 + opts.len() as int) =~= opts);
    assert(seg.skip(hl) =~= r.payload);
    lemma_read_be16_of(seg, 0, r.src_port);
    lemma_read_be16_of(seg, 2, r.dst_port);
    lemma_read_be32_of(seg, 4, r.seq_number as u32);
    lemma_read_be32_of(seg, 8, ack);
    lemma_read_be16_of(seg, 12, tcp_flags_word(r));
    lemma_read_be16_of(seg, 14, r.window_len);
    let bits = control_bits(r.control) + (if r.ack_number is Some { 0x010int } else { 0int });
    assert(0 <= bits < 0x1000);
    assert(tcp_flags_word(r) == (hl / 4) * 0x1000 + bits);
    assert(tcp_flags_word(r) / 4096 == hl / 4);
}

} // verus!
