//! IP datagrams as the NAT of `device::ip_nat` sees them: the addresses it routes by, the TCP
//! and UDP header fields it reads and rewrites, and the bytes it carries along unread.

use vstd::prelude::*;
use crate::addr::{Ipv4Addr, Ipv6Addr, SocketAddrV4, seq_to_u32, u32_to_seq, lemma_u32_octets_roundtrip};
use crate::bytes::{be16, be32, be16_bytes, be32_bytes, read_be16, read_be32, copy_range, push_slice, push_be16, push_be32, set_byte, lemma_be_round_trip};
use crate::checksum::spec_checksum;
use crate::ipv4::{Ipv4Fields, UdpFields, header_bytes, header_without_checksum, lemma_ipv4_header_round_trip};
use crate::udp::{UdpPacket, udp_v4_bytes};

verus! {

/// The flag bits of a TCP header.
#[derive(Clone, Copy, Debug, PartialEq, Eq, Structural)]
pub struct TcpPacketFlags {
    pub fin: bool,
    pub syn: bool,
    pub rst: bool,
    pub psh: bool,
    pub ack: bool,
    pub urg: bool,
}

impl Default for TcpPacketFlags {
    /// No flag set.
    fn default() -> (flags: TcpPacketFlags)
        ensures
            !flags.fin && !flags.syn && !flags.rst && !flags.psh && !flags.ack && !flags.urg,
    {
        TcpPacketFlags { fin: false, syn: false, rst: false, psh: false, ack: false, urg: false }
    }
}

/// A TCP segment carried over IPv4, with the addresses of both ends.
#[derive(Clone, Debug)]
pub struct Tcpv4Packet {
    pub source_addr: SocketAddrV4,
    pub destination_addr: SocketAddrV4,
    pub seq_number: u32,
    pub ack_number: u32,
    pub flags: TcpPacketFlags,
    pub payload: Vec<u8>,
}

/// A UDP packet carried over IPv4, with the addresses of both ends.
#[derive(Clone, Debug)]
pub struct Udpv4Packet {
    pub source_addr: SocketAddrV4,
    pub destination_addr: SocketAddrV4,
    pub payload: Vec<u8>,
}

impl Udpv4Packet {
    /// The same packet with its destination replaced.
    pub open spec fn spec_with_destination(self, addr: SocketAddrV4) -> Udpv4Packet {
        Udpv4Packet { destination_addr: addr, ..self }
    }

    /// The same packet with its source replaced.
    pub open spec fn spec_with_source(self, addr: SocketAddrV4) -> Udpv4Packet {
        Udpv4Packet { source_addr: addr, ..self }
    }
}

/// An IPv4 datagram: a TCP segment, a UDP packet, or another protocol whose payload is carried
/// unread.
#[derive(Clone, Debug)]
pub enum Ipv4Datagram {
    Tcp(Tcpv4Packet),
    Udp(Udpv4Packet),
    Other { source_addr: Ipv4Addr, destination_addr: Ipv4Addr, protocol: u8, payload: Vec<u8> },
}

/// An IP datagram of either version.
#[derive(Clone, Debug)]
pub enum IpDatagram {
    V4(Ipv4Datagram),
    V6 { source_addr: Ipv6Addr, destination_addr: Ipv6Addr, payload: Vec<u8> },
}

impl Tcpv4Packet {
    /// An empty segment between `source_addr` and `destination_addr`, with both sequence numbers
    /// zero and no flag set.
    pub fn new(source_addr: SocketAddrV4, destination_addr: SocketAddrV4) -> (packet: Tcpv4Packet)
        ensures
            packet.source_addr == source_addr,
            packet.destination_addr == destination_addr,
            packet.seq_number == 0,
            packet.ack_number == 0,
            packet.flags == (TcpPacketFlags {
                fin: false,
                syn: false,
                rst: false,
                psh: false,
                ack: false,
                urg: false,
            }),
            packet.payload@ == Seq::<u8>::empty(),
    {
        Tcpv4Packet {
            source_addr,
            destination_addr,
            seq_number: 0,
            ack_number: 0,
            flags: TcpPacketFlags::default(),
            payload: Vec::new(),
        }
    }

    /// The same segment with its destination replaced.
    pub open spec fn spec_with_destination(self, addr: SocketAddrV4) -> Tcpv4Packet {
        Tcpv4Packet { destination_addr: addr, ..self }
    }

    /// The same segment with its source replaced.
    pub open spec fn spec_with_source(self, addr: SocketAddrV4) -> Tcpv4Packet {
        Tcpv4Packet { source_addr: addr, ..self }
    }
}

impl Ipv4Datagram {
    /// The datagram's source address.
    pub open spec fn spec_source_ip(&self) -> Ipv4Addr {
        match self {
            Ipv4Datagram::Tcp(segment) => segment.source_addr.ip,
            Ipv4Datagram::Udp(packet) => packet.source_addr.ip,
            Ipv4Datagram::Other { source_addr, .. } => *source_addr,
        }
    }

    /// The datagram's destination address.
    pub open spec fn spec_destination_ip(&self) -> Ipv4Addr {
        match self {
            Ipv4Datagram::Tcp(segment) => segment.destination_addr.ip,
            Ipv4Datagram::Udp(packet) => packet.destination_addr.ip,
            Ipv4Datagram::Other { destination_addr, .. } => *destination_addr,
        }
    }

    /// The datagram's source address.
    pub fn source_addr(&self) -> (addr: Ipv4Addr)
        ensures
            addr == self.spec_source_ip(),
    {
        match self {
            Ipv4Datagram::Tcp(segment) => segment.source_addr.ip,
            Ipv4Datagram::Udp(packet) => packet.source_addr.ip,
            Ipv4Datagram::Other { source_addr, .. } => *source_addr,
        }
    }

    /// The datagram's destination address.
    pub fn destination_addr(&self) -> (addr: Ipv4Addr)
        ensures
            addr == self.spec_destination_ip(),
    {
        match self {
            Ipv4Datagram::Tcp(segment) => segment.destination_addr.ip,
            Ipv4Datagram::Udp(packet) => packet.destination_addr.ip,
            Ipv4Datagram::Other { destination_addr, .. } => *destination_addr,
        }
    }
}

impl Ipv4Datagram {
    /// The source and destination socket addresses of a TCP segment or a UDP packet; none for
    /// another protocol.
    pub open spec fn spec_endpoints(&self) -> Option<(SocketAddrV4, SocketAddrV4)> {
        match self {
            Ipv4Datagram::Tcp(segment) => Some((segment.source_addr, segment.destination_addr)),
            Ipv4Datagram::Udp(packet) => Some((packet.source_addr, packet.destination_addr)),
            Ipv4Datagram::Other { .. } => None,
        }
    }

    /// The same TCP segment or UDP packet with its source socket address replaced; another
    /// protocol unchanged.
    pub open spec fn spec_with_source_addr(self, addr: SocketAddrV4) -> Ipv4Datagram {
        match self {
            Ipv4Datagram::Tcp(segment) => Ipv4Datagram::Tcp(segment.spec_with_source(addr)),
            Ipv4Datagram::Udp(packet) => Ipv4Datagram::Udp(packet.spec_with_source(addr)),
            Ipv4Datagram::Other { .. } => self,
        }
    }

    /// The same TCP segment or UDP packet with its destination socket address replaced;
    /// another protocol unchanged.
    pub open spec fn spec_with_destination_addr(self, addr: SocketAddrV4) -> Ipv4Datagram {
        match self {
            Ipv4Datagram::Tcp(segment) => Ipv4Datagram::Tcp(segment.spec_with_destination(addr)),
            Ipv4Datagram::Udp(packet) => Ipv4Datagram::Udp(packet.spec_with_destination(addr)),
            Ipv4Datagram::Other { .. } => self,
        }
    }

    /// The source and destination socket addresses (see `spec_endpoints`).
    pub fn endpoints(&self) -> (endpoints: Option<(SocketAddrV4, SocketAddrV4)>)
        ensures
            endpoints == self.spec_endpoints(),
    {
        match self {
            Ipv4Datagram::Tcp(segment) => Some((segment.source_addr, segment.destination_addr)),
            Ipv4Datagram::Udp(packet) => Some((packet.source_addr, packet.destination_addr)),
            Ipv4Datagram::Other { .. } => None,
        }
    }

    /// The datagram with its source socket address replaced (see `spec_with_source_addr`).
    pub fn with_source_addr(self, addr: SocketAddrV4) -> (d: Ipv4Datagram)
        ensures
            d == self.spec_with_source_addr(addr),
    {
        match self {
            Ipv4Datagram::Tcp(segment) => {
                let mut segment = segment;
                segment.source_addr = addr;
                Ipv4Datagram::Tcp(segment)
            },
            Ipv4Datagram::Udp(packet) => {
                let mut packet = packet;
                packet.source_addr = addr;
                Ipv4Datagram::Udp(packet)
            },
            other => other,
        }
    }

    /// The datagram with its destination socket address replaced (see
    /// `spec_with_destination_addr`).
    pub fn with_destination_addr(self, addr: SocketAddrV4) -> (d: Ipv4Datagram)
        ensures
            d == self.spec_with_destination_addr(addr),
    {
        match self {
            Ipv4Datagram::Tcp(segment) => {
                let mut segment = segment;
                segment.destination_addr = addr;
                Ipv4Datagram::Tcp(segment)
            },
            Ipv4Datagram::Udp(packet) => {
                let mut packet = packet;
                packet.destination_addr = addr;
                Ipv4Datagram::Udp(packet)
            },
            other => other,
        }
    }
}

/// The flags of a TCP header's flag byte.
pub open spec fn flags_from_byte(b: u8) -> TcpPacketFlags {
    TcpPacketFlags {
        fin: b & 0x01 != 0,
        syn: b & 0x02 != 0,
        rst: b & 0x04 != 0,
        psh: b & 0x08 != 0,
        ack: b & 0x10 != 0,
        urg: b & 0x20 != 0,
    }
}

/// The flag byte of a TCP header with the given flags.
pub open spec fn flags_to_byte(f: TcpPacketFlags) -> u8 {
    ((if f.fin { 0x01int } else { 0 }) + (if f.syn { 0x02int } else { 0 }) + (if f.rst { 0x04int } else { 0 })
        + (if f.psh { 0x08int } else { 0 }) + (if f.ack { 0x10int } else { 0 }) + (if f.urg { 0x20int } else { 0 })) as u8
}

/// Reading back the flag byte of some flags gives the flags.
pub proof fn lemma_flags_round_trip(f: TcpPacketFlags)
    ensures
        flags_from_byte(flags_to_byte(f)) == f,
{
    let b = flags_to_byte(f);
    let (fin, syn, rst, psh, ack, urg) = (f.fin, f.syn, f.rst, f.psh, f.ack, f.urg);
    assert(b == ((if fin { 1u8 } else { 0u8 }) | (if syn { 2u8 } else { 0u8 }) | (if rst { 4u8 } else { 0u8 })
        | (if psh { 8u8 } else { 0u8 }) | (if ack { 16u8 } else { 0u8 }) | (if urg { 32u8 } else { 0u8 }))) by (bit_vector)
        requires
            b == ((if fin { 0x01int } else { 0 }) + (if syn { 0x02int } else { 0 }) + (if rst { 0x04int } else { 0 })
                + (if psh { 0x08int } else { 0 }) + (if ack { 0x10int } else { 0 }) + (if urg { 0x20int } else { 0 })) as u8,
    ;
    assert(b & 0x01 != 0 <==> fin) by (bit_vector)
        requires
            b == ((if fin { 1u8 } else { 0u8 }) | (if syn { 2u8 } else { 0u8 }) | (if rst { 4u8 } else { 0u8 })
                | (if psh { 8u8 } else { 0u8 }) | (if ack { 16u8 } else { 0u8 }) | (if urg { 32u8 } else { 0u8 })),
    ;
    assert(b & 0x02 != 0 <==> syn) by (bit_vector)
        requires
            b == ((if fin { 1u8 } else { 0u8 }) | (if syn { 2u8 } else { 0u8 }) | (if rst { 4u8 } else { 0u8 })
                | (if psh { 8u8 } else { 0u8 }) | (if ack { 16u8 } else { 0u8 }) | (if urg { 32u8 } else { 0u8 })),
    ;
    assert(b & 0x04 != 0 <==> rst) by (bit_vector)
        requires
            b == ((if fin { 1u8 } else { 0u8 }) | (if syn { 2u8 } else { 0u8 }) | (if rst { 4u8 } else { 0u8 })
                | (if psh { 8u8 } else { 0u8 }) | (if ack { 16u8 } else { 0u8 }) | (if urg { 32u8 } else { 0u8 })),
    ;
    assert(b & 0x08 != 0 <==> psh) by (bit_vector)
        requires
            b == ((if fin { 1u8 } else { 0u8 }) | (if syn { 2u8 } else { 0u8 }) | (if rst { 4u8 } else { 0u8 })
                | (if psh { 8u8 } else { 0u8 }) | (if ack { 16u8 } else { 0u8 }) | (if urg { 32u8 } else { 0u8 })),
    ;
    assert(b & 0x10 != 0 <==> ack) by (bit_vector)
        requires
            b == ((if fin { 1u8 } else { 0u8 }) | (if syn { 2u8 } else { 0u8 }) | (if rst { 4u8 } else { 0u8 })
                | (if psh { 8u8 } else { 0u8 }) | (if ack { 16u8 } else { 0u8 }) | (if urg { 32u8 } else { 0u8 })),
    ;
    assert(b & 0x20 != 0 <==> urg) by (bit_vector)
        requires
            b == ((if fin { 1u8 } else { 0u8 }) | (if syn { 2u8 } else { 0u8 }) | (if rst { 4u8 } else { 0u8 })
                | (if psh { 8u8 } else { 0u8 }) | (if ack { 16u8 } else { 0u8 }) | (if urg { 32u8 } else { 0u8 })),
    ;
}

/// The length of the IPv4 header that the IHL field (low half of byte 0) gives.
pub open spec fn ihl_len(bytes: Seq<u8>) -> int {
    4 * (bytes[0] % 16) as int
}

/// `bytes` hold an IPv4 packet that can be read: version 4, and a header of at least 20 bytes
/// that the bytes contain.
pub open spec fn is_ipv4_bytes(bytes: Seq<u8>) -> bool {
    bytes.len() >= 20 && bytes[0] / 16 == 4 && 20 <= ihl_len(bytes) <= bytes.len()
}

/// `bytes` hold an IPv6 packet that can be read: version 6 and a full 40-byte header.
pub open spec fn is_ipv6_bytes(bytes: Seq<u8>) -> bool {
    bytes.len() >= 40 && bytes[0] / 16 == 6
}

/// The length of the TCP header that follows the IPv4 header, from its data offset field.
pub open spec fn tcp_header_len(bytes: Seq<u8>) -> int {
    4 * (bytes[ihl_len(bytes) + 12] / 16) as int
}

/// `bytes` hold an IPv4 packet carrying a TCP segment whose header can be read.
pub open spec fn is_tcp_bytes(bytes: Seq<u8>) -> bool {
    &&& is_ipv4_bytes(bytes)
    &&& bytes[9] == 6
    &&& ihl_len(bytes) + 20 <= bytes.len()
    &&& 20 <= tcp_header_len(bytes)
    &&& ihl_len(bytes) + tcp_header_len(bytes) <= bytes.len()
}

/// `bytes` hold an IPv4 packet carrying a UDP packet whose header can be read.
pub open spec fn is_udp_bytes(bytes: Seq<u8>) -> bool {
    &&& is_ipv4_bytes(bytes)
    &&& bytes[9] == 17
    &&& ihl_len(bytes) + 8 <= bytes.len()
}

/// The address held by the four bytes from `offset`.
pub open spec fn ipv4_at(bytes: Seq<u8>, offset: int) -> Ipv4Addr {
    Ipv4Addr { bits: seq_to_u32(bytes.subrange(offset, offset + 4)) }
}

/// `d` is what `bytes` say: a TCP segment over IPv4 with its addresses, ports, sequence
/// numbers, flags and payload; a UDP packet over IPv4 with its addresses, ports and the bytes
/// after its 8-byte header; another IPv4 packet with its addresses, protocol and the
/// bytes after the header; or an IPv6 packet with its addresses and the bytes after the
/// 40-byte header.
pub open spec fn parsed_as(bytes: Seq<u8>, d: IpDatagram) -> bool {
    match d {
        IpDatagram::V4(Ipv4Datagram::Tcp(segment)) => {
            let h = ihl_len(bytes);
            &&& is_tcp_bytes(bytes)
            &&& segment.source_addr == SocketAddrV4 { ip: ipv4_at(bytes, 12), port: be16(bytes[h], bytes[h + 1]) }
            &&& segment.destination_addr == SocketAddrV4 { ip: ipv4_at(bytes, 16), port: be16(bytes[h + 2], bytes[h + 3]) }
            &&& segment.seq_number == be32(bytes[h + 4], bytes[h + 5], bytes[h + 6], bytes[h + 7])
            &&& segment.ack_number == be32(bytes[h + 8], bytes[h + 9], bytes[h + 10], bytes[h + 11])
            &&& segment.flags == flags_from_byte(bytes[h + 13])
            &&& segment.payload@ == bytes.skip(h + tcp_header_len(bytes))
        },
        IpDatagram::V4(Ipv4Datagram::Udp(packet)) => {
            let h = ihl_len(bytes);
            &&& is_udp_bytes(bytes)
            &&& packet.source_addr == SocketAddrV4 { ip: ipv4_at(bytes, 12), port: be16(bytes[h], bytes[h + 1]) }
            &&& packet.destination_addr == SocketAddrV4 { ip: ipv4_at(bytes, 16), port: be16(bytes[h + 2], bytes[h + 3]) }
            &&& packet.payload@ == bytes.skip(h + 8)
        },
        IpDatagram::V4(Ipv4Datagram::Other { source_addr, destination_addr, protocol, payload }) => {
            &&& is_ipv4_bytes(bytes)
            &&& !is_tcp_bytes(bytes)
            &&& !is_udp_bytes(bytes)
            &&& source_addr == ipv4_at(bytes, 12)
            &&& destination_addr == ipv4_at(bytes, 16)
            &&& protocol == bytes[9]
            &&& payload@ == bytes.skip(ihl_len(bytes))
        },
        IpDatagram::V6 { source_addr, destination_addr, payload } => {
            &&& is_ipv6_bytes(bytes)
            &&& source_addr.octets@ == bytes.subrange(8, 24)
            &&& destination_addr.octets@ == bytes.subrange(24, 40)
            &&& payload@ == bytes.skip(40)
        },
    }
}

/// The sixteen bytes from `offset`, as an IPv6 address.
fn ipv6_at(bytes: &[u8], offset: usize) -> (addr: Ipv6Addr)
    requires
        offset + 16 <= bytes@.len(),
    ensures
        addr.octets@ == bytes@.subrange(offset as int, offset + 16),
{
    let mut octets: [u8; 16] = [0u8; 16];
    let mut i: usize = 0;
    while i < 16
        invariant
            i <= 16,
            offset + 16 <= bytes.len(),
            forall|j: int| 0 <= j < i ==> octets@[j] == bytes@[offset + j],
        decreases 16 - i,
    {
        octets[i] = bytes[offset + i];
        i = i + 1;
    }
    assert(octets@ =~= bytes@.subrange(offset as int, offset + 16));
    Ipv6Addr::from_octets(octets)
}

/// The flags of a TCP flag byte (see `flags_from_byte`).
fn read_flags(b: u8) -> (flags: TcpPacketFlags)
    ensures
        flags == flags_from_byte(b),
{
    TcpPacketFlags {
        fin: b & 0x01 != 0,
        syn: b & 0x02 != 0,
        rst: b & 0x04 != 0,
        psh: b & 0x08 != 0,
        ack: b & 0x10 != 0,
        urg: b & 0x20 != 0,
    }
}

impl IpDatagram {
    /// Reads a datagram from the bytes of an IP packet (see `parsed_as`); `None` when the
    /// bytes are neither a readable IPv4 nor a readable IPv6 packet.
    pub fn parse(bytes: &[u8]) -> (d: Option<IpDatagram>)
        ensures
            d is None <==> !(is_ipv4_bytes(bytes@) || is_ipv6_bytes(bytes@)),
            d matches Some(d) ==> parsed_as(bytes@, d),
    {
        let n = bytes.len();
        if n < 20 {
            return None;
        }
        let version = bytes[0] / 16;
        if version == 4 {
            let h: usize = 4 * ((bytes[0] % 16) as usize);
            if h < 20 || h > n {
                return None;
            }
            let source = Ipv4Addr::new(bytes[12], bytes[13], bytes[14], bytes[15]);
            let destination = Ipv4Addr::new(bytes[16], bytes[17], bytes[18], bytes[19]);
            assert(source == ipv4_at(bytes@, 12));
            assert(destination == ipv4_at(bytes@, 16));
            let protocol = bytes[9];
            if protocol == 6 && h + 20 <= n {
                let offset: usize = 4 * ((bytes[h + 12] / 16) as usize);
                if 20 <= offset && h + offset <= n {
                    let segment = Tcpv4Packet {
                        source_addr: SocketAddrV4::new(source, read_be16(bytes, h)),
                        destination_addr: SocketAddrV4::new(destination, read_be16(bytes, h + 2)),
                        seq_number: read_be32(bytes, h + 4),
                        ack_number: read_be32(bytes, h + 8),
                        flags: read_flags(bytes[h + 13]),
                        payload: copy_range(bytes, h + offset, n),
                    };
                    assert(segment.payload@ =~= bytes@.skip(h + offset));
                    return Some(IpDatagram::V4(Ipv4Datagram::Tcp(segment)));
                }
            }
            if protocol == 17 && h + 8 <= n {
                let packet = Udpv4Packet {
                    source_addr: SocketAddrV4::new(source, read_be16(bytes, h)),
                    destination_addr: SocketAddrV4::new(destination, read_be16(bytes, h + 2)),
                    payload: copy_range(bytes, h + 8, n),
                };
                assert(packet.payload@ =~= bytes@.skip(h + 8));
                return Some(IpDatagram::V4(Ipv4Datagram::Udp(packet)));
            }
            let payload = copy_range(bytes, h, n);
            assert(payload@ =~= bytes@.skip(h as int));
            Some(IpDatagram::V4(Ipv4Datagram::Other { source_addr: source, destination_addr: destination, protocol, payload }))
        } else if version == 6 && n >= 40 {
            let payload = copy_range(bytes, 40, n);
            assert(payload@ =~= bytes@.skip(40));
            Some(IpDatagram::V6 { source_addr: ipv6_at(bytes, 8), destination_addr: ipv6_at(bytes, 24), payload })
        } else {
            None
        }
    }
}

/// The TTL and IPv6 hop limit of the packets `to_bytes` writes.
pub const DEFAULT_TTL: u8 = 64;

/// The TCP header and payload of `segment`, with a zero checksum: the ports, the sequence
/// numbers, a five-word header, the flags, a window of 65535, then the payload.
pub open spec fn tcp_unsummed(segment: Tcpv4Packet) -> Seq<u8> {
    be16_bytes(segment.source_addr.port) + be16_bytes(segment.destination_addr.port)
        + be32_bytes(segment.seq_number) + be32_bytes(segment.ack_number) + seq![0x50u8, flags_to_byte(segment.flags)]
        + be16_bytes(0xffff) + seq![0u8, 0u8, 0u8, 0u8] + segment.payload@
}

/// The IPv4 pseudo-header that a TCP checksum covers, for a segment of `len` bytes.
pub open spec fn tcp_pseudo_header(segment: Tcpv4Packet, len: nat) -> Seq<u8> {
    u32_to_seq(segment.source_addr.ip.bits) + u32_to_seq(segment.destination_addr.ip.bits) + seq![0u8, 6u8]
        + be16_bytes((len % 0x10000) as u16)
}

/// The TCP segment of `segment` with its checksum (over the pseudo-header and the segment)
/// written at bytes 16 and 17.
pub open spec fn tcp_bytes(segment: Tcpv4Packet) -> Seq<u8> {
    let unsummed = tcp_unsummed(segment);
    let c = spec_checksum(tcp_pseudo_header(segment, unsummed.len()) + unsummed);
    unsummed.update(16, (c / 256) as u8).update(17, (c % 256) as u8)
}

/// The UDP packet of `packet` (see `udp_v4_bytes`).
pub open spec fn udp_bytes(packet: Udpv4Packet) -> Seq<u8> {
    udp_v4_bytes(
        UdpFields { source_port: packet.source_addr.port, dest_port: packet.destination_addr.port },
        packet.source_addr.ip,
        packet.destination_addr.ip,
        packet.payload@,
    )
}

/// The bytes `to_bytes` writes for `d`: an IPv4 packet with TTL `DEFAULT_TTL` (see
/// `header_bytes`) around the TCP segment, the UDP packet or the payload; or an IPv6 header (version 6, no
/// traffic class or flow label, the payload length, next header 59 and hop limit
/// `DEFAULT_TTL`) with the two addresses, before the payload.
pub open spec fn emitted(d: IpDatagram) -> Seq<u8> {
    match d {
        IpDatagram::V4(Ipv4Datagram::Tcp(segment)) => header_bytes(
            Ipv4Fields { source_ip: segment.source_addr.ip, dest_ip: segment.destination_addr.ip, ttl: DEFAULT_TTL },
            6,
            20 + tcp_bytes(segment).len(),
        ) + tcp_bytes(segment),
        IpDatagram::V4(Ipv4Datagram::Udp(packet)) => header_bytes(
            Ipv4Fields { source_ip: packet.source_addr.ip, dest_ip: packet.destination_addr.ip, ttl: DEFAULT_TTL },
            17,
            20 + udp_bytes(packet).len(),
        ) + udp_bytes(packet),
        IpDatagram::V4(Ipv4Datagram::Other { source_addr, destination_addr, protocol, payload }) => header_bytes(
            Ipv4Fields { source_ip: source_addr, dest_ip: destination_addr, ttl: DEFAULT_TTL },
            protocol,
            20 + payload@.len(),
        ) + payload@,
        IpDatagram::V6 { source_addr, destination_addr, payload } => seq![0x60u8, 0u8, 0u8, 0u8]
            + be16_bytes((payload@.len() % 0x10000) as u16) + seq![59u8, DEFAULT_TTL] + source_addr.octets@
            + destination_addr.octets@ + payload@,
    }
}

/// The bytes of a TCP segment (see `tcp_bytes`).
fn write_tcp(segment: &Tcpv4Packet) -> (bytes: Vec<u8>)
    requires
        segment.payload@.len() <= 0xffff_0000,
    ensures
        bytes@ == tcp_bytes(*segment),
{
    let mut out: Vec<u8> = Vec::new();
    push_be16(&mut out, segment.source_addr.port);
    push_be16(&mut out, segment.destination_addr.port);
    push_be32(&mut out, segment.seq_number);
    push_be32(&mut out, segment.ack_number);
    let f = segment.flags;
    let flag_byte: u8 = (if f.fin { 0x01u8 } else { 0 }) + (if f.syn { 0x02u8 } else { 0 }) + (if f.rst { 0x04u8 } else { 0 })
        + (if f.psh { 0x08u8 } else { 0 }) + (if f.ack { 0x10u8 } else { 0 }) + (if f.urg { 0x20u8 } else { 0 });
    let middle: [u8; 2] = [0x50, flag_byte];
    push_slice(&mut out, middle.as_slice());
    push_be16(&mut out, 0xffff);
    let tail: [u8; 4] = [0, 0, 0, 0];
    push_slice(&mut out, tail.as_slice());
    push_slice(&mut out, segment.payload.as_slice());
    let ghost unsummed = out@;
    assert(unsummed =~= tcp_unsummed(*segment));
    let len = out.len();
    let mut summed: Vec<u8> = Vec::new();
    push_slice(&mut summed, segment.source_addr.ip.octets().as_slice());
    push_slice(&mut summed, segment.destination_addr.ip.octets().as_slice());
    let proto: [u8; 2] = [0, 6];
    push_slice(&mut summed, proto.as_slice());
    push_be16(&mut summed, (len % 0x10000) as u16);
    push_slice(&mut summed, out.as_slice());
    assert(summed@ =~= tcp_pseudo_header(*segment, unsummed.len()) + unsummed);
    let c = crate::checksum::data(summed.as_slice());
    set_byte(&mut out, 16, (c / 256) as u8);
    set_byte(&mut out, 17, (c % 256) as u8);
    out
}

impl IpDatagram {
    /// The bytes of the IP packet that carries the datagram (see `emitted`).
    pub fn to_bytes(&self) -> (bytes: Vec<u8>)
        requires
            match self {
                IpDatagram::V4(Ipv4Datagram::Tcp(segment)) => segment.payload@.len() <= 0xffff_0000,
                IpDatagram::V4(Ipv4Datagram::Udp(packet)) => packet.payload@.len() <= 0xffff_0000,
                IpDatagram::V4(Ipv4Datagram::Other { payload, .. }) => payload@.len() <= 0xffff_0000,
                IpDatagram::V6 { .. } => true,
            },
        ensures
            bytes@ == emitted(*self),
    {
        match self {
            IpDatagram::V4(Ipv4Datagram::Tcp(segment)) => {
                let tcp = write_tcp(segment);
                let fields = Ipv4Fields {
                    source_ip: segment.source_addr.ip,
                    dest_ip: segment.destination_addr.ip,
                    ttl: DEFAULT_TTL,
                };
                let packet = crate::ipv4::Ipv4Packet::new_from_fields(
                    fields,
                    &crate::ipv4::Ipv4Payload::Unknown { protocol: 6, payload: tcp },
                );
                packet.into_bytes()
            },
            IpDatagram::V4(Ipv4Datagram::Udp(packet)) => {
                let udp_fields = UdpFields {
                    source_port: packet.source_addr.port,
                    dest_port: packet.destination_addr.port,
                };
                let udp = UdpPacket::new_from_fields_v4(
                    &udp_fields,
                    packet.source_addr.ip,
                    packet.destination_addr.ip,
                    packet.payload.as_slice(),
                );
                let udp_bytes_copy = copy_range(udp.as_bytes(), 0, udp.as_bytes().len());
                assert(udp_bytes_copy@ =~= udp_bytes(*packet));
                let fields = Ipv4Fields {
                    source_ip: packet.source_addr.ip,
                    dest_ip: packet.destination_addr.ip,
                    ttl: DEFAULT_TTL,
                };
                let ip_packet = crate::ipv4::Ipv4Packet::new_from_fields(
                    fields,
                    &crate::ipv4::Ipv4Payload::Unknown { protocol: 17, payload: udp_bytes_copy },
                );
                ip_packet.into_bytes()
            },
            IpDatagram::V4(Ipv4Datagram::Other { source_addr, destination_addr, protocol, payload }) => {
                let fields = Ipv4Fields { source_ip: *source_addr, dest_ip: *destination_addr, ttl: DEFAULT_TTL };
                let copy = copy_range(payload.as_slice(), 0, payload.len());
                assert(copy@ =~= payload@);
                let packet = crate::ipv4::Ipv4Packet::new_from_fields(
                    fields,
                    &crate::ipv4::Ipv4Payload::Unknown { protocol: *protocol, payload: copy },
                );
                packet.into_bytes()
            },
            IpDatagram::V6 { source_addr, destination_addr, payload } => {
                let mut out: Vec<u8> = Vec::new();
                let start: [u8; 4] = [0x60, 0, 0, 0];
                push_slice(&mut out, start.as_slice());
                push_be16(&mut out, (payload.len() % 0x10000) as u16);
                let next: [u8; 2] = [59, DEFAULT_TTL];
                push_slice(&mut out, next.as_slice());
                push_slice(&mut out, source_addr.octets.as_slice());
                push_slice(&mut out, destination_addr.octets.as_slice());
                push_slice(&mut out, payload.as_slice());
                assert(out@ =~= emitted(*self));
                out
            },
        }
    }
}

/// The IPv4 header written for `fields`, `protocol` and `len` reads back as a five-word
/// version-4 header with those addresses and that protocol.
proof fn lemma_header_reads_back(fields: Ipv4Fields, protocol: u8, len: nat, rest: Seq<u8>)
    ensures
        ({
            let b = header_bytes(fields, protocol, len) + rest;
            &&& b.len() == 20 + rest.len()
            &&& b[0] == 0x45
            &&& ihl_len(b) == 20
            &&& is_ipv4_bytes(b)
            &&& b[9] == protocol
            &&& ipv4_at(b, 12) == fields.source_ip
            &&& ipv4_at(b, 16) == fields.dest_ip
            &&& b.skip(20) == rest
        }),
{
    lemma_ipv4_header_round_trip(fields, protocol, len);
    let h = header_bytes(fields, protocol, len);
    let b = h + rest;
    assert(h[0] == header_without_checksum(fields, protocol, len)[0]);
    assert(b.subrange(12, 16) =~= h.subrange(12, 16));
    assert(b.subrange(16, 20) =~= h.subrange(16, 20));
    assert(b.skip(20) =~= rest);
    assert(b[0] == 0x45u8);
    assert(0x45u8 / 16 == 4 && 0x45u8 % 16 == 5);
}

/// Reading back the bytes written for a datagram gives the datagram, for a TCP segment, a UDP
/// packet, an IPv4 packet of another protocol than TCP and UDP, and an IPv6 packet.
pub proof fn lemma_datagram_round_trip(d: IpDatagram)
    requires
        match d {
            IpDatagram::V4(Ipv4Datagram::Tcp(segment)) => segment.payload@.len() <= 0xffff_0000,
            IpDatagram::V4(Ipv4Datagram::Udp(packet)) => packet.payload@.len() <= 0xffff_0000,
            IpDatagram::V4(Ipv4Datagram::Other { protocol, payload, .. }) => protocol != 6 && protocol != 17
                && payload@.len() <= 0xffff_0000,
            IpDatagram::V6 { .. } => true,
        },
    ensures
        parsed_as(emitted(d), d),
{
    let b = emitted(d);
    match d {
        IpDatagram::V4(Ipv4Datagram::Tcp(segment)) => {
            let fields = Ipv4Fields { source_ip: segment.source_addr.ip, dest_ip: segment.destination_addr.ip, ttl: DEFAULT_TTL };
            let t = tcp_bytes(segment);
            let u = tcp_unsummed(segment);
            lemma_header_reads_back(fields, 6, 20 + t.len(), t);
            assert(b.skip(20) == t);
            assert forall|k: int| 0 <= k < t.len() implies b[20 + k] == t[k] by {
                assert(b.skip(20)[k] == b[20 + k]);
            }
            assert forall|k: int| 0 <= k < 16 implies t[k] == u[k] by {}
            lemma_be_round_trip(segment.source_addr.port, segment.seq_number);
            lemma_be_round_trip(segment.destination_addr.port, segment.ack_number);
            lemma_flags_round_trip(segment.flags);
            assert(u[12] == 0x50u8);
            assert(b[32] == 0x50u8);
            assert(0x50u8 / 16 == 5);
            assert(tcp_header_len(b) == 20);
            assert(u[0] == be16_bytes(segment.source_addr.port)[0]);
            assert(u[1] == be16_bytes(segment.source_addr.port)[1]);
            assert(u[2] == be16_bytes(segment.destination_addr.port)[0]);
            assert(u[3] == be16_bytes(segment.destination_addr.port)[1]);
            assert(u.subrange(4, 8) =~= be32_bytes(segment.seq_number));
            assert(u.subrange(8, 12) =~= be32_bytes(segment.ack_number));
            assert(u[13] == flags_to_byte(segment.flags));
            assert(u.skip(20) =~= segment.payload@);
            assert(t.skip(20) =~= u.skip(20));
            assert(b.skip(40) =~= t.skip(20));
        },
        IpDatagram::V4(Ipv4Datagram::Udp(packet)) => {
            let fields = Ipv4Fields { source_ip: packet.source_addr.ip, dest_ip: packet.destination_addr.ip, ttl: DEFAULT_TTL };
            let t = udp_bytes(packet);
            lemma_header_reads_back(fields, 17, 20 + t.len(), t);
            assert(b.skip(20) == t);
            assert forall|k: int| 0 <= k < t.len() implies b[20 + k] == t[k] by {
                assert(b.skip(20)[k] == b[20 + k]);
            }
            lemma_be_round_trip(packet.source_addr.port, 0);
            lemma_be_round_trip(packet.destination_addr.port, 0);
            assert(t.len() == 8 + packet.payload@.len());
            assert(t[0] == be16_bytes(packet.source_addr.port)[0]);
            assert(t[1] == be16_bytes(packet.source_addr.port)[1]);
            assert(t[2] == be16_bytes(packet.destination_addr.port)[0]);
            assert(t[3] == be16_bytes(packet.destination_addr.port)[1]);
            assert(t.skip(8) =~= packet.payload@);
            assert(b.skip(28) =~= t.skip(8));
        },
        IpDatagram::V4(Ipv4Datagram::Other { source_addr, destination_addr, protocol, payload }) => {
            let fields = Ipv4Fields { source_ip: source_addr, dest_ip: destination_addr, ttl: DEFAULT_TTL };
            lemma_header_reads_back(fields, protocol, 20 + payload@.len(), payload@);
        },
        IpDatagram::V6 { source_addr, destination_addr, payload } => {
            assert(b[0] == 0x60u8);
            assert(0x60u8 / 16 == 6);
            assert(b.subrange(8, 24) =~= source_addr.octets@);
            assert(b.subrange(24, 40) =~= destination_addr.octets@);
            assert(b.skip(40) =~= payload@);
        },
    }
}

/// A TCP segment over IPv4 is read past its whole header, options included: the bytes are read
/// as a TCP segment exactly when they are a version-4 packet of protocol 6 whose IPv4 header of
/// `h = 4 * IHL` bytes (IHL the low half of byte 0) is at least 20 bytes, whose TCP data offset
/// `o` (the high half of byte `h + 12`) is at least 5 words, and which hold all `h + 4 * o`
/// header bytes; the segment's payload is then every byte from `h + 4 * o` on.
pub proof fn lemma_tcp_payload_follows_data_offset(bytes: Seq<u8>, d: IpDatagram)
    requires
        parsed_as(bytes, d),
    ensures
        ({
            let h = 4 * (bytes[0] % 16) as int;
            let tcp = bytes.len() >= 20 && bytes[0] / 16 == 4 && bytes[9] == 6 && 20 <= h
                && h + 20 <= bytes.len() && bytes[h + 12] / 16 >= 5
                && h + 4 * (bytes[h + 12] / 16) as int <= bytes.len();
            &&& (d matches IpDatagram::V4(Ipv4Datagram::Tcp(_))) <==> tcp
            &&& d matches IpDatagram::V4(Ipv4Datagram::Tcp(segment))
                ==> segment.payload@ == bytes.subrange(h + 4 * (bytes[h + 12] / 16) as int, bytes.len() as int)
        }),
{
    let h = 4 * (bytes[0] % 16) as int;
    if let IpDatagram::V4(Ipv4Datagram::Tcp(segment)) = d {
        assert(segment.payload@ =~= bytes.subrange(h + 4 * (bytes[h + 12] / 16) as int, bytes.len() as int));
    }
}

} // verus!
