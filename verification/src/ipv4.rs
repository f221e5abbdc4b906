//! IPv4 packets: their header fields, their payloads, and their wire format.

use vstd::prelude::*;
use crate::addr::{Ipv4Addr, u32_to_seq, lemma_u32_octets_roundtrip, seq_to_u32};
use crate::bytes::{push_slice, set_byte, copy_range};
use crate::checksum::spec_checksum;
use crate::udp::UdpPacket;

verus! {

/// The IPv4 header fields that the simulator reads and rewrites.
#[derive(Clone, Copy, Debug, PartialEq, Eq, Structural)]
pub struct Ipv4Fields {
    pub source_ip: Ipv4Addr,
    pub dest_ip: Ipv4Addr,
    pub ttl: u8,
}

/// The port fields of a UDP header.
#[derive(Clone, Copy, Debug, PartialEq, Eq, Structural)]
pub struct UdpFields {
    pub source_port: u16,
    pub dest_port: u16,
}

/// The port fields of a TCP header.
#[derive(Clone, Copy, Debug, PartialEq, Eq, Structural)]
pub struct TcpFields {
    pub source_port: u16,
    pub dest_port: u16,
}

/// The payload of an IPv4 packet, described by its transport header fields and the bytes that
/// follow them.
#[derive(Clone, Debug)]
pub enum Ipv4PayloadFields {
    Udp { fields: UdpFields, payload: Vec<u8> },
    Tcp { fields: TcpFields, payload: Vec<u8> },
    Unknown { protocol: u8, payload: Vec<u8> },
}

/// An IPv4 packet described by its header fields and payload.
#[derive(Clone, Debug)]
pub struct Ipv4PacketFields {
    pub fields: Ipv4Fields,
    pub payload: Ipv4PayloadFields,
}

impl Ipv4PayloadFields {
    /// The payload is a UDP or TCP segment, so it has ports.
    pub open spec fn has_ports(&self) -> bool {
        !(self is Unknown)
    }

    /// The payload is a TCP segment.
    pub open spec fn is_tcp(&self) -> bool {
        self is Tcp
    }

    /// The source port of a UDP or TCP payload.
    pub open spec fn spec_source_port(&self) -> u16 {
        match self {
            Ipv4PayloadFields::Udp { fields, .. } => fields.source_port,
            Ipv4PayloadFields::Tcp { fields, .. } => fields.source_port,
            Ipv4PayloadFields::Unknown { .. } => 0,
        }
    }

    /// The destination port of a UDP or TCP payload.
    pub open spec fn spec_dest_port(&self) -> u16 {
        match self {
            Ipv4PayloadFields::Udp { fields, .. } => fields.dest_port,
            Ipv4PayloadFields::Tcp { fields, .. } => fields.dest_port,
            Ipv4PayloadFields::Unknown { .. } => 0,
        }
    }

    /// The same payload with its ports replaced (an unknown payload has none to replace).
    pub open spec fn spec_with_ports(self, source_port: u16, dest_port: u16) -> Ipv4PayloadFields {
        match self {
            Ipv4PayloadFields::Udp { payload, .. } => Ipv4PayloadFields::Udp {
                fields: UdpFields { source_port, dest_port },
                payload,
            },
            Ipv4PayloadFields::Tcp { payload, .. } => Ipv4PayloadFields::Tcp {
                fields: TcpFields { source_port, dest_port },
                payload,
            },
            Ipv4PayloadFields::Unknown { .. } => self,
        }
    }

    /// The source and destination ports of a UDP or TCP payload.
    pub fn ports(&self) -> (ports: Option<(u16, u16)>)
        ensures
            self.has_ports() <==> ports is Some,
            ports matches Some(p) ==> p.0 == self.spec_source_port() && p.1
                == self.spec_dest_port(),
    {
        match self {
            Ipv4PayloadFields::Udp { fields, .. } => Some((fields.source_port, fields.dest_port)),
            Ipv4PayloadFields::Tcp { fields, .. } => Some((fields.source_port, fields.dest_port)),
            Ipv4PayloadFields::Unknown { .. } => None,
        }
    }

    /// Whether the payload is a TCP segment.
    pub fn is_tcp_segment(&self) -> (res: bool)
        ensures
            res == self.is_tcp(),
    {
        match self {
            Ipv4PayloadFields::Tcp { .. } => true,
            _ => false,
        }
    }

    /// The same payload with its ports replaced (see `spec_with_ports`).
    pub fn with_ports(self, source_port: u16, dest_port: u16) -> (res: Ipv4PayloadFields)
        ensures
            res == self.spec_with_ports(source_port, dest_port),
    {
        match self {
            Ipv4PayloadFields::Udp { payload, .. } => Ipv4PayloadFields::Udp {
                fields: UdpFields { source_port, dest_port },
                payload,
            },
            Ipv4PayloadFields::Tcp { payload, .. } => Ipv4PayloadFields::Tcp {
                fields: TcpFields { source_port, dest_port },
                payload,
            },
            Ipv4PayloadFields::Unknown { protocol, payload } => Ipv4PayloadFields::Unknown {
                protocol,
                payload,
            },
        }
    }
}

/// The first 20 bytes of an IPv4 packet of `len` bytes with the given fields and protocol, with
/// the checksum field zero: version 4 with a five-word header, the total length (modulo
/// `2^16`), no identification, flags or fragment offset, then the TTL, the protocol, the
/// checksum and the two addresses.
pub open spec fn header_without_checksum(fields: Ipv4Fields, protocol: u8, len: nat) -> Seq<u8> {
    let total = len % 0x10000;
    seq![
        0x45u8,
        0x00,
        (total / 256) as u8,
        (total % 256) as u8,
        0x00,
        0x00,
        0x00,
        0x00,
        fields.ttl,
        protocol,
        0x00,
        0x00,
    ] + u32_to_seq(fields.source_ip.bits) + u32_to_seq(fields.dest_ip.bits)
}

/// The header of `header_without_checksum` with the checksum of those 20 bytes written,
/// big-endian, at bytes 10 and 11.
pub open spec fn header_bytes(fields: Ipv4Fields, protocol: u8, len: nat) -> Seq<u8> {
    let h = header_without_checksum(fields, protocol, len);
    let c = spec_checksum(h);
    h.update(10, (c / 256) as u8).update(11, (c % 256) as u8)
}

/// Writes the header of `fields` over the first 20 bytes of `buffer`, keeping its protocol
/// byte (see `header_bytes`).
fn write_header(buffer: &mut Vec<u8>, fields: Ipv4Fields)
    requires
        old(buffer)@.len() >= 20,
    ensures
        final(buffer)@ == header_bytes(fields, old(buffer)@[9], old(buffer)@.len())
            + old(buffer)@.skip(20),
{
    let ghost original = buffer@;
    let len = buffer.len();
    let total: u16 = (len % 0x10000) as u16;
    set_byte(buffer, 0, 0x45);
    set_byte(buffer, 1, 0x00);
    set_byte(buffer, 2, (total / 256) as u8);
    set_byte(buffer, 3, (total % 256) as u8);
    set_byte(buffer, 4, 0x00);
    set_byte(buffer, 5, 0x00);
    set_byte(buffer, 6, 0x00);
    set_byte(buffer, 7, 0x00);
    set_byte(buffer, 8, fields.ttl);
    set_byte(buffer, 10, 0x00);
    set_byte(buffer, 11, 0x00);
    let source = fields.source_ip.octets();
    let dest = fields.dest_ip.octets();
    set_byte(buffer, 12, source[0]);
    set_byte(buffer, 13, source[1]);
    set_byte(buffer, 14, source[2]);
    set_byte(buffer, 15, source[3]);
    set_byte(buffer, 16, dest[0]);
    set_byte(buffer, 17, dest[1]);
    set_byte(buffer, 18, dest[2]);
    set_byte(buffer, 19, dest[3]);
    let ghost h = header_without_checksum(fields, original[9], original.len());
    assert(buffer@.subrange(0, 20) =~= h);
    let c = crate::checksum::data(&buffer.as_slice()[0..20]);
    set_byte(buffer, 10, (c / 256) as u8);
    set_byte(buffer, 11, (c % 256) as u8);
    assert(buffer@ =~= header_bytes(fields, original[9], original.len()) + original.skip(20));
}

/// The payload of an IPv4 packet as `Ipv4Packet` builds and reads it.
#[derive(Clone, Debug)]
pub enum Ipv4Payload {
    Udp(UdpPacket),
    Unknown { protocol: u8, payload: Vec<u8> },
}

impl Ipv4Payload {
    /// The protocol number written for the payload: 17 for UDP.
    pub open spec fn spec_protocol(&self) -> u8 {
        match self {
            Ipv4Payload::Udp(..) => 17,
            Ipv4Payload::Unknown { protocol, .. } => *protocol,
        }
    }

    /// The payload's bytes.
    pub open spec fn spec_bytes(&self) -> Seq<u8> {
        match self {
            Ipv4Payload::Udp(udp) => udp@,
            Ipv4Payload::Unknown { payload, .. } => payload@,
        }
    }
}

/// An IPv4 packet, held as its bytes.
#[derive(Clone, Debug)]
pub struct Ipv4Packet {
    buffer: Vec<u8>,
}

impl View for Ipv4Packet {
    type V = Seq<u8>;

    /// The packet's bytes.
    open spec fn view(&self) -> Seq<u8> {
        self.spec_buffer()@
    }
}

impl Ipv4Packet {
    /// The buffer holding the packet.
    pub closed spec fn spec_buffer(&self) -> Vec<u8> {
        self.buffer
    }

    /// Builds the packet with the given header fields and payload: the header of
    /// `header_bytes`, with the payload's protocol number, followed by the payload's bytes.
    pub fn new_from_fields(fields: Ipv4Fields, payload: &Ipv4Payload) -> (packet: Ipv4Packet)
        requires
            20 + payload.spec_bytes().len() <= usize::MAX,
        ensures
            packet@ == header_bytes(fields, payload.spec_protocol(), 20 + payload.spec_bytes().len())
                + payload.spec_bytes(),
    {
        let mut buffer: Vec<u8> = Vec::new();
        let blank: [u8; 20] = [0u8; 20];
        push_slice(&mut buffer, blank.as_slice());
        let protocol: u8 = match payload {
            Ipv4Payload::Udp(..) => 17,
            Ipv4Payload::Unknown { protocol, .. } => *protocol,
        };
        set_byte(&mut buffer, 9, protocol);
        match payload {
            Ipv4Payload::Udp(udp) => push_slice(&mut buffer, udp.as_bytes()),
            Ipv4Payload::Unknown { payload, .. } => push_slice(&mut buffer, payload.as_slice()),
        }
        let ghost before = buffer@;
        write_header(&mut buffer, fields);
        assert(before.skip(20) =~= payload.spec_bytes());
        Ipv4Packet { buffer }
    }

    /// Wraps the raw bytes of a packet.
    pub fn from_bytes(buffer: Vec<u8>) -> (packet: Ipv4Packet)
        ensures
            packet@ == buffer@,
    {
        Ipv4Packet { buffer }
    }

    /// Rewrites the header with new fields, keeping the protocol, length and payload (see
    /// `header_bytes`).
    pub fn set_fields(&mut self, fields: Ipv4Fields)
        requires
            old(self)@.len() >= 20,
        ensures
            final(self)@ == header_bytes(fields, old(self)@[9], old(self)@.len()) + old(self)@.skip(
                20,
            ),
    {
        write_header(&mut self.buffer, fields);
    }

    /// The source address (bytes 12 to 16).
    pub fn source_ip(&self) -> (ip: Ipv4Addr)
        requires
            self@.len() >= 20,
        ensures
            ip.bits == seq_to_u32(self@.subrange(12, 16)),
    {
        let b = self.buffer.as_slice();
        Ipv4Addr::new(b[12], b[13], b[14], b[15])
    }

    /// The destination address (bytes 16 to 20).
    pub fn dest_ip(&self) -> (ip: Ipv4Addr)
        requires
            self@.len() >= 20,
        ensures
            ip.bits == seq_to_u32(self@.subrange(16, 20)),
    {
        let b = self.buffer.as_slice();
        Ipv4Addr::new(b[16], b[17], b[18], b[19])
    }

    /// The time to live (byte 8).
    pub fn ttl(&self) -> (ttl: u8)
        requires
            self@.len() >= 20,
        ensures
            ttl == self@[8],
    {
        self.buffer[8]
    }

    /// The payload: the bytes after the 20-byte header, under the protocol number of byte 9.
    pub fn payload(&self) -> (payload: Ipv4Payload)
        requires
            self@.len() >= 20,
        ensures
            payload matches Ipv4Payload::Unknown { protocol, payload } && protocol == self@[9]
                && payload@ == self@.skip(20),
    {
        let bytes = copy_range(self.buffer.as_slice(), 20, self.buffer.len());
        assert(bytes@ =~= self@.skip(20));
        Ipv4Payload::Unknown { protocol: self.buffer[9], payload: bytes }
    }

    /// The header fields: addresses and TTL.
    pub fn fields(&self) -> (fields: Ipv4Fields)
        requires
            self@.len() >= 20,
        ensures
            fields.source_ip.bits == seq_to_u32(self@.subrange(12, 16)),
            fields.dest_ip.bits == seq_to_u32(self@.subrange(16, 20)),
            fields.ttl == self@[8],
    {
        Ipv4Fields { source_ip: self.source_ip(), dest_ip: self.dest_ip(), ttl: self.ttl() }
    }

    /// The packet's bytes, giving up the packet.
    pub fn into_bytes(self) -> (bytes: Vec<u8>)
        ensures
            bytes@ == self@,
    {
        self.buffer
    }

    /// A copy of the packet.
    pub fn duplicate(&self) -> (copy: Ipv4Packet)
        ensures
            copy@ == self@,
    {
        let buffer = copy_range(self.buffer.as_slice(), 0, self.buffer.len());
        assert(buffer@ =~= self@);
        Ipv4Packet { buffer }
    }

    /// The packet's bytes.
    pub fn as_bytes(&self) -> (bytes: &[u8])
        ensures
            bytes@ == self@,
    {
        self.buffer.as_slice()
    }
}

/// Reading back a packet built from fields gives the fields: its addresses, its TTL and its
/// protocol.
pub proof fn lemma_ipv4_header_round_trip(fields: Ipv4Fields, protocol: u8, len: nat)
    ensures
        header_bytes(fields, protocol, len).len() == 20,
        seq_to_u32(header_bytes(fields, protocol, len).subrange(12, 16)) == fields.source_ip.bits,
        seq_to_u32(header_bytes(fields, protocol, len).subrange(16, 20)) == fields.dest_ip.bits,
        header_bytes(fields, protocol, len)[8] == fields.ttl,
        header_bytes(fields, protocol, len)[9] == protocol,
{
    let h = header_bytes(fields, protocol, len);
    lemma_u32_octets_roundtrip(fields.source_ip.bits);
    lemma_u32_octets_roundtrip(fields.dest_ip.bits);
    assert(h.subrange(12, 16) =~= u32_to_seq(fields.source_ip.bits));
    assert(h.subrange(16, 20) =~= u32_to_seq(fields.dest_ip.bits));
}

} // verus!
