//! UDP packets, carried as their bytes.

use vstd::prelude::*;
use crate::addr::{Ipv4Addr, u32_to_seq};
use crate::bytes::{push_slice, set_byte};
use crate::checksum::spec_checksum;
use crate::ipv4::UdpFields;

verus! {

/// A UDP packet (header and payload), held as its bytes.
#[derive(Clone, Debug)]
pub struct UdpPacket {
    buffer: Vec<u8>,
}

impl View for UdpPacket {
    type V = Seq<u8>;

    /// The packet's bytes.
    open spec fn view(&self) -> Seq<u8> {
        self.spec_buffer()@
    }
}

impl UdpPacket {
    /// The buffer holding the packet.
    pub closed spec fn spec_buffer(&self) -> Vec<u8> {
        self.buffer
    }

    /// Wraps the bytes of a UDP packet.
    pub fn from_bytes(buffer: Vec<u8>) -> (packet: UdpPacket)
        ensures
            packet@ == buffer@,
    {
        UdpPacket { buffer }
    }

    /// The packet's bytes.
    pub fn as_bytes(&self) -> (bytes: &[u8])
        ensures
            bytes@ == self@,
    {
        self.buffer.as_slice()
    }
}

/// The two big-endian bytes of `x`.
pub open spec fn be_bytes(x: u16) -> Seq<u8> {
    seq![(x / 256) as u8, (x % 256) as u8]
}

/// The IPv4 pseudo-header that the UDP checksum covers: the two addresses, a zero byte, the
/// protocol (17) and the UDP length.
pub open spec fn pseudo_header_v4(source_ip: Ipv4Addr, dest_ip: Ipv4Addr, len: u16) -> Seq<u8> {
    u32_to_seq(source_ip.bits) + u32_to_seq(dest_ip.bits) + seq![0u8, 17u8] + be_bytes(len)
}

/// The UDP packet with the given ports and payload between the two addresses: the two ports,
/// the length (header and payload, modulo `2^16`), the checksum of the pseudo-header and the
/// packet with a zero checksum field, then the payload.
pub open spec fn udp_v4_bytes(fields: UdpFields, source_ip: Ipv4Addr, dest_ip: Ipv4Addr, payload: Seq<u8>) -> Seq<u8> {
    let len = ((8 + payload.len()) % 0x10000) as u16;
    let unsummed = be_bytes(fields.source_port) + be_bytes(fields.dest_port) + be_bytes(len)
        + seq![0u8, 0u8] + payload;
    let c = spec_checksum(pseudo_header_v4(source_ip, dest_ip, len) + unsummed);
    unsummed.update(6, (c / 256) as u8).update(7, (c % 256) as u8)
}

impl UdpPacket {
    /// Builds the packet of `udp_v4_bytes`.
    pub fn new_from_fields_v4(fields: &UdpFields, source_ip: Ipv4Addr, dest_ip: Ipv4Addr, payload: &[u8]) -> (packet: UdpPacket)
        requires
            payload@.len() <= 0xffff_0000,
        ensures
            packet@ == udp_v4_bytes(*fields, source_ip, dest_ip, payload@),
    {
        let len: u16 = ((8 + payload.len()) % 0x10000) as u16;
        let mut buffer: Vec<u8> = Vec::new();
        let header: [u8; 8] = [
            (fields.source_port / 256) as u8,
            (fields.source_port % 256) as u8,
            (fields.dest_port / 256) as u8,
            (fields.dest_port % 256) as u8,
            (len / 256) as u8,
            (len % 256) as u8,
            0,
            0,
        ];
        push_slice(&mut buffer, header.as_slice());
        push_slice(&mut buffer, payload);
        let ghost unsummed = buffer@;
        assert(unsummed =~= be_bytes(fields.source_port) + be_bytes(fields.dest_port) + be_bytes(len)
            + seq![0u8, 0u8] + payload@);
        let mut summed: Vec<u8> = Vec::new();
        push_slice(&mut summed, source_ip.octets().as_slice());
        push_slice(&mut summed, dest_ip.octets().as_slice());
        let middle: [u8; 4] = [0, 17, (len / 256) as u8, (len % 256) as u8];
        push_slice(&mut summed, middle.as_slice());
        push_slice(&mut summed, buffer.as_slice());
        assert(summed@ =~= pseudo_header_v4(source_ip, dest_ip, len) + unsummed);
        let c = crate::checksum::data(summed.as_slice());
        set_byte(&mut buffer, 6, (c / 256) as u8);
        set_byte(&mut buffer, 7, (c % 256) as u8);
        UdpPacket { buffer }
    }
}

} // verus!
