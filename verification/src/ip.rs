//! The first, minimal reading of IP packets: an IPv4 packet's addresses, its 16-bit TTL field
//! and its payload after a header of the length its IHL field gives, and raw IPv6 packets.

use vstd::prelude::*;
use crate::addr::{Ipv4Addr, seq_to_u32};
use crate::bytes::copy_range;
use crate::udp::UdpPacket;

verus! {

/// An IPv4 packet read from its bytes.
#[derive(Debug)]
pub struct Ipv4Packet {
    data: Vec<u8>,
}

/// The payload of an IPv4 packet: UDP (protocol 17) or another protocol.
#[derive(Debug)]
pub enum Ipv4Payload {
    Udp(UdpPacket),
    Unknown(u8, Vec<u8>),
}

/// An IPv6 packet, held as its bytes.
#[derive(Debug)]
pub struct Ipv6Packet {
    data: Vec<u8>,
}

impl View for Ipv4Packet {
    type V = Seq<u8>;

    /// The packet's bytes.
    open spec fn view(&self) -> Seq<u8> {
        self.spec_data()@
    }
}

/// The header length, in bytes, that the IHL field (low four bits of the first byte) gives.
pub open spec fn header_len(first: u8) -> int {
    4 * (first % 16) as int
}

impl Ipv4Packet {
    /// The buffer holding the packet.
    pub closed spec fn spec_data(&self) -> Vec<u8> {
        self.data
    }

    /// Wraps the bytes of a packet.
    pub fn new(data: Vec<u8>) -> (packet: Ipv4Packet)
        ensures
            packet@ == data@,
    {
        Ipv4Packet { data }
    }

    /// Bytes 8 and 9 read as one big-endian number: the TTL above the protocol byte.
    pub fn ttl(&self) -> (ttl: u16)
        requires
            self@.len() >= 10,
        ensures
            ttl == self@[8] as int * 256 + self@[9] as int,
    {
        let hi = self.data[8] as u16;
        let lo = self.data[9] as u16;
        let shifted: u16 = hi * 256;
        assert(hi < 256 && lo < 256 && shifted == hi * 256 ==> shifted | lo == shifted + lo) by (bit_vector);
        shifted | lo
    }

    /// The source address (bytes 12 to 16).
    pub fn source(&self) -> (addr: Ipv4Addr)
        requires
            self@.len() >= 16,
        ensures
            addr.bits == seq_to_u32(self@.subrange(12, 16)),
    {
        Ipv4Addr::new(self.data[12], self.data[13], self.data[14], self.data[15])
    }

    /// The destination address (bytes 16 to 20).
    pub fn destination(&self) -> (addr: Ipv4Addr)
        requires
            self@.len() >= 20,
        ensures
            addr.bits == seq_to_u32(self@.subrange(16, 20)),
    {
        Ipv4Addr::new(self.data[16], self.data[17], self.data[18], self.data[19])
    }

    /// The bytes after the header, as UDP when the protocol byte is 17.
    pub fn payload(&self) -> (payload: Ipv4Payload)
        requires
            self@.len() >= 10,
            header_len(self@[0]) <= self@.len(),
        ensures
            self@[9] == 17 ==> (payload matches Ipv4Payload::Udp(udp) && udp@ == self@.skip(
                header_len(self@[0]),
            )),
            self@[9] != 17 ==> (payload matches Ipv4Payload::Unknown(protocol, bytes) && protocol
                == self@[9] && bytes@ == self@.skip(header_len(self@[0]))),
    {
        let ihl = self.data[0] & 0x0f;
        let first = self.data[0];
        assert(first & 0x0f == first % 16) by (bit_vector);
        let start = 4 * (ihl as usize);
        let bytes = copy_range(self.data.as_slice(), start, self.data.len());
        assert(bytes@ =~= self@.skip(header_len(self@[0])));
        if self.data[9] == 17 {
            Ipv4Payload::Udp(UdpPacket::from_bytes(bytes))
        } else {
            Ipv4Payload::Unknown(self.data[9], bytes)
        }
    }
}

impl View for Ipv6Packet {
    type V = Seq<u8>;

    /// The packet's bytes.
    open spec fn view(&self) -> Seq<u8> {
        self.spec_data()@
    }
}

impl Ipv6Packet {
    /// The buffer holding the packet.
    pub closed spec fn spec_data(&self) -> Vec<u8> {
        self.data
    }

    /// Wraps the bytes of a packet.
    pub fn new(data: Vec<u8>) -> (packet: Ipv6Packet)
        ensures
            packet@ == data@,
    {
        Ipv6Packet { data }
    }
}

} // verus!
