//! ARP packets for IPv4 over Ethernet: building them from their fields and reading the fields
//! back.

use vstd::prelude::*;
use crate::addr::{Ipv4Addr, u32_to_seq, seq_to_u32, lemma_u32_octets_roundtrip};
use crate::bytes::push_slice;
use crate::mac::MacAddr;

verus! {

/// The fields of an ARP request or response.
#[derive(Clone, Copy, Debug, PartialEq, Eq)]
pub enum ArpFields {
    Request { source_mac: MacAddr, source_ip: Ipv4Addr, dest_ip: Ipv4Addr },
    Response { source_mac: MacAddr, source_ip: Ipv4Addr, dest_mac: MacAddr, dest_ip: Ipv4Addr },
}

/// The fixed start of every packet: Ethernet hardware (1), IPv4 protocol (0x0800), and address
/// lengths 6 and 4.
pub open spec fn arp_prefix() -> Seq<u8> {
    seq![0x00u8, 0x01, 0x08, 0x00, 0x06, 0x04]
}

/// The operation code of a request.
pub const ARP_REQUEST: u8 = 1;

/// The operation code of a response.
pub const ARP_RESPONSE: u8 = 2;

/// Six zero bytes: the target hardware address of a request.
pub open spec fn zero_mac() -> Seq<u8> {
    seq![0u8, 0, 0, 0, 0, 0]
}

impl ArpFields {
    /// The sender's hardware address.
    pub open spec fn spec_source_mac(self) -> MacAddr {
        match self {
            ArpFields::Request { source_mac, .. } => source_mac,
            ArpFields::Response { source_mac, .. } => source_mac,
        }
    }

    /// The sender's protocol address.
    pub open spec fn spec_source_ip(self) -> Ipv4Addr {
        match self {
            ArpFields::Request { source_ip, .. } => source_ip,
            ArpFields::Response { source_ip, .. } => source_ip,
        }
    }

    /// The target's protocol address.
    pub open spec fn spec_dest_ip(self) -> Ipv4Addr {
        match self {
            ArpFields::Request { dest_ip, .. } => dest_ip,
            ArpFields::Response { dest_ip, .. } => dest_ip,
        }
    }

    /// The bytes of the target hardware address field: zeros in a request.
    pub open spec fn spec_dest_mac_bytes(self) -> Seq<u8> {
        match self {
            ArpFields::Request { .. } => zero_mac(),
            ArpFields::Response { dest_mac, .. } => dest_mac@,
        }
    }

    /// The operation code: 1 for a request, 2 for a response.
    pub open spec fn spec_opcode(self) -> u8 {
        match self {
            ArpFields::Request { .. } => ARP_REQUEST,
            ArpFields::Response { .. } => ARP_RESPONSE,
        }
    }

    /// The 28 bytes of the packet with these fields: the fixed prefix, the operation code as a
    /// big-endian 16-bit number, then the addresses.
    pub open spec fn spec_bytes(self) -> Seq<u8> {
        arp_prefix() + seq![0u8, self.spec_opcode()] + self.spec_source_mac()@ + u32_to_seq(self.spec_source_ip().bits)
            + self.spec_dest_mac_bytes() + u32_to_seq(self.spec_dest_ip().bits)
    }
}

/// The 28 bytes `b` hold the fields `f`: the operation code of `f`'s kind, and `f`'s sender
/// addresses and target protocol address (and, for a response, its target hardware address)
/// at their places.
pub open spec fn reads_as(b: Seq<u8>, f: ArpFields) -> bool {
    &&& b.len() == 28
    &&& b[6] == 0 && b[7] == f.spec_opcode()
    &&& f.spec_source_mac()@ == b.subrange(8, 14)
    &&& f.spec_source_ip().bits == seq_to_u32(b.subrange(14, 18))
    &&& f.spec_dest_ip().bits == seq_to_u32(b.subrange(24, 28))
    &&& f matches ArpFields::Response { dest_mac, .. } ==> dest_mac@ == b.subrange(18, 24)
}

/// An ARP packet, held as its bytes.
#[derive(Clone, Debug)]
pub struct ArpPacket {
    buffer: Vec<u8>,
}

impl View for ArpPacket {
    type V = Seq<u8>;

    /// The packet's bytes.
    open spec fn view(&self) -> Seq<u8> {
        self.spec_buffer()@
    }
}

impl ArpPacket {
    /// The buffer holding the packet.
    pub closed spec fn spec_buffer(&self) -> Vec<u8> {
        self.buffer
    }

    /// Builds the packet with the given fields.
    pub fn new_from_fields(fields: ArpFields) -> (packet: ArpPacket)
        ensures
            packet@ == fields.spec_bytes(),
            packet@.len() == 28,
    {
        let mut buffer: Vec<u8> = Vec::new();
        let opcode = match fields {
            ArpFields::Request { .. } => ARP_REQUEST,
            ArpFields::Response { .. } => ARP_RESPONSE,
        };
        let header: [u8; 8] = [0x00, 0x01, 0x08, 0x00, 0x06, 0x04, 0x00, opcode];
        push_slice(&mut buffer, header.as_slice());
        assert(header@ =~= arp_prefix() + seq![0u8, fields.spec_opcode()]);
        match fields {
            ArpFields::Request { source_mac, source_ip, dest_ip } => {
                push_slice(&mut buffer, source_mac.as_bytes());
                push_slice(&mut buffer, source_ip.octets().as_slice());
                let zeros: [u8; 6] = [0u8; 6];
                push_slice(&mut buffer, zeros.as_slice());
                assert(zeros@ =~= zero_mac());
                push_slice(&mut buffer, dest_ip.octets().as_slice());
            },
            ArpFields::Response { source_mac, source_ip, dest_mac, dest_ip } => {
                push_slice(&mut buffer, source_mac.as_bytes());
                push_slice(&mut buffer, source_ip.octets().as_slice());
                push_slice(&mut buffer, dest_mac.as_bytes());
                push_slice(&mut buffer, dest_ip.octets().as_slice());
            },
        }
        proof {
            lemma_u32_octets_roundtrip(fields.spec_source_ip().bits);
            lemma_u32_octets_roundtrip(fields.spec_dest_ip().bits);
        }
        ArpPacket { buffer }
    }

    /// The sender's hardware address (bytes 8 to 14).
    pub fn source_mac(&self) -> (mac: MacAddr)
        requires
            self@.len() == 28,
        ensures
            mac@ == self@.subrange(8, 14),
    {
        MacAddr::from_bytes(&self.buffer.as_slice()[8..14])
    }

    /// The sender's protocol address (bytes 14 to 18).
    pub fn source_ip(&self) -> (ip: Ipv4Addr)
        requires
            self@.len() == 28,
        ensures
            ip.bits == seq_to_u32(self@.subrange(14, 18)),
    {
        let b = self.buffer.as_slice();
        Ipv4Addr::new(b[14], b[15], b[16], b[17])
    }

    /// The target's hardware address (bytes 18 to 24).
    pub fn dest_mac(&self) -> (mac: MacAddr)
        requires
            self@.len() == 28,
        ensures
            mac@ == self@.subrange(18, 24),
    {
        MacAddr::from_bytes(&self.buffer.as_slice()[18..24])
    }

    /// The target's protocol address (bytes 24 to 28).
    pub fn dest_ip(&self) -> (ip: Ipv4Addr)
        requires
            self@.len() == 28,
        ensures
            ip.bits == seq_to_u32(self@.subrange(24, 28)),
    {
        let b = self.buffer.as_slice();
        Ipv4Addr::new(b[24], b[25], b[26], b[27])
    }

    /// The packet held by `buffer`.
    pub fn from_bytes(buffer: Vec<u8>) -> (packet: ArpPacket)
        ensures
            packet@ == buffer@,
    {
        ArpPacket { buffer }
    }

    /// The fields the packet holds (see `reads_as`): a request or a response by its operation
    /// code; `None` for another operation code.
    pub fn fields(&self) -> (fields: Option<ArpFields>)
        requires
            self@.len() == 28,
        ensures
            fields is None <==> !(self@[6] == 0 && (self@[7] == ARP_REQUEST || self@[7] == ARP_RESPONSE)),
            fields matches Some(f) ==> reads_as(self@, f),
    {
        let b = self.buffer.as_slice();
        if b[6] != 0 || (b[7] != ARP_REQUEST && b[7] != ARP_RESPONSE) {
            return None;
        }
        let source_mac = self.source_mac();
        let source_ip = self.source_ip();
        let dest_ip = self.dest_ip();
        if b[7] == ARP_REQUEST {
            Some(ArpFields::Request { source_mac, source_ip, dest_ip })
        } else {
            Some(ArpFields::Response { source_mac, source_ip, dest_mac: self.dest_mac(), dest_ip })
        }
    }

    /// The packet's bytes.
    pub fn as_bytes(&self) -> (bytes: &[u8])
        ensures
            bytes@ == self@,
    {
        self.buffer.as_slice()
    }
}

/// Reading back a packet built from fields gives the fields: the operation code of their kind,
/// the sender's addresses, the target's address, and the target's hardware address (zeros for
/// a request).
pub proof fn lemma_arp_fields_round_trip(fields: ArpFields)
    ensures
        fields.spec_bytes().len() == 28,
        reads_as(fields.spec_bytes(), fields),
        fields.spec_bytes()[6] == 0 && fields.spec_bytes()[7] == fields.spec_opcode(),
        fields.spec_bytes().subrange(8, 14) == fields.spec_source_mac()@,
        seq_to_u32(fields.spec_bytes().subrange(14, 18)) == fields.spec_source_ip().bits,
        fields.spec_bytes().subrange(18, 24) == fields.spec_dest_mac_bytes(),
        seq_to_u32(fields.spec_bytes().subrange(24, 28)) == fields.spec_dest_ip().bits,
{
    let b = fields.spec_bytes();
    lemma_u32_octets_roundtrip(fields.spec_source_ip().bits);
    lemma_u32_octets_roundtrip(fields.spec_dest_ip().bits);
    assert(fields.spec_source_mac()@.len() == 6);
    assert(fields.spec_dest_mac_bytes().len() == 6);
    assert(b.subrange(8, 14) =~= fields.spec_source_mac()@);
    assert(b.subrange(14, 18) =~= u32_to_seq(fields.spec_source_ip().bits));
    assert(b.subrange(18, 24) =~= fields.spec_dest_mac_bytes());
    assert(b.subrange(24, 28) =~= u32_to_seq(fields.spec_dest_ip().bits));
}

} // verus!
