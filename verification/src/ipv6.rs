//! IPv6 packets: the header fields the simulator reads, and the chain of payloads.

use vstd::prelude::*;
use crate::addr::{Ipv6Addr};
use crate::bytes::copy_range;
use crate::icmpv6::Icmpv6Packet;

verus! {

/// An IPv6 payload described by its bytes: a hop-by-hop options header followed by another
/// payload, an ICMPv6 packet, or a payload of another protocol.
pub enum Ipv6PayloadModel {
    HopByHop(Box<Ipv6PayloadModel>),
    Icmp(Seq<u8>),
    Unknown(u8, Seq<u8>),
}

/// Where the payload after a hop-by-hop header of extension length `ext_len` starts: the header
/// is `ext_len + 1` units of eight bytes.
pub open spec fn hop_by_hop_len(ext_len: u8) -> int {
    ext_len as int * 8 + 8
}

/// The payload `data` of kind `kind` (a next-header number) can be read: every hop-by-hop
/// header in the chain is complete.
pub open spec fn payload_parses(kind: u8, data: Seq<u8>) -> bool
    decreases data.len(),
{
    if kind == 0 {
        &&& data.len() >= 2
        &&& hop_by_hop_len(data[1]) <= data.len()
        &&& payload_parses(data[0], data.skip(hop_by_hop_len(data[1])))
    } else {
        true
    }
}

/// The payload `data` of kind `kind`, read as a chain: kind 0 is a hop-by-hop header, whose
/// first byte names the kind of what follows it; kind 58 is ICMPv6; anything else is unknown.
pub open spec fn parse_payload_model(kind: u8, data: Seq<u8>) -> Ipv6PayloadModel
    decreases data.len(),
{
    if kind == 0 {
        if data.len() >= 2 && hop_by_hop_len(data[1]) <= data.len() {
            Ipv6PayloadModel::HopByHop(
                Box::new(parse_payload_model(data[0], data.skip(hop_by_hop_len(data[1])))),
            )
        } else {
            Ipv6PayloadModel::Unknown(kind, data)
        }
    } else if kind == 58 {
        Ipv6PayloadModel::Icmp(data)
    } else {
        Ipv6PayloadModel::Unknown(kind, data)
    }
}

/// Payload of an IPv6 packet.
#[derive(Debug)]
pub enum Ipv6Payload {
    /// A hop-by-hop options header, followed by the given payload.
    HopByHop(Box<Ipv6Payload>),
    /// An ICMPv6 packet.
    Icmp(Icmpv6Packet),
    /// A payload of another protocol: its number and its bytes.
    Unknown(u8, Vec<u8>),
}

impl Ipv6Payload {
    /// What the payload holds, described by its bytes.
    pub open spec fn model(&self) -> Ipv6PayloadModel
        decreases self,
    {
        match self {
            Ipv6Payload::HopByHop(inner) => Ipv6PayloadModel::HopByHop(Box::new((**inner).model())),
            Ipv6Payload::Icmp(packet) => Ipv6PayloadModel::Icmp(packet@),
            Ipv6Payload::Unknown(kind, data) => Ipv6PayloadModel::Unknown(*kind, data@),
        }
    }
}

/// The length of a hop-by-hop header of extension length `ext_len` (see `hop_by_hop_len`).
fn hop_by_hop_offset(ext_len: u8) -> (offset: usize)
    ensures
        offset == hop_by_hop_len(ext_len),
{
    ext_len as usize * 8 + 8
}

/// Reads the payload `data` of kind `kind` (see `parse_payload_model`).
pub fn parse_payload(kind: u8, data: &[u8]) -> (payload: Ipv6Payload)
    requires
        payload_parses(kind, data@),
    ensures
        payload.model() == parse_payload_model(kind, data@),
    decreases data@.len(),
{
    if kind == 0 {
        let next_header = data[0];
        let ext_len = data[1];
        let offset: usize = hop_by_hop_offset(ext_len);
        let rest = copy_range(data, offset, data.len());
        assert(rest@ =~= data@.skip(hop_by_hop_len(ext_len)));
        let payload = parse_payload(next_header, rest.as_slice());
        Ipv6Payload::HopByHop(Box::new(payload))
    } else if kind == 58 {
        let bytes = copy_range(data, 0, data.len());
        assert(bytes@ =~= data@);
        Ipv6Payload::Icmp(Icmpv6Packet::from_bytes(bytes))
    } else {
        let bytes = copy_range(data, 0, data.len());
        assert(bytes@ =~= data@);
        Ipv6Payload::Unknown(kind, bytes)
    }
}

/// An IPv6 packet, held as its bytes.
#[derive(Clone, Debug)]
pub struct Ipv6Packet {
    data: Vec<u8>,
}

impl View for Ipv6Packet {
    type V = Seq<u8>;

    /// The packet's bytes.
    open spec fn view(&self) -> Seq<u8> {
        self.spec_data()@
    }
}

impl Ipv6Packet {
    /// The buffer holding the packet.
    pub closed spec fn spec_data(&self) -> Vec<u8> {
        self.data
    }

    /// Wraps the raw bytes of a packet.
    pub fn from_bytes(data: Vec<u8>) -> (packet: Ipv6Packet)
        ensures
            packet@ == data@,
    {
        Ipv6Packet { data }
    }

    /// The packet's bytes.
    pub fn as_bytes(&self) -> (bytes: &Vec<u8>)
        ensures
            bytes@ == self@,
    {
        &self.data
    }

    /// The source address (bytes 8 to 24).
    pub fn source(&self) -> (addr: Ipv6Addr)
        requires
            self@.len() >= 24,
        ensures
            addr.octets@ == self@.subrange(8, 24),
    {
        self.address_at(8)
    }

    /// The destination address (bytes 24 to 40).
    pub fn destination(&self) -> (addr: Ipv6Addr)
        requires
            self@.len() >= 40,
        ensures
            addr.octets@ == self@.subrange(24, 40),
    {
        self.address_at(24)
    }

    /// The sixteen bytes from `offset`, as an address.
    fn address_at(&self, offset: usize) -> (addr: Ipv6Addr)
        requires
            offset + 16 <= self@.len(),
        ensures
            addr.octets@ == self@.subrange(offset as int, offset + 16),
    {
        let mut octets: [u8; 16] = [0u8; 16];
        let mut i: usize = 0;
        while i < 16
            invariant
                i <= 16,
                offset + 16 <= self.data.len(),
                self@ == self.data@,
                forall|j: int| 0 <= j < i ==> octets@[j] == self@[offset + j],
            decreases 16 - i,
        {
            octets[i] = self.data[offset + i];
            i = i + 1;
        }
        assert(octets@ =~= self@.subrange(offset as int, offset + 16));
        Ipv6Addr::from_octets(octets)
    }

    /// The hop limit (byte 7), what IPv6 calls the TTL.
    pub fn hop_limit(&self) -> (hop_limit: u8)
        requires
            self@.len() >= 8,
        ensures
            hop_limit == self@[7],
    {
        self.data[7]
    }

    /// The packet's payload: the bytes after the 40-byte header, of the kind that byte 6
    /// names.
    pub fn payload(&self) -> (payload: Ipv6Payload)
        requires
            self@.len() >= 40,
            payload_parses(self@[6], self@.skip(40)),
        ensures
            payload.model() == parse_payload_model(self@[6], self@.skip(40)),
    {
        let rest = copy_range(self.data.as_slice(), 40, self.data.len());
        assert(rest@ =~= self@.skip(40));
        parse_payload(self.data[6], rest.as_slice())
    }
}

/// A hop-by-hop header occupies `e + 1` units of eight bytes, where `e` is its extension length
/// (byte 1): a payload of kind 0 whose bytes hold the whole header is read as a hop-by-hop
/// header followed by the payload, of the kind that byte 0 names, made of every byte from
/// `8 * e + 8` on; bytes too short for the header are left unread, as a payload of unknown
/// kind 0.
pub proof fn lemma_hop_by_hop_header_is_whole_units(data: Seq<u8>)
    requires
        data.len() >= 2,
    ensures
        8 * (data[1] as int) + 8 <= data.len() ==> parse_payload_model(0, data) == Ipv6PayloadModel::HopByHop(
            Box::new(parse_payload_model(data[0], data.subrange(8 * (data[1] as int) + 8, data.len() as int))),
        ),
        data.len() < 8 * (data[1] as int) + 8 ==> parse_payload_model(0, data) == Ipv6PayloadModel::Unknown(0, data),
{
    if 8 * (data[1] as int) + 8 <= data.len() {
        assert(data.skip(hop_by_hop_len(data[1])) =~= data.subrange(8 * (data[1] as int) + 8, data.len() as int));
    }
}

} // verus!
