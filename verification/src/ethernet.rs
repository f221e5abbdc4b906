//! Ethernet frames: their wire format, and their fields as the simulated devices see them.

use vstd::prelude::*;
use crate::addr::{Ipv4Addr, u32_to_seq, seq_to_u32, lemma_u32_octets_roundtrip};
use crate::arp::ArpFields;
use crate::bytes::{be16, push_slice, read_be16};
use crate::ipv4::Ipv4PacketFields;
use crate::mac::MacAddr;

verus! {

/// A random unicast, globally administered hardware address (see `MacAddr::random`).
pub fn random_mac() -> (addr: MacAddr)
    ensures
        addr@[0] & 0x03 == 0,
        addr@.len() == 6,
{
    MacAddr::random()
}

/// The Ethernet type of ARP.
pub const ETHERTYPE_ARP: u16 = 0x0806;

/// The bytes of a frame from `source` to `dest` of type `ethertype` carrying `payload`: the
/// destination address, the source address, the type (big-endian), then the payload.
pub open spec fn frame_bytes(source: Seq<u8>, dest: Seq<u8>, ethertype: u16, payload: Seq<u8>) -> Seq<u8> {
    dest + source + seq![(ethertype / 256) as u8, (ethertype % 256) as u8] + payload
}

/// Builds the frame of `frame_bytes`.
pub fn new_frame(source: MacAddr, dest: MacAddr, ethertype: u16, payload: &[u8]) -> (frame: Vec<u8>)
    ensures
        frame@ == frame_bytes(source@, dest@, ethertype, payload@),
{
    let mut frame: Vec<u8> = Vec::new();
    push_slice(&mut frame, dest.as_bytes());
    push_slice(&mut frame, source.as_bytes());
    let ty: [u8; 2] = [(ethertype / 256) as u8, (ethertype % 256) as u8];
    push_slice(&mut frame, ty.as_slice());
    push_slice(&mut frame, payload);
    assert(frame@ =~= frame_bytes(source@, dest@, ethertype, payload@));
    frame
}

/// A frame carrying the IPv4 packet `ipv4`.
pub fn new_ipv4(source: MacAddr, dest: MacAddr, ipv4: &[u8]) -> (frame: Vec<u8>)
    ensures
        frame@ == frame_bytes(source@, dest@, 0x0800, ipv4@),
{
    new_frame(source, dest, 0x0800, ipv4)
}

/// A frame carrying the ARP packet `arp`.
pub fn new_arp(source: MacAddr, dest: MacAddr, arp: &[u8]) -> (frame: Vec<u8>)
    ensures
        frame@ == frame_bytes(source@, dest@, ETHERTYPE_ARP, arp@),
{
    new_frame(source, dest, ETHERTYPE_ARP, arp)
}

/// A frame carrying the IPv6 packet `ipv6`.
pub fn new_ipv6(source: MacAddr, dest: MacAddr, ipv6: &[u8]) -> (frame: Vec<u8>)
    ensures
        frame@ == frame_bytes(source@, dest@, 0x86dd, ipv6@),
{
    new_frame(source, dest, 0x86dd, ipv6)
}

/// The 28 bytes of an ARP reply (operation 2) from `mac` at `ip` to `target_mac` at `target_ip`.
pub open spec fn arp_reply_bytes(mac: Seq<u8>, ip: u32, target_mac: Seq<u8>, target_ip: Seq<u8>) -> Seq<u8> {
    seq![0x00u8, 0x01, 0x08, 0x00, 0x06, 0x04, 0x00, 0x02] + mac + u32_to_seq(ip) + target_mac
        + target_ip
}

/// `frame` is an ARP request for `ip` sent from the hardware address it names as its sender:
/// an ARP frame whose packet asks, for Ethernet and IPv4, with operation 1 and an all-zero
/// target hardware address, who has `ip`.
pub open spec fn is_arp_request_for(frame: Seq<u8>, ip: u32) -> bool {
    &&& frame.len() >= 42
    &&& be16(frame[12], frame[13]) == ETHERTYPE_ARP
    &&& frame.subrange(14, 22) == seq![0x00u8, 0x01, 0x08, 0x00, 0x06, 0x04, 0x00, 0x01]
    &&& frame.subrange(22, 28) == frame.subrange(6, 12)
    &&& frame.subrange(32, 38) == seq![0u8, 0, 0, 0, 0, 0]
    &&& seq_to_u32(frame.subrange(38, 42)) == ip
}

/// Answers an ARP request for `ip` with the reply of the host `mac`: a frame from `mac` back to
/// the requester, whose ARP reply says that `ip` is at `mac` and is addressed to the requester's
/// hardware and protocol addresses. A frame that is not such a request gets no answer.
pub fn respond_to_arp(frame: &[u8], ip: Ipv4Addr, mac: MacAddr) -> (reply: Option<Vec<u8>>)
    ensures
        is_arp_request_for(frame@, ip.bits) <==> reply is Some,
        reply matches Some(r) ==> r@ == frame_bytes(
            mac@,
            frame@.subrange(6, 12),
            ETHERTYPE_ARP,
            arp_reply_bytes(mac@, ip.bits, frame@.subrange(6, 12), frame@.subrange(28, 32)),
        ),
{
    if frame.len() < 42 {
        return None;
    }
    if read_be16(frame, 12) != ETHERTYPE_ARP {
        return None;
    }
    let request_header: [u8; 8] = [0x00, 0x01, 0x08, 0x00, 0x06, 0x04, 0x00, 0x01];
    assert(request_header@ =~= seq![0x00u8, 0x01, 0x08, 0x00, 0x06, 0x04, 0x00, 0x01]);
    let mut i: usize = 0;
    while i < 8
        invariant
            i <= 8,
            frame@.len() >= 42,
            request_header@ == seq![0x00u8, 0x01, 0x08, 0x00, 0x06, 0x04, 0x00, 0x01],
            forall|j: int| 0 <= j < i ==> frame@[14 + j] == request_header@[j],
        decreases 8 - i,
    {
        if frame[14 + i] != request_header[i] {
            assert(frame@.subrange(14, 22)[i as int] != request_header@[i as int]);
            return None;
        }
        i = i + 1;
    }
    assert(frame@.subrange(14, 22) =~= request_header@);
    let mut i: usize = 0;
    while i < 6
        invariant
            i <= 6,
            frame@.len() >= 42,
            forall|j: int|
                0 <= j < i ==> #[trigger] frame@.subrange(22, 28)[j] == frame@.subrange(6, 12)[j],
            forall|j: int| 0 <= j < i ==> #[trigger] frame@.subrange(32, 38)[j] == 0,
        decreases 6 - i,
    {
        if frame[22 + i] != frame[6 + i] {
            assert(frame@.subrange(22, 28)[i as int] != frame@.subrange(6, 12)[i as int]);
            return None;
        }
        if frame[32 + i] != 0 {
            assert(frame@.subrange(32, 38)[i as int] != 0);
            return None;
        }
        assert(frame@.subrange(22, 28)[i as int] == frame@.subrange(6, 12)[i as int]);
        assert(frame@.subrange(32, 38)[i as int] == 0);
        i = i + 1;
    }
    assert(frame@.subrange(22, 28) =~= frame@.subrange(6, 12));
    let ghost zeros = frame@.subrange(32, 38);
    assert(zeros[0] == 0 && zeros[1] == 0 && zeros[2] == 0 && zeros[3] == 0 && zeros[4] == 0
        && zeros[5] == 0);
    assert(zeros =~= seq![0u8, 0, 0, 0, 0, 0]);
    let target = Ipv4Addr::new(frame[38], frame[39], frame[40], frame[41]);
    if target.bits != ip.bits {
        return None;
    }
    let requester = MacAddr::from_bytes(&frame[6..12]);
    let mut arp: Vec<u8> = Vec::new();
    let reply_header: [u8; 8] = [0x00, 0x01, 0x08, 0x00, 0x06, 0x04, 0x00, 0x02];
    push_slice(&mut arp, reply_header.as_slice());
    push_slice(&mut arp, mac.as_bytes());
    push_slice(&mut arp, ip.octets().as_slice());
    push_slice(&mut arp, requester.as_bytes());
    push_slice(&mut arp, &frame[28..32]);
    proof {
        lemma_u32_octets_roundtrip(ip.bits);
    }
    assert(arp@ =~= arp_reply_bytes(mac@, ip.bits, frame@.subrange(6, 12), frame@.subrange(28, 32)));
    Some(new_arp(mac, requester, arp.as_slice()))
}

/// The addresses of an Ethernet frame.
#[derive(Clone, Copy, Debug, PartialEq, Eq)]
pub struct EtherFields {
    pub source_mac: MacAddr,
    pub dest_mac: MacAddr,
}

/// What an Ethernet frame carries, described by its fields.
#[derive(Clone, Debug)]
pub enum EtherPayloadFields {
    Arp { fields: ArpFields },
    Ipv4 { packet: Ipv4PacketFields },
    Unknown { ethertype: u16, payload: Vec<u8> },
}

/// An Ethernet frame described by its fields.
#[derive(Clone, Debug)]
pub struct EtherFrameFields {
    pub fields: EtherFields,
    pub payload: EtherPayloadFields,
}

} // verus!
