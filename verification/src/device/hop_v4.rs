//! A hop between two IPv4 connections: every packet that crosses it loses one from its TTL, and a
//! packet whose TTL is already zero is dropped.

use vstd::prelude::*;
use crate::ipv4::{Ipv4Fields, Ipv4Packet, header_bytes};
use crate::addr::seq_to_u32;

verus! {

/// What crossing the hop does to the packet with bytes `packet`: nothing when its TTL is zero
/// (the packet is dropped), otherwise its header is rewritten with the TTL one lower, the
/// addresses, protocol and payload kept.
pub open spec fn hop_v4_result(packet: Seq<u8>, out: Option<Seq<u8>>) -> bool {
    if packet[8] == 0 {
        out is None
    } else {
        out matches Some(bytes) && bytes == header_bytes(
            Ipv4Fields {
                source_ip: crate::addr::Ipv4Addr { bits: seq_to_u32(packet.subrange(12, 16)) },
                dest_ip: crate::addr::Ipv4Addr { bits: seq_to_u32(packet.subrange(16, 20)) },
                ttl: (packet[8] - 1) as u8,
            },
            packet[9],
            packet.len(),
        ) + packet.skip(20)
    }
}

/// A hop between two IPv4 connections.
#[derive(Clone, Copy, Debug)]
pub struct HopV4 {}

impl HopV4 {
    /// A hop.
    pub fn new() -> (hop: HopV4) {
        HopV4 {}
    }

    /// The packet after crossing the hop, or `None` when its TTL was already zero (see
    /// `hop_v4_result`).
    pub fn forward(&self, packet: Ipv4Packet) -> (out: Option<Ipv4Packet>)
        requires
            packet@.len() >= 20,
        ensures
            hop_v4_result(
                packet@,
                match out {
                    Some(p) => Some(p@),
                    None => None,
                },
            ),
    {
        let next_ttl = match packet.ttl().checked_sub(1) {
            Some(ttl) => ttl,
            None => {
                return None;
            },
        };
        let fields = packet.fields();
        let mut packet = packet;
        packet.set_fields(Ipv4Fields { ttl: next_ttl, ..fields });
        Some(packet)
    }
}

} // verus!
