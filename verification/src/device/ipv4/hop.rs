//! A hop between two IPv4 networks: every packet that crosses it loses one from its TTL, and a
//! packet whose TTL reaches zero is dropped.

use vstd::prelude::*;
use crate::ipv4::{Ipv4Fields, Ipv4Packet, header_bytes};
use crate::addr::seq_to_u32;

verus! {

/// What crossing a hop does to the packet with bytes `packet`: nothing when its TTL would reach
/// zero, that is when it is 0 or 1 (the packet is dropped), otherwise its header is rewritten with the TTL one lower, the
/// addresses, protocol and payload kept.
pub open spec fn hop_result(packet: Seq<u8>, out: Option<Seq<u8>>) -> bool {
    if packet[8] <= 1 {
        out is None
    } else {
        out matches Some(bytes) && bytes == header_bytes(
            Ipv4Fields {
                source_ip: crate::addr::Ipv4Addr { bits: seq_to_u32(packet.subrange(12, 16)) },
                dest_ip: crate::addr::Ipv4Addr { bits: seq_to_u32(packet.subrange(16, 20)) },
                ttl: (packet[8] - 1) as u8,
            },
            packet[9],
            packet.len(),
        ) + packet.skip(20)
    }
}

/// A hop between two IPv4 networks.
#[derive(Clone, Copy, Debug)]
pub struct Ipv4Hop {}

impl Ipv4Hop {
    /// A hop.
    pub fn new() -> (hop: Ipv4Hop) {
        Ipv4Hop {}
    }

    /// The packet after crossing the hop, or `None` when its TTL reaches zero (see `hop_result`).
    pub fn forward(&self, packet: Ipv4Packet) -> (out: Option<Ipv4Packet>)
        requires
            packet@.len() >= 20,
        ensures
            hop_result(
                packet@,
                match out {
                    Some(p) => Some(p@),
                    None => None,
                },
            ),
    {
        let ttl = packet.ttl();
        if ttl <= 1 {
            return None;
        }
        let next_ttl = ttl - 1;
        let fields = packet.fields();
        let mut packet = packet;
        packet.set_fields(Ipv4Fields { ttl: next_ttl, ..fields });
        Some(packet)
    }
}

} // verus!
