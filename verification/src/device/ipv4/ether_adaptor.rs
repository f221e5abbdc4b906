//! The decisions of an adaptor between an Ethernet network and an IPv4 network: it answers ARP
//! requests for its address, learns hardware addresses from ARP responses, and holds IPv4
//! packets for an address it has not resolved yet until the response comes.

use vstd::prelude::*;
use std::collections::HashMap;
use crate::addr::Ipv4Addr;
use crate::arp::ArpFields;
use crate::ethernet::{EtherFields, EtherFrameFields, EtherPayloadFields};
use crate::ipv4::Ipv4PacketFields;
use crate::mac::MacAddr;

verus! {

broadcast use vstd::std_specs::hash::group_hash_axioms;

/// What the adaptor sends after handling one frame or packet.
#[derive(Debug)]
pub struct AdaptorOutput {
    /// Frames sent on the Ethernet side, in order.
    pub to_ether: Vec<EtherFrameFields>,
    /// A packet passed on to the IPv4 side.
    pub to_ipv4: Option<Ipv4PacketFields>,
}

/// The frame that carries `packet` from `source` to `dest`.
pub open spec fn ipv4_frame(source: MacAddr, dest: MacAddr, packet: Ipv4PacketFields) -> EtherFrameFields {
    EtherFrameFields {
        fields: EtherFields { source_mac: source, dest_mac: dest },
        payload: EtherPayloadFields::Ipv4 { packet },
    }
}

/// The frames that carry `packets`, in order, from `source` to `dest`.
pub open spec fn ipv4_frames(source: MacAddr, dest: MacAddr, packets: Seq<Ipv4PacketFields>) -> Seq<EtherFrameFields> {
    packets.map_values(|p: Ipv4PacketFields| ipv4_frame(source, dest, p))
}

/// `frame` is the broadcast ARP request of the host `mac` at `ip` asking for `target`.
pub open spec fn is_arp_request(frame: EtherFrameFields, mac: MacAddr, ip: Ipv4Addr, target: Ipv4Addr) -> bool {
    &&& frame.fields.source_mac == mac
    &&& frame.fields.dest_mac.spec_is_broadcast()
    &&& frame.payload == EtherPayloadFields::Arp {
        fields: ArpFields::Request { source_mac: mac, source_ip: ip, dest_ip: target },
    }
}

/// The frame in which the host `mac` at `ip` tells `asker_mac` at `asker_ip` its hardware
/// address.
pub open spec fn arp_response_frame(mac: MacAddr, ip: Ipv4Addr, asker_mac: MacAddr, asker_ip: Ipv4Addr) -> EtherFrameFields {
    EtherFrameFields {
        fields: EtherFields { source_mac: mac, dest_mac: asker_mac },
        payload: EtherPayloadFields::Arp {
            fields: ArpFields::Response {
                source_mac: mac,
                source_ip: ip,
                dest_mac: asker_mac,
                dest_ip: asker_ip,
            },
        },
    }
}

/// The state of an Ethernet-to-IPv4 adaptor: its addresses, the hardware addresses it has
/// learned, and the packets it holds for addresses it is resolving.
#[derive(Debug)]
pub struct EtherAdaptorV4 {
    ipv4_addr: Ipv4Addr,
    mac_addr: MacAddr,
    /// Hardware address learned for each IPv4 address (by its value).
    arp_table: HashMap<u32, MacAddr>,
    /// Packets waiting for the hardware address of their destination, oldest first.
    arp_pending: HashMap<u32, Vec<Ipv4PacketFields>>,
}

impl EtherAdaptorV4 {
    /// The adaptor's IPv4 address.
    pub closed spec fn spec_ipv4_addr(&self) -> Ipv4Addr {
        self.ipv4_addr
    }

    /// The adaptor's hardware address.
    pub closed spec fn spec_mac_addr(&self) -> MacAddr {
        self.mac_addr
    }

    /// Hardware address learned for each IPv4 address.
    pub closed spec fn table(&self) -> Map<u32, MacAddr> {
        self.arp_table@
    }

    /// Packets waiting for the hardware address of `ip`, oldest first.
    pub closed spec fn pending(&self, ip: u32) -> Seq<Ipv4PacketFields> {
        if self.arp_pending@.contains_key(ip) {
            self.arp_pending@[ip]@
        } else {
            Seq::empty()
        }
    }

    /// An adaptor at `addr` with a random hardware address, which knows no other host yet.
    pub fn new(addr: Ipv4Addr) -> (adaptor: EtherAdaptorV4)
        ensures
            adaptor.spec_ipv4_addr() == addr,
            adaptor.spec_mac_addr()@[0] & 0x03 == 0,
            adaptor.table() == Map::<u32, MacAddr>::empty(),
            forall|ip: u32| #[trigger] adaptor.pending(ip) == Seq::<Ipv4PacketFields>::empty(),
    {
        EtherAdaptorV4 {
            ipv4_addr: addr,
            mac_addr: MacAddr::random(),
            arp_table: HashMap::new(),
            arp_pending: HashMap::new(),
        }
    }

    /// The adaptor's hardware address.
    pub fn mac_addr(&self) -> (mac: MacAddr)
        ensures
            mac == self.spec_mac_addr(),
    {
        self.mac_addr
    }

    /// The adaptor's IPv4 address.
    pub fn ipv4_addr(&self) -> (addr: Ipv4Addr)
        ensures
            addr == self.spec_ipv4_addr(),
    {
        self.ipv4_addr
    }

    /// `new` has the addresses and learned table of `old`.
    pub open spec fn same_table(old: EtherAdaptorV4, new: EtherAdaptorV4) -> bool {
        &&& new.spec_ipv4_addr() == old.spec_ipv4_addr()
        &&& new.spec_mac_addr() == old.spec_mac_addr()
        &&& new.table() == old.table()
    }

    /// `new` is `old` unchanged.
    pub open spec fn unchanged(old: EtherAdaptorV4, new: EtherAdaptorV4) -> bool {
        &&& EtherAdaptorV4::same_table(old, new)
        &&& forall|ip: u32| #[trigger] new.pending(ip) == old.pending(ip)
    }

    /// `out` sends nothing.
    pub open spec fn silent(out: AdaptorOutput) -> bool {
        &&& out.to_ether@ == Seq::<EtherFrameFields>::empty()
        &&& out.to_ipv4 is None
    }

    /// What handling the Ethernet frame `frame` does to `old`, leaving `new`, and what it sends
    /// (`out`). A frame addressed neither to the adaptor nor to everyone is ignored. An ARP
    /// request for the adaptor's address is answered; a response addressed to the adaptor
    /// teaches it the sender's hardware address and releases, in order, the packets held for
    /// the sender; an IPv4 packet is passed on to the IPv4 side; anything else is ignored.
    pub open spec fn frame_step(old: EtherAdaptorV4, new: EtherAdaptorV4, frame: EtherFrameFields, out: AdaptorOutput) -> bool {
        let mac = old.spec_mac_addr();
        let ip = old.spec_ipv4_addr();
        if !(frame.fields.dest_mac.spec_is_broadcast() || frame.fields.dest_mac == mac) {
            EtherAdaptorV4::unchanged(old, new) && EtherAdaptorV4::silent(out)
        } else {
            match frame.payload {
                EtherPayloadFields::Arp { fields: ArpFields::Request { source_mac, source_ip, dest_ip } } => {
                    &&& EtherAdaptorV4::unchanged(old, new)
                    &&& out.to_ipv4 is None
                    &&& if dest_ip == ip {
                        out.to_ether@ == seq![arp_response_frame(mac, ip, source_mac, source_ip)]
                    } else {
                        out.to_ether@ == Seq::<EtherFrameFields>::empty()
                    }
                },
                EtherPayloadFields::Arp {
                    fields: ArpFields::Response { source_mac, source_ip, dest_mac, dest_ip },
                } => {
                    if dest_mac == mac && dest_ip == ip {
                        &&& new.spec_ipv4_addr() == ip
                        &&& new.spec_mac_addr() == mac
                        &&& new.table() == old.table().insert(source_ip.bits, source_mac)
                        &&& new.pending(source_ip.bits) == Seq::<Ipv4PacketFields>::empty()
                        &&& forall|other: u32| other != source_ip.bits ==> #[trigger] new.pending(other) == old.pending(other)
                        &&& out.to_ether@ == ipv4_frames(mac, source_mac, old.pending(source_ip.bits))
                        &&& out.to_ipv4 is None
                    } else {
                        EtherAdaptorV4::unchanged(old, new) && EtherAdaptorV4::silent(out)
                    }
                },
                EtherPayloadFields::Ipv4 { packet } => {
                    &&& EtherAdaptorV4::unchanged(old, new)
                    &&& out.to_ether@ == Seq::<EtherFrameFields>::empty()
                    &&& out.to_ipv4 == Some(packet)
                },
                EtherPayloadFields::Unknown { .. } => {
                    EtherAdaptorV4::unchanged(old, new) && EtherAdaptorV4::silent(out)
                },
            }
        }
    }

    /// What handling the IPv4 packet `packet` does to `old`, leaving `new`, and what it sends
    /// (`out`). When the hardware address of the destination is known the packet goes to it in a
    /// frame. Otherwise the adaptor broadcasts an ARP request for the destination and holds the
    /// packet, after those already held for it.
    pub open spec fn packet_step(old: EtherAdaptorV4, new: EtherAdaptorV4, packet: Ipv4PacketFields, out: AdaptorOutput) -> bool {
        let mac = old.spec_mac_addr();
        let dest = packet.fields.dest_ip;
        &&& EtherAdaptorV4::same_table(old, new)
        &&& out.to_ipv4 is None
        &&& if old.table().contains_key(dest.bits) {
            &&& forall|ip: u32| #[trigger] new.pending(ip) == old.pending(ip)
            &&& out.to_ether@ == seq![ipv4_frame(mac, old.table()[dest.bits], packet)]
        } else {
            &&& new.pending(dest.bits) == old.pending(dest.bits).push(packet)
            &&& forall|other: u32| other != dest.bits ==> #[trigger] new.pending(other) == old.pending(other)
            &&& out.to_ether@.len() == 1
            &&& is_arp_request(out.to_ether@[0], mac, old.spec_ipv4_addr(), dest)
        }
    }

    /// Handles a frame that arrived on the Ethernet side (see `frame_step`).
    pub fn handle_frame(&mut self, frame: EtherFrameFields) -> (out: AdaptorOutput)
        ensures
            EtherAdaptorV4::frame_step(*old(self), *final(self), frame, out),
    {
        let mut to_ether: Vec<EtherFrameFields> = Vec::new();
        let dest = frame.fields.dest_mac;
        if !(dest.is_broadcast() || dest.same_as(&self.mac_addr)) {
            return AdaptorOutput { to_ether, to_ipv4: None };
        }
        match frame.payload {
            EtherPayloadFields::Arp { fields: ArpFields::Request { source_mac, source_ip, dest_ip } } => {
                if dest_ip.bits == self.ipv4_addr.bits {
                    let reply = EtherFrameFields {
                        fields: EtherFields { source_mac: self.mac_addr, dest_mac: source_mac },
                        payload: EtherPayloadFields::Arp {
                            fields: ArpFields::Response {
                                source_mac: self.mac_addr,
                                source_ip: self.ipv4_addr,
                                dest_mac: source_mac,
                                dest_ip: source_ip,
                            },
                        },
                    };
                    to_ether.push(reply);
                    assert(to_ether@ =~= seq![arp_response_frame(self.mac_addr, self.ipv4_addr, source_mac, source_ip)]);
                }
                AdaptorOutput { to_ether, to_ipv4: None }
            },
            EtherPayloadFields::Arp {
                fields: ArpFields::Response { source_mac, source_ip, dest_mac, dest_ip },
            } => {
                if !(dest_mac.same_as(&self.mac_addr) && dest_ip.bits == self.ipv4_addr.bits) {
                    return AdaptorOutput { to_ether, to_ipv4: None };
                }
                self.arp_table.insert(source_ip.bits, source_mac);
                let ghost held = old(self).pending(source_ip.bits);
                match self.arp_pending.remove(&source_ip.bits) {
                    None => {
                        assert(to_ether@ =~= ipv4_frames(self.mac_addr, source_mac, held));
                    },
                    Some(pending) => {
                        let mut pending = pending;
                        let ghost total = pending@;
                        let mac = self.mac_addr;
                        while pending.len() > 0
                            invariant
                                total == held,
                                to_ether@ + ipv4_frames(mac, source_mac, pending@) == ipv4_frames(
                                    mac,
                                    source_mac,
                                    total,
                                ),
                            decreases pending@.len(),
                        {
                            let ghost before = pending@;
                            let packet = pending.remove(0);
                            let ghost sent = to_ether@;
                            to_ether.push(
                                EtherFrameFields {
                                    fields: EtherFields { source_mac: mac, dest_mac: source_mac },
                                    payload: EtherPayloadFields::Ipv4 { packet },
                                },
                            );
                            assert(ipv4_frames(mac, source_mac, before) =~= seq![ipv4_frame(mac, source_mac, packet)]
                                + ipv4_frames(mac, source_mac, pending@));
                            assert(to_ether@ + ipv4_frames(mac, source_mac, pending@) =~= sent
                                + ipv4_frames(mac, source_mac, before));
                        }
                        assert(to_ether@ =~= ipv4_frames(mac, source_mac, held));
                    },
                }
                AdaptorOutput { to_ether, to_ipv4: None }
            },
            EtherPayloadFields::Ipv4 { packet } => AdaptorOutput { to_ether, to_ipv4: Some(packet) },
            EtherPayloadFields::Unknown { .. } => AdaptorOutput { to_ether, to_ipv4: None },
        }
    }

    /// Handles a packet that arrived on the IPv4 side (see `packet_step`).
    pub fn handle_packet(&mut self, packet: Ipv4PacketFields) -> (out: AdaptorOutput)
        ensures
            EtherAdaptorV4::packet_step(*old(self), *final(self), packet, out),
    {
        let mut to_ether: Vec<EtherFrameFields> = Vec::new();
        let dest_ip = packet.fields.dest_ip;
        match self.arp_table.get(&dest_ip.bits) {
            Some(dest_mac) => {
                let dest_mac = *dest_mac;
                to_ether.push(
                    EtherFrameFields {
                        fields: EtherFields { source_mac: self.mac_addr, dest_mac },
                        payload: EtherPayloadFields::Ipv4 { packet },
                    },
                );
                assert(to_ether@ =~= seq![ipv4_frame(self.mac_addr, dest_mac, packet)]);
            },
            None => {
                to_ether.push(
                    EtherFrameFields {
                        fields: EtherFields { source_mac: self.mac_addr, dest_mac: MacAddr::broadcast() },
                        payload: EtherPayloadFields::Arp {
                            fields: ArpFields::Request {
                                source_mac: self.mac_addr,
                                source_ip: self.ipv4_addr,
                                dest_ip,
                            },
                        },
                    },
                );
                let held = match self.arp_pending.remove(&dest_ip.bits) {
                    Some(held) => held,
                    None => Vec::new(),
                };
                let mut held = held;
                held.push(packet);
                self.arp_pending.insert(dest_ip.bits, held);
            },
        }
        AdaptorOutput { to_ether, to_ipv4: None }
    }
}

/// `frame` is the ARP response of the host `mac` at `ip`, addressed to the adaptor `adaptor`.
pub open spec fn is_response_to(frame: EtherFrameFields, adaptor: EtherAdaptorV4, mac: MacAddr, ip: Ipv4Addr) -> bool {
    &&& frame.fields.dest_mac == adaptor.spec_mac_addr()
    &&& frame.payload == EtherPayloadFields::Arp {
        fields: ArpFields::Response {
            source_mac: mac,
            source_ip: ip,
            dest_mac: adaptor.spec_mac_addr(),
            dest_ip: adaptor.spec_ipv4_addr(),
        },
    }
}

/// A packet for an address the adaptor has not resolved is not lost: the adaptor asks for the
/// address, and when the response comes it sends the packet to the hardware address learned,
/// after the packets it already held for that address, in the order they came.
pub proof fn lemma_held_packet_delivered(
    a0: EtherAdaptorV4,
    a1: EtherAdaptorV4,
    a2: EtherAdaptorV4,
    packet: Ipv4PacketFields,
    out1: AdaptorOutput,
    response: EtherFrameFields,
    mac: MacAddr,
    out2: AdaptorOutput,
)
    requires
        !a0.table().contains_key(packet.fields.dest_ip.bits),
        EtherAdaptorV4::packet_step(a0, a1, packet, out1),
        is_response_to(response, a1, mac, packet.fields.dest_ip),
        EtherAdaptorV4::frame_step(a1, a2, response, out2),
    ensures
        out1.to_ether@.len() == 1,
        is_arp_request(out1.to_ether@[0], a0.spec_mac_addr(), a0.spec_ipv4_addr(), packet.fields.dest_ip),
        out2.to_ether@ == ipv4_frames(
            a0.spec_mac_addr(),
            mac,
            a0.pending(packet.fields.dest_ip.bits).push(packet),
        ),
        out2.to_ether@.last() == ipv4_frame(a0.spec_mac_addr(), mac, packet),
        a2.table()[packet.fields.dest_ip.bits] == mac,
{
    let held = a0.pending(packet.fields.dest_ip.bits).push(packet);
    assert(ipv4_frames(a0.spec_mac_addr(), mac, held).last() == ipv4_frame(a0.spec_mac_addr(), mac, packet));
}

/// Once the adaptor has learned the hardware address of an IPv4 address, a packet for that
/// address goes straight to it, with no request and nothing held.
pub proof fn lemma_resolved_address_sent_directly(
    a0: EtherAdaptorV4,
    a1: EtherAdaptorV4,
    a2: EtherAdaptorV4,
    response: EtherFrameFields,
    mac: MacAddr,
    ip: Ipv4Addr,
    out1: AdaptorOutput,
    packet: Ipv4PacketFields,
    out2: AdaptorOutput,
)
    requires
        is_response_to(response, a0, mac, ip),
        EtherAdaptorV4::frame_step(a0, a1, response, out1),
        packet.fields.dest_ip == ip,
        EtherAdaptorV4::packet_step(a1, a2, packet, out2),
    ensures
        out2.to_ether@ == seq![ipv4_frame(a0.spec_mac_addr(), mac, packet)],
        a2.pending(ip.bits) == Seq::<Ipv4PacketFields>::empty(),
{
}

/// An ARP request for the adaptor's address, sent to everyone, is answered with the adaptor's
/// hardware address, addressed to the asker; the adaptor's state does not change.
pub proof fn lemma_arp_request_answered(
    a0: EtherAdaptorV4,
    a1: EtherAdaptorV4,
    frame: EtherFrameFields,
    asker_mac: MacAddr,
    asker_ip: Ipv4Addr,
    out: AdaptorOutput,
)
    requires
        frame.fields.dest_mac.spec_is_broadcast(),
        frame.payload == (EtherPayloadFields::Arp {
            fields: ArpFields::Request {
                source_mac: asker_mac,
                source_ip: asker_ip,
                dest_ip: a0.spec_ipv4_addr(),
            },
        }),
        EtherAdaptorV4::frame_step(a0, a1, frame, out),
    ensures
        out.to_ether@ == seq![arp_response_frame(a0.spec_mac_addr(), a0.spec_ipv4_addr(), asker_mac, asker_ip)],
        out.to_ipv4 is None,
        EtherAdaptorV4::unchanged(a0, a1),
{
}

} // verus!
