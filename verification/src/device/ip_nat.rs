//! A NAT for IP packets, between an internal network of interfaces and one external interface.
//!
//! `NatTask` holds the NAT's state and makes its decisions: for each datagram that arrives on a
//! side it says where the datagram, translated, goes next. Whoever drives the NAT owns the
//! interfaces, performs the sends, and reports interfaces that went away.

pub mod port_map;
pub mod restrictions;

use vstd::prelude::*;
use std::collections::{HashMap, HashSet};
use crate::addr::{Ipv4Addr, SocketAddrV4, socket_key, seq_to_nat};
use crate::datagram::{IpDatagram, Ipv4Datagram, Tcpv4Packet, TcpPacketFlags};
use crate::network::Ipv4Network;
use self::port_map::{PortMap, outgoing_port_post};
use self::restrictions::{Restrictions, sending_post};

verus! {

broadcast use vstd::std_specs::hash::group_hash_axioms;

/// Builder for a `NatTask`: the NAT's external address, its internal network, and its
/// behaviour.
#[derive(Clone, Copy, Debug)]
pub struct NatBuilder {
    pub external_ipv4: Ipv4Addr,
    pub internal_ipv4_network: Ipv4Network,
    pub hair_pinning: bool,
    pub address_restricted: bool,
    pub port_restricted: bool,
    pub reply_with_rst_to_unexpected_tcp_packets: bool,
}

impl NatBuilder {
    /// Starts building a NAT with external address `external_ipv4` that serves the internal
    /// network `internal_ipv4_network`. Every option starts disabled.
    pub fn new(external_ipv4: Ipv4Addr, internal_ipv4_network: Ipv4Network) -> (builder: NatBuilder)
        ensures
            builder.external_ipv4 == external_ipv4,
            builder.internal_ipv4_network == internal_ipv4_network,
            !builder.hair_pinning,
            !builder.address_restricted,
            !builder.port_restricted,
            !builder.reply_with_rst_to_unexpected_tcp_packets,
    {
        NatBuilder {
            external_ipv4,
            internal_ipv4_network,
            hair_pinning: false,
            address_restricted: false,
            port_restricted: false,
            reply_with_rst_to_unexpected_tcp_packets: false,
        }
    }

    /// Enables hair-pinning: a packet that an internal host sends to the NAT's own external
    /// address is handled as if it had arrived on the external side.
    pub fn hair_pinning(self) -> (builder: NatBuilder)
        ensures
            builder == (NatBuilder { hair_pinning: true, ..self }),
    {
        NatBuilder { hair_pinning: true, ..self }
    }

    /// Makes the NAT answer an unexpected TCP packet on its external side with a reset.
    pub fn reply_with_rst_to_unexpected_tcp_packets(self) -> (builder: NatBuilder)
        ensures
            builder == (NatBuilder { reply_with_rst_to_unexpected_tcp_packets: true, ..self }),
    {
        NatBuilder { reply_with_rst_to_unexpected_tcp_packets: true, ..self }
    }

    /// Makes the NAT address restricted: a mapped port only lets in packets from addresses it
    /// has sent to.
    pub fn address_restricted(self) -> (builder: NatBuilder)
        ensures
            builder == (NatBuilder { address_restricted: true, ..self }),
    {
        NatBuilder { address_restricted: true, ..self }
    }

    /// Makes the NAT port restricted: a mapped port only lets in packets from socket addresses
    /// it has sent to.
    pub fn port_restricted(self) -> (builder: NatBuilder)
        ensures
            builder == (NatBuilder { port_restricted: true, ..self }),
    {
        NatBuilder { port_restricted: true, ..self }
    }

    /// The NAT's state as it starts: no interfaces, no mappings, the external interface open,
    /// and the filter that the restriction flags ask for (port restriction wins over address
    /// restriction).
    pub fn build_task(self) -> (task: NatTask)
        ensures
            task.wf(),
            task.spec_external_ipv4() == self.external_ipv4,
            task.spec_internal_network() == self.internal_ipv4_network,
            task.v4_indexes() == Map::<u32, usize>::empty(),
            task.v6_indexes() == Map::<u128, usize>::empty(),
            task.ifaces() == Set::<usize>::empty(),
            task.spec_next_index() == 0,
            task.spec_external_open(),
            task.spec_port_map().outgoing() == Map::<u64, u16>::empty(),
            task.spec_port_map().incoming() == Map::<u16, SocketAddrV4>::empty(),
            task.spec_port_map().spec_next_port() == port_map::INITIAL_PORT,
            task.spec_hair_pinning() == self.hair_pinning,
            task.spec_reply_with_rst() == self.reply_with_rst_to_unexpected_tcp_packets,
            self.port_restricted ==> task.spec_restrictions() is RestrictSocketAddr,
            !self.port_restricted && self.address_restricted ==> task.spec_restrictions() is RestrictIpAddr,
            !self.port_restricted && !self.address_restricted ==> task.spec_restrictions() is Unrestricted,
            task.spec_restrictions().entries() == Set::<u64>::empty(),
    {
        NatTask {
            external_ipv4: self.external_ipv4,
            internal_ipv4_network: self.internal_ipv4_network,
            internal_v4_indexes: HashMap::new(),
            internal_v6_indexes: HashMap::new(),
            internal_ifaces: HashSet::new(),
            next_internal_iface_index: 0,
            external_iface_open: true,
            port_map: PortMap::new(),
            hair_pinning: self.hair_pinning,
            restrictions: Restrictions::from_flags(self.port_restricted, self.address_restricted),
            reply_with_rst_to_unexpected_tcp_packets: self.reply_with_rst_to_unexpected_tcp_packets,
        }
    }
}

/// Where a datagram goes after the NAT has handled it.
#[derive(Debug)]
pub enum NatDispatch {
    /// Nowhere: it is dropped.
    Nothing,
    /// Out of the external interface.
    External(Ipv4Datagram),
    /// Out of the internal interface with index `iface`.
    Internal { iface: usize, packet: IpDatagram },
}

/// `reply` is the reset that answers the unexpected TCP packet `packet`: it goes back from
/// where `packet` was sent to where it came from, with the RST and ACK flags, an
/// acknowledgement number one past `packet`'s sequence number (wrapping), sequence number zero
/// and no payload.
pub open spec fn is_rst_reply(reply: Tcpv4Packet, packet: Tcpv4Packet) -> bool {
    &&& reply.source_addr == packet.destination_addr
    &&& reply.destination_addr == packet.source_addr
    &&& reply.seq_number == 0
    &&& reply.ack_number == ((packet.seq_number as int + 1) % 0x1_0000_0000) as u32
    &&& reply.flags == (TcpPacketFlags {
        fin: false,
        syn: false,
        rst: true,
        psh: false,
        ack: true,
        urg: false,
    })
    &&& reply.payload@ == Seq::<u8>::empty()
}

/// The state of a NAT: its addresses and options, the interfaces on its internal side, which
/// interface each internal address was last seen on, its port mappings and its filter.
#[derive(Debug)]
pub struct NatTask {
    external_ipv4: Ipv4Addr,
    internal_ipv4_network: Ipv4Network,
    /// Interface each internal IPv4 address was last seen on.
    internal_v4_indexes: HashMap<u32, usize>,
    /// Interface each internal IPv6 address (by its 128-bit value) was last seen on.
    internal_v6_indexes: HashMap<u128, usize>,
    /// Indexes of the internal interfaces still attached.
    internal_ifaces: HashSet<usize>,
    next_internal_iface_index: usize,
    external_iface_open: bool,
    port_map: PortMap,
    hair_pinning: bool,
    restrictions: Restrictions,
    reply_with_rst_to_unexpected_tcp_packets: bool,
}

impl NatTask {
    /// The NAT's external address.
    pub closed spec fn spec_external_ipv4(&self) -> Ipv4Addr {
        self.external_ipv4
    }

    /// The NAT's internal network.
    pub closed spec fn spec_internal_network(&self) -> Ipv4Network {
        self.internal_ipv4_network
    }

    /// Interface each internal IPv4 address was last seen on.
    pub closed spec fn v4_indexes(&self) -> Map<u32, usize> {
        self.internal_v4_indexes@
    }

    /// Interface each internal IPv6 address was last seen on, by the address's value.
    pub closed spec fn v6_indexes(&self) -> Map<u128, usize> {
        self.internal_v6_indexes@
    }

    /// Indexes of the internal interfaces still attached.
    pub closed spec fn ifaces(&self) -> Set<usize> {
        self.internal_ifaces@
    }

    /// The index the next attached interface gets.
    pub closed spec fn spec_next_index(&self) -> usize {
        self.next_internal_iface_index
    }

    /// The external interface is still open.
    pub closed spec fn spec_external_open(&self) -> bool {
        self.external_iface_open
    }

    /// The NAT's port mappings.
    pub closed spec fn spec_port_map(&self) -> PortMap {
        self.port_map
    }

    /// Hair-pinning is enabled.
    pub closed spec fn spec_hair_pinning(&self) -> bool {
        self.hair_pinning
    }

    /// The NAT answers unexpected TCP packets with a reset.
    pub closed spec fn spec_reply_with_rst(&self) -> bool {
        self.reply_with_rst_to_unexpected_tcp_packets
    }

    /// The NAT's filter on its external side.
    pub closed spec fn spec_restrictions(&self) -> Restrictions {
        self.restrictions
    }

    /// The state's invariant: the port map's search starts inside its range.
    pub open spec fn wf(&self) -> bool {
        self.spec_port_map().wf()
    }

    /// The internal endpoint that a TCP or UDP packet from `source` to `destination`, arriving
    /// on the external side, is for: the endpoint mapped to its destination port, if the filter
    /// lets `source` through that port.
    pub open spec fn mapped_addr(&self, source: SocketAddrV4, destination: SocketAddrV4) -> Option<SocketAddrV4> {
        let port = destination.port;
        if self.spec_restrictions().allows(port, source)
            && self.spec_port_map().incoming().contains_key(port) {
            Some(self.spec_port_map().incoming()[port])
        } else {
            None
        }
    }

    /// `out` is where `packet`, arriving on the external side, goes. Only a TCP segment or UDP
    /// packet sent to the NAT's external address goes anywhere: to the internal interface last
    /// seen with the mapped endpoint's address, with its destination rewritten to that endpoint;
    /// or, for a TCP segment when no endpoint is mapped and resets are enabled, a reset goes
    /// back out of the external interface.
    pub open spec fn external_outcome(&self, packet: IpDatagram, out: NatDispatch) -> bool {
        match packet {
            IpDatagram::V6 { .. } => out is Nothing,
            IpDatagram::V4(datagram) => match datagram.spec_endpoints() {
                None => out is Nothing,
                Some((source, destination)) => {
                    if destination.ip != self.spec_external_ipv4() {
                        out is Nothing
                    } else {
                        match self.mapped_addr(source, destination) {
                            None => {
                                if datagram is Tcp && self.spec_reply_with_rst() && self.spec_external_open() {
                                    out matches NatDispatch::External(Ipv4Datagram::Tcp(reply)) && is_rst_reply(
                                        reply,
                                        datagram->Tcp_0,
                                    )
                                } else {
                                    out is Nothing
                                }
                            },
                            Some(addr) => {
                                if self.v4_indexes().contains_key(addr.ip.bits) && self.ifaces().contains(
                                    self.v4_indexes()[addr.ip.bits],
                                ) {
                                    out == NatDispatch::Internal {
                                        iface: self.v4_indexes()[addr.ip.bits],
                                        packet: IpDatagram::V4(datagram.spec_with_destination_addr(addr)),
                                    }
                                } else {
                                    out is Nothing
                                }
                            },
                        }
                    }
                },
            },
        }
    }

    /// `new` differs from `old` at most in its address indexes, its port map and its filter.
    pub open spec fn same_setup(old: NatTask, new: NatTask) -> bool {
        &&& new.spec_external_ipv4() == old.spec_external_ipv4()
        &&& new.spec_internal_network() == old.spec_internal_network()
        &&& new.ifaces() == old.ifaces()
        &&& new.spec_next_index() == old.spec_next_index()
        &&& new.spec_external_open() == old.spec_external_open()
        &&& new.spec_hair_pinning() == old.spec_hair_pinning()
        &&& new.spec_reply_with_rst() == old.spec_reply_with_rst()
    }

    /// `new`'s port map and filter are those of `old`.
    pub open spec fn same_translation(old: NatTask, new: NatTask) -> bool {
        &&& new.spec_port_map().outgoing() == old.spec_port_map().outgoing()
        &&& new.spec_port_map().incoming() == old.spec_port_map().incoming()
        &&& new.spec_port_map().spec_next_port() == old.spec_port_map().spec_next_port()
        &&& new.spec_restrictions() == old.spec_restrictions()
    }

    /// What `dispatch_incoming_internal(iface_index, packet)` does to the state `old`, leaving
    /// `new`, and where it sends the datagram (`out`).
    ///
    /// An IPv6 datagram only records the interface its source was seen on. An IPv4 datagram
    /// from outside the internal network is dropped and changes nothing. Otherwise its source
    /// is recorded as seen on `iface_index`; then a datagram for the internal network goes to
    /// the interface last seen with its destination, and a TCP segment or UDP packet for
    /// outside is translated: its source gets the NAT's external address and the port that the
    /// port map gives the internal endpoint, the filter records where the port sent to, and the
    /// packet leaves by the external interface, or, sent to the NAT's own external address, is
    /// handled as arriving from outside when hair-pinning is on. Other protocols for outside are
    /// dropped.
    pub open spec fn internal_step(
        old: NatTask,
        new: NatTask,
        iface_index: usize,
        packet: IpDatagram,
        out: NatDispatch,
    ) -> bool {
        &&& NatTask::same_setup(old, new)
        &&& new.wf()
        &&& match packet {
            IpDatagram::V6 { source_addr, .. } => {
                &&& new.v6_indexes() == old.v6_indexes().insert(
                    seq_to_nat(source_addr.octets@) as u128,
                    iface_index,
                )
                &&& new.v4_indexes() == old.v4_indexes()
                &&& NatTask::same_translation(old, new)
                &&& out is Nothing
            },
            IpDatagram::V4(datagram) => {
                let source = datagram.spec_source_ip();
                let destination = datagram.spec_destination_ip();
                &&& new.v6_indexes() == old.v6_indexes()
                &&& if !old.spec_internal_network().spec_contains(source.bits) {
                    &&& new.v4_indexes() == old.v4_indexes()
                    &&& NatTask::same_translation(old, new)
                    &&& out is Nothing
                } else {
                    &&& new.v4_indexes() == old.v4_indexes().insert(source.bits, iface_index)
                    &&& if old.spec_internal_network().spec_contains(destination.bits) {
                        &&& NatTask::same_translation(old, new)
                        &&& if new.v4_indexes().contains_key(destination.bits) && new.ifaces().contains(
                            new.v4_indexes()[destination.bits],
                        ) {
                            out == NatDispatch::Internal {
                                iface: new.v4_indexes()[destination.bits],
                                packet,
                            }
                        } else {
                            out is Nothing
                        }
                    } else {
                        match datagram.spec_endpoints() {
                            None => {
                                &&& NatTask::same_translation(old, new)
                                &&& out is Nothing
                            },
                            Some((internal, remote)) => {
                                let port = new.spec_port_map().outgoing()[socket_key(internal)];
                                let translated = datagram.spec_with_source_addr(
                                    SocketAddrV4 { ip: old.spec_external_ipv4(), port },
                                );
                                &&& outgoing_port_post(
                                    old.spec_port_map(),
                                    new.spec_port_map(),
                                    internal,
                                    port,
                                )
                                &&& sending_post(
                                    old.spec_restrictions(),
                                    new.spec_restrictions(),
                                    port,
                                    remote,
                                )
                                &&& if remote.ip == old.spec_external_ipv4() {
                                    if old.spec_hair_pinning() {
                                        new.external_outcome(IpDatagram::V4(translated), out)
                                    } else {
                                        out is Nothing
                                    }
                                } else if old.spec_external_open() {
                                    out == NatDispatch::External(translated)
                                } else {
                                    out is Nothing
                                }
                            },
                        }
                    }
                }
            },
        }
    }

    /// Attaches a new internal interface and returns its index.
    pub fn insert_iface(&mut self) -> (index: usize)
        requires
            old(self).spec_next_index() < usize::MAX,
        ensures
            index == old(self).spec_next_index(),
            final(self).ifaces() == old(self).ifaces().insert(index),
            final(self).spec_next_index() == index + 1,
            final(self).v4_indexes() == old(self).v4_indexes(),
            final(self).v6_indexes() == old(self).v6_indexes(),
            final(self).spec_external_open() == old(self).spec_external_open(),
            final(self).spec_external_ipv4() == old(self).spec_external_ipv4(),
            final(self).spec_internal_network() == old(self).spec_internal_network(),
            final(self).spec_hair_pinning() == old(self).spec_hair_pinning(),
            final(self).spec_reply_with_rst() == old(self).spec_reply_with_rst(),
            NatTask::same_translation(*old(self), *final(self)),
    {
        let index = self.next_internal_iface_index;
        self.internal_ifaces.insert(index);
        self.next_internal_iface_index = index + 1;
        index
    }

    /// Detaches the internal interface `index` (it failed, or its stream ended).
    pub fn remove_iface(&mut self, index: usize)
        ensures
            final(self).ifaces() == old(self).ifaces().remove(index),
            final(self).spec_next_index() == old(self).spec_next_index(),
            final(self).v4_indexes() == old(self).v4_indexes(),
            final(self).v6_indexes() == old(self).v6_indexes(),
            final(self).spec_external_open() == old(self).spec_external_open(),
            final(self).spec_external_ipv4() == old(self).spec_external_ipv4(),
            final(self).spec_internal_network() == old(self).spec_internal_network(),
            final(self).spec_hair_pinning() == old(self).spec_hair_pinning(),
            final(self).spec_reply_with_rst() == old(self).spec_reply_with_rst(),
            NatTask::same_translation(*old(self), *final(self)),
    {
        self.internal_ifaces.remove(&index);
    }

    /// Records that the external interface has closed; nothing is sent out of it from then on.
    pub fn close_external(&mut self)
        ensures
            !final(self).spec_external_open(),
            final(self).ifaces() == old(self).ifaces(),
            final(self).spec_next_index() == old(self).spec_next_index(),
            final(self).v4_indexes() == old(self).v4_indexes(),
            final(self).v6_indexes() == old(self).v6_indexes(),
            final(self).spec_external_ipv4() == old(self).spec_external_ipv4(),
            final(self).spec_internal_network() == old(self).spec_internal_network(),
            final(self).spec_hair_pinning() == old(self).spec_hair_pinning(),
            final(self).spec_reply_with_rst() == old(self).spec_reply_with_rst(),
            NatTask::same_translation(*old(self), *final(self)),
    {
        self.external_iface_open = false;
    }

    /// Whether the external interface is still open.
    pub fn external_open(&self) -> (open: bool)
        ensures
            open == self.spec_external_open(),
    {
        self.external_iface_open
    }

    /// The NAT's external address.
    pub fn external_ipv4(&self) -> (addr: Ipv4Addr)
        ensures
            addr == self.spec_external_ipv4(),
    {
        self.external_ipv4
    }

    /// Where a datagram that arrived on the external side goes (see `external_outcome`).
    pub fn dispatch_incoming_external(&self, packet: IpDatagram) -> (out: NatDispatch)
        ensures
            self.external_outcome(packet, out),
    {
        let datagram = match packet {
            IpDatagram::V6 { .. } => {
                return NatDispatch::Nothing;
            },
            IpDatagram::V4(datagram) => datagram,
        };
        let (source, destination) = match datagram.endpoints() {
            Some(endpoints) => endpoints,
            None => {
                return NatDispatch::Nothing;
            },
        };
        if destination.ip.bits != self.external_ipv4.bits {
            return NatDispatch::Nothing;
        }
        let port = destination.port;
        let mapped_addr_opt = if self.restrictions.incoming_allowed(port, source) {
            self.port_map.incoming_addr(port)
        } else {
            None
        };
        match mapped_addr_opt {
            None => {
                match datagram {
                    Ipv4Datagram::Tcp(segment) => {
                        if self.reply_with_rst_to_unexpected_tcp_packets && self.external_iface_open {
                            let mut reply = Tcpv4Packet::new(segment.destination_addr, segment.source_addr);
                            reply.flags.rst = true;
                            reply.flags.ack = true;
                            reply.ack_number = segment.seq_number.wrapping_add(1);
                            NatDispatch::External(Ipv4Datagram::Tcp(reply))
                        } else {
                            NatDispatch::Nothing
                        }
                    },
                    _ => NatDispatch::Nothing,
                }
            },
            Some(mapped_addr) => {
                let iface_index = match self.internal_v4_indexes.get(&mapped_addr.ip.bits) {
                    Some(iface_index) => *iface_index,
                    None => {
                        return NatDispatch::Nothing;
                    },
                };
                if !self.internal_ifaces.contains(&iface_index) {
                    return NatDispatch::Nothing;
                }
                NatDispatch::Internal {
                    iface: iface_index,
                    packet: IpDatagram::V4(datagram.with_destination_addr(mapped_addr)),
                }
            },
        }
    }

    /// Handles a datagram that arrived on internal interface `iface_index` (see
    /// `internal_step`).
    pub fn dispatch_incoming_internal(&mut self, iface_index: usize, packet: IpDatagram) -> (out:
        NatDispatch)
        requires
            old(self).wf(),
        ensures
            NatTask::internal_step(*old(self), *final(self), iface_index, packet, out),
    {
        match packet {
            IpDatagram::V6 { source_addr, destination_addr, payload } => {
                self.internal_v6_indexes.insert(source_addr.to_u128(), iface_index);
                NatDispatch::Nothing
            },
            IpDatagram::V4(datagram) => {
                let source = datagram.source_addr();
                if !self.internal_ipv4_network.contains(source) {
                    return NatDispatch::Nothing;
                }
                self.internal_v4_indexes.insert(source.bits, iface_index);
                let destination = datagram.destination_addr();
                if self.internal_ipv4_network.contains(destination) {
                    let index = match self.internal_v4_indexes.get(&destination.bits) {
                        Some(index) => *index,
                        None => {
                            return NatDispatch::Nothing;
                        },
                    };
                    if !self.internal_ifaces.contains(&index) {
                        return NatDispatch::Nothing;
                    }
                    NatDispatch::Internal { iface: index, packet: IpDatagram::V4(datagram) }
                } else {
                    match datagram.endpoints() {
                        None => NatDispatch::Nothing,
                        Some((internal_addr, remote_addr)) => {
                            let port = self.port_map.outgoing_port(internal_addr);
                            self.restrictions.sending(port, remote_addr);
                            let translated = datagram.with_source_addr(
                                SocketAddrV4::new(self.external_ipv4, port),
                            );
                            if remote_addr.ip.bits == self.external_ipv4.bits {
                                if self.hair_pinning {
                                    self.dispatch_incoming_external(IpDatagram::V4(translated))
                                } else {
                                    NatDispatch::Nothing
                                }
                            } else if self.external_iface_open {
                                NatDispatch::External(translated)
                            } else {
                                NatDispatch::Nothing
                            }
                        },
                    }
                }
            },
        }
    }
}

/// The port that `map` gives `addr`, if it has one, still leads back to `addr`.
pub open spec fn port_leads_back(map: PortMap, addr: SocketAddrV4) -> bool {
    map.outgoing().contains_key(socket_key(addr)) ==> {
        let port = map.outgoing()[socket_key(addr)];
        &&& map.incoming().contains_key(port)
        &&& map.incoming()[port] == addr
    }
}

/// `out` sends a TCP segment or UDP packet out of the external interface from address `ip`,
/// to `destination`.
pub open spec fn leaves_external(out: NatDispatch, ip: Ipv4Addr, destination: SocketAddrV4) -> bool {
    out matches NatDispatch::External(sent) && sent.spec_endpoints() matches Some((s, d)) && s.ip == ip
        && d == destination
}

/// `reply` is addressed to where the packet that `out` sends out came from.
pub open spec fn answers(reply: Ipv4Datagram, out: NatDispatch) -> bool {
    out matches NatDispatch::External(sent) && sent.spec_endpoints() matches Some((s, _)) && reply.spec_endpoints()
        matches Some((_, d)) && d == s
}

/// `back` delivers `reply` on internal interface `iface`, readdressed to `addr`.
pub open spec fn delivers(back: NatDispatch, iface: usize, reply: Ipv4Datagram, addr: SocketAddrV4) -> bool {
    back == NatDispatch::Internal { iface, packet: IpDatagram::V4(reply.spec_with_destination_addr(addr)) }
}

/// A reply gets back through the NAT: when an internal host sends a TCP segment or UDP packet
/// out of the NAT, it leaves by the external interface from the NAT's address, and a TCP segment
/// or UDP packet that the destination sends back to the address and port it came from reaches
/// the host's interface with the host's own address and port as its destination. This holds
/// whatever the NAT's filter, provided that a port the host already had still led back to it.
pub proof fn lemma_reply_reaches_sender(
    old: NatTask,
    new: NatTask,
    iface_index: usize,
    datagram: Ipv4Datagram,
    source: SocketAddrV4,
    destination: SocketAddrV4,
    out: NatDispatch,
    reply: Ipv4Datagram,
    back: NatDispatch,
)
    requires
        old.wf(),
        datagram.spec_endpoints() == Some((source, destination)),
        NatTask::internal_step(old, new, iface_index, IpDatagram::V4(datagram), out),
        old.ifaces().contains(iface_index),
        old.spec_external_open(),
        old.spec_internal_network().spec_contains(source.ip.bits),
        !old.spec_internal_network().spec_contains(destination.ip.bits),
        destination.ip != old.spec_external_ipv4(),
        port_leads_back(old.spec_port_map(), source),
        reply.spec_endpoints() matches Some((s, _)) && s == destination,
        answers(reply, out),
        new.external_outcome(IpDatagram::V4(reply), back),
    ensures
        leaves_external(out, old.spec_external_ipv4(), destination),
        delivers(back, iface_index, reply, source),
{
    let key = socket_key(source);
    let port = new.spec_port_map().outgoing()[key];
    assert(new.spec_restrictions().allows(port, destination));
    assert(new.spec_port_map().incoming().contains_key(port));
    assert(new.spec_port_map().incoming()[port] == source);
    assert(new.v4_indexes()[source.ip.bits] == iface_index);
}

/// A NAT without restrictions is full cone: once an internal host has sent a TCP segment or
/// UDP packet out, a TCP segment or UDP packet from any external host to the address and port
/// it left from reaches the host, provided that a port the host already had still led back
/// to it.
pub proof fn lemma_full_cone_admits_anyone(
    old: NatTask,
    new: NatTask,
    iface_index: usize,
    datagram: Ipv4Datagram,
    source: SocketAddrV4,
    destination: SocketAddrV4,
    out: NatDispatch,
    incoming: Ipv4Datagram,
    back: NatDispatch,
)
    requires
        old.wf(),
        old.spec_restrictions() is Unrestricted,
        datagram.spec_endpoints() == Some((source, destination)),
        NatTask::internal_step(old, new, iface_index, IpDatagram::V4(datagram), out),
        old.ifaces().contains(iface_index),
        old.spec_external_open(),
        old.spec_internal_network().spec_contains(source.ip.bits),
        !old.spec_internal_network().spec_contains(destination.ip.bits),
        destination.ip != old.spec_external_ipv4(),
        port_leads_back(old.spec_port_map(), source),
        answers(incoming, out),
        new.external_outcome(IpDatagram::V4(incoming), back),
    ensures
        delivers(back, iface_index, incoming, source),
{
    let key = socket_key(source);
    let port = new.spec_port_map().outgoing()[key];
    let from = incoming.spec_endpoints()->Some_0.0;
    assert(new.spec_restrictions().allows(port, from));
    assert(new.v4_indexes()[source.ip.bits] == iface_index);
}

/// A restricted NAT keeps strangers out: starting with a filter that has recorded nothing, after
/// an internal host sends one packet, a TCP segment or UDP packet from an external host that the
/// filter does not count as a reply to that packet (another address when address restricted,
/// another socket address when port restricted) reaches no internal interface, whatever port it
/// is sent to.
pub proof fn lemma_restricted_nat_drops_strangers(
    old: NatTask,
    new: NatTask,
    iface_index: usize,
    packet: IpDatagram,
    out: NatDispatch,
    stranger: Ipv4Datagram,
    stranger_source: SocketAddrV4,
    stranger_destination: SocketAddrV4,
    back: NatDispatch,
)
    requires
        old.wf(),
        !(old.spec_restrictions() is Unrestricted),
        old.spec_restrictions().entries() == Set::<u64>::empty(),
        NatTask::internal_step(old, new, iface_index, packet, out),
        packet matches IpDatagram::V4(d) ==> (d.spec_endpoints() matches Some((_, remote))
            ==> !old.spec_restrictions().admits_reply(stranger_source, remote)),
        stranger.spec_endpoints() == Some((stranger_source, stranger_destination)),
        new.external_outcome(IpDatagram::V4(stranger), back),
    ensures
        !(back is Internal),
{
    assert(!new.spec_restrictions().allows(stranger_destination.port, stranger_source));
}

} // verus!
