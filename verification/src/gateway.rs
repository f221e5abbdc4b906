//! A NAT gateway for UDP: packets from the private side leave from the gateway's public address
//! and a mapped port, and replies to that port are translated back.

use vstd::prelude::*;
use std::collections::HashMap;
use crate::addr::{Ipv4Addr, SocketAddrV4, socket_key};
use crate::ipv4::{Ipv4Fields, Ipv4PacketFields, Ipv4PayloadFields, UdpFields};
use crate::mac::MacAddr;
use crate::random::random_bytes6;
use crate::network::Ipv4Network;
use crate::port_walk::{walk_in_range, next_port_in_range, range_size, lemma_walk_in_range_covers, lemma_walk_in_range_stays};

verus! {

broadcast use vstd::std_specs::hash::group_hash_axioms;

/// The lowest port the gateway maps to, where its search wraps back to after 65535.
pub const LOWEST_MAPPED_PORT: u16 = 1000;

/// The port the gateway's search starts from.
pub const FIRST_FREE_PORT: u16 = 1001;

/// The number of entries at which the gateway stops mapping new endpoints.
pub const FULL_MAP_LEN: usize = 64535;

/// `k` is where the search from `start` stops: at the first port of the walk through
/// `1000..=65535` that `incoming` leaves free.
pub open spec fn search_stops_at(incoming: Map<u16, SocketAddrV4>, start: u16, k: nat) -> bool {
    &&& forall|t: nat| t < k ==> #[trigger] incoming.contains_key(walk_in_range(LOWEST_MAPPED_PORT, start, t))
    &&& !incoming.contains_key(walk_in_range(LOWEST_MAPPED_PORT, start, k))
}

/// The gateway's UDP port mappings in both directions, and where the next search starts.
#[derive(Debug)]
pub struct PortMap {
    next_free_port: u16,
    /// Mapped port of each internal endpoint, keyed by `socket_key`.
    map_out: HashMap<u64, u16>,
    /// Internal endpoint behind each mapped port.
    map_in: HashMap<u16, SocketAddrV4>,
}

impl PortMap {
    /// Mapped port of each internal endpoint, by `socket_key`.
    pub closed spec fn outgoing(&self) -> Map<u64, u16> {
        self.map_out@
    }

    /// Internal endpoint behind each mapped port.
    pub closed spec fn incoming(&self) -> Map<u16, SocketAddrV4> {
        self.map_in@
    }

    /// Where the next search starts.
    pub closed spec fn spec_next_free_port(&self) -> u16 {
        self.next_free_port
    }

    /// The search starts inside the range it walks.
    pub open spec fn wf(&self) -> bool {
        LOWEST_MAPPED_PORT <= self.spec_next_free_port()
    }

    /// `map_out(addr)` returns rather than searching forever: the endpoint has a port, or the
    /// map is at its limit, or some port of `1000..=65535` is free.
    pub open spec fn can_map(&self, addr: SocketAddrV4) -> bool {
        ||| self.outgoing().contains_key(socket_key(addr))
        ||| self.incoming().len() == FULL_MAP_LEN
        ||| exists|p: u16| LOWEST_MAPPED_PORT <= p && !#[trigger] self.incoming().contains_key(p)
    }

    /// An empty map whose search starts at port 1001.
    pub fn new() -> (map: PortMap)
        ensures
            map.wf(),
            map.outgoing() == Map::<u64, u16>::empty(),
            map.incoming() == Map::<u16, SocketAddrV4>::empty(),
            map.spec_next_free_port() == FIRST_FREE_PORT,
    {
        PortMap { next_free_port: FIRST_FREE_PORT, map_out: HashMap::new(), map_in: HashMap::new() }
    }

    /// The mapped port of `addr`. An endpoint that has one keeps it. When the map has reached
    /// 64535 entries, a new endpoint gets none. Otherwise the first free port of the walk from
    /// the next free port through `1000..=65535` is mapped to `addr` in both directions, and the
    /// next search starts after it.
    pub fn map_out(&mut self, addr: SocketAddrV4) -> (port: Option<u16>)
        requires
            old(self).wf(),
            old(self).can_map(addr),
        ensures
            map_out_post(*old(self), *final(self), addr, port),
    {
        let key = addr.key();
        match self.map_out.get(&key) {
            Some(port) => {
                return Some(*port);
            },
            None => {},
        }
        if self.map_in.len() == FULL_MAP_LEN {
            return None;
        }
        let ghost start = self.next_free_port;
        let ghost free_port = choose|p: u16| LOWEST_MAPPED_PORT <= p && !#[trigger] old(self).incoming().contains_key(p);
        let ghost bound = lemma_walk_in_range_covers(LOWEST_MAPPED_PORT, start, free_port);
        let mut steps: u32 = 0;
        loop
            invariant
                LOWEST_MAPPED_PORT <= start,
                start == old(self).spec_next_free_port(),
                LOWEST_MAPPED_PORT <= self.spec_next_free_port(),
                key == socket_key(addr),
                !old(self).outgoing().contains_key(key),
                old(self).incoming().len() != FULL_MAP_LEN,
                self.outgoing() == old(self).outgoing(),
                self.incoming() == old(self).incoming(),
                self.spec_next_free_port() == walk_in_range(LOWEST_MAPPED_PORT, start, steps as nat),
                bound < range_size(LOWEST_MAPPED_PORT),
                walk_in_range(LOWEST_MAPPED_PORT, start, bound) == free_port,
                !old(self).incoming().contains_key(free_port),
                steps <= bound,
                forall|t: nat| t < steps ==> #[trigger] old(self).incoming().contains_key(
                    walk_in_range(LOWEST_MAPPED_PORT, start, t),
                ),
            decreases bound - steps,
        {
            let port = self.next_free_port;
            self.next_free_port = next_port_in_range(LOWEST_MAPPED_PORT, self.next_free_port);
            if !self.map_in.contains_key(&port) {
                self.map_out.insert(key, port);
                self.map_in.insert(port, addr);
                proof {
                    assert(search_stops_at(old(self).incoming(), start, steps as nat));
                }
                return Some(port);
            }
            steps = steps + 1;
        }
    }

    /// The internal endpoint behind `port`, if any.
    pub fn map_in(&self, port: u16) -> (addr: Option<SocketAddrV4>)
        ensures
            addr == (if self.incoming().contains_key(port) {
                Some(self.incoming()[port])
            } else {
                None
            }),
    {
        match self.map_in.get(&port) {
            Some(addr) => Some(*addr),
            None => None,
        }
    }

    /// Maps `external_port` to `internal_addr` in both directions, replacing what either was
    /// mapped to.
    pub fn add_mapping(&mut self, external_port: u16, internal_addr: SocketAddrV4)
        ensures
            final(self).outgoing() == old(self).outgoing().insert(socket_key(internal_addr), external_port),
            final(self).incoming() == old(self).incoming().insert(external_port, internal_addr),
            final(self).spec_next_free_port() == old(self).spec_next_free_port(),
    {
        self.map_out.insert(internal_addr.key(), external_port);
        self.map_in.insert(external_port, internal_addr);
    }
}

/// The settings of a gateway before it is built.
#[derive(Debug)]
pub struct GatewayBuilder {
    public_ip: Ipv4Addr,
    public_mac_addr: MacAddr,
    private_mac_addr: MacAddr,
    subnet: Ipv4Network,
    /// The forwards asked for, in order: each external port with its internal endpoint.
    udp_forwards: Vec<(u16, SocketAddrV4)>,
}

/// The internal endpoint of each external port after the forwards `list`, in order; a later
/// forward of a port replaces an earlier one.
pub open spec fn forwards_in(list: Seq<(u16, SocketAddrV4)>) -> Map<u16, SocketAddrV4>
    decreases list.len(),
{
    if list.len() == 0 {
        Map::empty()
    } else {
        forwards_in(list.drop_last()).insert(list.last().0, list.last().1)
    }
}

/// The external port of each internal endpoint, by `socket_key`, after the forwards `list`, in
/// order; a later forward of an endpoint replaces an earlier one.
pub open spec fn forwards_out(list: Seq<(u16, SocketAddrV4)>) -> Map<u64, u16>
    decreases list.len(),
{
    if list.len() == 0 {
        Map::empty()
    } else {
        forwards_out(list.drop_last()).insert(socket_key(list.last().1), list.last().0)
    }
}

impl GatewayBuilder {
    /// The gateway's public address.
    pub closed spec fn spec_public_ip(&self) -> Ipv4Addr {
        self.public_ip
    }

    /// The private network behind the gateway.
    pub closed spec fn spec_subnet(&self) -> Ipv4Network {
        self.subnet
    }

    /// The internal endpoint for each forwarded external port.
    pub closed spec fn forwards(&self) -> Map<u16, SocketAddrV4> {
        forwards_in(self.udp_forwards@)
    }

    /// The forwarded external port of each internal endpoint, by `socket_key`.
    pub closed spec fn forwards_back(&self) -> Map<u64, u16> {
        forwards_out(self.udp_forwards@)
    }

    /// A gateway for `subnet` with a random global public address and random hardware
    /// addresses, forwarding no port.
    pub fn new(subnet: Ipv4Network) -> (builder: GatewayBuilder)
        ensures
            builder.spec_subnet() == subnet,
            crate::addr::spec_is_global(builder.spec_public_ip().bits),
            builder.forwards() == Map::<u16, SocketAddrV4>::empty(),
            builder.forwards_back() == Map::<u64, u16>::empty(),
    {
        let public_mac_addr = MacAddr::from_array(random_bytes6());
        let private_mac_addr = MacAddr::from_array(random_bytes6());
        GatewayBuilder {
            public_ip: Ipv4Addr::random_global(),
            public_mac_addr,
            private_mac_addr,
            subnet,
            udp_forwards: Vec::new(),
        }
    }

    /// Asks for UDP packets to `external_port` to be forwarded to `internal_addr`.
    pub fn forward_udp_port(&mut self, internal_addr: SocketAddrV4, external_port: u16)
        ensures
            final(self).forwards() == old(self).forwards().insert(external_port, internal_addr),
            final(self).forwards_back() == old(self).forwards_back().insert(
                socket_key(internal_addr),
                external_port,
            ),
            final(self).spec_public_ip() == old(self).spec_public_ip(),
            final(self).spec_subnet() == old(self).spec_subnet(),
    {
        let ghost before = self.udp_forwards@;
        self.udp_forwards.push((external_port, internal_addr));
        assert(self.udp_forwards@.drop_last() =~= before);
    }

    /// The gateway. Its port map holds the forwards asked for, in both directions, and its
    /// search for free ports starts at 1001.
    pub fn build(self) -> (gateway: Gateway)
        ensures
            gateway.spec_public_ip() == self.spec_public_ip(),
            gateway.spec_udp_map().wf(),
            gateway.spec_udp_map().outgoing() == self.forwards_back(),
            gateway.spec_udp_map().incoming() == self.forwards(),
            gateway.spec_udp_map().spec_next_free_port() == FIRST_FREE_PORT,
    {
        let mut udp_map = PortMap::new();
        let mut i: usize = 0;
        while i < self.udp_forwards.len()
            invariant
                i <= self.udp_forwards@.len(),
                udp_map.wf(),
                udp_map.spec_next_free_port() == FIRST_FREE_PORT,
                udp_map.incoming() == forwards_in(self.udp_forwards@.take(i as int)),
                udp_map.outgoing() == forwards_out(self.udp_forwards@.take(i as int)),
            decreases self.udp_forwards@.len() - i,
        {
            let (port, addr) = self.udp_forwards[i];
            udp_map.add_mapping(port, addr);
            assert(self.udp_forwards@.take(i + 1).drop_last() =~= self.udp_forwards@.take(i as int));
            i = i + 1;
        }
        assert(self.udp_forwards@.take(i as int) =~= self.udp_forwards@);
        Gateway {
            udp_map,
            public_ip: self.public_ip,
            public_mac_addr: self.public_mac_addr,
            private_mac_addr: self.private_mac_addr,
            subnet: self.subnet,
        }
    }
}

/// What `map_out(addr)` does to a map `old`, leaving `new` and returning `port`: an endpoint
/// with a port keeps it; a new endpoint gets none when the map has 64535 entries; otherwise it
/// gets the port where `search_stops_at` stops, recorded in both directions, and the next
/// search starts after it.
pub open spec fn map_out_post(old: PortMap, new: PortMap, addr: SocketAddrV4, port: Option<u16>) -> bool {
    let key = socket_key(addr);
    &&& new.wf()
    &&& old.outgoing().contains_key(key) ==> {
        &&& port == Some(old.outgoing()[key])
        &&& new.outgoing() == old.outgoing()
        &&& new.incoming() == old.incoming()
        &&& new.spec_next_free_port() == old.spec_next_free_port()
    }
    &&& !old.outgoing().contains_key(key) && old.incoming().len() == FULL_MAP_LEN ==> {
        &&& port is None
        &&& new.outgoing() == old.outgoing()
        &&& new.incoming() == old.incoming()
        &&& new.spec_next_free_port() == old.spec_next_free_port()
    }
    &&& !old.outgoing().contains_key(key) && old.incoming().len() != FULL_MAP_LEN ==> exists|k: nat|
        {
            &&& #[trigger] search_stops_at(old.incoming(), old.spec_next_free_port(), k)
            &&& port == Some(walk_in_range(LOWEST_MAPPED_PORT, old.spec_next_free_port(), k))
            &&& new.spec_next_free_port() == walk_in_range(LOWEST_MAPPED_PORT, old.spec_next_free_port(), k + 1)
            &&& new.incoming() == old.incoming().insert(walk_in_range(LOWEST_MAPPED_PORT, old.spec_next_free_port(), k), addr)
            &&& new.outgoing() == old.outgoing().insert(key, walk_in_range(LOWEST_MAPPED_PORT, old.spec_next_free_port(), k))
        }
}

/// A UDP NAT gateway: its addresses and its port map.
#[derive(Debug)]
pub struct Gateway {
    udp_map: PortMap,
    public_ip: Ipv4Addr,
    public_mac_addr: MacAddr,
    private_mac_addr: MacAddr,
    subnet: Ipv4Network,
}

impl Gateway {
    /// The gateway's public address.
    pub closed spec fn spec_public_ip(&self) -> Ipv4Addr {
        self.public_ip
    }

    /// The gateway's port map.
    pub closed spec fn spec_udp_map(&self) -> PortMap {
        self.udp_map
    }

    /// The gateway's public address.
    pub fn public_ip(&self) -> (ip: Ipv4Addr)
        ensures
            ip == self.spec_public_ip(),
    {
        self.public_ip
    }

    /// Translates a packet from the private side. A packet whose TTL has run out, or that is
    /// not UDP, is dropped, and so is one for which the port map has no port. Otherwise it
    /// leaves from the public address and the mapped port of its source, with its TTL one lower.
    pub fn translate_outgoing(&mut self, packet: Ipv4PacketFields) -> (out: Option<Ipv4PacketFields>)
        requires
            old(self).spec_udp_map().wf(),
            packet.payload matches Ipv4PayloadFields::Udp { fields, .. } ==> old(self).spec_udp_map().can_map(
                SocketAddrV4 { ip: packet.fields.source_ip, port: fields.source_port },
            ),
        ensures
            final(self).spec_public_ip() == old(self).spec_public_ip(),
            final(self).spec_udp_map().wf(),
            packet.fields.ttl == 0 || !(packet.payload is Udp) ==> out is None
                && final(self).spec_udp_map() == old(self).spec_udp_map(),
            packet.fields.ttl > 0 && packet.payload is Udp ==> {
                let source = SocketAddrV4 {
                    ip: packet.fields.source_ip,
                    port: packet.payload->Udp_fields.source_port,
                };
                exists|port: Option<u16>|
                    {
                        &&& #[trigger] map_out_post(old(self).spec_udp_map(), final(self).spec_udp_map(), source, port)
                        &&& (out is None <==> port is None)
                        &&& port matches Some(p) ==> out == Some(
                            Ipv4PacketFields {
                                fields: Ipv4Fields {
                                    source_ip: old(self).spec_public_ip(),
                                    dest_ip: packet.fields.dest_ip,
                                    ttl: (packet.fields.ttl - 1) as u8,
                                },
                                payload: packet.payload.spec_with_ports(p, packet.payload->Udp_fields.dest_port),
                            },
                        )
                    }
            },
    {
        let ttl = match packet.fields.ttl.checked_sub(1) {
            Some(ttl) => ttl,
            None => {
                return None;
            },
        };
        let (source_port, dest_port) = match &packet.payload {
            Ipv4PayloadFields::Udp { fields, .. } => (fields.source_port, fields.dest_port),
            _ => {
                return None;
            },
        };
        let source = SocketAddrV4::new(packet.fields.source_ip, source_port);
        let mapped_port = match self.udp_map.map_out(source) {
            Some(port) => port,
            None => {
                return None;
            },
        };
        let fields = Ipv4Fields { source_ip: self.public_ip, dest_ip: packet.fields.dest_ip, ttl };
        Some(Ipv4PacketFields { fields, payload: packet.payload.with_ports(mapped_port, dest_port) })
    }

    /// Translates a packet that arrived on the public side. Only a UDP packet to the public
    /// address, with TTL left, whose destination port is mapped passes: it goes to the mapped
    /// endpoint, with its TTL one lower.
    pub fn translate_incoming(&self, packet: Ipv4PacketFields) -> (out: Option<Ipv4PacketFields>)
        ensures
            ({
                let ok = packet.fields.dest_ip == self.spec_public_ip() && packet.fields.ttl > 0
                    && packet.payload is Udp && self.spec_udp_map().incoming().contains_key(
                    packet.payload->Udp_fields.dest_port,
                );
                &&& (out is Some <==> ok)
                &&& ok ==> {
                    let internal = self.spec_udp_map().incoming()[packet.payload->Udp_fields.dest_port];
                    out == Some(
                        Ipv4PacketFields {
                            fields: Ipv4Fields {
                                source_ip: packet.fields.source_ip,
                                dest_ip: internal.ip,
                                ttl: (packet.fields.ttl - 1) as u8,
                            },
                            payload: packet.payload.spec_with_ports(
                                packet.payload->Udp_fields.source_port,
                                internal.port,
                            ),
                        },
                    )
                }
            }),
    {
        if packet.fields.dest_ip.bits != self.public_ip.bits {
            return None;
        }
        let ttl = match packet.fields.ttl.checked_sub(1) {
            Some(ttl) => ttl,
            None => {
                return None;
            },
        };
        let (source_port, dest_port) = match &packet.payload {
            Ipv4PayloadFields::Udp { fields, .. } => (fields.source_port, fields.dest_port),
            _ => {
                return None;
            },
        };
        let internal = match self.udp_map.map_in(dest_port) {
            Some(addr) => addr,
            None => {
                return None;
            },
        };
        let fields = Ipv4Fields { source_ip: packet.fields.source_ip, dest_ip: internal.ip, ttl };
        Some(Ipv4PacketFields { fields, payload: packet.payload.with_ports(source_port, internal.port) })
    }
}

/// Below its limit of 64535 entries the map can always map an endpoint: `1000..=65535` holds
/// more ports than that, so with fewer entries one of them is free.
pub proof fn lemma_can_map_below_limit(map: PortMap, addr: SocketAddrV4)
    requires
        map.incoming().len() <= FULL_MAP_LEN,
    ensures
        map.can_map(addr),
{
    if map.incoming().len() < FULL_MAP_LEN {
        assert(map.incoming().dom().finite());
        let free = crate::port_walk::lemma_free_port_exists(map.incoming().dom(), LOWEST_MAPPED_PORT);
        assert(!map.incoming().contains_key(free));
    }
}

/// On a map with at most 64535 entries, `map_out(addr)` returns the port that a mapped
/// endpoint has and changes nothing; for a new endpoint it returns nothing and changes nothing
/// when the map holds 64535 entries, and otherwise a port of `1000..=65535` that was free,
/// which is then mapped to the endpoint in both directions.
pub proof fn lemma_map_out_below_limit(old: PortMap, new: PortMap, addr: SocketAddrV4, port: Option<u16>)
    requires
        old.wf(),
        old.incoming().len() <= FULL_MAP_LEN,
        map_out_post(old, new, addr, port),
    ensures
        old.outgoing().contains_key(socket_key(addr)) ==> {
            &&& port == Some(old.outgoing()[socket_key(addr)])
            &&& new.outgoing() == old.outgoing()
            &&& new.incoming() == old.incoming()
        },
        !old.outgoing().contains_key(socket_key(addr)) && old.incoming().len() == FULL_MAP_LEN ==> {
            &&& port is None
            &&& new.outgoing() == old.outgoing()
            &&& new.incoming() == old.incoming()
        },
        !old.outgoing().contains_key(socket_key(addr)) && old.incoming().len() < FULL_MAP_LEN ==> {
            &&& port matches Some(p)
            &&& LOWEST_MAPPED_PORT <= port->Some_0
            &&& !old.incoming().contains_key(port->Some_0)
            &&& new.incoming().contains_key(port->Some_0)
            &&& new.incoming()[port->Some_0] == addr
            &&& new.outgoing().contains_key(socket_key(addr))
            &&& new.outgoing()[socket_key(addr)] == port->Some_0
        },
{
    let key = socket_key(addr);
    let start = old.spec_next_free_port();
    if !old.outgoing().contains_key(key) && old.incoming().len() < FULL_MAP_LEN {
        let k = choose|k: nat|
            {
                &&& #[trigger] search_stops_at(old.incoming(), start, k)
                &&& port == Some(walk_in_range(LOWEST_MAPPED_PORT, start, k))
                &&& new.spec_next_free_port() == walk_in_range(LOWEST_MAPPED_PORT, start, k + 1)
                &&& new.incoming() == old.incoming().insert(walk_in_range(LOWEST_MAPPED_PORT, start, k), addr)
                &&& new.outgoing() == old.outgoing().insert(key, walk_in_range(LOWEST_MAPPED_PORT, start, k))
            };
        lemma_walk_in_range_stays(LOWEST_MAPPED_PORT, start, k);
    }
}

/// A reply gets back through the gateway: once a private endpoint's UDP packet has left from a
/// mapped port, a UDP packet to the public address and that port reaches the endpoint, provided
/// that a port the endpoint already had still led back to it.
pub proof fn lemma_gateway_reply_reaches_sender(old: PortMap, new: PortMap, addr: SocketAddrV4, port: u16)
    requires
        old.outgoing().contains_key(socket_key(addr)) ==> {
            &&& old.incoming().contains_key(old.outgoing()[socket_key(addr)])
            &&& old.incoming()[old.outgoing()[socket_key(addr)]] == addr
        },
        old.outgoing().contains_key(socket_key(addr)) ==> port == old.outgoing()[socket_key(addr)]
            && new.incoming() == old.incoming(),
        !old.outgoing().contains_key(socket_key(addr)) ==> new.incoming() == old.incoming().insert(port, addr),
    ensures
        new.incoming().contains_key(port),
        new.incoming()[port] == addr,
{
}

} // verus!
