//! A router between IPv4 networks. Each connection has a list of routes; a packet goes down the
//! first connection whose route contains its destination, and a broadcast packet goes down
//! every connection with a route whose network it is broadcast to.

use vstd::prelude::*;
use crate::addr::Ipv4Addr;
use crate::ipv4::Ipv4Packet;
use crate::network::Ipv4Route;

verus! {

/// `route` takes a packet for `dest`: its network contains `dest`, or `dest` is a broadcast
/// address for it.
pub open spec fn route_takes(route: Ipv4Route, dest: u32) -> bool {
    route.destination.spec_contains(dest) || route.destination.spec_is_broadcast(dest)
}

/// `route` takes a packet for `dest` and ends the search: `dest` is not a broadcast address
/// for it.
pub open spec fn route_ends_search(route: Ipv4Route, dest: u32) -> bool {
    route_takes(route, dest) && !route.destination.spec_is_broadcast(dest)
}

/// The copies that connection `conn` with routes `routes` gets of a packet for `dest`, one per
/// route that takes it, up to the first route that ends the search; and whether one did.
pub open spec fn scan_routes(conn: usize, routes: Seq<Ipv4Route>, dest: u32) -> (Seq<usize>, bool)
    decreases routes.len(),
{
    if routes.len() == 0 {
        (Seq::empty(), false)
    } else if route_ends_search(routes[0], dest) {
        (seq![conn], true)
    } else {
        let rest = scan_routes(conn, routes.skip(1), dest);
        if route_takes(routes[0], dest) {
            (seq![conn] + rest.0, rest.1)
        } else {
            rest
        }
    }
}

/// The connections, in order and one entry per copy, that a packet for `dest` is sent down,
/// scanning the connections from index `i` on and stopping at the first route that ends the
/// search.
pub open spec fn scan_connections(conns: Seq<Seq<Ipv4Route>>, i: int, dest: u32) -> Seq<usize>
    decreases conns.len() - i,
{
    if i < 0 || i >= conns.len() {
        Seq::empty()
    } else {
        let here = scan_routes(i as usize, conns[i], dest);
        if here.1 {
            here.0
        } else {
            here.0 + scan_connections(conns, i + 1, dest)
        }
    }
}

/// Builder for an `Ipv4Router`: its address and the routes of each connection, in the order
/// they were added.
#[derive(Debug)]
pub struct Ipv4RouterBuilder {
    ipv4_addr: Ipv4Addr,
    connections: Vec<Vec<Ipv4Route>>,
}

impl Ipv4RouterBuilder {
    /// The address the router is built with.
    pub closed spec fn spec_ipv4_addr(&self) -> Ipv4Addr {
        self.ipv4_addr
    }

    /// The routes of each connection added so far.
    pub closed spec fn spec_connections(&self) -> Seq<Seq<Ipv4Route>> {
        self.connections@.map_values(|routes: Vec<Ipv4Route>| routes@)
    }

    /// Starts building a router with address `ipv4_addr` and no connections.
    pub fn new(ipv4_addr: Ipv4Addr) -> (builder: Ipv4RouterBuilder)
        ensures
            builder.spec_ipv4_addr() == ipv4_addr,
            builder.spec_connections() == Seq::<Seq<Ipv4Route>>::empty(),
    {
        let builder = Ipv4RouterBuilder { ipv4_addr, connections: Vec::new() };
        assert(builder.spec_connections() =~= Seq::<Seq<Ipv4Route>>::empty());
        builder
    }

    /// Adds a connection; `routes` say which packets go down it. Connections are tried in the
    /// order they were added.
    pub fn connect(self, routes: Vec<Ipv4Route>) -> (builder: Ipv4RouterBuilder)
        ensures
            builder.spec_ipv4_addr() == self.spec_ipv4_addr(),
            builder.spec_connections() == self.spec_connections().push(routes@),
    {
        let ghost before = self.spec_connections();
        let mut connections = self.connections;
        connections.push(routes);
        let builder = Ipv4RouterBuilder { ipv4_addr: self.ipv4_addr, connections };
        assert(builder.spec_connections() =~= before.push(routes@));
        builder
    }

    /// The router with this address and these connections.
    pub fn build(self) -> (router: Ipv4Router)
        ensures
            router.spec_ipv4_addr() == self.spec_ipv4_addr(),
            router.spec_connections() == self.spec_connections(),
            router.sent() == Seq::<(usize, Seq<u8>)>::empty(),
    {
        Ipv4Router::new(self.ipv4_addr, self.connections)
    }
}

/// A router: its address, the routes of each connection, and the packets it has sent, each
/// with the index of the connection it went down, oldest first.
#[derive(Debug)]
pub struct Ipv4Router {
    ipv4_addr: Ipv4Addr,
    connections: Vec<Vec<Ipv4Route>>,
    outbox: Vec<(usize, Ipv4Packet)>,
}

impl Ipv4Router {
    /// The router's address.
    pub closed spec fn spec_ipv4_addr(&self) -> Ipv4Addr {
        self.ipv4_addr
    }

    /// The routes of each connection.
    pub closed spec fn spec_connections(&self) -> Seq<Seq<Ipv4Route>> {
        self.connections@.map_values(|routes: Vec<Ipv4Route>| routes@)
    }

    /// The packets sent and not yet taken, each with its connection, oldest first.
    pub closed spec fn sent(&self) -> Seq<(usize, Seq<u8>)> {
        self.outbox@.map_values(|entry: (usize, Ipv4Packet)| (entry.0, entry.1@))
    }

    /// A router with address `ipv4_addr` and the routes of each connection.
    pub fn new(ipv4_addr: Ipv4Addr, connections: Vec<Vec<Ipv4Route>>) -> (router: Ipv4Router)
        ensures
            router.spec_ipv4_addr() == ipv4_addr,
            router.spec_connections() == connections@.map_values(
                |routes: Vec<Ipv4Route>| routes@,
            ),
            router.sent() == Seq::<(usize, Seq<u8>)>::empty(),
    {
        let router = Ipv4Router { ipv4_addr, connections, outbox: Vec::new() };
        assert(router.sent() =~= Seq::<(usize, Seq<u8>)>::empty());
        router
    }

    /// The number of connections.
    pub fn num_connections(&self) -> (n: usize)
        ensures
            n == self.spec_connections().len(),
    {
        self.connections.len()
    }

    /// Whether `packet` is addressed to the router itself.
    pub fn is_packet_to_me(&self, packet: &Ipv4Packet) -> (to_me: bool)
        requires
            packet@.len() >= 20,
        ensures
            to_me == (crate::addr::seq_to_u32(packet@.subrange(16, 20)) == self.spec_ipv4_addr().bits),
    {
        packet.dest_ip().bits == self.ipv4_addr.bits
    }

    /// Sends `packet` down the connections that `scan_connections` gives for its destination,
    /// one copy per entry, and says whether it sent any.
    pub fn send_packet(&mut self, packet: Ipv4Packet) -> (sent_any: bool)
        requires
            packet@.len() >= 20,
        ensures
            final(self).spec_ipv4_addr() == old(self).spec_ipv4_addr(),
            final(self).spec_connections() == old(self).spec_connections(),
            ({
                let targets = scan_connections(
                    old(self).spec_connections(),
                    0,
                    crate::addr::seq_to_u32(packet@.subrange(16, 20)),
                );
                &&& final(self).sent() == old(self).sent() + targets.map_values(
                    |c: usize| (c, packet@),
                )
                &&& sent_any == (targets.len() > 0)
            }),
    {
        let dest_addr = packet.dest_ip();
        let dest = dest_addr.bits;
        let ghost conns = self.spec_connections();
        let ghost old_sent = self.sent();
        let n = self.connections.len();
        let mut i: usize = 0;
        let mut stopped = false;
        let mut sent_any = false;
        let ghost mut acc: Seq<usize> = Seq::empty();
        while i < n && !stopped
            invariant
                n == conns.len(),
                i <= n,
                dest_addr.bits == dest,
                conns == self.spec_connections(),
                self.spec_ipv4_addr() == old(self).spec_ipv4_addr(),
                self.sent() == old_sent + acc.map_values(|c: usize| (c, packet@)),
                sent_any == (acc.len() > 0),
                stopped ==> acc == scan_connections(conns, 0, dest),
                !stopped ==> scan_connections(conns, 0, dest) == acc + scan_connections(
                    conns,
                    i as int,
                    dest,
                ),
            decreases n - i,
        {
            let ghost before = acc;
            let routes_len = self.connections[i].len();
            let ghost routes = conns[i as int];
            let mut j: usize = 0;
            let ghost mut local: Seq<usize> = Seq::empty();
            assert(routes.skip(0) =~= routes);
            while j < routes_len && !stopped
                invariant
                    i < n,
                    n == conns.len(),
                    routes == conns[i as int],
                    dest_addr.bits == dest,
                    routes_len == routes.len(),
                    j <= routes_len,
                    conns == self.spec_connections(),
                    self.spec_ipv4_addr() == old(self).spec_ipv4_addr(),
                    self.sent() == old_sent + (before + local).map_values(|c: usize| (c, packet@)),
                    sent_any == (before.len() + local.len() > 0),
                    stopped ==> scan_routes(i, routes, dest) == (local, true),
                    !stopped ==> scan_routes(i, routes, dest).0 == local + scan_routes(
                        i,
                        routes.skip(j as int),
                        dest,
                    ).0,
                    !stopped ==> scan_routes(i, routes, dest).1 == scan_routes(
                        i,
                        routes.skip(j as int),
                        dest,
                    ).1,
                decreases routes_len - j,
            {
                let route = self.connections[i][j];
                let network = route.destination();
                let packet_is_broadcast = network.is_broadcast(dest_addr);
                let ghost rest = routes.skip(j as int);
                assert(rest[0] == route);
                assert(rest.skip(1) =~= routes.skip(j + 1));
                if network.contains(dest_addr) || packet_is_broadcast {
                    let ghost sent_before = self.sent();
                    self.outbox.push((i, packet.duplicate()));
                    assert(self.sent() =~= sent_before.push((i, packet@)));
                    proof {
                        local = local.push(i);
                        assert((before + local).map_values(|c: usize| (c, packet@)) =~= (before
                            + local.drop_last()).map_values(|c: usize| (c, packet@)).push(
                            (i, packet@),
                        ));
                    }
                    sent_any = true;
                    if !packet_is_broadcast {
                        stopped = true;
                        assert(local =~= local.drop_last() + seq![i]);
                    }
                }
                j = j + 1;
            }
            proof {
                if !stopped {
                    assert(routes.skip(routes.len() as int) =~= Seq::<Ipv4Route>::empty());
                    assert(local =~= scan_routes(i, routes, dest).0);
                }
                acc = before + local;
            }
            i = i + 1;
        }
        proof {
            if !stopped {
                assert(acc =~= scan_connections(conns, 0, dest));
            }
        }
        sent_any
    }

    /// Handles a packet that arrived on a connection: unless it is addressed to the router
    /// itself, it is sent on (see `send_packet`). Says whether it was sent anywhere.
    pub fn route_packet(&mut self, packet: Ipv4Packet) -> (sent_any: bool)
        requires
            packet@.len() >= 20,
        ensures
            final(self).spec_ipv4_addr() == old(self).spec_ipv4_addr(),
            final(self).spec_connections() == old(self).spec_connections(),
            ({
                let dest = crate::addr::seq_to_u32(packet@.subrange(16, 20));
                let targets = if dest == old(self).spec_ipv4_addr().bits {
                    Seq::<usize>::empty()
                } else {
                    scan_connections(old(self).spec_connections(), 0, dest)
                };
                &&& final(self).sent() == old(self).sent() + targets.map_values(
                    |c: usize| (c, packet@),
                )
                &&& sent_any == (targets.len() > 0)
            }),
    {
        if self.is_packet_to_me(&packet) {
            assert(self.sent() =~= self.sent() + Seq::<usize>::empty().map_values(
                |c: usize| (c, packet@),
            ));
            false
        } else {
            self.send_packet(packet)
        }
    }

    /// Takes the packets sent so far, each with the index of its connection, oldest first.
    pub fn take_sent(&mut self) -> (sent: Vec<(usize, Ipv4Packet)>)
        ensures
            final(self).spec_ipv4_addr() == old(self).spec_ipv4_addr(),
            final(self).spec_connections() == old(self).spec_connections(),
            sent@.map_values(|entry: (usize, Ipv4Packet)| (entry.0, entry.1@)) == old(self).sent(),
            final(self).sent() == Seq::<(usize, Seq<u8>)>::empty(),
    {
        let mut sent = Vec::new();
        std::mem::swap(&mut sent, &mut self.outbox);
        assert(self.sent() =~= Seq::<(usize, Seq<u8>)>::empty());
        sent
    }
}

/// Without broadcast, a connection's routes give it at most one copy, and a copy ends the
/// search.
proof fn lemma_scan_routes_unicast(conn: usize, routes: Seq<Ipv4Route>, dest: u32)
    requires
        forall|j: int| 0 <= j < routes.len() ==> !(#[trigger] routes[j]).destination.spec_is_broadcast(dest),
    ensures
        scan_routes(conn, routes, dest).0.len() <= 1,
        scan_routes(conn, routes, dest).0.len() == 1 ==> scan_routes(conn, routes, dest).1
            && scan_routes(conn, routes, dest).0[0] == conn,
        scan_routes(conn, routes, dest).1 ==> scan_routes(conn, routes, dest).0.len() == 1,
        (exists|j: int| 0 <= j < routes.len() && (#[trigger] routes[j]).destination.spec_contains(dest))
            ==> scan_routes(conn, routes, dest).1,
    decreases routes.len(),
{
    if routes.len() > 0 {
        let rest = routes.skip(1);
        assert forall|j: int| 0 <= j < rest.len() implies !(#[trigger] rest[j]).destination.spec_is_broadcast(dest) by {
            assert(rest[j] == routes[j + 1]);
        }
        lemma_scan_routes_unicast(conn, rest, dest);
        if exists|j: int| 0 <= j < routes.len() && (#[trigger] routes[j]).destination.spec_contains(dest) {
            let j = choose|j: int| 0 <= j < routes.len() && (#[trigger] routes[j]).destination.spec_contains(dest);
            if j > 0 {
                assert(rest[j - 1] == routes[j]);
            }
        }
    }
}

/// A packet sent to an address that no route treats as a broadcast address is sent down at
/// most one connection, once: the first whose routes contain the address, if any does.
pub proof fn lemma_unicast_goes_to_one_connection(conns: Seq<Seq<Ipv4Route>>, i: int, dest: u32)
    requires
        0 <= i,
        conns.len() <= usize::MAX,
        forall|c: int, j: int|
            0 <= c < conns.len() && 0 <= j < conns[c].len() ==> !(#[trigger] conns[c][j]).destination.spec_is_broadcast(dest),
    ensures
        scan_connections(conns, i, dest).len() <= 1,
        forall|c: int| 0 <= c < scan_connections(conns, i, dest).len() ==> {
            let target = #[trigger] scan_connections(conns, i, dest)[c];
            &&& i <= target < conns.len()
            &&& exists|j: int| 0 <= j < conns[target as int].len() && (#[trigger] conns[target as int][j]).destination.spec_contains(dest)
        },
        (exists|c: int, j: int| i <= c < conns.len() && 0 <= j < conns[c].len() && (#[trigger] conns[c][j]).destination.spec_contains(dest))
            ==> scan_connections(conns, i, dest).len() == 1,
    decreases conns.len() - i,
{
    if i < conns.len() {
        let routes = conns[i];
        assert forall|j: int| 0 <= j < routes.len() implies !(#[trigger] routes[j]).destination.spec_is_broadcast(dest) by {
            assert(routes[j] == conns[i][j]);
        }
        lemma_scan_routes_unicast(i as usize, routes, dest);
        lemma_scan_routes_found(i as usize, routes, dest);
        lemma_unicast_goes_to_one_connection(conns, i + 1, dest);
        if exists|c: int, j: int| i <= c < conns.len() && 0 <= j < conns[c].len() && (#[trigger] conns[c][j]).destination.spec_contains(dest) {
            let (c, j) = choose|c: int, j: int| i <= c < conns.len() && 0 <= j < conns[c].len() && (#[trigger] conns[c][j]).destination.spec_contains(dest);
            if c == i {
                assert(routes[j].destination.spec_contains(dest));
            } else {
                assert(conns[c][j].destination.spec_contains(dest));
            }
        }
    }
}

/// A copy that a connection's routes give it comes from a route that takes the packet; for
/// an address no route broadcasts to, that route contains the address.
proof fn lemma_scan_routes_found(conn: usize, routes: Seq<Ipv4Route>, dest: u32)
    ensures
        scan_routes(conn, routes, dest).0.len() > 0 ==> exists|j: int| 0 <= j < routes.len() && route_takes(#[trigger] routes[j], dest),
        scan_routes(conn, routes, dest).0.len() > 0 && (forall|j: int| 0 <= j < routes.len() ==> !(#[trigger] routes[j]).destination.spec_is_broadcast(dest))
            ==> exists|j: int| 0 <= j < routes.len() && (#[trigger] routes[j]).destination.spec_contains(dest),
    decreases routes.len(),
{
    if routes.len() > 0 {
        let rest = routes.skip(1);
        lemma_scan_routes_found(conn, rest, dest);
        if scan_routes(conn, routes, dest).0.len() > 0 && !route_takes(routes[0], dest) {
            let j = choose|j: int| 0 <= j < rest.len() && route_takes(#[trigger] rest[j], dest);
            assert(routes[j + 1] == rest[j]);
        }
        if route_takes(routes[0], dest) {
            assert(route_takes(routes[0], dest));
        }
    }
}

/// A packet sent to the limited broadcast address goes down every connection, once per route
/// of the connection, and the search never stops early.
pub proof fn lemma_limited_broadcast_reaches_all(conns: Seq<Seq<Ipv4Route>>, i: int)
    requires
        0 <= i,
        conns.len() <= usize::MAX,
    ensures
        forall|c: int| i <= c < conns.len() && conns[c].len() > 0 ==> #[trigger] scan_connections(conns, i, 0xffff_ffff).contains(c as usize),
    decreases conns.len() - i,
{
    if i < conns.len() {
        lemma_broadcast_scan_routes(i as usize, conns[i]);
        lemma_limited_broadcast_reaches_all(conns, i + 1);
        let here = scan_routes(i as usize, conns[i], 0xffff_ffff);
        let rest = scan_connections(conns, i + 1, 0xffff_ffff);
        assert forall|c: int| i <= c < conns.len() && conns[c].len() > 0 implies #[trigger] scan_connections(conns, i, 0xffff_ffff).contains(c as usize) by {
            if c == i {
                assert((here.0 + rest)[0] == c as usize);
            } else {
                assert(rest.contains(c as usize));
                let k = choose|k: int| 0 <= k < rest.len() && rest[k] == c as usize;
                assert((here.0 + rest)[here.0.len() + k] == c as usize);
            }
        }
    }
}

/// For the limited broadcast address, every route of a connection gives it a copy and none
/// ends the search.
proof fn lemma_broadcast_scan_routes(conn: usize, routes: Seq<Ipv4Route>)
    ensures
        scan_routes(conn, routes, 0xffff_ffff).0.len() == routes.len(),
        forall|k: int| 0 <= k < routes.len() ==> #[trigger] scan_routes(conn, routes, 0xffff_ffff).0[k] == conn,
        !scan_routes(conn, routes, 0xffff_ffff).1,
    decreases routes.len(),
{
    if routes.len() > 0 {
        lemma_broadcast_scan_routes(conn, routes.skip(1));
        let tail = scan_routes(conn, routes.skip(1), 0xffff_ffff).0;
        assert(route_takes(routes[0], 0xffff_ffff));
        assert forall|k: int| 0 <= k < routes.len() implies #[trigger] (seq![conn] + tail)[k] == conn by {
            if k > 0 {
                assert((seq![conn] + tail)[k] == tail[k - 1]);
            }
        }
    }
}

} // verus!
