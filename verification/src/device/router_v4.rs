//! The simpler IPv4 router: a packet goes down the first connection with a route whose network
//! contains its destination, and packets for the router itself or for no route are dropped.

use vstd::prelude::*;
use crate::addr::{Ipv4Addr, seq_to_u32};
use crate::ipv4::Ipv4Packet;
use crate::network::Ipv4Route;

verus! {

/// The older name of `Ipv4Route`.
pub type RouteV4 = Ipv4Route;

/// Connection `c` has a route whose network contains `dest`.
pub open spec fn connection_contains(routes: Seq<RouteV4>, dest: u32) -> bool {
    exists|j: int| 0 <= j < routes.len() && (#[trigger] routes[j]).destination.spec_contains(dest)
}

/// The first connection, from index `i` on, with a route whose network contains `dest`.
pub open spec fn first_connection(conns: Seq<Seq<RouteV4>>, i: int, dest: u32) -> Option<usize>
    decreases conns.len() - i,
{
    if i < 0 || i >= conns.len() {
        None
    } else if connection_contains(conns[i], dest) {
        Some(i as usize)
    } else {
        first_connection(conns, i + 1, dest)
    }
}

/// Builder for a `RouterV4`: its address and the routes of each connection.
#[derive(Debug)]
pub struct RouterV4Builder {
    ipv4_addr: Ipv4Addr,
    connections: Vec<Vec<RouteV4>>,
}

impl RouterV4Builder {
    /// The address the router is built with.
    pub closed spec fn spec_ipv4_addr(&self) -> Ipv4Addr {
        self.ipv4_addr
    }

    /// The routes of each connection added so far.
    pub closed spec fn spec_connections(&self) -> Seq<Seq<RouteV4>> {
        self.connections@.map_values(|routes: Vec<RouteV4>| routes@)
    }

    /// Starts building a router with address `ipv4_addr` and no connections.
    pub fn new(ipv4_addr: Ipv4Addr) -> (builder: RouterV4Builder)
        ensures
            builder.spec_ipv4_addr() == ipv4_addr,
            builder.spec_connections() == Seq::<Seq<RouteV4>>::empty(),
    {
        let builder = RouterV4Builder { ipv4_addr, connections: Vec::new() };
        assert(builder.spec_connections() =~= Seq::<Seq<RouteV4>>::empty());
        builder
    }

    /// Adds a connection with the given routes, after those added before.
    pub fn connect(self, routes: Vec<RouteV4>) -> (builder: RouterV4Builder)
        ensures
            builder.spec_ipv4_addr() == self.spec_ipv4_addr(),
            builder.spec_connections() == self.spec_connections().push(routes@),
    {
        let ghost before = self.spec_connections();
        let mut connections = self.connections;
        connections.push(routes);
        let builder = RouterV4Builder { ipv4_addr: self.ipv4_addr, connections };
        assert(builder.spec_connections() =~= before.push(routes@));
        builder
    }

    /// The router with this address and these connections.
    pub fn build(self) -> (router: RouterV4)
        ensures
            router.spec_ipv4_addr() == self.spec_ipv4_addr(),
            router.spec_connections() == self.spec_connections(),
    {
        RouterV4 { ipv4_addr: self.ipv4_addr, connections: self.connections }
    }
}

/// A router: its address and the routes of each connection.
#[derive(Debug)]
pub struct RouterV4 {
    ipv4_addr: Ipv4Addr,
    connections: Vec<Vec<RouteV4>>,
}

impl RouterV4 {
    /// The router's address.
    pub closed spec fn spec_ipv4_addr(&self) -> Ipv4Addr {
        self.ipv4_addr
    }

    /// The routes of each connection.
    pub closed spec fn spec_connections(&self) -> Seq<Seq<RouteV4>> {
        self.connections@.map_values(|routes: Vec<RouteV4>| routes@)
    }

    /// A router with address `ipv4_addr` and the routes of each connection.
    pub fn new(ipv4_addr: Ipv4Addr, connections: Vec<Vec<RouteV4>>) -> (router: RouterV4)
        ensures
            router.spec_ipv4_addr() == ipv4_addr,
            router.spec_connections() == connections@.map_values(|routes: Vec<RouteV4>| routes@),
    {
        RouterV4 { ipv4_addr, connections }
    }

    /// The connection that `packet` goes down: none when it is addressed to the router itself,
    /// otherwise the first connection with a route containing its destination, if any.
    pub fn route(&self, packet: &Ipv4Packet) -> (conn: Option<usize>)
        requires
            packet@.len() >= 20,
        ensures
            ({
                let dest = seq_to_u32(packet@.subrange(16, 20));
                conn == if dest == self.spec_ipv4_addr().bits {
                    None
                } else {
                    first_connection(self.spec_connections(), 0, dest)
                }
            }),
    {
        let dest_ip = packet.dest_ip();
        if dest_ip.bits == self.ipv4_addr.bits {
            return None;
        }
        let ghost conns = self.spec_connections();
        let ghost dest = dest_ip.bits;
        let n = self.connections.len();
        let mut i: usize = 0;
        while i < n
            invariant
                n == conns.len(),
                i <= n,
                conns == self.spec_connections(),
                dest == dest_ip.bits,
                dest == seq_to_u32(packet@.subrange(16, 20)),
                dest != self.spec_ipv4_addr().bits,
                first_connection(conns, 0, dest) == first_connection(conns, i as int, dest),
            decreases n - i,
        {
            let routes_len = self.connections[i].len();
            let ghost routes = conns[i as int];
            let mut j: usize = 0;
            while j < routes_len
                invariant
                    i < n,
                    n == conns.len(),
                    routes == conns[i as int],
                    routes_len == routes.len(),
                    j <= routes_len,
                    conns == self.spec_connections(),
                    dest == dest_ip.bits,
                    dest == seq_to_u32(packet@.subrange(16, 20)),
                    dest != self.spec_ipv4_addr().bits,
                    first_connection(conns, 0, dest) == first_connection(conns, i as int, dest),
                    forall|k: int| 0 <= k < j ==> !(#[trigger] routes[k]).destination.spec_contains(dest),
                decreases routes_len - j,
            {
                let route = self.connections[i][j];
                if route.destination().contains(dest_ip) {
                    assert(routes[j as int] == route);
                    assert(connection_contains(conns[i as int], dest));
                    return Some(i);
                }
                j = j + 1;
            }
            i = i + 1;
        }
        None
    }
}

/// A packet for another address is routed down the first connection whose routes contain its
/// destination; when no connection does, it is dropped.
pub proof fn lemma_first_connection_contains(conns: Seq<Seq<RouteV4>>, i: int, dest: u32)
    requires
        0 <= i,
        conns.len() <= usize::MAX,
    ensures
        first_connection(conns, i, dest) matches Some(c) ==> i <= c < conns.len() && connection_contains(conns[c as int], dest)
            && forall|k: int| i <= k < c ==> !connection_contains(#[trigger] conns[k], dest),
        first_connection(conns, i, dest) is None ==> forall|k: int| i <= k < conns.len() ==> !connection_contains(#[trigger] conns[k], dest),
    decreases conns.len() - i,
{
    if i < conns.len() {
        lemma_first_connection_contains(conns, i + 1, dest);
        if !connection_contains(conns[i], dest) {
            if let Some(c) = first_connection(conns, i, dest) {
                assert forall|k: int| i <= k < c implies !connection_contains(#[trigger] conns[k], dest) by {
                    if k > i {
                        assert(i + 1 <= k < c);
                    }
                }
            }
        }
    }
}

} // verus!
