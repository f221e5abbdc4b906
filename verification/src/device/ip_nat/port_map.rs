//! The TCP port map of the IP NAT.

use vstd::prelude::*;
use std::collections::HashMap;
use crate::addr::{SocketAddrV4, socket_key, lemma_socket_key_injective};
use crate::port_walk::{walk_in_range, next_port_in_range, range_size, lemma_walk_in_range_covers};

verus! {

broadcast use vstd::std_specs::hash::group_hash_axioms;

/// The first port the map hands out, and where it wraps back to after 65535.
pub const INITIAL_PORT: u16 = 1025;

/// The external ports of a NAT's internal endpoints, in both directions.
#[derive(Debug)]
pub struct PortMap {
    /// External port of each internal endpoint, keyed by `socket_key`.
    outgoing_map: HashMap<u64, u16>,
    /// Internal endpoint behind each external port.
    incoming_map: HashMap<u16, SocketAddrV4>,
    /// Where the search for the next free port starts.
    next_port: u16,
}

/// `k` is where the map's search from `start` stops: at the first port that `incoming` leaves
/// free, or, when every port of the range is in use, at the last port of a full round, which
/// is then taken over.
pub open spec fn search_stops_at(incoming: Map<u16, SocketAddrV4>, start: u16, k: nat) -> bool {
    &&& k < range_size(INITIAL_PORT)
    &&& forall|t: nat| t < k ==> #[trigger] incoming.contains_key(walk_in_range(INITIAL_PORT, start, t))
    &&& (!incoming.contains_key(walk_in_range(INITIAL_PORT, start, k)) || k + 1 == range_size(
        INITIAL_PORT,
    ))
}

/// What `outgoing_port(internal_addr)` does to a map `old`, leaving `new` and returning
/// `port`. An endpoint that has a port keeps it and nothing changes. Otherwise the search of
/// `search_stops_at` picks the port, which is recorded in both directions, and the next search
/// starts after it. Either way the endpoint's port is `port` afterwards.
pub open spec fn outgoing_port_post(old: PortMap, new: PortMap, internal_addr: SocketAddrV4, port: u16) -> bool {
    let key = socket_key(internal_addr);
    &&& new.wf()
    &&& new.outgoing().contains_key(key)
    &&& new.outgoing()[key] == port
    &&& old.outgoing().contains_key(key) ==> {
        &&& port == old.outgoing()[key]
        &&& new.outgoing() == old.outgoing()
        &&& new.incoming() == old.incoming()
        &&& new.spec_next_port() == old.spec_next_port()
    }
    &&& !old.outgoing().contains_key(key) ==> exists|k: nat|
        {
            &&& #[trigger] search_stops_at(old.incoming(), old.spec_next_port(), k)
            &&& port == walk_in_range(INITIAL_PORT, old.spec_next_port(), k)
            &&& new.spec_next_port() == walk_in_range(INITIAL_PORT, old.spec_next_port(), k + 1)
            &&& new.incoming() == old.incoming().insert(port, internal_addr)
            &&& new.outgoing() == old.outgoing().insert(key, port)
        }
}

impl PortMap {
    /// External port of each internal endpoint, by `socket_key`.
    pub closed spec fn outgoing(&self) -> Map<u64, u16> {
        self.outgoing_map@
    }

    /// Internal endpoint behind each external port.
    pub closed spec fn incoming(&self) -> Map<u16, SocketAddrV4> {
        self.incoming_map@
    }

    /// Where the next search for a free port starts.
    pub closed spec fn spec_next_port(&self) -> u16 {
        self.next_port
    }

    /// The next port to try, and every port handed out, lie in the range the map hands out,
    /// and the endpoint behind each port handed out has that port as its own.
    pub open spec fn wf(&self) -> bool {
        &&& INITIAL_PORT <= self.spec_next_port()
        &&& forall|k: u64| #[trigger] self.outgoing().contains_key(k) ==> INITIAL_PORT <= self.outgoing()[k]
        &&& forall|p: u16| #[trigger] self.incoming().contains_key(p) ==> self.port_leads_to_owner(p)
    }

    /// Port `p` lies in the range and its endpoint's own port is `p`.
    pub open spec fn port_leads_to_owner(&self, p: u16) -> bool {
        let key = socket_key(self.incoming()[p]);
        &&& INITIAL_PORT <= p
        &&& self.outgoing().contains_key(key)
        &&& self.outgoing()[key] == p
    }

    /// An empty map that starts its search at `INITIAL_PORT`.
    pub fn new() -> (map: PortMap)
        ensures
            map.wf(),
            map.outgoing() == Map::<u64, u16>::empty(),
            map.incoming() == Map::<u16, SocketAddrV4>::empty(),
            map.spec_next_port() == INITIAL_PORT,
    {
        PortMap { outgoing_map: HashMap::new(), incoming_map: HashMap::new(), next_port: INITIAL_PORT }
    }

    /// The external port for `internal_addr`. An endpoint that has a port keeps it. Otherwise
    /// the map searches cyclically from its next port through `INITIAL_PORT..=65535` for a
    /// port with no endpoint behind it; if a full round finds none, the last port tried is
    /// taken over from its endpoint. The port found is recorded in both directions and the
    /// next search starts after it.
    pub fn outgoing_port(&mut self, internal_addr: SocketAddrV4) -> (port: u16)
        requires
            old(self).wf(),
        ensures
            outgoing_port_post(*old(self), *final(self), internal_addr, port),
    {
        let key = internal_addr.key();
        match self.outgoing_map.get(&key) {
            Some(port) => {
                return *port;
            },
            None => {},
        }
        let ghost start = self.next_port;
        let mut attempts: u16 = INITIAL_PORT;
        loop
            invariant
                INITIAL_PORT <= start,
                INITIAL_PORT <= attempts,
                INITIAL_PORT <= self.spec_next_port(),
                start == old(self).spec_next_port(),
                old(self).wf(),
                !old(self).outgoing().contains_key(key),
                key == socket_key(internal_addr),
                self.outgoing() == old(self).outgoing(),
                self.incoming() == old(self).incoming(),
                self.spec_next_port() == walk_in_range(
                    INITIAL_PORT,
                    start,
                    (attempts - INITIAL_PORT) as nat,
                ),
                forall|t: nat|
                    t < (attempts - INITIAL_PORT) as nat ==> #[trigger] old(self).incoming().contains_key(
                        walk_in_range(INITIAL_PORT, start, t),
                    ),
            decreases 65535 - attempts,
        {
            let ghost k: nat = (attempts - INITIAL_PORT) as nat;
            let port = self.next_port;
            self.next_port = next_port_in_range(INITIAL_PORT, self.next_port);
            let taken = self.incoming_map.contains_key(&port);
            let give_up = if taken {
                match attempts.checked_add(1) {
                    Some(next_attempts) => {
                        attempts = next_attempts;
                        false
                    },
                    None => true,
                }
            } else {
                false
            };
            if !taken || give_up {
                self.incoming_map.insert(port, internal_addr);
                self.outgoing_map.insert(key, port);
                proof {
                    assert(search_stops_at(old(self).incoming(), start, k));
                    crate::port_walk::lemma_walk_in_range_stays(INITIAL_PORT, start, k);
                    assert forall|p: u16| #[trigger] self.incoming().contains_key(p) implies self.port_leads_to_owner(p) by {
                        if p != port {
                            assert(old(self).port_leads_to_owner(p));
                        }
                    }
                }
                return port;
            }
        }
    }

    /// The internal endpoint behind external `port`, if any.
    pub fn incoming_addr(&self, port: u16) -> (addr: Option<SocketAddrV4>)
        ensures
            addr == (if self.incoming().contains_key(port) {
                Some(self.incoming()[port])
            } else {
                None
            }),
    {
        match self.incoming_map.get(&port) {
            Some(addr) => Some(*addr),
            None => None,
        }
    }
}

/// After `outgoing_port(addr)` hands out a port, the port leads back to `addr`, provided that
/// an existing port of `addr` led back to it before.
pub proof fn lemma_outgoing_port_round_trip(old: PortMap, new: PortMap, addr: SocketAddrV4, port: u16)
    requires
        old.outgoing().contains_key(socket_key(addr)) ==> {
            &&& old.incoming().contains_key(old.outgoing()[socket_key(addr)])
            &&& old.incoming()[old.outgoing()[socket_key(addr)]] == addr
        },
        old.outgoing().contains_key(socket_key(addr)) ==> {
            &&& port == old.outgoing()[socket_key(addr)]
            &&& new.incoming() == old.incoming()
        },
        !old.outgoing().contains_key(socket_key(addr)) ==> new.incoming() == old.incoming().insert(
            port,
            addr,
        ),
    ensures
        new.incoming().contains_key(port),
        new.incoming()[port] == addr,
{
}

/// The map holds no more ports than endpoints: each port's endpoint has that port as its own,
/// so no two ports share an endpoint.
proof fn lemma_ports_at_most_endpoints(map: PortMap)
    requires
        map.wf(),
    ensures
        map.incoming().dom().finite(),
        map.incoming().len() <= map.outgoing().len(),
{
    let ports = map.incoming().dom();
    let owner = |p: u16| socket_key(map.incoming()[p]);
    assert(ports.finite());
    assert(map.outgoing().dom().finite());
    assert(vstd::relations::injective_on(owner, ports)) by {
        assert forall|p1: u16, p2: u16|
            ports.contains(p1) && ports.contains(p2) && #[trigger] owner(p1) == #[trigger] owner(p2)
            implies p1 == p2 by {
            assert(map.port_leads_to_owner(p1));
            assert(map.port_leads_to_owner(p2));
        }
    }
    vstd::set_lib::lemma_map_size(ports, ports.map(owner), owner);
    assert(ports.map(owner).subset_of(map.outgoing().dom())) by {
        assert forall|k: u64| #[trigger] ports.map(owner).contains(k) implies map.outgoing().dom().contains(k) by {
            let p = choose|p: u16| ports.contains(p) && owner(p) == k;
            assert(map.port_leads_to_owner(p));
        }
    }
    vstd::set_lib::lemma_len_subset(ports.map(owner), map.outgoing().dom());
}

/// While fewer endpoints are mapped than the range has ports, `outgoing_port` never takes a
/// port over: an endpoint with a port keeps it and the map is unchanged; a new endpoint gets a
/// port of the range that no endpoint held, which leads back to it afterwards.
pub proof fn lemma_outgoing_port_finds_free_port(old: PortMap, new: PortMap, addr: SocketAddrV4, port: u16)
    requires
        old.wf(),
        old.outgoing().len() < range_size(INITIAL_PORT),
        outgoing_port_post(old, new, addr, port),
    ensures
        INITIAL_PORT <= port,
        new.outgoing().contains_key(socket_key(addr)),
        new.outgoing()[socket_key(addr)] == port,
        old.outgoing().contains_key(socket_key(addr)) ==> {
            &&& port == old.outgoing()[socket_key(addr)]
            &&& new.outgoing() == old.outgoing()
            &&& new.incoming() == old.incoming()
        },
        !old.outgoing().contains_key(socket_key(addr)) ==> {
            &&& !old.incoming().contains_key(port)
            &&& new.incoming().contains_key(port)
            &&& new.incoming()[port] == addr
        },
{
    let key = socket_key(addr);
    if !old.outgoing().contains_key(key) {
        let start = old.spec_next_port();
        let k = choose|k: nat|
            {
                &&& #[trigger] search_stops_at(old.incoming(), start, k)
                &&& port == walk_in_range(INITIAL_PORT, start, k)
                &&& new.spec_next_port() == walk_in_range(INITIAL_PORT, start, k + 1)
                &&& new.incoming() == old.incoming().insert(port, addr)
                &&& new.outgoing() == old.outgoing().insert(key, port)
            };
        crate::port_walk::lemma_walk_in_range_stays(INITIAL_PORT, start, k);
        lemma_ports_at_most_endpoints(old);
        let free = crate::port_walk::lemma_free_port_exists(old.incoming().dom(), INITIAL_PORT);
        if old.incoming().contains_key(port) {
            let j = lemma_walk_in_range_covers(INITIAL_PORT, start, free);
            if j < k {
                assert(old.incoming().contains_key(walk_in_range(INITIAL_PORT, start, j)));
            }
            assert(false);
        }
    }
}

/// When every port of the range is in use, the search from any start in the range stops at
/// the port just before it, after a full round.
pub proof fn lemma_full_map_takes_over(incoming: Map<u16, SocketAddrV4>, start: u16, k: nat)
    requires
        INITIAL_PORT <= start,
        forall|q: u16| INITIAL_PORT <= q ==> #[trigger] incoming.contains_key(q),
        search_stops_at(incoming, start, k),
    ensures
        k + 1 == range_size(INITIAL_PORT),
{
    let q = walk_in_range(INITIAL_PORT, start, k);
    crate::port_walk::lemma_walk_in_range_stays(INITIAL_PORT, start, k);
    assert(incoming.contains_key(q));
}

} // verus!
