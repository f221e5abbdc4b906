//! An IPv4 NAT: port allocation, the port maps of a NAT, and the translation of the packets that
//! cross it.

use vstd::prelude::*;
use std::collections::{HashMap, HashSet};
use crate::addr::{Ipv4Addr, SocketAddrV4, socket_key, socket_pair_key, lemma_socket_key_injective,
    lemma_socket_pair_key_injective};
use crate::random::random_port_from;
use crate::network::Ipv4Range;
use crate::ipv4::{Ipv4Fields, Ipv4PacketFields, Ipv4PayloadFields};

verus! {

broadcast use vstd::std_specs::hash::group_hash_axioms;

/// The first port of the range that sequential allocation walks through.
pub const SEQUENTIAL_PORT_BASE: u16 = 49152;

/// The number of ports in `SEQUENTIAL_PORT_BASE..=65535`.
pub const SEQUENTIAL_PORT_COUNT: u32 = 16384;

/// The lowest port that random allocation hands out.
pub const RANDOM_PORT_BASE: u16 = 1000;

/// The port that follows `p` in the sequential range, wrapping from 65535 to its start.
pub open spec fn next_sequential(p: u16) -> u16 {
    if p == 65535 {
        SEQUENTIAL_PORT_BASE
    } else {
        (p + 1) as u16
    }
}

/// The port reached from `start` after `k` sequential steps.
pub open spec fn walk(start: u16, k: nat) -> u16
    decreases k,
{
    if k == 0 {
        start
    } else {
        next_sequential(walk(start, (k - 1) as nat))
    }
}

/// Where the allocator starts a new local endpoint after handing out `p` as a first port:
/// sixteen ports on, wrapping back into the sequential range.
pub open spec fn advance_original(p: u16) -> u16 {
    let w = (p + 16) % 65536;
    if w < SEQUENTIAL_PORT_BASE {
        (w + 49153) as u16
    } else {
        w as u16
    }
}

/// Inside the sequential range, `k` steps from `start` reach the port `k` places further on,
/// counted cyclically.
pub proof fn lemma_walk_closed_form(start: u16, k: nat)
    requires
        SEQUENTIAL_PORT_BASE <= start,
    ensures
        walk(start, k) == SEQUENTIAL_PORT_BASE + (start - SEQUENTIAL_PORT_BASE + k) % 16384,
    decreases k,
{
    if k > 0 {
        lemma_walk_closed_form(start, (k - 1) as nat);
    }
}

/// Every port of the sequential range is reached from any start in it within 16384 steps.
pub proof fn lemma_walk_covers(start: u16, q: u16) -> (k: nat)
    requires
        SEQUENTIAL_PORT_BASE <= start,
        SEQUENTIAL_PORT_BASE <= q,
    ensures
        k < 16384,
        walk(start, k) == q,
{
    let k: nat = if q >= start {
        (q - start) as nat
    } else {
        (q - start + 16384) as nat
    };
    lemma_walk_closed_form(start, k);
    k
}


/// Hands out external ports for local endpoints.
#[derive(Debug)]
pub enum PortAllocator {
    /// Each new local endpoint starts sixteen ports after the previous one; each endpoint then
    /// counts up from its own start, wrapping within the sequential range.
    Sequential { next_original_port: u16, next_for_local_endpoint: HashMap<u64, u16> },
    /// Ports are drawn at random, never below `RANDOM_PORT_BASE`.
    Random,
}

impl PortAllocator {
    /// Whether ports are handed out sequentially.
    pub open spec fn is_sequential(&self) -> bool {
        self is Sequential
    }

    /// The allocator is sequential, with `n` as the start for the next new endpoint and `m` as
    /// the counter of each endpoint seen so far (keyed by `socket_key`).
    pub open spec fn has_state(&self, n: u16, m: Map<u64, u16>) -> bool {
        &&& self.is_sequential()
        &&& self.spec_next_original_port() == n
        &&& self.spec_counters() == m
    }

    /// For sequential allocation, the start for the next new endpoint.
    pub open spec fn spec_next_original_port(&self) -> u16 {
        match self {
            PortAllocator::Sequential { next_original_port, .. } => *next_original_port,
            PortAllocator::Random => 0,
        }
    }

    /// For sequential allocation, the counter of each endpoint seen so far.
    pub open spec fn spec_counters(&self) -> Map<u64, u16> {
        match self {
            PortAllocator::Sequential { next_for_local_endpoint, .. } => next_for_local_endpoint@,
            PortAllocator::Random => Map::empty(),
        }
    }

    /// Every port the allocator keeps lies in the sequential range.
    pub open spec fn wf(&self) -> bool {
        match self {
            PortAllocator::Sequential { next_original_port, next_for_local_endpoint } => {
                &&& SEQUENTIAL_PORT_BASE <= *next_original_port
                &&& forall|k: u64| #[trigger]
                    next_for_local_endpoint@.contains_key(k) ==> SEQUENTIAL_PORT_BASE
                        <= next_for_local_endpoint@[k]
            },
            PortAllocator::Random => true,
        }
    }

    /// Hands out the next port for `local_endpoint`.
    pub fn next_port(&mut self, local_endpoint: SocketAddrV4) -> (port: u16)
        requires
            old(self).wf(),
        ensures
            final(self).wf(),
            old(self).is_sequential() ==> {
                let n = old(self).spec_next_original_port();
                let m = old(self).spec_counters();
                let e = socket_key(local_endpoint);
                if m.contains_key(e) {
                    &&& final(self).has_state(n, m.insert(e, next_sequential(m[e])))
                    &&& port == m[e]
                } else {
                    &&& final(self).has_state(advance_original(n), m.insert(e, n))
                    &&& port == n
                }
            },
            !old(self).is_sequential() ==> {
                &&& !final(self).is_sequential()
                &&& RANDOM_PORT_BASE <= port
            },
    {
        match self {
            PortAllocator::Sequential { next_original_port, next_for_local_endpoint } => {
                let key = local_endpoint.key();
                match next_for_local_endpoint.get(&key) {
                    Some(p) => {
                        let port = *p;
                        let next = port.checked_add(1).unwrap_or(SEQUENTIAL_PORT_BASE);
                        assert(next_for_local_endpoint@.contains_key(key));
                        assert(next == next_sequential(port));
                        next_for_local_endpoint.insert(key, next);
                        port
                    },
                    None => {
                        let port = *next_original_port;
                        let mut next = next_original_port.wrapping_add(16);
                        if next < SEQUENTIAL_PORT_BASE {
                            next = next + 49153;
                        }
                        assert(next == advance_original(port));
                        *next_original_port = next;
                        next_for_local_endpoint.insert(key, port);
                        port
                    },
                }
            },
            PortAllocator::Random => random_port_from(RANDOM_PORT_BASE),
        }
    }
}

impl PortAllocator {
    /// Sequential allocation, starting at `SEQUENTIAL_PORT_BASE` with no endpoint seen.
    pub fn sequential() -> (allocator: PortAllocator)
        ensures
            allocator.wf(),
            allocator.has_state(SEQUENTIAL_PORT_BASE, Map::<u64, u16>::empty()),
    {
        PortAllocator::Sequential {
            next_original_port: SEQUENTIAL_PORT_BASE,
            next_for_local_endpoint: HashMap::new(),
        }
    }

    /// Whether ports are drawn at random.
    pub fn is_random(&self) -> (res: bool)
        ensures
            res == !self.is_sequential(),
    {
        match self {
            PortAllocator::Random => true,
            PortAllocator::Sequential { .. } => false,
        }
    }
}

impl Default for PortAllocator {
    /// Sequential allocation (see `PortAllocator::sequential`).
    fn default() -> (allocator: PortAllocator)
        ensures
            allocator.wf(),
            allocator.has_state(SEQUENTIAL_PORT_BASE, Map::<u64, u16>::empty()),
    {
        PortAllocator::sequential()
    }
}

/// The 64-bit number that identifies an external port together with a remote endpoint.
pub open spec fn allow_key(port: u16, remote: SocketAddrV4) -> u64 {
    (port as int * 0x1_0000_0000_0000 + socket_key(remote) as int) as u64
}

/// Two (port, remote) pairs with the same key are the same pair.
pub proof fn lemma_allow_key_injective(p: u16, a: SocketAddrV4, q: u16, b: SocketAddrV4)
    ensures
        allow_key(p, a) == allow_key(q, b) <==> (p == q && a == b),
{
    lemma_socket_key_injective(a, b);
    let ka = socket_key(a) as int;
    let kb = socket_key(b) as int;
    assert(ka == a.ip.bits as int * 0x10000 + a.port as int);
    assert(kb == b.ip.bits as int * 0x10000 + b.port as int);
    assert(0 <= ka < 0x1_0000_0000_0000 && 0 <= kb < 0x1_0000_0000_0000) by (nonlinear_arith)
        requires
            ka == a.ip.bits as int * 0x10000 + a.port as int,
            kb == b.ip.bits as int * 0x10000 + b.port as int,
            a.ip.bits <= 0xffff_ffff && b.ip.bits <= 0xffff_ffff,
            a.port <= 0xffff && b.port <= 0xffff,
    ;
    let x = p as int * 0x1_0000_0000_0000 + ka;
    let y = q as int * 0x1_0000_0000_0000 + kb;
    assert(x < 0x1_0000_0000_0000_0000 && y < 0x1_0000_0000_0000_0000) by (nonlinear_arith)
        requires
            x == p as int * 0x1_0000_0000_0000 + ka,
            y == q as int * 0x1_0000_0000_0000 + kb,
            0 <= ka < 0x1_0000_0000_0000,
            0 <= kb < 0x1_0000_0000_0000,
            p <= 0xffff && q <= 0xffff,
    ;
    if x == y {
        assert(p == q && ka == kb) by (nonlinear_arith)
            requires
                x == p as int * 0x1_0000_0000_0000 + ka,
                y == q as int * 0x1_0000_0000_0000 + kb,
                x == y,
                0 <= ka < 0x1_0000_0000_0000,
                0 <= kb < 0x1_0000_0000_0000,
                0 <= p && 0 <= q,
        ;
    }
}

/// The key of `port` and `remote` (see `allow_key`).
fn allow_key_of(port: u16, remote: SocketAddrV4) -> (key: u64)
    ensures
        key == allow_key(port, remote),
{
    let k = remote.key();
    assert(k as int == remote.ip.bits as int * 0x10000 + remote.port as int);
    assert(k < 0x1_0000_0000_0000) by (nonlinear_arith)
        requires
            k as int == remote.ip.bits as int * 0x10000 + remote.port as int,
            remote.ip.bits <= 0xffff_ffff,
            remote.port <= 0xffff,
    ;
    assert((port as u64) * 0x1_0000_0000_0000 + k <= 0xffff_ffff_ffff_ffff) by (nonlinear_arith)
        requires
            k < 0x1_0000_0000_0000,
            port <= 0xffff,
    ;
    (port as u64) * 0x1_0000_0000_0000 + k
}

/// The extra maps of a symmetric NAT, where the external port depends on the remote endpoint as
/// well as the local one.
#[derive(Debug)]
struct SymmetricMap {
    /// External port for each (local, remote) pair, keyed by `socket_pair_key`.
    map_out: HashMap<u128, u16>,
    /// The (local, remote) pair that each external port was handed out for.
    map_in: HashMap<u16, (SocketAddrV4, SocketAddrV4)>,
}

impl SymmetricMap {
    /// A symmetric map with no entries.
    fn new() -> (map: SymmetricMap)
        ensures
            map.map_out@ == Map::<u128, u16>::empty(),
            map.map_in@ == Map::<u16, (SocketAddrV4, SocketAddrV4)>::empty(),
    {
        SymmetricMap { map_out: HashMap::new(), map_in: HashMap::new() }
    }
}

/// The port mappings of one transport protocol in a NAT.
#[derive(Debug)]
pub struct PortMap {
    /// External port of each local endpoint, keyed by `socket_key`.
    map_out: HashMap<u64, u16>,
    /// Local endpoint behind each external port.
    map_in: HashMap<u16, SocketAddrV4>,
    /// When present, the (external port, remote endpoint) pairs, keyed by `allow_key`, whose
    /// traffic may come in.
    allowed_endpoints: Option<HashSet<u64>>,
    /// When present, the NAT is symmetric.
    symmetric_map: Option<SymmetricMap>,
    port_allocator: PortAllocator,
}

impl PortMap {
    /// External port of each local endpoint, by `socket_key`.
    pub closed spec fn out_map(&self) -> Map<u64, u16> {
        self.map_out@
    }

    /// Local endpoint behind each external port.
    pub closed spec fn in_map(&self) -> Map<u16, SocketAddrV4> {
        self.map_in@
    }

    /// Whether inbound traffic is restricted to the endpoints that were sent to.
    pub closed spec fn is_restricted(&self) -> bool {
        self.allowed_endpoints is Some
    }

    /// The (external port, remote endpoint) pairs allowed in, by `allow_key` (empty when
    /// unrestricted).
    pub closed spec fn allowed_set(&self) -> Set<u64> {
        match self.allowed_endpoints {
            Some(m) => m@,
            None => Set::empty(),
        }
    }

    /// Traffic from `remote` may come in at `port`: the port has sent to `remote`.
    pub open spec fn spec_allows(&self, port: u16, remote: SocketAddrV4) -> bool {
        self.allowed_set().contains(allow_key(port, remote))
    }

    /// Whether the map is symmetric.
    pub closed spec fn is_symmetric(&self) -> bool {
        self.symmetric_map is Some
    }

    /// Symmetric external port of each (local, remote) pair (empty when not symmetric).
    pub closed spec fn sym_out_map(&self) -> Map<u128, u16> {
        match self.symmetric_map {
            Some(sm) => sm.map_out@,
            None => Map::empty(),
        }
    }

    /// The (local, remote) pair behind each symmetric port (empty when not symmetric).
    pub closed spec fn sym_in_map(&self) -> Map<u16, (SocketAddrV4, SocketAddrV4)> {
        match self.symmetric_map {
            Some(sm) => sm.map_in@,
            None => Map::empty(),
        }
    }

    /// The allocator the map draws new ports from.
    pub closed spec fn allocator(&self) -> PortAllocator {
        self.port_allocator
    }

    /// The allocator's invariant holds.
    pub open spec fn wf(&self) -> bool {
        self.allocator().wf()
    }

    /// `port` is in use, so the allocator must not hand it out again.
    pub open spec fn spec_port_taken(&self, port: u16) -> bool {
        self.in_map().contains_key(port) || self.sym_in_map().contains_key(port)
    }

    /// Every mapping points back at the endpoint it was made for, and no symmetric port is also a
    /// plain mapping.
    pub open spec fn consistent(&self) -> bool {
        &&& forall|k: u64| #[trigger]
            self.out_map().contains_key(k) ==> {
                &&& self.in_map().contains_key(self.out_map()[k])
                &&& socket_key(self.in_map()[self.out_map()[k]]) == k
            }
        &&& forall|k: u128| #[trigger]
            self.sym_out_map().contains_key(k) ==> {
                &&& self.sym_in_map().contains_key(self.sym_out_map()[k])
                &&& !self.in_map().contains_key(self.sym_out_map()[k])
                &&& socket_pair_key(
                    self.sym_in_map()[self.sym_out_map()[k]].0,
                    self.sym_in_map()[self.sym_out_map()[k]].1,
                ) == k
            }
    }

    /// The external port already assigned to traffic from `source` to `remote`, if any.
    pub open spec fn spec_assigned_port(&self, remote: SocketAddrV4, source: SocketAddrV4) -> Option<u16> {
        if self.out_map().contains_key(socket_key(source)) {
            Some(self.out_map()[socket_key(source)])
        } else if self.is_symmetric() && self.sym_out_map().contains_key(
            socket_pair_key(source, remote),
        ) {
            Some(self.sym_out_map()[socket_pair_key(source, remote)])
        } else {
            None
        }
    }

    /// Where traffic from `remote` arriving at external `port` is delivered, if anywhere.
    pub open spec fn spec_inbound(&self, remote: SocketAddrV4, port: u16) -> Option<SocketAddrV4> {
        if self.is_restricted() && !self.spec_allows(port, remote) {
            None
        } else if self.in_map().contains_key(port) {
            Some(self.in_map()[port])
        } else if self.sym_in_map().contains_key(port) && self.sym_in_map()[port].1 == remote {
            Some(self.sym_in_map()[port].0)
        } else {
            None
        }
    }

    /// A map with no mappings, no restriction, no symmetry and sequential allocation.
    pub fn new() -> (map: PortMap)
        ensures
            map.wf(),
            map.consistent(),
            map.out_map() == Map::<u64, u16>::empty(),
            map.in_map() == Map::<u16, SocketAddrV4>::empty(),
            !map.is_restricted(),
            !map.is_symmetric(),
            map.sym_out_map() == Map::<u128, u16>::empty(),
            map.sym_in_map() == Map::<u16, (SocketAddrV4, SocketAddrV4)>::empty(),
            map.allowed_set() == Set::<u64>::empty(),
            map.allocator().has_state(SEQUENTIAL_PORT_BASE, Map::<u64, u16>::empty()),
    {
        PortMap {
            map_out: HashMap::new(),
            map_in: HashMap::new(),
            allowed_endpoints: None,
            symmetric_map: None,
            port_allocator: PortAllocator::sequential(),
        }
    }
}

/// A map that is not symmetric has no symmetric mappings, and one that is not restricted
/// allows no (port, remote) pair in particular: it lets every remote in.
pub proof fn lemma_plain_map_tables_empty(m: PortMap)
    ensures
        !m.is_symmetric() ==> m.sym_out_map() == Map::<u128, u16>::empty()
            && m.sym_in_map() == Map::<u16, (SocketAddrV4, SocketAddrV4)>::empty(),
        !m.is_restricted() ==> m.allowed_set() == Set::<u64>::empty(),
{
}

impl Default for PortMap {
    /// A map with no mappings (see `PortMap::new`).
    fn default() -> (map: PortMap)
        ensures
            map.wf(),
            map.consistent(),
            map.out_map() == Map::<u64, u16>::empty(),
            map.in_map() == Map::<u16, SocketAddrV4>::empty(),
            !map.is_restricted(),
            !map.is_symmetric(),
            map.sym_out_map() == Map::<u128, u16>::empty(),
            map.sym_in_map() == Map::<u16, (SocketAddrV4, SocketAddrV4)>::empty(),
            map.allowed_set() == Set::<u64>::empty(),
            map.allocator().has_state(SEQUENTIAL_PORT_BASE, Map::<u64, u16>::empty()),
    {
        PortMap::new()
    }
}

impl PortMap {
    /// The maps of `a` and `b` are the same; only their allocators may differ.
    pub open spec fn same_mappings(a: &PortMap, b: &PortMap) -> bool {
        &&& a.out_map() == b.out_map()
        &&& a.in_map() == b.in_map()
        &&& a.is_restricted() == b.is_restricted()
        &&& a.allowed_set() == b.allowed_set()
        &&& a.is_symmetric() == b.is_symmetric()
        &&& a.sym_out_map() == b.sym_out_map()
        &&& a.sym_in_map() == b.sym_in_map()
    }

    /// From now on, only the remote endpoints that a port has been used to send to may reach it.
    pub fn restrict_endpoints(&mut self)
        ensures
            final(self).is_restricted(),
            final(self).allowed_set() == Set::<u64>::empty(),
            final(self).out_map() == old(self).out_map(),
            final(self).in_map() == old(self).in_map(),
            final(self).is_symmetric() == old(self).is_symmetric(),
            final(self).sym_out_map() == old(self).sym_out_map(),
            final(self).sym_in_map() == old(self).sym_in_map(),
            final(self).allocator() == old(self).allocator(),
    {
        self.allowed_endpoints = Some(HashSet::new());
    }

    /// From now on, new ports are handed out per (local, remote) pair.
    pub fn make_symmetric(&mut self)
        ensures
            final(self).is_symmetric(),
            final(self).sym_out_map() == Map::<u128, u16>::empty(),
            final(self).sym_in_map() == Map::<u16, (SocketAddrV4, SocketAddrV4)>::empty(),
            final(self).out_map() == old(self).out_map(),
            final(self).in_map() == old(self).in_map(),
            final(self).is_restricted() == old(self).is_restricted(),
            final(self).allowed_set() == old(self).allowed_set(),
            final(self).allocator() == old(self).allocator(),
    {
        self.symmetric_map = Some(SymmetricMap::new());
    }

    /// From now on, new ports are drawn at random.
    pub fn randomize_port_allocation(&mut self)
        ensures
            final(self).allocator() == PortAllocator::Random,
            PortMap::same_mappings(&*final(self), &*old(self)),
    {
        self.port_allocator = PortAllocator::Random;
    }

    /// Whether `port` is in use (see `spec_port_taken`).
    fn port_taken(&self, port: u16) -> (taken: bool)
        ensures
            taken == self.spec_port_taken(port),
    {
        if self.map_in.contains_key(&port) {
            return true;
        }
        match &self.symmetric_map {
            Some(sm) => sm.map_in.contains_key(&port),
            None => false,
        }
    }

    /// Forwards external `port` to `local_addr`, in both directions.
    pub fn forward_port(&mut self, port: u16, local_addr: SocketAddrV4)
        requires
            old(self).wf(),
        ensures
            final(self).wf(),
            final(self).out_map() == old(self).out_map().insert(socket_key(local_addr), port),
            final(self).in_map() == old(self).in_map().insert(port, local_addr),
            final(self).is_restricted() == old(self).is_restricted(),
            final(self).allowed_set() == old(self).allowed_set(),
            final(self).is_symmetric() == old(self).is_symmetric(),
            final(self).sym_out_map() == old(self).sym_out_map(),
            final(self).sym_in_map() == old(self).sym_in_map(),
            final(self).allocator() == old(self).allocator(),
    {
        self.map_out.insert(local_addr.key(), port);
        self.map_in.insert(port, local_addr);
    }

    /// Where traffic from `remote_addr` arriving at external `port` goes: to the forwarded or
    /// mapped local endpoint, or, for a symmetric port, to its local endpoint when `remote_addr`
    /// is the remote it was handed out for. A restricted map first drops traffic from any remote
    /// that the port has not sent to.
    pub fn get_inbound_addr(&self, remote_addr: SocketAddrV4, port: u16) -> (addr: Option<
        SocketAddrV4,
    >)
        ensures
            addr == self.spec_inbound(remote_addr, port),
    {
        match &self.allowed_endpoints {
            Some(allowed_endpoints) => {
                let allowed = allowed_endpoints.contains(&allow_key_of(port, remote_addr));
                if !allowed {
                    return None;
                }
            },
            None => {},
        }
        match self.map_in.get(&port) {
            Some(addr) => {
                return Some(*addr);
            },
            None => {},
        }
        match &self.symmetric_map {
            Some(symmetric_map) => {
                match symmetric_map.map_in.get(&port) {
                    Some(entry) => {
                        let (addr, allowed_remote_addr) = *entry;
                        if allowed_remote_addr == remote_addr {
                            return Some(addr);
                        }
                    },
                    None => {},
                }
            },
            None => {},
        }
        None
    }
}

/// `k` is the number of steps from `start` to the first port that `map` leaves free.
pub open spec fn first_free(map: PortMap, start: u16, k: nat) -> bool {
    &&& k < 16384
    &&& !map.spec_port_taken(walk(start, k))
    &&& forall|t: nat| t < k ==> #[trigger] map.spec_port_taken(walk(start, t))
}

/// The walk of a sequential allocator for endpoint key `e` starts at the endpoint's counter, or,
/// for a new endpoint, at the start for new endpoints.
pub open spec fn walk_start(n: u16, m: Map<u64, u16>, e: u64) -> u16 {
    if m.contains_key(e) {
        m[e]
    } else {
        n
    }
}

/// The counter of endpoint `e` after a successful allocation that found the free port `k`
/// steps into its walk.
pub open spec fn counter_after_allocation(n: u16, m: Map<u64, u16>, e: u64, k: nat) -> u16 {
    if !m.contains_key(e) && k == 0 {
        n
    } else {
        walk(walk_start(n, m, e), k + 1)
    }
}

/// The start for new endpoints after a successful allocation for endpoint `e`.
pub open spec fn next_original_after_allocation(n: u16, m: Map<u64, u16>, e: u64) -> u16 {
    if m.contains_key(e) {
        n
    } else {
        advance_original(n)
    }
}

/// What an allocation for `source` against a map in state `old` may return, and the allocator
/// it may leave behind. Sequential allocation returns the first free port of the endpoint's
/// walk, and fails only when the whole sequential range is in use. Random allocation returns a
/// free port of at least `RANDOM_PORT_BASE`, and fails only when all of those are in use.
pub open spec fn allocation_post(
    old: &PortMap,
    new_alloc: PortAllocator,
    source: SocketAddrV4,
    res: Option<u16>,
) -> bool {
    if old.allocator().is_sequential() {
        let n = old.allocator().spec_next_original_port();
        let m = old.allocator().spec_counters();
        let e = socket_key(source);
        let start = walk_start(n, m, e);
        match res {
            Some(p) => exists|k: nat|
                {
                    &&& #[trigger] first_free(*old, start, k)
                    &&& p == walk(start, k)
                    &&& new_alloc.has_state(
                        next_original_after_allocation(n, m, e),
                        m.insert(e, counter_after_allocation(n, m, e, k)),
                    )
                },
            None => {
                &&& new_alloc.is_sequential()
                &&& forall|q: u16| SEQUENTIAL_PORT_BASE <= q ==> #[trigger] old.spec_port_taken(q)
            },
        }
    } else {
        &&& !new_alloc.is_sequential()
        &&& match res {
            Some(p) => RANDOM_PORT_BASE <= p && !old.spec_port_taken(p),
            None => forall|q: u16| RANDOM_PORT_BASE <= q ==> #[trigger] old.spec_port_taken(q),
        }
    }
}

impl PortMap {
    /// Draws ports from the sequential allocator until one is free.
    fn allocate_sequential(&mut self, source: SocketAddrV4) -> (res: Option<u16>)
        requires
            old(self).wf(),
            old(self).allocator().is_sequential(),
        ensures
            final(self).wf(),
            PortMap::same_mappings(&*final(self), &*old(self)),
            allocation_post(&*old(self), final(self).allocator(), source, res),
    {
        let ghost n0 = old(self).allocator().spec_next_original_port();
        let ghost m0 = old(self).allocator().spec_counters();
        let ghost e = socket_key(source);
        let ghost vacant = !m0.contains_key(e);
        let ghost start = walk_start(n0, m0, e);
        let ghost n1 = if vacant {
            advance_original(n0)
        } else {
            n0
        };
        let mut attempts: u32 = 0;
        while attempts < SEQUENTIAL_PORT_COUNT + 2
            invariant
                self.wf(),
                PortMap::same_mappings(&*self, &*old(self)),
                old(self).allocator().has_state(n0, m0),
                e == socket_key(source),
                vacant == !m0.contains_key(e),
                start == walk_start(n0, m0, e),
                n1 == (if vacant {
                    advance_original(n0)
                } else {
                    n0
                }),
                SEQUENTIAL_PORT_BASE <= start,
                attempts <= SEQUENTIAL_PORT_COUNT + 2,
                attempts == 0 ==> self.allocator().has_state(n0, m0),
                attempts > 0 ==> {
                    let j: nat = if vacant {
                        (attempts - 1) as nat
                    } else {
                        attempts as nat
                    };
                    &&& self.allocator().has_state(n1, m0.insert(e, walk(start, j)))
                    &&& forall|t: nat| t < j ==> #[trigger] old(self).spec_port_taken(walk(start, t))
                    &&& vacant ==> old(self).spec_port_taken(start)
                },
            decreases SEQUENTIAL_PORT_COUNT + 2 - attempts,
        {
            let ghost j_before: nat = if vacant {
                (attempts - 1) as nat
            } else {
                attempts as nat
            };
            let port = self.port_allocator.next_port(source);
            proof {
                assert(walk(start, 0) == start);
                if attempts == 0 {
                    if vacant {
                        assert(self.allocator().has_state(n1, m0.insert(e, walk(start, 0))));
                    } else {
                        assert(walk(start, 1) == next_sequential(start));
                        assert(self.allocator().has_state(n1, m0.insert(e, walk(start, 1))));
                    }
                } else {
                    assert(walk(start, j_before + 1) == next_sequential(walk(start, j_before)));
                    assert(m0.insert(e, walk(start, j_before)).insert(
                        e,
                        next_sequential(walk(start, j_before)),
                    ) =~= m0.insert(e, walk(start, j_before + 1)));
                    assert(self.allocator().has_state(
                        n1,
                        m0.insert(e, walk(start, j_before + 1)),
                    ));
                }
            }
            if !self.port_taken(port) {
                proof {
                    let k: nat = if attempts == 0 {
                        0
                    } else if vacant {
                        (attempts - 1) as nat
                    } else {
                        attempts as nat
                    };
                    assert(port == walk(start, k));
                    if k >= 16384 {
                        assert(SEQUENTIAL_PORT_BASE <= port);
                        let i = lemma_walk_covers(start, port);
                        assert(old(self).spec_port_taken(walk(start, i)));
                        assert(false);
                    }
                    assert(first_free(*old(self), start, k));
                    assert(counter_after_allocation(n0, m0, e, k) == walk(start, k + 1) || (
                    vacant && k == 0));
                    assert(self.allocator().has_state(
                        next_original_after_allocation(n0, m0, e),
                        m0.insert(e, counter_after_allocation(n0, m0, e, k)),
                    ));
                }
                return Some(port);
            }
            attempts = attempts + 1;
        }
        proof {
            let j: nat = if vacant {
                (attempts - 1) as nat
            } else {
                attempts as nat
            };
            assert(j >= 16384);
            assert forall|q: u16| SEQUENTIAL_PORT_BASE <= q implies #[trigger] old(
                self,
            ).spec_port_taken(q) by {
                let i = lemma_walk_covers(start, q);
                assert(old(self).spec_port_taken(walk(start, i)));
            }
        }
        None
    }
}

/// The number of random draws an allocation makes before it searches the ports in order.
pub const RANDOM_DRAWS: u32 = 65536;

impl PortMap {
    /// Draws random ports until one is free; after `RANDOM_DRAWS` taken draws, takes the lowest
    /// free port of at least `RANDOM_PORT_BASE` instead.
    fn allocate_random(&mut self, source: SocketAddrV4) -> (res: Option<u16>)
        requires
            old(self).wf(),
            !old(self).allocator().is_sequential(),
        ensures
            final(self).wf(),
            PortMap::same_mappings(&*final(self), &*old(self)),
            allocation_post(&*old(self), final(self).allocator(), source, res),
    {
        let mut draws: u32 = 0;
        while draws < RANDOM_DRAWS
            invariant
                self.wf(),
                PortMap::same_mappings(&*self, &*old(self)),
                !self.allocator().is_sequential(),
                !old(self).allocator().is_sequential(),
            decreases RANDOM_DRAWS - draws,
        {
            let port = self.port_allocator.next_port(source);
            if !self.port_taken(port) {
                return Some(port);
            }
            draws = draws + 1;
        }
        let mut candidate: u32 = RANDOM_PORT_BASE as u32;
        while candidate <= 65535
            invariant
                self.wf(),
                PortMap::same_mappings(&*self, &*old(self)),
                !self.allocator().is_sequential(),
                !old(self).allocator().is_sequential(),
                RANDOM_PORT_BASE <= candidate <= 65536,
                forall|q: u16| RANDOM_PORT_BASE <= q < candidate ==> #[trigger] old(self).spec_port_taken(q),
            decreases 65536 - candidate,
        {
            if !self.port_taken(candidate as u16) {
                return Some(candidate as u16);
            }
            candidate = candidate + 1;
        }
        None
    }

    /// Picks a free external port for `source` with the map's allocator (see
    /// `allocation_post`).
    fn allocate_port(&mut self, source: SocketAddrV4) -> (res: Option<u16>)
        requires
            old(self).wf(),
        ensures
            final(self).wf(),
            PortMap::same_mappings(&*final(self), &*old(self)),
            allocation_post(&*old(self), final(self).allocator(), source, res),
    {
        if self.port_allocator.is_random() {
            self.allocate_random(source)
        } else {
            self.allocate_sequential(source)
        }
    }
}

impl PortMap {
    /// The mappings of `new` are those of `old` after `map_port(remote, source)` returned
    /// `port`, apart from the restriction update.
    pub open spec fn mapping_post(
        old: &PortMap,
        new: &PortMap,
        remote: SocketAddrV4,
        source: SocketAddrV4,
        port: Option<u16>,
    ) -> bool {
        &&& new.is_symmetric() == old.is_symmetric()
        &&& new.is_restricted() == old.is_restricted()
        &&& match old.spec_assigned_port(remote, source) {
            Some(p) => {
                &&& port == Some(p)
                &&& new.allocator() == old.allocator()
                &&& new.out_map() == old.out_map()
                &&& new.in_map() == old.in_map()
                &&& new.sym_out_map() == old.sym_out_map()
                &&& new.sym_in_map() == old.sym_in_map()
            },
            None => {
                &&& allocation_post(old, new.allocator(), source, port)
                &&& match port {
                    Some(p) => if old.is_symmetric() {
                        &&& new.out_map() == old.out_map()
                        &&& new.in_map() == old.in_map()
                        &&& new.sym_out_map() == old.sym_out_map().insert(
                            socket_pair_key(source, remote),
                            p,
                        )
                        &&& new.sym_in_map() == old.sym_in_map().insert(p, (source, remote))
                    } else {
                        &&& new.out_map() == old.out_map().insert(socket_key(source), p)
                        &&& new.in_map() == old.in_map().insert(p, source)
                        &&& new.sym_out_map() == old.sym_out_map()
                        &&& new.sym_in_map() == old.sym_in_map()
                    },
                    None => {
                        &&& new.out_map() == old.out_map()
                        &&& new.in_map() == old.in_map()
                        &&& new.sym_out_map() == old.sym_out_map()
                        &&& new.sym_in_map() == old.sym_in_map()
                    },
                }
            },
        }
        &&& match port {
            Some(p) => new.allowed_set() == if old.is_restricted() {
                old.allowed_set().insert(allow_key(p, remote))
            } else {
                old.allowed_set()
            },
            None => new.allowed_set() == old.allowed_set(),
        }
    }

    /// Maps traffic from `source_addr` to `remote_addr` to an external port. An endpoint that
    /// already has a port keeps it: its forwarded or mapped port, or, in a symmetric map, the
    /// port of this (source, remote) pair. Otherwise a free port is allocated (see
    /// `allocation_post`) and recorded for the endpoint, or for the pair in a symmetric map;
    /// `None` means no port was free. A restricted map then allows `remote_addr` to reach the
    /// port as well.
    pub fn map_port(&mut self, remote_addr: SocketAddrV4, source_addr: SocketAddrV4) -> (port:
        Option<u16>)
        requires
            old(self).wf(),
        ensures
            final(self).wf(),
            PortMap::mapping_post(&*old(self), &*final(self), remote_addr, source_addr, port),
            port == final(self).spec_assigned_port(remote_addr, source_addr),
            old(self).consistent() ==> final(self).consistent(),
    {
        let skey = source_addr.key();
        let existing = match self.map_out.get(&skey) {
            Some(p) => Some(*p),
            None => None,
        };
        let port = match existing {
            Some(p) => p,
            None => {
                if self.symmetric_map.is_some() {
                    let pkey = source_addr.pair_key(&remote_addr);
                    let existing_pair = match &self.symmetric_map {
                        Some(sm) => match sm.map_out.get(&pkey) {
                            Some(p) => Some(*p),
                            None => None,
                        },
                        None => None,
                    };
                    match existing_pair {
                        Some(p) => p,
                        None => {
                            let p = match self.allocate_port(source_addr) {
                                Some(p) => p,
                                None => {
                                    return None;
                                },
                            };
                            let mut sm = self.symmetric_map.take().unwrap();
                            sm.map_out.insert(pkey, p);
                            sm.map_in.insert(p, (source_addr, remote_addr));
                            self.symmetric_map = Some(sm);
                            p
                        },
                    }
                } else {
                    let p = match self.allocate_port(source_addr) {
                        Some(p) => p,
                        None => {
                            return None;
                        },
                    };
                    self.map_out.insert(skey, p);
                    self.map_in.insert(p, source_addr);
                    p
                }
            },
        };
        match self.allowed_endpoints.take() {
            Some(mut allowed_endpoints) => {
                allowed_endpoints.insert(allow_key_of(port, remote_addr));
                self.allowed_endpoints = Some(allowed_endpoints);
            },
            None => {},
        }
        Some(port)
    }
}

/// A map with no mappings and a sequential allocator in its start state hands the first
/// endpoint port 49152.
pub proof fn lemma_fresh_map_first_port(
    old: PortMap,
    new: PortMap,
    remote: SocketAddrV4,
    source: SocketAddrV4,
    port: Option<u16>,
)
    requires
        old.out_map() == Map::<u64, u16>::empty(),
        old.in_map() == Map::<u16, SocketAddrV4>::empty(),
        old.sym_out_map() == Map::<u128, u16>::empty(),
        old.sym_in_map() == Map::<u16, (SocketAddrV4, SocketAddrV4)>::empty(),
        old.allocator().has_state(SEQUENTIAL_PORT_BASE, Map::<u64, u16>::empty()),
        PortMap::mapping_post(&old, &new, remote, source, port),
    ensures
        port == Some(SEQUENTIAL_PORT_BASE),
{
    assert(!old.spec_port_taken(SEQUENTIAL_PORT_BASE));
    assert(old.spec_assigned_port(remote, source) is None);
    let start = walk_start(SEQUENTIAL_PORT_BASE, Map::<u64, u16>::empty(), socket_key(source));
    assert(start == SEQUENTIAL_PORT_BASE);
    if let Some(p) = port {
        let k = choose|k: nat|
            {
                &&& #[trigger] first_free(old, start, k)
                &&& p == walk(start, k)
                &&& new.allocator().has_state(
                    next_original_after_allocation(SEQUENTIAL_PORT_BASE, Map::<u64, u16>::empty(), socket_key(source)),
                    Map::<u64, u16>::empty().insert(socket_key(source), counter_after_allocation(SEQUENTIAL_PORT_BASE, Map::<u64, u16>::empty(), socket_key(source), k)),
                )
            };
        assert(walk(start, 0) == SEQUENTIAL_PORT_BASE);
        if k > 0 {
            assert(old.spec_port_taken(walk(start, 0)));
        }
    }
}

/// A new mapping gets a port that no mapping held: sequential allocation hands out a port of
/// `SEQUENTIAL_PORT_BASE..=65535`, random allocation one of at least `RANDOM_PORT_BASE`, and
/// the map keeps its way of allocating.
pub proof fn lemma_new_mapping_gets_free_port(
    old: PortMap,
    new: PortMap,
    remote: SocketAddrV4,
    source: SocketAddrV4,
    port: u16,
)
    requires
        old.wf(),
        old.spec_assigned_port(remote, source) is None,
        PortMap::mapping_post(&old, &new, remote, source, Some(port)),
    ensures
        !old.spec_port_taken(port),
        old.allocator().is_sequential() ==> SEQUENTIAL_PORT_BASE <= port,
        !old.allocator().is_sequential() ==> RANDOM_PORT_BASE <= port,
        new.allocator().is_sequential() == old.allocator().is_sequential(),
{
    if old.allocator().is_sequential() {
        let n = old.allocator().spec_next_original_port();
        let m = old.allocator().spec_counters();
        let e = socket_key(source);
        let start = walk_start(n, m, e);
        let k = choose|k: nat|
            {
                &&& #[trigger] first_free(old, start, k)
                &&& port == walk(start, k)
                &&& new.allocator().has_state(
                    next_original_after_allocation(n, m, e),
                    m.insert(e, counter_after_allocation(n, m, e, k)),
                )
            };
        lemma_walk_closed_form(start, k);
    }
}

/// Whatever port `map_port(remote, source)` hands out, traffic from `remote` to that port is
/// delivered back to `source`, provided every mapping in the map pointed back at its endpoint.
pub proof fn lemma_map_port_round_trip(
    old: PortMap,
    new: PortMap,
    remote: SocketAddrV4,
    source: SocketAddrV4,
    port: u16,
)
    requires
        old.consistent(),
        PortMap::mapping_post(&old, &new, remote, source, Some(port)),
    ensures
        new.spec_inbound(remote, port) == Some(source),
        new.consistent(),
{
    lemma_mapping_post_consistent(old, new, remote, source, Some(port));
    let sk = socket_key(source);
    let pk = socket_pair_key(source, remote);
    if old.out_map().contains_key(sk) {
        assert(old.in_map().contains_key(port));
        lemma_socket_key_injective(old.in_map()[port], source);
    } else if old.is_symmetric() && old.sym_out_map().contains_key(pk) {
        let pair = old.sym_in_map()[port];
        lemma_socket_pair_key_injective(pair.0, pair.1, source, remote);
    }
}

/// `map_port` keeps every mapping pointing back at its endpoint.
pub proof fn lemma_mapping_post_consistent(
    old: PortMap,
    new: PortMap,
    remote: SocketAddrV4,
    source: SocketAddrV4,
    port: Option<u16>,
)
    requires
        old.consistent(),
        PortMap::mapping_post(&old, &new, remote, source, port),
    ensures
        new.consistent(),
{
    let sk = socket_key(source);
    let pk = socket_pair_key(source, remote);
    if old.spec_assigned_port(remote, source) is None {
        if let Some(p) = port {
            assert(!old.spec_port_taken(p)) by {
                if old.allocator().is_sequential() {
                    let n = old.allocator().spec_next_original_port();
                    let m = old.allocator().spec_counters();
                    let k = choose|k: nat|
                        {
                            &&& #[trigger] first_free(old, walk_start(n, m, sk), k)
                            &&& p == walk(walk_start(n, m, sk), k)
                            &&& new.allocator().has_state(
                                next_original_after_allocation(n, m, sk),
                                m.insert(sk, counter_after_allocation(n, m, sk, k)),
                            )
                        };
                }
            }
            if old.is_symmetric() {
                assert forall|k: u128| #[trigger] new.sym_out_map().contains_key(k) implies {
                    &&& new.sym_in_map().contains_key(new.sym_out_map()[k])
                    &&& !new.in_map().contains_key(new.sym_out_map()[k])
                    &&& socket_pair_key(
                        new.sym_in_map()[new.sym_out_map()[k]].0,
                        new.sym_in_map()[new.sym_out_map()[k]].1,
                    ) == k
                } by {
                    if k != pk {
                        assert(old.sym_out_map().contains_key(k));
                        assert(old.sym_out_map()[k] != p);
                    }
                }
            } else {
                assert forall|k: u64| #[trigger] new.out_map().contains_key(k) implies {
                    &&& new.in_map().contains_key(new.out_map()[k])
                    &&& socket_key(new.in_map()[new.out_map()[k]]) == k
                } by {
                    if k != sk {
                        assert(old.out_map().contains_key(k));
                        assert(old.out_map()[k] != p);
                    }
                }
                assert forall|k: u128| #[trigger] new.sym_out_map().contains_key(k) implies {
                    &&& new.sym_in_map().contains_key(new.sym_out_map()[k])
                    &&& !new.in_map().contains_key(new.sym_out_map()[k])
                    &&& socket_pair_key(
                        new.sym_in_map()[new.sym_out_map()[k]].0,
                        new.sym_in_map()[new.sym_out_map()[k]].1,
                    ) == k
                } by {
                    assert(old.sym_out_map().contains_key(k));
                    assert(old.sym_out_map()[k] != p);
                }
            }
        }
    }
}

/// In a restricted map, after `map_port(remote, source)` hands out `port`, the remotes that may
/// reach any port `q` are those `q` let in before, and, at `port`, also `remote`. So every remote
/// that a port has sent to may reach it, and a remote that it has not sent to gets nothing.
pub proof fn lemma_restricted_port_rejects_others(
    old: PortMap,
    new: PortMap,
    remote: SocketAddrV4,
    source: SocketAddrV4,
    port: u16,
    q: u16,
    other: SocketAddrV4,
)
    requires
        old.is_restricted(),
        PortMap::mapping_post(&old, &new, remote, source, Some(port)),
    ensures
        new.is_restricted(),
        new.spec_allows(q, other) <==> (old.spec_allows(q, other) || (q == port && other == remote)),
        !new.spec_allows(q, other) ==> new.spec_inbound(other, q) is None,
{
    lemma_allow_key_injective(q, other, port, remote);
}

/// A map that is not symmetric hands one local endpoint the same external port whatever
/// remote endpoint it sends to.
pub proof fn lemma_plain_map_same_port_for_all_remotes(
    m0: PortMap,
    m1: PortMap,
    m2: PortMap,
    r0: SocketAddrV4,
    r1: SocketAddrV4,
    source: SocketAddrV4,
    p0: u16,
    p1: Option<u16>,
)
    requires
        !m0.is_symmetric(),
        PortMap::mapping_post(&m0, &m1, r0, source, Some(p0)),
        PortMap::mapping_post(&m1, &m2, r1, source, p1),
    ensures
        p1 == Some(p0),
{
    let k = socket_key(source);
    assert(m1.out_map().contains_key(k) && m1.out_map()[k] == p0);
}

/// In a map that is neither restricted nor symmetric (a full-cone NAT), traffic from every
/// remote endpoint to the port that `map_port(remote, source)` hands out reaches `source`.
pub proof fn lemma_full_cone(
    old: PortMap,
    new: PortMap,
    remote: SocketAddrV4,
    source: SocketAddrV4,
    port: u16,
    other: SocketAddrV4,
)
    requires
        old.consistent(),
        !old.is_restricted(),
        !old.is_symmetric(),
        PortMap::mapping_post(&old, &new, remote, source, Some(port)),
    ensures
        new.spec_inbound(other, port) == Some(source),
{
    lemma_map_port_round_trip(old, new, remote, source, port);
    if !new.in_map().contains_key(port) {
        assert(old.sym_in_map() =~= Map::<u16, (SocketAddrV4, SocketAddrV4)>::empty());
    }
}

/// In a symmetric map, the port that `map_port(remote, source)` hands out to an endpoint without
/// a forwarded or plain mapping takes traffic from `remote` only.
pub proof fn lemma_symmetric_port_rejects_others(
    old: PortMap,
    new: PortMap,
    remote: SocketAddrV4,
    source: SocketAddrV4,
    port: u16,
    other: SocketAddrV4,
)
    requires
        old.consistent(),
        old.is_symmetric(),
        !old.out_map().contains_key(socket_key(source)),
        PortMap::mapping_post(&old, &new, remote, source, Some(port)),
        other != remote,
    ensures
        new.spec_inbound(other, port) is None,
{
    lemma_map_port_round_trip(old, new, remote, source, port);
    let pk = socket_pair_key(source, remote);
    assert(new.sym_out_map().contains_key(pk));
    assert(new.sym_out_map()[pk] == port);
}

/// A symmetric map hands one local endpoint, which has no forwarded or plain mapping, different
/// external ports for different remote endpoints.
pub proof fn lemma_symmetric_distinct_ports(
    m0: PortMap,
    m1: PortMap,
    m2: PortMap,
    r0: SocketAddrV4,
    r1: SocketAddrV4,
    source: SocketAddrV4,
    p0: u16,
    p1: u16,
)
    requires
        m0.consistent(),
        m0.is_symmetric(),
        !m0.out_map().contains_key(socket_key(source)),
        PortMap::mapping_post(&m0, &m1, r0, source, Some(p0)),
        PortMap::mapping_post(&m1, &m2, r1, source, Some(p1)),
        r0 != r1,
    ensures
        p0 != p1,
{
    lemma_map_port_round_trip(m0, m1, r0, source, p0);
    let pk0 = socket_pair_key(source, r0);
    let pk1 = socket_pair_key(source, r1);
    lemma_socket_pair_key_injective(source, r0, source, r1);
    assert(m1.sym_out_map().contains_key(pk0) && m1.sym_out_map()[pk0] == p0);
    assert(m1.sym_in_map().contains_key(p0));
    if m1.sym_out_map().contains_key(pk1) {
        let q = m1.sym_out_map()[pk1];
        assert(socket_pair_key(m1.sym_in_map()[q].0, m1.sym_in_map()[q].1) == pk1);
        assert(socket_pair_key(m1.sym_in_map()[p0].0, m1.sym_in_map()[p0].1) == pk0);
    } else {
        assert(m1.spec_assigned_port(r1, source) is None);
        assert(m1.spec_port_taken(p0));
        if m1.allocator().is_sequential() {
            let n = m1.allocator().spec_next_original_port();
            let m = m1.allocator().spec_counters();
            let sk = socket_key(source);
            let k = choose|k: nat|
                {
                    &&& #[trigger] first_free(m1, walk_start(n, m, sk), k)
                    &&& p1 == walk(walk_start(n, m, sk), k)
                    &&& m2.allocator().has_state(
                        next_original_after_allocation(n, m, sk),
                        m.insert(sk, counter_after_allocation(n, m, sk, k)),
                    )
                };
        }
    }
}

/// What a NAT does with one packet.
#[derive(Debug)]
pub enum NatAction {
    /// The packet goes no further.
    Drop,
    /// Send the packet out of the public side.
    SendPublic(Ipv4PacketFields),
    /// Send the packet out of the private side.
    SendPrivate(Ipv4PacketFields),
}

/// An IPv4 NAT between a private subnet and a public address. `P` is the type of the two plugs
/// (connections) that the NAT sits between.
#[derive(Debug)]
pub struct Ipv4Nat<P> {
    private_plug: P,
    public_plug: P,
    public_ip: Ipv4Addr,
    subnet: Ipv4Range,
    hair_pinning: bool,
    udp_map: PortMap,
    tcp_map: PortMap,
    blacklist_unrecognized_addrs: bool,
    /// Remote endpoints whose traffic is dropped, keyed by `socket_key`.
    blacklisted_addrs: HashSet<u64>,
}

impl<P> Ipv4Nat<P> {
    /// The NAT's public address.
    pub closed spec fn spec_public_ip(&self) -> Ipv4Addr {
        self.public_ip
    }

    /// The NAT's private subnet.
    pub closed spec fn spec_subnet(&self) -> Ipv4Range {
        self.subnet
    }

    /// Whether packets from the private side to the public address bounce back inside.
    pub closed spec fn spec_hair_pinning(&self) -> bool {
        self.hair_pinning
    }

    /// The port map for UDP.
    pub closed spec fn spec_udp_map(&self) -> PortMap {
        self.udp_map
    }

    /// The port map for TCP.
    pub closed spec fn spec_tcp_map(&self) -> PortMap {
        self.tcp_map
    }

    /// Whether remote endpoints that hit an unmapped port are blacklisted.
    pub closed spec fn spec_blacklist_unrecognized(&self) -> bool {
        self.blacklist_unrecognized_addrs
    }

    /// The blacklisted remote endpoints, by `socket_key`.
    pub closed spec fn spec_blacklist(&self) -> Set<u64> {
        self.blacklisted_addrs@
    }

    /// The plugs on the private and public sides.
    pub closed spec fn spec_plugs(&self) -> (P, P) {
        (self.private_plug, self.public_plug)
    }

    /// Both port maps are well formed.
    pub open spec fn wf(&self) -> bool {
        self.spec_udp_map().wf() && self.spec_tcp_map().wf()
    }

    /// The port map for a payload: TCP's for TCP, UDP's otherwise.
    pub open spec fn spec_map_for(&self, tcp: bool) -> PortMap {
        if tcp {
            self.spec_tcp_map()
        } else {
            self.spec_udp_map()
        }
    }

    /// `new` is `old` with the same configuration and plugs.
    pub open spec fn same_config(old: &Ipv4Nat<P>, new: &Ipv4Nat<P>) -> bool {
        &&& new.spec_public_ip() == old.spec_public_ip()
        &&& new.spec_subnet() == old.spec_subnet()
        &&& new.spec_hair_pinning() == old.spec_hair_pinning()
        &&& new.spec_blacklist_unrecognized() == old.spec_blacklist_unrecognized()
        &&& new.spec_plugs() == old.spec_plugs()
    }

    /// `new` is `old` with nothing changed.
    pub open spec fn unchanged(old: &Ipv4Nat<P>, new: &Ipv4Nat<P>) -> bool {
        &&& Ipv4Nat::same_config(old, new)
        &&& new.spec_udp_map() == old.spec_udp_map()
        &&& new.spec_tcp_map() == old.spec_tcp_map()
        &&& new.spec_blacklist() == old.spec_blacklist()
    }

    /// `new` is `old` after the port map for `tcp` changed as `map_port(remote, source)`
    /// changes it; nothing else changed.
    pub open spec fn mapped(
        old: &Ipv4Nat<P>,
        new: &Ipv4Nat<P>,
        tcp: bool,
        remote: SocketAddrV4,
        source: SocketAddrV4,
    ) -> bool {
        &&& Ipv4Nat::same_config(old, new)
        &&& new.spec_blacklist() == old.spec_blacklist()
        &&& PortMap::mapping_post(
            &old.spec_map_for(tcp),
            &new.spec_map_for(tcp),
            remote,
            source,
            new.spec_map_for(tcp).spec_assigned_port(remote, source),
        )
        &&& new.spec_map_for(!tcp) == old.spec_map_for(!tcp)
    }

    /// What `process_outgoing` does with `packet`, which arrived from the private side: `old` and
    /// `new` are the NAT before and after, `action` is what it returns.
    pub open spec fn outgoing_post(
        old: &Ipv4Nat<P>,
        new: &Ipv4Nat<P>,
        packet: Ipv4PacketFields,
        action: NatAction,
    ) -> bool {
        let f = packet.fields;
        let pl = packet.payload;
        if !old.spec_subnet().spec_contains(f.source_ip.bits) || f.ttl == 0 || !pl.has_ports() {
            action is Drop && Ipv4Nat::unchanged(old, new)
        } else {
            let tcp = pl.is_tcp();
            let public_ip = old.spec_public_ip();
            let hairpin = old.spec_hair_pinning() && f.dest_ip == public_ip;
            let source = SocketAddrV4 { ip: f.source_ip, port: pl.spec_source_port() };
            let remote = SocketAddrV4 {
                ip: if hairpin {
                    public_ip
                } else {
                    f.dest_ip
                },
                port: pl.spec_dest_port(),
            };
            let map = new.spec_map_for(tcp);
            &&& Ipv4Nat::mapped(old, new, tcp, remote, source)
            &&& match map.spec_assigned_port(remote, source) {
                None => action is Drop,
                Some(mapped) => if hairpin {
                    match map.spec_inbound(
                        SocketAddrV4 { ip: public_ip, port: mapped },
                        pl.spec_dest_port(),
                    ) {
                        None => action is Drop,
                        Some(inside) => action == NatAction::SendPrivate(
                            Ipv4PacketFields {
                                fields: Ipv4Fields {
                                    source_ip: f.source_ip,
                                    dest_ip: inside.ip,
                                    ttl: (f.ttl - 1) as u8,
                                },
                                payload: pl.spec_with_ports(pl.spec_source_port(), inside.port),
                            },
                        ),
                    }
                } else {
                    action == NatAction::SendPublic(
                        Ipv4PacketFields {
                            fields: Ipv4Fields {
                                source_ip: public_ip,
                                dest_ip: f.dest_ip,
                                ttl: (f.ttl - 1) as u8,
                            },
                            payload: pl.spec_with_ports(mapped, pl.spec_dest_port()),
                        },
                    )
                },
            }
        }
    }

    /// What `process_incoming` does with `packet`, which arrived from the public side.
    pub open spec fn incoming_post(
        old: &Ipv4Nat<P>,
        new: &Ipv4Nat<P>,
        packet: Ipv4PacketFields,
        action: NatAction,
    ) -> bool {
        let f = packet.fields;
        let pl = packet.payload;
        let source = SocketAddrV4 { ip: f.source_ip, port: pl.spec_source_port() };
        if f.dest_ip != old.spec_public_ip() || f.ttl == 0 || !pl.has_ports()
            || old.spec_blacklist().contains(socket_key(source)) {
            action is Drop && Ipv4Nat::unchanged(old, new)
        } else {
            match old.spec_map_for(pl.is_tcp()).spec_inbound(source, pl.spec_dest_port()) {
                Some(inside) => {
                    &&& Ipv4Nat::unchanged(old, new)
                    &&& action == NatAction::SendPrivate(
                        Ipv4PacketFields {
                            fields: Ipv4Fields {
                                source_ip: f.source_ip,
                                dest_ip: inside.ip,
                                ttl: (f.ttl - 1) as u8,
                            },
                            payload: pl.spec_with_ports(pl.spec_source_port(), inside.port),
                        },
                    )
                },
                None => {
                    &&& action is Drop
                    &&& Ipv4Nat::same_config(old, new)
                    &&& new.spec_udp_map() == old.spec_udp_map()
                    &&& new.spec_tcp_map() == old.spec_tcp_map()
                    &&& new.spec_blacklist() == if old.spec_blacklist_unrecognized() {
                        old.spec_blacklist().insert(socket_key(source))
                    } else {
                        old.spec_blacklist()
                    }
                },
            }
        }
    }
}

impl<P> Ipv4Nat<P> {
    /// A NAT between `private_plug` and `public_plug` for the subnet `subnet` behind the
    /// address `public_ip`, with no hair-pinning, no blacklisting, unrestricted asymmetric port
    /// maps and sequential port allocation.
    pub fn new(public_plug: P, private_plug: P, public_ip: Ipv4Addr, subnet: Ipv4Range) -> (device:
        Ipv4Nat<P>)
        ensures
            device.wf(),
            device.spec_public_ip() == public_ip,
            device.spec_subnet() == subnet,
            device.spec_plugs() == (private_plug, public_plug),
            !device.spec_hair_pinning(),
            !device.spec_blacklist_unrecognized(),
            device.spec_blacklist() == Set::<u64>::empty(),
            device.spec_udp_map().consistent() && device.spec_tcp_map().consistent(),
            device.spec_udp_map().out_map() == Map::<u64, u16>::empty(),
            device.spec_udp_map().in_map() == Map::<u16, SocketAddrV4>::empty(),
            device.spec_tcp_map().out_map() == Map::<u64, u16>::empty(),
            device.spec_tcp_map().in_map() == Map::<u16, SocketAddrV4>::empty(),
            !device.spec_udp_map().is_restricted() && !device.spec_udp_map().is_symmetric(),
            !device.spec_tcp_map().is_restricted() && !device.spec_tcp_map().is_symmetric(),
            device.spec_udp_map().allocator().has_state(SEQUENTIAL_PORT_BASE, Map::<u64, u16>::empty()),
            device.spec_tcp_map().allocator().has_state(SEQUENTIAL_PORT_BASE, Map::<u64, u16>::empty()),
            device.spec_udp_map().sym_out_map() == Map::<u128, u16>::empty(),
            device.spec_udp_map().sym_in_map() == Map::<u16, (SocketAddrV4, SocketAddrV4)>::empty(),
            device.spec_tcp_map().sym_out_map() == Map::<u128, u16>::empty(),
            device.spec_tcp_map().sym_in_map() == Map::<u16, (SocketAddrV4, SocketAddrV4)>::empty(),
    {
        Ipv4Nat {
            private_plug,
            public_plug,
            public_ip,
            subnet,
            hair_pinning: false,
            udp_map: PortMap::new(),
            tcp_map: PortMap::new(),
            blacklist_unrecognized_addrs: false,
            blacklisted_addrs: HashSet::new(),
        }
    }

    /// The plug on the private side.
    pub fn private_plug(&self) -> (plug: &P)
        ensures
            *plug == self.spec_plugs().0,
    {
        &self.private_plug
    }

    /// The plug on the public side.
    pub fn public_plug(&self) -> (plug: &P)
        ensures
            *plug == self.spec_plugs().1,
    {
        &self.public_plug
    }

    /// The NAT's public address.
    pub fn public_ip(&self) -> (ip: Ipv4Addr)
        ensures
            ip == self.spec_public_ip(),
    {
        self.public_ip
    }

    /// Translates a packet that arrived from the private side. Packets from outside the
    /// subnet, packets whose TTL is spent and packets that are neither UDP nor TCP are dropped.
    /// Otherwise the source endpoint is mapped to an external port (see `PortMap::map_port`),
    /// and the packet, with its TTL decremented, either leaves the public side from the public
    /// address and the mapped port, or, when hair-pinning and addressed to the public address,
    /// bounces back to the private endpoint that the destination port leads to.
    pub fn process_outgoing(&mut self, packet: Ipv4PacketFields) -> (action: NatAction)
        requires
            old(self).wf(),
        ensures
            final(self).wf(),
            Ipv4Nat::outgoing_post(&*old(self), &*final(self), packet, action),
    {
        let Ipv4PacketFields { fields, payload } = packet;
        if !self.subnet.contains(fields.source_ip) {
            return NatAction::Drop;
        }
        let next_ttl = match fields.ttl.checked_sub(1) {
            Some(ttl) => ttl,
            None => {
                return NatAction::Drop;
            },
        };
        let (source_port, dest_port) = match payload.ports() {
            Some(ports) => ports,
            None => {
                return NatAction::Drop;
            },
        };
        let tcp = payload.is_tcp_segment();
        let hairpin = self.hair_pinning && fields.dest_ip == self.public_ip;
        let source_addr = SocketAddrV4::new(fields.source_ip, source_port);
        let remote_ip = if hairpin {
            self.public_ip
        } else {
            fields.dest_ip
        };
        let remote_addr = SocketAddrV4::new(remote_ip, dest_port);
        let mapped = if tcp {
            self.tcp_map.map_port(remote_addr, source_addr)
        } else {
            self.udp_map.map_port(remote_addr, source_addr)
        };
        let mapped_port = match mapped {
            Some(port) => port,
            None => {
                return NatAction::Drop;
            },
        };
        if hairpin {
            let external_source_addr = SocketAddrV4::new(self.public_ip, mapped_port);
            let inside = if tcp {
                self.tcp_map.get_inbound_addr(external_source_addr, dest_port)
            } else {
                self.udp_map.get_inbound_addr(external_source_addr, dest_port)
            };
            match inside {
                None => NatAction::Drop,
                Some(inside) => NatAction::SendPrivate(
                    Ipv4PacketFields {
                        fields: Ipv4Fields {
                            source_ip: fields.source_ip,
                            dest_ip: inside.ip,
                            ttl: next_ttl,
                        },
                        payload: payload.with_ports(source_port, inside.port),
                    },
                ),
            }
        } else {
            NatAction::SendPublic(
                Ipv4PacketFields {
                    fields: Ipv4Fields {
                        source_ip: self.public_ip,
                        dest_ip: fields.dest_ip,
                        ttl: next_ttl,
                    },
                    payload: payload.with_ports(mapped_port, dest_port),
                },
            )
        }
    }

    /// Translates a packet that arrived from the public side. Packets not addressed to the
    /// public address, packets whose TTL is spent, packets that are neither UDP nor TCP and
    /// packets from blacklisted endpoints are dropped. Otherwise, if the destination port
    /// leads inside for this source (see `PortMap::get_inbound_addr`), the packet goes to that
    /// private endpoint with its TTL decremented; if not, it is dropped and, when the NAT
    /// blacklists unrecognized addresses, its source is blacklisted.
    pub fn process_incoming(&mut self, packet: Ipv4PacketFields) -> (action: NatAction)
        requires
            old(self).wf(),
        ensures
            final(self).wf(),
            Ipv4Nat::incoming_post(&*old(self), &*final(self), packet, action),
    {
        let Ipv4PacketFields { fields, payload } = packet;
        if fields.dest_ip != self.public_ip {
            return NatAction::Drop;
        }
        let next_ttl = match fields.ttl.checked_sub(1) {
            Some(ttl) => ttl,
            None => {
                return NatAction::Drop;
            },
        };
        let (source_port, dest_port) = match payload.ports() {
            Some(ports) => ports,
            None => {
                return NatAction::Drop;
            },
        };
        let tcp = payload.is_tcp_segment();
        let source_addr = SocketAddrV4::new(fields.source_ip, source_port);
        if self.blacklisted_addrs.contains(&source_addr.key()) {
            return NatAction::Drop;
        }
        let inside = if tcp {
            self.tcp_map.get_inbound_addr(source_addr, dest_port)
        } else {
            self.udp_map.get_inbound_addr(source_addr, dest_port)
        };
        match inside {
            Some(inside) => NatAction::SendPrivate(
                Ipv4PacketFields {
                    fields: Ipv4Fields {
                        source_ip: fields.source_ip,
                        dest_ip: inside.ip,
                        ttl: next_ttl,
                    },
                    payload: payload.with_ports(source_port, inside.port),
                },
            ),
            None => {
                if self.blacklist_unrecognized_addrs {
                    self.blacklisted_addrs.insert(source_addr.key());
                }
                NatAction::Drop
            },
        }
    }
}

/// Configures an `Ipv4Nat` before it is built.
#[derive(Debug)]
pub struct Ipv4NatBuilder {
    subnet: Option<Ipv4Range>,
    hair_pinning: bool,
    udp_map: PortMap,
    tcp_map: PortMap,
    blacklist_unrecognized_addrs: bool,
}

impl Ipv4NatBuilder {
    /// The subnet chosen so far, if any.
    pub closed spec fn spec_subnet(&self) -> Option<Ipv4Range> {
        self.subnet
    }

    /// Whether hair-pinning is on.
    pub closed spec fn spec_hair_pinning(&self) -> bool {
        self.hair_pinning
    }

    /// The UDP port map the NAT will start with.
    pub closed spec fn spec_udp_map(&self) -> PortMap {
        self.udp_map
    }

    /// The TCP port map the NAT will start with.
    pub closed spec fn spec_tcp_map(&self) -> PortMap {
        self.tcp_map
    }

    /// Whether blacklisting of unrecognized addresses was asked for.
    pub closed spec fn spec_blacklist_unrecognized(&self) -> bool {
        self.blacklist_unrecognized_addrs
    }

    /// Both port maps are well formed.
    pub open spec fn wf(&self) -> bool {
        self.spec_udp_map().wf() && self.spec_tcp_map().wf()
    }

    /// Starts a builder: no subnet chosen, no hair-pinning, no forwarded ports, no blacklisting,
    /// unrestricted asymmetric maps with sequential allocation.
    pub fn new() -> (builder: Ipv4NatBuilder)
        ensures
            builder.wf(),
            builder.spec_subnet() is None,
            !builder.spec_hair_pinning(),
            !builder.spec_blacklist_unrecognized(),
            builder.spec_udp_map().consistent() && builder.spec_tcp_map().consistent(),
            builder.spec_udp_map().out_map() == Map::<u64, u16>::empty(),
            builder.spec_udp_map().in_map() == Map::<u16, SocketAddrV4>::empty(),
            builder.spec_tcp_map().out_map() == Map::<u64, u16>::empty(),
            builder.spec_tcp_map().in_map() == Map::<u16, SocketAddrV4>::empty(),
            !builder.spec_udp_map().is_restricted() && !builder.spec_udp_map().is_symmetric(),
            !builder.spec_tcp_map().is_restricted() && !builder.spec_tcp_map().is_symmetric(),
            builder.spec_udp_map().allocator().has_state(SEQUENTIAL_PORT_BASE, Map::<u64, u16>::empty()),
            builder.spec_tcp_map().allocator().has_state(SEQUENTIAL_PORT_BASE, Map::<u64, u16>::empty()),
            builder.spec_udp_map().sym_out_map() == Map::<u128, u16>::empty(),
            builder.spec_udp_map().sym_in_map() == Map::<u16, (SocketAddrV4, SocketAddrV4)>::empty(),
            builder.spec_tcp_map().sym_out_map() == Map::<u128, u16>::empty(),
            builder.spec_tcp_map().sym_in_map() == Map::<u16, (SocketAddrV4, SocketAddrV4)>::empty(),
    {
        Ipv4NatBuilder {
            subnet: None,
            hair_pinning: false,
            udp_map: PortMap::new(),
            tcp_map: PortMap::new(),
            blacklist_unrecognized_addrs: false,
        }
    }

    /// Sets the subnet on the private side of the NAT.
    pub fn subnet(self, subnet: Ipv4Range) -> (builder: Ipv4NatBuilder)
        ensures
            builder.spec_subnet() == Some(subnet),
            builder.spec_hair_pinning() == self.spec_hair_pinning(),
            builder.spec_udp_map() == self.spec_udp_map(),
            builder.spec_tcp_map() == self.spec_tcp_map(),
            builder.spec_blacklist_unrecognized() == self.spec_blacklist_unrecognized(),
    {
        let mut builder = self;
        builder.subnet = Some(subnet);
        builder
    }

    /// The subnet set by the last call of `subnet`, if any.
    pub fn get_subnet(&self) -> (subnet: Option<Ipv4Range>)
        ensures
            subnet == self.spec_subnet(),
    {
        self.subnet
    }

    /// Turns hair-pinning on or off.
    pub fn hair_pinning(self, hair_pinning: bool) -> (builder: Ipv4NatBuilder)
        ensures
            builder.spec_hair_pinning() == hair_pinning,
            builder.spec_subnet() == self.spec_subnet(),
            builder.spec_udp_map() == self.spec_udp_map(),
            builder.spec_tcp_map() == self.spec_tcp_map(),
            builder.spec_blacklist_unrecognized() == self.spec_blacklist_unrecognized(),
    {
        let mut builder = self;
        builder.hair_pinning = hair_pinning;
        builder
    }

    /// Forwards the external UDP `port` to `local_addr` (see `PortMap::forward_port`).
    pub fn forward_udp_port(self, port: u16, local_addr: SocketAddrV4) -> (builder:
        Ipv4NatBuilder)
        requires
            self.wf(),
        ensures
            builder.wf(),
            builder.spec_udp_map().out_map() == self.spec_udp_map().out_map().insert(
                socket_key(local_addr),
                port,
            ),
            builder.spec_udp_map().in_map() == self.spec_udp_map().in_map().insert(port, local_addr),
            builder.spec_udp_map().is_restricted() == self.spec_udp_map().is_restricted(),
            builder.spec_udp_map().allowed_set() == self.spec_udp_map().allowed_set(),
            builder.spec_udp_map().is_symmetric() == self.spec_udp_map().is_symmetric(),
            builder.spec_udp_map().sym_out_map() == self.spec_udp_map().sym_out_map(),
            builder.spec_udp_map().sym_in_map() == self.spec_udp_map().sym_in_map(),
            builder.spec_udp_map().allocator() == self.spec_udp_map().allocator(),
            builder.spec_tcp_map() == self.spec_tcp_map(),
            builder.spec_subnet() == self.spec_subnet(),
            builder.spec_hair_pinning() == self.spec_hair_pinning(),
            builder.spec_blacklist_unrecognized() == self.spec_blacklist_unrecognized(),
    {
        let mut builder = self;
        builder.udp_map.forward_port(port, local_addr);
        builder
    }

    /// Forwards the external TCP `port` to `local_addr` (see `PortMap::forward_port`).
    pub fn forward_tcp_port(self, port: u16, local_addr: SocketAddrV4) -> (builder:
        Ipv4NatBuilder)
        requires
            self.wf(),
        ensures
            builder.wf(),
            builder.spec_tcp_map().out_map() == self.spec_tcp_map().out_map().insert(
                socket_key(local_addr),
                port,
            ),
            builder.spec_tcp_map().in_map() == self.spec_tcp_map().in_map().insert(port, local_addr),
            builder.spec_tcp_map().is_restricted() == self.spec_tcp_map().is_restricted(),
            builder.spec_tcp_map().allowed_set() == self.spec_tcp_map().allowed_set(),
            builder.spec_tcp_map().is_symmetric() == self.spec_tcp_map().is_symmetric(),
            builder.spec_tcp_map().sym_out_map() == self.spec_tcp_map().sym_out_map(),
            builder.spec_tcp_map().sym_in_map() == self.spec_tcp_map().sym_in_map(),
            builder.spec_tcp_map().allocator() == self.spec_tcp_map().allocator(),
            builder.spec_udp_map() == self.spec_udp_map(),
            builder.spec_subnet() == self.spec_subnet(),
            builder.spec_hair_pinning() == self.spec_hair_pinning(),
            builder.spec_blacklist_unrecognized() == self.spec_blacklist_unrecognized(),
    {
        let mut builder = self;
        builder.tcp_map.forward_port(port, local_addr);
        builder
    }

    /// Asks for traffic from a remote address to be blocked for good once it hits a port with
    /// no mapping.
    pub fn blacklist_unrecognized_addrs(self) -> (builder: Ipv4NatBuilder)
        ensures
            builder.spec_blacklist_unrecognized(),
            builder.spec_subnet() == self.spec_subnet(),
            builder.spec_hair_pinning() == self.spec_hair_pinning(),
            builder.spec_udp_map() == self.spec_udp_map(),
            builder.spec_tcp_map() == self.spec_tcp_map(),
    {
        let mut builder = self;
        builder.blacklist_unrecognized_addrs = true;
        builder
    }

    /// Only lets traffic into a port from the remote endpoints that the port has sent to: a
    /// port-restricted NAT (see `PortMap::restrict_endpoints`).
    pub fn restrict_endpoints(self) -> (builder: Ipv4NatBuilder)
        requires
            self.wf(),
        ensures
            builder.wf(),
            builder.spec_udp_map().is_restricted() && builder.spec_tcp_map().is_restricted(),
            builder.spec_udp_map().allowed_set() == Set::<u64>::empty(),
            builder.spec_tcp_map().allowed_set() == Set::<u64>::empty(),
            builder.spec_udp_map().out_map() == self.spec_udp_map().out_map(),
            builder.spec_udp_map().in_map() == self.spec_udp_map().in_map(),
            builder.spec_udp_map().is_symmetric() == self.spec_udp_map().is_symmetric(),
            builder.spec_udp_map().sym_out_map() == self.spec_udp_map().sym_out_map(),
            builder.spec_udp_map().sym_in_map() == self.spec_udp_map().sym_in_map(),
            builder.spec_udp_map().allocator() == self.spec_udp_map().allocator(),
            builder.spec_tcp_map().out_map() == self.spec_tcp_map().out_map(),
            builder.spec_tcp_map().in_map() == self.spec_tcp_map().in_map(),
            builder.spec_tcp_map().is_symmetric() == self.spec_tcp_map().is_symmetric(),
            builder.spec_tcp_map().sym_out_map() == self.spec_tcp_map().sym_out_map(),
            builder.spec_tcp_map().sym_in_map() == self.spec_tcp_map().sym_in_map(),
            builder.spec_tcp_map().allocator() == self.spec_tcp_map().allocator(),
            builder.spec_subnet() == self.spec_subnet(),
            builder.spec_hair_pinning() == self.spec_hair_pinning(),
            builder.spec_blacklist_unrecognized() == self.spec_blacklist_unrecognized(),
    {
        let mut builder = self;
        builder.tcp_map.restrict_endpoints();
        builder.udp_map.restrict_endpoints();
        builder
    }

    /// Draws ports at random rather than sequentially.
    pub fn randomize_port_allocation(self) -> (builder: Ipv4NatBuilder)
        requires
            self.wf(),
        ensures
            builder.wf(),
            builder.spec_udp_map().allocator() == PortAllocator::Random,
            builder.spec_tcp_map().allocator() == PortAllocator::Random,
            PortMap::same_mappings(&builder.spec_udp_map(), &self.spec_udp_map()),
            PortMap::same_mappings(&builder.spec_tcp_map(), &self.spec_tcp_map()),
            builder.spec_subnet() == self.spec_subnet(),
            builder.spec_hair_pinning() == self.spec_hair_pinning(),
            builder.spec_blacklist_unrecognized() == self.spec_blacklist_unrecognized(),
    {
        let mut builder = self;
        builder.tcp_map.randomize_port_allocation();
        builder.udp_map.randomize_port_allocation();
        builder
    }

    /// Makes the NAT symmetric: traffic from one local endpoint to different remote endpoints
    /// leaves from different external ports (see `PortMap::make_symmetric`).
    pub fn symmetric(self) -> (builder: Ipv4NatBuilder)
        requires
            self.wf(),
        ensures
            builder.wf(),
            builder.spec_udp_map().is_symmetric() && builder.spec_tcp_map().is_symmetric(),
            builder.spec_udp_map().sym_out_map() == Map::<u128, u16>::empty(),
            builder.spec_udp_map().sym_in_map() == Map::<u16, (SocketAddrV4, SocketAddrV4)>::empty(),
            builder.spec_tcp_map().sym_out_map() == Map::<u128, u16>::empty(),
            builder.spec_tcp_map().sym_in_map() == Map::<u16, (SocketAddrV4, SocketAddrV4)>::empty(),
            builder.spec_udp_map().out_map() == self.spec_udp_map().out_map(),
            builder.spec_udp_map().in_map() == self.spec_udp_map().in_map(),
            builder.spec_udp_map().is_restricted() == self.spec_udp_map().is_restricted(),
            builder.spec_udp_map().allowed_set() == self.spec_udp_map().allowed_set(),
            builder.spec_udp_map().allocator() == self.spec_udp_map().allocator(),
            builder.spec_tcp_map().out_map() == self.spec_tcp_map().out_map(),
            builder.spec_tcp_map().in_map() == self.spec_tcp_map().in_map(),
            builder.spec_tcp_map().is_restricted() == self.spec_tcp_map().is_restricted(),
            builder.spec_tcp_map().allowed_set() == self.spec_tcp_map().allowed_set(),
            builder.spec_tcp_map().allocator() == self.spec_tcp_map().allocator(),
            builder.spec_subnet() == self.spec_subnet(),
            builder.spec_hair_pinning() == self.spec_hair_pinning(),
            builder.spec_blacklist_unrecognized() == self.spec_blacklist_unrecognized(),
    {
        let mut builder = self;
        builder.tcp_map.make_symmetric();
        builder.udp_map.make_symmetric();
        builder
    }

    /// Builds the NAT between the two plugs, behind `public_ip`. Without a chosen subnet a
    /// random private one is used (see `Ipv4Network::random_local_subnet`). The NAT starts with
    /// the builder's hair-pinning setting, port maps and blacklisting setting, and an empty
    /// blacklist.
    pub fn build<P>(self, public_plug: P, private_plug: P, public_ip: Ipv4Addr) -> (device:
        Ipv4Nat<P>)
        requires
            self.wf(),
        ensures
            device.wf(),
            device.spec_public_ip() == public_ip,
            device.spec_plugs() == (private_plug, public_plug),
            self.spec_subnet() matches Some(subnet) ==> device.spec_subnet() == subnet,
            self.spec_subnet() is None ==> device.spec_subnet().subnet_mask_bits == 24 && exists|x: u8, y: u8|
                device.spec_subnet().base_addr.bits == crate::addr::octets_to_u32(10, x, y, 0),
            device.spec_hair_pinning() == self.spec_hair_pinning(),
            device.spec_udp_map() == self.spec_udp_map(),
            device.spec_tcp_map() == self.spec_tcp_map(),
            device.spec_blacklist_unrecognized() == self.spec_blacklist_unrecognized(),
            device.spec_blacklist() == Set::<u64>::empty(),
    {
        let subnet = match self.subnet {
            Some(subnet) => subnet,
            None => Ipv4Range::random_local_subnet(),
        };
        Ipv4Nat {
            private_plug,
            public_plug,
            public_ip,
            subnet,
            hair_pinning: self.hair_pinning,
            udp_map: self.udp_map,
            tcp_map: self.tcp_map,
            blacklist_unrecognized_addrs: self.blacklist_unrecognized_addrs,
            blacklisted_addrs: HashSet::new(),
        }
    }
}

/// A NAT whose map for a packet's protocol draws ports at random sends a packet of a new
/// endpoint out from a port of at least `RANDOM_PORT_BASE` that no mapping of that protocol
/// held, and keeps drawing ports at random for both protocols.
pub proof fn lemma_random_nat_picks_free_port<P>(
    old: Ipv4Nat<P>,
    new: Ipv4Nat<P>,
    packet: Ipv4PacketFields,
    sent: Ipv4PacketFields,
)
    requires
        old.wf(),
        !old.spec_map_for(packet.payload.is_tcp()).allocator().is_sequential(),
        old.spec_map_for(packet.payload.is_tcp()).spec_assigned_port(
            SocketAddrV4 { ip: packet.fields.dest_ip, port: packet.payload.spec_dest_port() },
            SocketAddrV4 { ip: packet.fields.source_ip, port: packet.payload.spec_source_port() },
        ) is None,
        Ipv4Nat::outgoing_post(&old, &new, packet, NatAction::SendPublic(sent)),
    ensures
        RANDOM_PORT_BASE <= sent.payload.spec_source_port(),
        !old.spec_map_for(packet.payload.is_tcp()).spec_port_taken(sent.payload.spec_source_port()),
        new.spec_udp_map().allocator().is_sequential() == old.spec_udp_map().allocator().is_sequential(),
        new.spec_tcp_map().allocator().is_sequential() == old.spec_tcp_map().allocator().is_sequential(),
{
    let tcp = packet.payload.is_tcp();
    let remote = SocketAddrV4 { ip: packet.fields.dest_ip, port: packet.payload.spec_dest_port() };
    let source = SocketAddrV4 { ip: packet.fields.source_ip, port: packet.payload.spec_source_port() };
    let port = new.spec_map_for(tcp).spec_assigned_port(remote, source)->Some_0;
    lemma_new_mapping_gets_free_port(old.spec_map_for(tcp), new.spec_map_for(tcp), remote, source, port);
}

/// A reply to a packet that the NAT sent out of its public side comes back through the NAT to
/// the private endpoint that sent the packet: the reply must come from the endpoint the packet
/// went to, be addressed to the public address and port the packet left from, use the same
/// transport protocol, still have TTL to spend, and not come from a blacklisted endpoint. It is
/// delivered with its TTL decremented and its destination rewritten to the original sender.
pub proof fn lemma_nat_reply_reaches_sender<P>(
    n0: Ipv4Nat<P>,
    n1: Ipv4Nat<P>,
    n2: Ipv4Nat<P>,
    outbound: Ipv4PacketFields,
    sent: Ipv4PacketFields,
    reply: Ipv4PacketFields,
    action: NatAction,
)
    requires
        n0.spec_udp_map().consistent(),
        n0.spec_tcp_map().consistent(),
        Ipv4Nat::outgoing_post(&n0, &n1, outbound, NatAction::SendPublic(sent)),
        reply.payload.has_ports(),
        reply.payload.is_tcp() == outbound.payload.is_tcp(),
        reply.fields.source_ip == sent.fields.dest_ip,
        reply.fields.dest_ip == sent.fields.source_ip,
        reply.payload.spec_source_port() == sent.payload.spec_dest_port(),
        reply.payload.spec_dest_port() == sent.payload.spec_source_port(),
        reply.fields.ttl > 0,
        !n1.spec_blacklist().contains(
            socket_key(
                SocketAddrV4 { ip: reply.fields.source_ip, port: reply.payload.spec_source_port() },
            ),
        ),
        Ipv4Nat::incoming_post(&n1, &n2, reply, action),
    ensures
        action == NatAction::SendPrivate(
            Ipv4PacketFields {
                fields: Ipv4Fields {
                    source_ip: reply.fields.source_ip,
                    dest_ip: outbound.fields.source_ip,
                    ttl: (reply.fields.ttl - 1) as u8,
                },
                payload: reply.payload.spec_with_ports(
                    reply.payload.spec_source_port(),
                    outbound.payload.spec_source_port(),
                ),
            },
        ),
{
    let f = outbound.fields;
    let pl = outbound.payload;
    let tcp = pl.is_tcp();
    let source = SocketAddrV4 { ip: f.source_ip, port: pl.spec_source_port() };
    let remote = SocketAddrV4 { ip: f.dest_ip, port: pl.spec_dest_port() };
    let old_map = n0.spec_map_for(tcp);
    let new_map = n1.spec_map_for(tcp);
    let mapped = new_map.spec_assigned_port(remote, source)->0;
    assert(old_map.consistent());
    lemma_map_port_round_trip(old_map, new_map, remote, source, mapped);
    assert(sent.payload.spec_source_port() == mapped);
    assert(reply.fields.source_ip == remote.ip);
}

} // verus!
