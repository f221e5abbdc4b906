//! IPv4 networks (address ranges in CIDR form) and routes.

use vstd::prelude::*;
use crate::addr::{Ipv4Addr, Ipv6Addr, octets_to_u32};
use crate::random::{random_u16, random_u32};

verus! {

/// The netmask of a prefix of `bits` bits: the top `bits` bits set (all of them past 32).
pub open spec fn spec_netmask(bits: u8) -> u32 {
    if bits >= 32 {
        0xffff_ffffu32
    } else {
        !(0xffff_ffffu32 >> bits)
    }
}

/// `a` and `b` agree on their top `bits` bits. No address has more than 32 bits, so a prefix
/// longer than that matches nothing.
pub open spec fn prefix_match(a: u32, b: u32, bits: u8) -> bool {
    if bits == 0 {
        true
    } else if bits > 32 {
        false
    } else {
        a >> ((32 - bits) as u32) == b >> ((32 - bits) as u32)
    }
}

/// For prefixes of at most 32 bits, sharing the prefix is the same as agreeing under the netmask.
pub proof fn lemma_prefix_match_is_masked_equality(a: u32, b: u32, bits: u8)
    requires
        bits <= 32,
    ensures
        prefix_match(a, b, bits) <==> (a & spec_netmask(bits)) == (b & spec_netmask(bits)),
{
    if bits == 0 {
        assert((a & !(0xffff_ffffu32 >> 0u8)) == 0u32) by (bit_vector);
        assert((b & !(0xffff_ffffu32 >> 0u8)) == 0u32) by (bit_vector);
    } else if bits == 32 {
        assert(a >> 0u32 == a && b >> 0u32 == b) by (bit_vector);
        assert((a & 0xffff_ffffu32) == a && (b & 0xffff_ffffu32) == b) by (bit_vector);
    } else {
        let s: u32 = (32 - bits) as u32;
        assert(1 <= bits < 32 && s == 32 - bits ==> ((a >> s == b >> s) <==> (a & !(
        0xffff_ffffu32 >> bits)) == (b & !(0xffff_ffffu32 >> bits)))) by (bit_vector);
    }
}

/// The netmask of a prefix of `bits` bits (see `spec_netmask`).
pub fn netmask_bits_to_u32(bits: u8) -> (mask: u32)
    ensures
        mask == spec_netmask(bits),
{
    if bits >= 32 {
        0xffff_ffffu32
    } else {
        !(0xffff_ffffu32 >> bits)
    }
}

/// A range of IPv4 addresses: a base address and the number of leading bits that every address
/// of the range shares with it.
#[derive(Clone, Copy, Debug, PartialEq, Eq, Structural, Hash)]
pub struct Ipv4Network {
    pub base_addr: Ipv4Addr,
    pub subnet_mask_bits: u8,
}

/// The older name of `Ipv4Network`.
pub type Ipv4Range = Ipv4Network;

impl Ipv4Network {
    /// `addr` lies in this network.
    pub open spec fn spec_contains(self, addr: u32) -> bool {
        prefix_match(self.base_addr.bits, addr, self.subnet_mask_bits)
    }

    /// The directed broadcast address of this network: the base with every host bit set.
    pub open spec fn spec_broadcast_address(self) -> u32 {
        self.base_addr.bits | !spec_netmask(self.subnet_mask_bits)
    }

    /// `addr` is a broadcast address for this network: either the limited broadcast address or
    /// the network's directed broadcast address.
    pub open spec fn spec_is_broadcast(self, addr: u32) -> bool {
        addr == 0xffff_ffffu32 || addr == self.spec_broadcast_address()
    }

    /// The network of the addresses that share their first `subnet_mask_bits` bits with
    /// `base_addr`.
    pub fn new(base_addr: Ipv4Addr, subnet_mask_bits: u8) -> (network: Ipv4Network)
        ensures
            network.base_addr == base_addr,
            network.subnet_mask_bits == subnet_mask_bits,
    {
        Ipv4Network { base_addr, subnet_mask_bits }
    }

    /// A random private `/24` network inside `10.0.0.0/8`: `10.x.y.0/24` for random `x` and
    /// `y`.
    pub fn random_local_subnet() -> (network: Ipv4Network)
        ensures
            network.subnet_mask_bits == 24,
            exists|x: u8, y: u8| network.base_addr.bits == octets_to_u32(10, x, y, 0),
    {
        let r = random_u16();
        let x = (r / 256) as u8;
        let y = (r % 256) as u8;
        let network = Ipv4Network { base_addr: Ipv4Addr::new(10, x, y, 0), subnet_mask_bits: 24 };
        assert(network.base_addr.bits == octets_to_u32(10, x, y, 0));
        network
    }

    /// The base address the network was made with.
    pub fn base_addr(&self) -> (addr: Ipv4Addr)
        ensures
            addr == self.base_addr,
    {
        self.base_addr
    }

    /// The length of the network's prefix.
    pub fn subnet_mask_bits(&self) -> (bits: u8)
        ensures
            bits == self.subnet_mask_bits,
    {
        self.subnet_mask_bits
    }

    /// The network's netmask.
    pub fn netmask(&self) -> (mask: Ipv4Addr)
        ensures
            mask.bits == spec_netmask(self.subnet_mask_bits),
    {
        Ipv4Addr::from_u32(netmask_bits_to_u32(self.subnet_mask_bits))
    }

    /// Whether `addr` lies in this network.
    pub fn contains(&self, addr: Ipv4Addr) -> (res: bool)
        ensures
            res == self.spec_contains(addr.bits),
    {
        let bits = self.subnet_mask_bits;
        if bits == 0 {
            true
        } else if bits > 32 {
            false
        } else {
            let shift: u32 = (32 - bits) as u32;
            (self.base_addr.bits >> shift) == (addr.bits >> shift)
        }
    }

    /// The network's directed broadcast address.
    pub fn broadcast_address(&self) -> (addr: Ipv4Addr)
        ensures
            addr.bits == self.spec_broadcast_address(),
    {
        Ipv4Addr::from_u32(self.base_addr.bits | !netmask_bits_to_u32(self.subnet_mask_bits))
    }

    /// Whether `addr` is a broadcast address for this network (see `spec_is_broadcast`).
    pub fn is_broadcast(&self, addr: Ipv4Addr) -> (res: bool)
        ensures
            res == self.spec_is_broadcast(addr.bits),
    {
        addr.bits == 0xffff_ffffu32 || addr.bits == self.broadcast_address().bits
    }

    /// A random host address of the network: neither the network's own address (host part
    /// all zeros) nor its directed broadcast address (host part all ones). A drawn host part
    /// of all zeros becomes 1, and one of all ones loses its lowest bit.
    pub fn random_client_addr(&self) -> (addr: Ipv4Addr)
        requires
            self.subnet_mask_bits <= 30,
        ensures
            self.spec_contains(addr.bits),
            addr.bits & !spec_netmask(self.subnet_mask_bits) != 0,
            addr.bits & !spec_netmask(self.subnet_mask_bits) != !spec_netmask(self.subnet_mask_bits),
    {
        let bits = self.subnet_mask_bits;
        let mask = netmask_bits_to_u32(bits);
        let host_mask = !mask;
        let r = random_u32();
        let drawn = r & host_mask;
        assert(drawn == r & host_mask && host_mask == !mask ==> drawn & mask == 0) by (bit_vector);
        let host = if drawn == 0 {
            1u32
        } else if drawn == host_mask {
            host_mask - 1
        } else {
            drawn
        };
        let base = self.base_addr.bits;
        let addr = (base & mask) | host;
        assert(bits <= 30 && mask == !(0xffff_ffffu32 >> bits) && host_mask == !mask ==> host_mask >= 3
            && host_mask & 1 == 1 && ((host_mask - 1) as u32) & mask == 0 && 1u32 & mask == 0) by (bit_vector);
        assert(host & mask == 0 && addr == (base & mask) | host && host_mask == !mask ==> (addr & mask
            == base & mask && addr & host_mask == host)) by (bit_vector);
        proof {
            lemma_prefix_match_is_masked_equality(base, addr, bits);
        }
        Ipv4Addr::from_u32(addr)
    }
}

/// A network whose prefix is at most 32 bits contains its own base address and its directed
/// broadcast address.
pub proof fn lemma_network_contains_ends(network: Ipv4Network)
    requires
        network.subnet_mask_bits <= 32,
    ensures
        network.spec_contains(network.base_addr.bits),
        network.spec_contains(network.spec_broadcast_address()),
{
    let a = network.base_addr.bits;
    let bits = network.subnet_mask_bits;
    if bits <= 32 {
        let m = spec_netmask(bits);
        assert((a & m) == ((a | !m) & m)) by (bit_vector);
        lemma_prefix_match_is_masked_equality(a, a | !m, bits);
    }
}

/// A route: the network it leads to and, optionally, the gateway to forward through.
#[derive(Clone, Copy, Debug, PartialEq, Eq, Structural, Hash)]
pub struct Ipv4Route {
    pub destination: Ipv4Network,
    pub gateway: Option<Ipv4Addr>,
}

impl Ipv4Route {
    /// A route to `destination`, through `gateway` if one is given.
    pub fn new(destination: Ipv4Network, gateway: Option<Ipv4Addr>) -> (route: Ipv4Route)
        ensures
            route.destination == destination,
            route.gateway == gateway,
    {
        Ipv4Route { destination, gateway }
    }

    /// The network the route leads to.
    pub fn destination(&self) -> (network: Ipv4Network)
        ensures
            network == self.destination,
    {
        self.destination
    }

    /// The gateway of the route, if any.
    pub fn gateway(&self) -> (gateway: Option<Ipv4Addr>)
        ensures
            gateway == self.gateway,
    {
        self.gateway
    }
}

/// A range of IPv6 addresses: a base address and the number of leading bits that every address
/// of the range shares with it.
#[derive(Clone, Copy, Debug, PartialEq, Eq, Hash)]
pub struct Ipv6Network {
    pub base_addr: Ipv6Addr,
    pub subnet_mask_bits: u8,
}

impl Ipv6Network {
    /// The network of the addresses that share their first `subnet_mask_bits` bits with
    /// `base_addr`.
    pub fn new(base_addr: Ipv6Addr, subnet_mask_bits: u8) -> (network: Ipv6Network)
        ensures
            network.base_addr == base_addr,
            network.subnet_mask_bits == subnet_mask_bits,
    {
        Ipv6Network { base_addr, subnet_mask_bits }
    }

    /// The base address the network was made with.
    pub fn base_addr(&self) -> (addr: Ipv6Addr)
        ensures
            addr == self.base_addr,
    {
        self.base_addr
    }

    /// The number of bits of the network's prefix.
    pub fn subnet_mask_bits(&self) -> (bits: u8)
        ensures
            bits == self.subnet_mask_bits,
    {
        self.subnet_mask_bits
    }
}

} // verus!
