//! Settings for TUN (IP-level) interfaces.

use vstd::prelude::*;
use crate::addr::{Ipv4Addr, Ipv6Addr};
use crate::network::{Ipv4Network, Ipv4Route, Ipv6Network};
use crate::iface::setup::{IfaceBuildError, check_name, name_check_result};

verus! {

/// The settings of a TUN interface before it is created: its name, its IPv4 and IPv6
/// addresses with their prefix lengths, its IPv4 routes, and its IPv6 routes with their next
/// hops.
#[derive(Debug)]
pub struct IpIfaceBuilder {
    pub name: String,
    pub ipv4_addr: Option<(Ipv4Addr, u8)>,
    pub ipv6_addr: Option<(Ipv6Addr, u8)>,
    pub ipv4_routes: Vec<Ipv4Route>,
    pub ipv6_routes: Vec<(Ipv6Network, Ipv6Addr)>,
}

impl IpIfaceBuilder {
    /// Starts with the default settings: the name `netsim`, no addresses and no routes.
    pub fn new() -> (builder: IpIfaceBuilder)
        ensures
            builder.name@ == "netsim"@,
            builder.ipv4_addr is None,
            builder.ipv6_addr is None,
            builder.ipv4_routes@ == Seq::<Ipv4Route>::empty(),
            builder.ipv6_routes@ == Seq::<(Ipv6Network, Ipv6Addr)>::empty(),
    {
        IpIfaceBuilder {
            name: "netsim".to_owned(),
            ipv4_addr: None,
            ipv6_addr: None,
            ipv4_routes: Vec::new(),
            ipv6_routes: Vec::new(),
        }
    }

    /// Sets the interface name.
    pub fn name(self, name: &str) -> (builder: IpIfaceBuilder)
        ensures
            builder.name@ == name@,
            builder.ipv4_addr == self.ipv4_addr,
            builder.ipv6_addr == self.ipv6_addr,
            builder.ipv4_routes@ == self.ipv4_routes@,
            builder.ipv6_routes@ == self.ipv6_routes@,
    {
        IpIfaceBuilder { name: name.to_owned(), ..self }
    }

    /// Sets the interface's IPv4 address and prefix length.
    pub fn ipv4_addr(self, addr: Ipv4Addr, netmask_bits: u8) -> (builder: IpIfaceBuilder)
        ensures
            builder.name@ == self.name@,
            builder.ipv4_addr == Some((addr, netmask_bits)),
            builder.ipv6_addr == self.ipv6_addr,
            builder.ipv4_routes@ == self.ipv4_routes@,
            builder.ipv6_routes@ == self.ipv6_routes@,
    {
        IpIfaceBuilder { ipv4_addr: Some((addr, netmask_bits)), ..self }
    }

    /// Sets the interface's IPv6 address and prefix length.
    pub fn ipv6_addr(self, addr: Ipv6Addr, netmask_bits: u8) -> (builder: IpIfaceBuilder)
        ensures
            builder.name@ == self.name@,
            builder.ipv4_addr == self.ipv4_addr,
            builder.ipv6_addr == Some((addr, netmask_bits)),
            builder.ipv4_routes@ == self.ipv4_routes@,
            builder.ipv6_routes@ == self.ipv6_routes@,
    {
        IpIfaceBuilder { ipv6_addr: Some((addr, netmask_bits)), ..self }
    }

    /// Adds an IPv4 route through the interface.
    pub fn ipv4_route(self, route: Ipv4Route) -> (builder: IpIfaceBuilder)
        ensures
            builder.name@ == self.name@,
            builder.ipv4_addr == self.ipv4_addr,
            builder.ipv6_addr == self.ipv6_addr,
            builder.ipv6_routes@ == self.ipv6_routes@,
            builder.ipv4_routes@ == self.ipv4_routes@.push(route),
    {
        let mut routes = self.ipv4_routes;
        routes.push(route);
        IpIfaceBuilder { ipv4_routes: routes, ..self }
    }

    /// Adds an IPv4 route to `destination` that forwards through `gateway`.
    pub fn ipv4_route_with_gateway(self, destination: Ipv4Network, gateway: Ipv4Addr) -> (builder: IpIfaceBuilder)
        ensures
            builder.name@ == self.name@,
            builder.ipv4_addr == self.ipv4_addr,
            builder.ipv6_addr == self.ipv6_addr,
            builder.ipv6_routes@ == self.ipv6_routes@,
            builder.ipv4_routes@ == self.ipv4_routes@.push(Ipv4Route { destination, gateway: Some(gateway) }),
    {
        self.ipv4_route(Ipv4Route::new(destination, Some(gateway)))
    }

    /// Adds the default IPv4 route, `0.0.0.0/0`, through the interface.
    pub fn ipv4_default_route(self) -> (builder: IpIfaceBuilder)
        ensures
            builder.name@ == self.name@,
            builder.ipv4_addr == self.ipv4_addr,
            builder.ipv6_addr == self.ipv6_addr,
            builder.ipv6_routes@ == self.ipv6_routes@,
            builder.ipv4_routes@ == self.ipv4_routes@.push(
                Ipv4Route { destination: Ipv4Network { base_addr: Ipv4Addr { bits: 0 }, subnet_mask_bits: 0 }, gateway: None },
            ),
    {
        self.ipv4_route(Ipv4Route::new(Ipv4Network::new(Ipv4Addr::unspecified(), 0), None))
    }

    /// Adds the default IPv4 route, `0.0.0.0/0`, forwarding through `gateway`.
    pub fn ipv4_default_route_with_gateway(self, gateway: Ipv4Addr) -> (builder: IpIfaceBuilder)
        ensures
            builder.name@ == self.name@,
            builder.ipv4_addr == self.ipv4_addr,
            builder.ipv6_addr == self.ipv6_addr,
            builder.ipv6_routes@ == self.ipv6_routes@,
            builder.ipv4_routes@ == self.ipv4_routes@.push(
                Ipv4Route {
                    destination: Ipv4Network { base_addr: Ipv4Addr { bits: 0 }, subnet_mask_bits: 0 },
                    gateway: Some(gateway),
                },
            ),
    {
        self.ipv4_route_with_gateway(Ipv4Network::new(Ipv4Addr::unspecified(), 0), gateway)
    }

    /// Adds an IPv6 route to `destination` through the interface, via `next_hop`.
    pub fn ipv6_route(self, destination: Ipv6Network, next_hop: Ipv6Addr) -> (builder: IpIfaceBuilder)
        ensures
            builder.name@ == self.name@,
            builder.ipv4_addr == self.ipv4_addr,
            builder.ipv6_addr == self.ipv6_addr,
            builder.ipv4_routes@ == self.ipv4_routes@,
            builder.ipv6_routes@ == self.ipv6_routes@.push((destination, next_hop)),
    {
        let mut routes = self.ipv6_routes;
        routes.push((destination, next_hop));
        IpIfaceBuilder { ipv6_routes: routes, ..self }
    }

    /// Adds the default IPv6 route, `::/0`, via `next_hop`.
    pub fn ipv6_default_route(self, next_hop: Ipv6Addr) -> (builder: IpIfaceBuilder)
        ensures
            builder.name@ == self.name@,
            builder.ipv4_addr == self.ipv4_addr,
            builder.ipv6_addr == self.ipv6_addr,
            builder.ipv4_routes@ == self.ipv4_routes@,
            builder.ipv6_routes@.len() == self.ipv6_routes@.len() + 1,
            builder.ipv6_routes@.drop_last() == self.ipv6_routes@,
            builder.ipv6_routes@.last().0.base_addr.octets@ == Seq::new(16, |i: int| 0u8),
            builder.ipv6_routes@.last().0.subnet_mask_bits == 0,
            builder.ipv6_routes@.last().1 == next_hop,
    {
        self.ipv6_route(Ipv6Network::new(Ipv6Addr::unspecified(), 0), next_hop)
    }

    /// Checks the name (see `check_name`) and hands the settings over for creating the
    /// device, or returns the check's error.
    pub fn build_unbound(self) -> (res: Result<IpIfaceBuilder, IfaceBuildError>)
        ensures
            match name_check_result(self.name@) {
                Ok(()) => res matches Ok(b) && b.name@ == self.name@ && b.ipv4_addr == self.ipv4_addr
                    && b.ipv6_addr == self.ipv6_addr && b.ipv4_routes@ == self.ipv4_routes@
                    && b.ipv6_routes@ == self.ipv6_routes@,
                Err(e) => res == Err::<IpIfaceBuilder, IfaceBuildError>(e),
            },
    {
        match check_name(self.name.as_str()) {
            Ok(()) => Ok(self),
            Err(e) => Err(e),
        }
    }
}

} // verus!
