//! Settings for TAP (Ethernet-level) interfaces.

use vstd::prelude::*;
use crate::addr::Ipv4Addr;
use crate::network::Ipv4Route;
use crate::iface::setup::{IfaceBuilder, IfaceBuildError, check_name, name_check_result};

verus! {

/// The settings of a TAP interface before it is created.
#[derive(Debug)]
pub struct EtherIfaceBuilder {
    builder: IfaceBuilder,
}

impl EtherIfaceBuilder {
    /// The interface name.
    pub closed spec fn spec_name(&self) -> Seq<char> {
        self.builder.name@
    }

    /// The interface address.
    pub closed spec fn spec_address(&self) -> Ipv4Addr {
        self.builder.address
    }

    /// The interface netmask.
    pub closed spec fn spec_netmask(&self) -> Ipv4Addr {
        self.builder.netmask
    }

    /// The routes to be directed through the interface, in the order they were added.
    pub closed spec fn spec_routes(&self) -> Seq<Ipv4Route> {
        self.builder.routes@
    }

    /// Starts with the default settings: the name `netsim`, address and netmask `0.0.0.0`, and
    /// no routes.
    pub fn new() -> (builder: EtherIfaceBuilder)
        ensures
            builder.spec_name() == "netsim"@,
            builder.spec_address().bits == 0,
            builder.spec_netmask().bits == 0,
            builder.spec_routes() == Seq::<Ipv4Route>::empty(),
    {
        EtherIfaceBuilder {
            builder: IfaceBuilder {
                name: "netsim".to_owned(),
                address: Ipv4Addr::unspecified(),
                netmask: Ipv4Addr::unspecified(),
                routes: Vec::new(),
            },
        }
    }

    /// Sets the interface name.
    pub fn name(self, name: &str) -> (builder: EtherIfaceBuilder)
        ensures
            builder.spec_name() == name@,
            builder.spec_address() == self.spec_address(),
            builder.spec_netmask() == self.spec_netmask(),
            builder.spec_routes() == self.spec_routes(),
    {
        let mut builder = self.builder;
        builder.name = name.to_owned();
        EtherIfaceBuilder { builder }
    }

    /// Sets the interface address.
    pub fn address(self, address: Ipv4Addr) -> (builder: EtherIfaceBuilder)
        ensures
            builder.spec_name() == self.spec_name(),
            builder.spec_address() == address,
            builder.spec_netmask() == self.spec_netmask(),
            builder.spec_routes() == self.spec_routes(),
    {
        let mut builder = self.builder;
        builder.address = address;
        EtherIfaceBuilder { builder }
    }

    /// Sets the interface netmask.
    pub fn netmask(self, netmask: Ipv4Addr) -> (builder: EtherIfaceBuilder)
        ensures
            builder.spec_name() == self.spec_name(),
            builder.spec_address() == self.spec_address(),
            builder.spec_netmask() == netmask,
            builder.spec_routes() == self.spec_routes(),
    {
        let mut builder = self.builder;
        builder.netmask = netmask;
        EtherIfaceBuilder { builder }
    }

    /// Adds a route to be created and directed through the interface.
    pub fn route(self, route: Ipv4Route) -> (builder: EtherIfaceBuilder)
        ensures
            builder.spec_name() == self.spec_name(),
            builder.spec_address() == self.spec_address(),
            builder.spec_netmask() == self.spec_netmask(),
            builder.spec_routes() == self.spec_routes().push(route),
    {
        let mut builder = self.builder;
        builder.routes.push(route);
        EtherIfaceBuilder { builder }
    }

    /// Checks the settings and hands them over for creating the device: the name must pass
    /// `check_name`, whose error is returned otherwise.
    pub fn build_unbound(self) -> (res: Result<UnboundEtherIface, IfaceBuildError>)
        ensures
            match name_check_result(self.spec_name()) {
                Ok(()) => res matches Ok(iface) && iface.spec_name() == self.spec_name()
                    && iface.spec_address() == self.spec_address() && iface.spec_netmask()
                    == self.spec_netmask() && iface.spec_routes() == self.spec_routes(),
                Err(e) => res == Err::<UnboundEtherIface, IfaceBuildError>(e),
            },
    {
        match check_name(self.builder.name.as_str()) {
            Ok(()) => Ok(UnboundEtherIface { config: self.builder }),
            Err(e) => Err(e),
        }
    }
}

/// The checked settings of a TAP interface that is ready to be created.
#[derive(Debug)]
pub struct UnboundEtherIface {
    config: IfaceBuilder,
}

impl UnboundEtherIface {
    /// The interface name.
    pub closed spec fn spec_name(&self) -> Seq<char> {
        self.config.name@
    }

    /// The interface address.
    pub closed spec fn spec_address(&self) -> Ipv4Addr {
        self.config.address
    }

    /// The interface netmask.
    pub closed spec fn spec_netmask(&self) -> Ipv4Addr {
        self.config.netmask
    }

    /// The routes to be directed through the interface.
    pub closed spec fn spec_routes(&self) -> Seq<Ipv4Route> {
        self.config.routes@
    }

    /// The settings, for the code that creates the device.
    pub fn into_config(self) -> (config: IfaceBuilder)
        ensures
            config.name@ == self.spec_name(),
            config.address == self.spec_address(),
            config.netmask == self.spec_netmask(),
            config.routes@ == self.spec_routes(),
    {
        self.config
    }
}

} // verus!
