use netsim::iface::configure::{
    ack_result, classify_netlink_reply, ipv4_netmask, ipv6_netmask, netlink_ack_layout, netlink_addr_layout, round_up,
    NetlinkReply, NLMSG_ERROR, NLMSG_NOOP,
};
use netsim::iface::{EtherIfaceBuilder, IfaceBuildError, IpIfaceBuilder};
use netsim::network::{Ipv4Network, Ipv4Route, Ipv6Network};
use netsim::{Ipv4Addr, Ipv6Addr};

#[test]
fn build_tap_name_contains_nul() {
    let tap_builder = {
        EtherIfaceBuilder::new()
            .address(Ipv4Addr::random_global())
            .name("hello\0")
    };
    let res = tap_builder.build_unbound();
    match res {
        Err(IfaceBuildError::NameContainsNul) => (),
        x => panic!("unexpected result: {:?}", x),
    }
}

#[test]
fn build_tap_name_too_long() {
    // 16 bytes of name leave no room for the terminating NUL.
    let res = EtherIfaceBuilder::new().name("abcdefghijklmnop").build_unbound();
    match res {
        Err(IfaceBuildError::NameTooLong) => (),
        x => panic!("unexpected result: {:?}", x),
    }
}

#[test]
fn build_tap_longest_name_fits() {
    let address = Ipv4Addr::new(10, 0, 0, 2);
    let netmask = Ipv4Addr::new(255, 255, 255, 0);
    let route = Ipv4Route::new(Ipv4Network::new(Ipv4Addr::new(0, 0, 0, 0), 0), None);
    let res = EtherIfaceBuilder::new()
        .name("abcdefghijklmno")
        .address(address)
        .netmask(netmask)
        .route(route)
        .build_unbound();
    let config = match res {
        Ok(iface) => iface.into_config(),
        Err(e) => panic!("unexpected error: {:?}", e),
    };
    assert_eq!(config.name, "abcdefghijklmno");
    assert_eq!(config.address, address);
    assert_eq!(config.netmask, netmask);
    assert_eq!(config.routes, vec![route]);
}

#[test]
fn build_tap_nul_wins_over_length() {
    let res = EtherIfaceBuilder::new().name("a\0cdefghijklmnopqrstuvwxyz").build_unbound();
    match res {
        Err(IfaceBuildError::NameContainsNul) => (),
        x => panic!("unexpected result: {:?}", x),
    }
}

#[test]
fn build_tap_default_settings() {
    let config = match EtherIfaceBuilder::new().build_unbound() {
        Ok(iface) => iface.into_config(),
        Err(e) => panic!("unexpected error: {:?}", e),
    };
    assert_eq!(config.name, "netsim");
    assert_eq!(config.address, Ipv4Addr::new(0, 0, 0, 0));
    assert_eq!(config.netmask, Ipv4Addr::new(0, 0, 0, 0));
    assert!(config.routes.is_empty());
}

#[test]
fn build_tun_checks_name() {
    let res = IpIfaceBuilder::new().name("tun\0").build_unbound();
    assert!(matches!(res, Err(IfaceBuildError::NameContainsNul)));
    let res = IpIfaceBuilder::new().name("a-much-too-long-name").build_unbound();
    assert!(matches!(res, Err(IfaceBuildError::NameTooLong)));
    let built = IpIfaceBuilder::new()
        .name("tun0")
        .ipv4_addr(Ipv4Addr::new(10, 1, 2, 3), 16)
        .build_unbound();
    match built {
        Ok(builder) => {
            assert_eq!(builder.name, "tun0");
            assert_eq!(builder.ipv4_addr, Some((Ipv4Addr::new(10, 1, 2, 3), 16)));
            assert!(builder.ipv6_addr.is_none());
        }
        Err(e) => panic!("unexpected error: {:?}", e),
    }
}

#[test]
fn round_up_to_multiples() {
    assert_eq!(round_up(16, 4), 16);
    assert_eq!(round_up(17, 4), 20);
    assert_eq!(round_up(0, 8), 0);
    assert_eq!(round_up(9, 8), 16);
}

#[test]
fn ipv4_netmask_of_prefixes() {
    assert_eq!(ipv4_netmask(24), 0xffff_ff00);
    assert_eq!(ipv4_netmask(32), 0xffff_ffff);
    assert_eq!(ipv4_netmask(0), 0);
    assert_eq!(ipv4_netmask(9), 0xff80_0000);
}

#[test]
fn netlink_layout_of_address_request() {
    // nlmsghdr is 16 bytes, ifaddrmsg 8, rtattr 4 and an IPv6 address 16.
    let layout = netlink_addr_layout(16, 8, 4, 16);
    assert_eq!(layout.data_start, 16);
    assert_eq!(layout.data_end, 24);
    assert_eq!(layout.attr_header_start, 24);
    assert_eq!(layout.attr_data_start, 28);
    assert_eq!(layout.total_size, 44);
    let unaligned = netlink_addr_layout(15, 7, 3, 16);
    assert_eq!(unaligned.data_start, 16);
    assert_eq!(unaligned.attr_header_start, 24);
    assert_eq!(unaligned.attr_data_start, 28);
    assert_eq!(netlink_ack_layout(16, 20), (16, 36));
}

#[test]
fn build_tun_default_and_gateway_routes() {
    let gateway = Ipv4Addr::new(10, 0, 0, 1);
    let subnet = Ipv4Network::new(Ipv4Addr::new(192, 168, 0, 0), 16);
    let builder = IpIfaceBuilder::new()
        .ipv4_default_route()
        .ipv4_default_route_with_gateway(gateway)
        .ipv4_route_with_gateway(subnet, gateway);
    let default = Ipv4Network::new(Ipv4Addr::unspecified(), 0);
    assert_eq!(
        builder.ipv4_routes,
        vec![
            Ipv4Route::new(default, None),
            Ipv4Route::new(default, Some(gateway)),
            Ipv4Route::new(subnet, Some(gateway)),
        ]
    );
    assert_eq!(builder.name, "netsim");
    assert!(builder.ipv4_addr.is_none());
}

#[test]
fn build_tun_ipv6_routes() {
    let mut hop_octets = [0u8; 16];
    hop_octets[0] = 0xfe;
    hop_octets[1] = 0x80;
    hop_octets[15] = 1;
    let next_hop = Ipv6Addr::from_octets(hop_octets);
    let mut base = [0u8; 16];
    base[0] = 0x20;
    base[1] = 0x01;
    base[2] = 0x0d;
    base[3] = 0xb8;
    let network = Ipv6Network::new(Ipv6Addr::from_octets(base), 32);
    let builder = IpIfaceBuilder::new().ipv6_route(network, next_hop).ipv6_default_route(next_hop);
    assert_eq!(builder.ipv6_routes.len(), 2);
    assert_eq!(builder.ipv6_routes[0], (network, next_hop));
    assert_eq!(builder.ipv6_routes[1], (Ipv6Network::new(Ipv6Addr::unspecified(), 0), next_hop));
    assert!(builder.ipv4_routes.is_empty());
}

#[test]
fn ipv6_netmask_of_prefixes() {
    assert_eq!(ipv6_netmask(0), 0);
    assert_eq!(ipv6_netmask(1), 1u128 << 127);
    assert_eq!(ipv6_netmask(64), 0xffff_ffff_ffff_ffff_0000_0000_0000_0000);
    assert_eq!(ipv6_netmask(127), !1u128);
    assert_eq!(ipv6_netmask(128), u128::MAX);
    assert_eq!(ipv6_netmask(200), u128::MAX);
}

#[test]
fn netlink_replies_are_classified() {
    // A 16-byte header and a 36-byte acknowledgement.
    assert_eq!(classify_netlink_reply(15, 16, NLMSG_ERROR, 36), NetlinkReply::TooShort);
    assert_eq!(classify_netlink_reply(16, 16, NLMSG_NOOP, 36), NetlinkReply::Noop);
    assert_eq!(classify_netlink_reply(36, 16, 20, 36), NetlinkReply::Unexpected);
    assert_eq!(classify_netlink_reply(20, 16, NLMSG_ERROR, 36), NetlinkReply::Unexpected);
    assert_eq!(classify_netlink_reply(36, 16, NLMSG_ERROR, 36), NetlinkReply::Ack);
}

#[test]
fn netlink_ack_reports_the_error_number() {
    assert_eq!(ack_result(0), Ok(()));
    assert_eq!(ack_result(-1), Err(1));
    assert_eq!(ack_result(-99), Err(99));
}
