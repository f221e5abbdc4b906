use netsim::{Ipv4Addr, Ipv4Network, Ipv4Route, SocketAddrV4};

#[test]
fn ipv4_address_octets_round_trip() {
    let addr = Ipv4Addr::new(192, 168, 1, 20);
    assert_eq!(addr.to_u32(), 0xc0a8_0114);
    assert_eq!(addr.octets(), [192, 168, 1, 20]);
    assert_eq!(Ipv4Addr::from_octets([192, 168, 1, 20]), addr);
    assert_eq!(Ipv4Addr::from_u32(0xc0a8_0114), addr);
    assert_eq!(Ipv4Addr::broadcast().to_u32(), 0xffff_ffff);
    assert_eq!(Ipv4Addr::unspecified().to_u32(), 0);
}

#[test]
fn global_addresses() {
    assert!(Ipv4Addr::new(8, 8, 8, 8).is_global());
    assert!(!Ipv4Addr::new(10, 1, 2, 3).is_global());
    assert!(!Ipv4Addr::new(172, 20, 0, 1).is_global());
    assert!(Ipv4Addr::new(172, 32, 0, 1).is_global());
    assert!(!Ipv4Addr::new(192, 168, 0, 1).is_global());
    assert!(!Ipv4Addr::new(127, 0, 0, 1).is_global());
    assert!(!Ipv4Addr::new(169, 254, 3, 3).is_global());
    assert!(!Ipv4Addr::new(224, 0, 0, 1).is_global());
    assert!(!Ipv4Addr::new(240, 0, 0, 1).is_global());
    assert!(!Ipv4Addr::new(198, 51, 100, 1).is_global());
    assert!(!Ipv4Addr::new(0, 0, 0, 0).is_global());
    for _ in 0..100 {
        assert!(Ipv4Addr::random_global().is_global());
    }
}

#[test]
fn networks_contain_and_broadcast() {
    let net = Ipv4Network::new(Ipv4Addr::new(192, 168, 1, 0), 24);
    assert!(net.contains(Ipv4Addr::new(192, 168, 1, 77)));
    assert!(!net.contains(Ipv4Addr::new(192, 168, 2, 77)));
    assert_eq!(net.netmask(), Ipv4Addr::new(255, 255, 255, 0));
    assert_eq!(net.broadcast_address(), Ipv4Addr::new(192, 168, 1, 255));
    assert!(net.is_broadcast(Ipv4Addr::new(192, 168, 1, 255)));
    assert!(net.is_broadcast(Ipv4Addr::new(255, 255, 255, 255)));
    assert!(!net.is_broadcast(Ipv4Addr::new(192, 168, 1, 254)));
    let everything = Ipv4Network::new(Ipv4Addr::new(0, 0, 0, 0), 0);
    assert!(everything.contains(Ipv4Addr::new(1, 2, 3, 4)));
    let route = Ipv4Route::new(net, Some(Ipv4Addr::new(192, 168, 1, 1)));
    assert_eq!(route.destination(), net);
    assert_eq!(route.gateway(), Some(Ipv4Addr::new(192, 168, 1, 1)));
}

#[test]
fn random_subnets_and_client_addresses() {
    for _ in 0..100 {
        let subnet = Ipv4Network::random_local_subnet();
        assert_eq!(subnet.subnet_mask_bits(), 24);
        assert_eq!(subnet.base_addr().octets()[0], 10);
        assert_eq!(subnet.base_addr().octets()[3], 0);
        let client = subnet.random_client_addr();
        assert!(subnet.contains(client));
        assert_ne!(client.octets()[3], 0);
        assert_ne!(client.octets()[3], 255);
    }
}

#[test]
fn socket_addresses() {
    let addr = SocketAddrV4::new(Ipv4Addr::new(1, 2, 3, 4), 80);
    assert_eq!(addr.ip(), Ipv4Addr::new(1, 2, 3, 4));
    assert_eq!(addr.port(), 80);
    assert_eq!(addr.key(), 0x0102_0304_0050);
}
