use netsim::device::ipv4::ipv4_nat::{Ipv4Nat, Ipv4NatBuilder, NatAction, PortMap};
use netsim::ipv4::{Ipv4Fields, Ipv4PacketFields, Ipv4PayloadFields, UdpFields, TcpFields};
use netsim::{Ipv4Addr, Ipv4Range, SocketAddrV4};

fn udp_packet(source: SocketAddrV4, dest: SocketAddrV4, ttl: u8, payload: Vec<u8>) -> Ipv4PacketFields {
    Ipv4PacketFields {
        fields: Ipv4Fields { source_ip: source.ip(), dest_ip: dest.ip(), ttl },
        payload: Ipv4PayloadFields::Udp {
            fields: UdpFields { source_port: source.port(), dest_port: dest.port() },
            payload,
        },
    }
}

fn udp_parts(packet: &Ipv4PacketFields) -> (u16, u16, Vec<u8>) {
    match &packet.payload {
        Ipv4PayloadFields::Udp { fields, payload } => (fields.source_port, fields.dest_port, payload.clone()),
        payload => panic!("unexpected ipv4 payload: {:?}", payload),
    }
}

#[test]
fn nat_test() {
    let public_ip = Ipv4Addr::random_global();
    let subnet = Ipv4Range::random_local_subnet();
    let mut nat = Ipv4Nat::new((), (), public_ip, subnet);

    let remote_addr = SocketAddrV4::new(Ipv4Addr::random_global(), rand::random::<u16>() / 2 + 1000);
    let local_addr = SocketAddrV4::new(subnet.random_client_addr(), rand::random::<u16>() / 2 + 1000);
    let initial_ttl = rand::random::<u8>() / 2 + 16;
    let payload = rand::random::<[u8; 8]>().to_vec();
    let packet = udp_packet(local_addr, remote_addr, initial_ttl, payload.clone());

    let packet = match nat.process_outgoing(packet) {
        NatAction::SendPublic(packet) => packet,
        action => panic!("private side hung up! {:?}", action),
    };
    assert_eq!(packet.fields, Ipv4Fields {
        source_ip: public_ip,
        dest_ip: remote_addr.ip(),
        ttl: initial_ttl - 1,
    });
    let (mapped_port, dest_port, sent_payload) = udp_parts(&packet);
    assert_eq!(sent_payload, payload);
    assert_eq!(dest_port, remote_addr.port());

    let payload = rand::random::<[u8; 8]>().to_vec();
    let reply = udp_packet(remote_addr, SocketAddrV4::new(public_ip, mapped_port), initial_ttl, payload.clone());
    let packet = match nat.process_incoming(reply) {
        NatAction::SendPrivate(packet) => packet,
        action => panic!("public side hung up! {:?}", action),
    };
    assert_eq!(packet.fields, Ipv4Fields {
        source_ip: remote_addr.ip(),
        dest_ip: local_addr.ip(),
        ttl: initial_ttl - 1,
    });
    let (source_port, dest_port, received_payload) = udp_parts(&packet);
    assert_eq!(received_payload, payload);
    assert_eq!(source_port, remote_addr.port());
    assert_eq!(dest_port, local_addr.port());
}

#[test]
fn test_port_restriction() {
    let mut unrestricted = PortMap::default();
    let mut restricted = PortMap::default();
    restricted.restrict_endpoints();

    let subnet = Ipv4Range::random_local_subnet();
    let internal_addr = SocketAddrV4::new(subnet.random_client_addr(), rand::random());
    let remote_addr = SocketAddrV4::new(Ipv4Addr::random_global(), rand::random());
    let unknown_addr = loop {
        let addr = SocketAddrV4::new(Ipv4Addr::random_global(), rand::random());
        if addr != remote_addr {
            break addr;
        }
    };

    let mapped_port = unrestricted.map_port(remote_addr, internal_addr).unwrap();
    let inbound_addr = unrestricted.get_inbound_addr(remote_addr, mapped_port);
    assert_eq!(inbound_addr, Some(internal_addr));
    let inbound_addr = unrestricted.get_inbound_addr(unknown_addr, mapped_port);
    assert_eq!(inbound_addr, Some(internal_addr));

    let mapped_port = restricted.map_port(remote_addr, internal_addr).unwrap();
    let inbound_addr = unrestricted.get_inbound_addr(remote_addr, mapped_port);
    assert_eq!(inbound_addr, Some(internal_addr));
    let inbound_addr = restricted.get_inbound_addr(unknown_addr, mapped_port);
    assert_eq!(inbound_addr, None);
}

#[test]
fn test_symmetric_map() {
    let mut asymmetric = PortMap::default();
    let mut symmetric = PortMap::default();
    symmetric.make_symmetric();

    let subnet = Ipv4Range::random_local_subnet();
    let internal_addr = SocketAddrV4::new(subnet.random_client_addr(), rand::random());
    let remote_addr_0 = SocketAddrV4::new(Ipv4Addr::random_global(), rand::random());
    let remote_addr_1 = loop {
        let addr = SocketAddrV4::new(Ipv4Addr::random_global(), rand::random());
        if addr != remote_addr_0 {
            break addr;
        }
    };

    let external_port_0 = asymmetric.map_port(remote_addr_0, internal_addr);
    let external_port_1 = asymmetric.map_port(remote_addr_1, internal_addr);
    assert_eq!(external_port_0, external_port_1);

    let external_port_0 = symmetric.map_port(remote_addr_0, internal_addr).unwrap();
    let external_port_1 = symmetric.map_port(remote_addr_1, internal_addr).unwrap();
    assert!(external_port_0 != external_port_1);
    let inbound_addr_00 = symmetric.get_inbound_addr(remote_addr_0, external_port_0);
    let inbound_addr_01 = symmetric.get_inbound_addr(remote_addr_0, external_port_1);
    let inbound_addr_10 = symmetric.get_inbound_addr(remote_addr_1, external_port_0);
    let inbound_addr_11 = symmetric.get_inbound_addr(remote_addr_1, external_port_1);
    assert_eq!(inbound_addr_00, Some(internal_addr));
    assert_eq!(inbound_addr_01, None);
    assert_eq!(inbound_addr_10, None);
    assert_eq!(inbound_addr_11, Some(internal_addr));
}

#[test]
fn sequential_ports_start_at_49152_sixteen_apart() {
    let mut map = PortMap::new();
    let remote = SocketAddrV4::new(Ipv4Addr::new(8, 8, 8, 8), 53);
    let a = SocketAddrV4::new(Ipv4Addr::new(10, 0, 0, 2), 4000);
    let b = SocketAddrV4::new(Ipv4Addr::new(10, 0, 0, 3), 4000);
    let port_a = map.map_port(remote, a).unwrap();
    let port_b = map.map_port(remote, b).unwrap();
    assert_eq!(port_a, 49152);
    assert_eq!(port_b, 49168);
    assert_eq!(map.map_port(remote, a), Some(port_a));
}

#[test]
fn forwarded_port_reaches_local_endpoint() {
    let mut map = PortMap::new();
    let local = SocketAddrV4::new(Ipv4Addr::new(10, 0, 0, 7), 80);
    map.forward_port(8080, local);
    let anyone = SocketAddrV4::new(Ipv4Addr::new(1, 2, 3, 4), 999);
    assert_eq!(map.get_inbound_addr(anyone, 8080), Some(local));
    assert_eq!(map.get_inbound_addr(anyone, 8081), None);
}

#[test]
fn nat_drops_packets_from_outside_subnet_and_spent_ttl() {
    let subnet = Ipv4Range::new(Ipv4Addr::new(192, 168, 0, 0), 16);
    let public_ip = Ipv4Addr::new(1, 2, 3, 4);
    let mut nat = Ipv4Nat::new((), (), public_ip, subnet);
    let remote = SocketAddrV4::new(Ipv4Addr::new(8, 8, 4, 4), 53);
    let outsider = SocketAddrV4::new(Ipv4Addr::new(10, 0, 0, 1), 5000);
    assert!(matches!(nat.process_outgoing(udp_packet(outsider, remote, 64, vec![])), NatAction::Drop));
    let insider = SocketAddrV4::new(Ipv4Addr::new(192, 168, 3, 4), 5000);
    assert!(matches!(nat.process_outgoing(udp_packet(insider, remote, 0, vec![])), NatAction::Drop));
    let unmapped = udp_packet(remote, SocketAddrV4::new(public_ip, 49152), 64, vec![]);
    assert!(matches!(nat.process_incoming(unmapped), NatAction::Drop));
}

#[test]
fn nat_hair_pinning_bounces_to_private_side() {
    let subnet = Ipv4Range::new(Ipv4Addr::new(192, 168, 0, 0), 16);
    let public_ip = Ipv4Addr::new(5, 6, 7, 8);
    let server = SocketAddrV4::new(Ipv4Addr::new(192, 168, 0, 10), 80);
    let client = SocketAddrV4::new(Ipv4Addr::new(192, 168, 0, 20), 3333);
    let mut nat = Ipv4NatBuilder::new()
        .subnet(subnet)
        .hair_pinning(true)
        .forward_tcp_port(8080, server)
        .build((), (), public_ip);
    let packet = Ipv4PacketFields {
        fields: Ipv4Fields { source_ip: client.ip(), dest_ip: public_ip, ttl: 9 },
        payload: Ipv4PayloadFields::Tcp {
            fields: TcpFields { source_port: client.port(), dest_port: 8080 },
            payload: vec![1, 2, 3],
        },
    };
    match nat.process_outgoing(packet) {
        NatAction::SendPrivate(packet) => {
            assert_eq!(packet.fields.dest_ip, server.ip());
            assert_eq!(packet.fields.source_ip, client.ip());
            assert_eq!(packet.fields.ttl, 8);
            match packet.payload {
                Ipv4PayloadFields::Tcp { fields, payload } => {
                    assert_eq!(fields.source_port, client.port());
                    assert_eq!(fields.dest_port, server.port());
                    assert_eq!(payload, vec![1, 2, 3]);
                }
                payload => panic!("unexpected ipv4 payload: {:?}", payload),
            }
        }
        action => panic!("unexpected action: {:?}", action),
    }
}

#[test]
fn restricted_port_admits_every_remote_it_sent_to() {
    let mut map = PortMap::new();
    map.restrict_endpoints();
    let local = SocketAddrV4::new(Ipv4Addr::new(10, 0, 0, 2), 4000);
    let first = SocketAddrV4::new(Ipv4Addr::new(8, 8, 8, 8), 53);
    let second = SocketAddrV4::new(Ipv4Addr::new(9, 9, 9, 9), 53);
    let stranger = SocketAddrV4::new(Ipv4Addr::new(7, 7, 7, 7), 53);
    let port = map.map_port(first, local).unwrap();
    assert_eq!(map.map_port(second, local), Some(port));
    assert_eq!(map.get_inbound_addr(first, port), Some(local));
    assert_eq!(map.get_inbound_addr(second, port), Some(local));
    assert_eq!(map.get_inbound_addr(stranger, port), None);
}

#[test]
fn builder_blacklisting_blocks_addresses_that_hit_unmapped_ports() {
    let public_ip = Ipv4Addr::new(1, 2, 3, 4);
    let local = SocketAddrV4::new(Ipv4Addr::new(10, 0, 0, 5), 6000);
    let mut nat = Ipv4NatBuilder::new()
        .subnet(Ipv4Range::new(Ipv4Addr::new(10, 0, 0, 0), 8))
        .forward_udp_port(7000, local)
        .blacklist_unrecognized_addrs()
        .build((), (), public_ip);
    let attacker = SocketAddrV4::new(Ipv4Addr::new(6, 6, 6, 6), 1234);
    let to_forwarded = udp_packet(attacker, SocketAddrV4::new(public_ip, 7000), 64, vec![1]);
    assert!(matches!(nat.process_incoming(to_forwarded.clone()), NatAction::SendPrivate(_)));
    let to_unmapped = udp_packet(attacker, SocketAddrV4::new(public_ip, 7001), 64, vec![2]);
    assert!(matches!(nat.process_incoming(to_unmapped), NatAction::Drop));
    // Once blacklisted, even the forwarded port is closed to the address.
    assert!(matches!(nat.process_incoming(to_forwarded), NatAction::Drop));
}

#[test]
fn first_packet_through_a_fresh_nat_leaves_from_49152() {
    let public_ip = Ipv4Addr::new(1, 2, 3, 4);
    let mut nat = Ipv4Nat::new((), (), public_ip, Ipv4Range::new(Ipv4Addr::new(10, 0, 0, 0), 8));
    let source = SocketAddrV4::new(Ipv4Addr::new(10, 0, 0, 5), 5000);
    let dest = SocketAddrV4::new(Ipv4Addr::new(8, 8, 8, 8), 53);
    match nat.process_outgoing(udp_packet(source, dest, 64, b"hi".to_vec())) {
        NatAction::SendPublic(packet) => {
            assert_eq!(packet.fields, Ipv4Fields { source_ip: public_ip, dest_ip: dest.ip(), ttl: 63 });
            assert_eq!(udp_parts(&packet), (49152, 53, b"hi".to_vec()));
        }
        action => panic!("unexpected action: {:?}", action),
    }
}

#[test]
fn randomized_nat_gives_new_endpoints_distinct_ports_of_at_least_1000() {
    let public_ip = Ipv4Addr::new(1, 2, 3, 4);
    let mut nat = Ipv4NatBuilder::new()
        .subnet(Ipv4Range::new(Ipv4Addr::new(10, 0, 0, 0), 8))
        .randomize_port_allocation()
        .build((), (), public_ip);
    let dest = SocketAddrV4::new(Ipv4Addr::new(8, 8, 8, 8), 53);
    let mut seen = Vec::new();
    for i in 0..64u16 {
        let source = SocketAddrV4::new(Ipv4Addr::new(10, 0, 1, 1), 4000 + i);
        match nat.process_outgoing(udp_packet(source, dest, 64, vec![1])) {
            NatAction::SendPublic(packet) => {
                let (port, dest_port, _) = udp_parts(&packet);
                assert!(port >= 1000);
                assert_eq!(dest_port, 53);
                assert!(!seen.contains(&port));
                seen.push(port);
            }
            action => panic!("unexpected action: {:?}", action),
        }
    }
}
