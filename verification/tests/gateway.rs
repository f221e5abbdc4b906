use netsim::gateway::{GatewayBuilder, PortMap};
use netsim::ipv4::{Ipv4Fields, Ipv4PacketFields, Ipv4PayloadFields, UdpFields};
use netsim::{Ipv4Addr, Ipv4Network, SocketAddrV4};

fn udp(source: SocketAddrV4, dest: SocketAddrV4, ttl: u8) -> Ipv4PacketFields {
    Ipv4PacketFields {
        fields: Ipv4Fields { source_ip: source.ip(), dest_ip: dest.ip(), ttl },
        payload: Ipv4PayloadFields::Udp {
            fields: UdpFields { source_port: source.port(), dest_port: dest.port() },
            payload: vec![7, 7, 7],
        },
    }
}

fn ports(packet: &Ipv4PacketFields) -> (u16, u16) {
    match &packet.payload {
        Ipv4PayloadFields::Udp { fields, payload } => {
            assert_eq!(payload, &vec![7, 7, 7]);
            (fields.source_port, fields.dest_port)
        }
        other => panic!("unexpected payload: {:?}", other),
    }
}

#[test]
fn gateway_port_map_hands_out_ports_from_1001() {
    let mut map = PortMap::new();
    let a = SocketAddrV4::new(Ipv4Addr::new(10, 0, 0, 2), 5000);
    let b = SocketAddrV4::new(Ipv4Addr::new(10, 0, 0, 3), 5000);
    assert_eq!(map.map_out(a), Some(1001));
    assert_eq!(map.map_out(b), Some(1002));
    assert_eq!(map.map_out(a), Some(1001));
    assert_eq!(map.map_in(1002), Some(b));
    map.add_mapping(1003, SocketAddrV4::new(Ipv4Addr::new(10, 0, 0, 4), 1));
    let c = SocketAddrV4::new(Ipv4Addr::new(10, 0, 0, 5), 5000);
    assert_eq!(map.map_out(c), Some(1004));
}

#[test]
fn gateway_translates_both_ways() {
    let subnet = Ipv4Network::new(Ipv4Addr::new(10, 0, 0, 0), 24);
    let mut builder = GatewayBuilder::new(subnet);
    builder.forward_udp_port(SocketAddrV4::new(Ipv4Addr::new(10, 0, 0, 9), 53), 53);
    let mut gateway = builder.build();
    let public_ip = gateway.public_ip();
    assert!(public_ip.is_global());

    let dest_addr = SocketAddrV4::new(Ipv4Addr::new(93, 184, 216, 34), 123);
    let local = SocketAddrV4::new(Ipv4Addr::new(10, 0, 0, 2), 40000);
    let out = gateway.translate_outgoing(udp(local, dest_addr, 16)).unwrap();
    assert_eq!(out.fields, Ipv4Fields { source_ip: public_ip, dest_ip: dest_addr.ip(), ttl: 15 });
    let (mapped, dest_port) = ports(&out);
    assert_eq!(mapped, 1001);
    assert_eq!(dest_port, 123);

    let back = gateway
        .translate_incoming(udp(dest_addr, SocketAddrV4::new(public_ip, mapped), 16))
        .unwrap();
    assert_eq!(back.fields, Ipv4Fields { source_ip: dest_addr.ip(), dest_ip: local.ip(), ttl: 15 });
    assert_eq!(ports(&back), (123, local.port()));

    // The forward asked for on the builder is installed: traffic to port 53 reaches the server.
    let forwarded = gateway
        .translate_incoming(udp(dest_addr, SocketAddrV4::new(public_ip, 53), 16))
        .unwrap();
    assert_eq!(forwarded.fields, Ipv4Fields { source_ip: dest_addr.ip(), dest_ip: Ipv4Addr::new(10, 0, 0, 9), ttl: 15 });
    assert_eq!(ports(&forwarded), (123, 53));
    // And the server's own traffic leaves from its forwarded port.
    let reply = gateway.translate_outgoing(udp(SocketAddrV4::new(Ipv4Addr::new(10, 0, 0, 9), 53), dest_addr, 16)).unwrap();
    assert_eq!(ports(&reply), (53, 123));
    // Wrong address, spent TTL, unmapped port.
    assert!(gateway.translate_incoming(udp(dest_addr, SocketAddrV4::new(Ipv4Addr::new(1, 2, 3, 4), mapped), 16)).is_none());
    assert!(gateway.translate_incoming(udp(dest_addr, SocketAddrV4::new(public_ip, mapped), 0)).is_none());
    assert!(gateway.translate_incoming(udp(dest_addr, SocketAddrV4::new(public_ip, 9999), 5)).is_none());
    assert!(gateway.translate_outgoing(udp(local, dest_addr, 0)).is_none());
}

#[test]
fn gateway_port_map_maps_until_it_holds_64535_entries() {
    let mut map = PortMap::new();
    let first = SocketAddrV4::new(Ipv4Addr::new(10, 0, 0, 0), 0);
    let mut count: u32 = 0;
    while count < 64535 {
        let endpoint = SocketAddrV4::new(Ipv4Addr::from_u32(0x0a00_0000 | (count >> 8)), (count & 0xff) as u16);
        let port = map.map_out(endpoint).expect("below the limit a port is free");
        assert!(port >= 1000);
        assert_eq!(map.map_in(port), Some(endpoint));
        count += 1;
    }
    let newcomer = SocketAddrV4::new(Ipv4Addr::new(10, 1, 0, 0), 1);
    assert_eq!(map.map_out(newcomer), None);
    assert_eq!(map.map_out(first), Some(1001));
}
