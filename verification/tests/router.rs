use netsim::device::hop_v4::HopV4;
use netsim::device::ipv4::hop::Ipv4Hop;
use netsim::device::ipv4::router::{Ipv4Router, Ipv4RouterBuilder};
use netsim::device::router_v4::RouterV4Builder;
use netsim::ipv4::{Ipv4Fields, Ipv4Packet, Ipv4Payload, UdpFields};
use netsim::udp::UdpPacket;
use netsim::{Ipv4Addr, Ipv4Range, Ipv4Route, SocketAddrV4};

fn ipv4(a: u8, b: u8, c: u8, d: u8) -> Ipv4Addr {
    Ipv4Addr::new(a, b, c, d)
}

fn addrv4(a: u8, b: u8, c: u8, d: u8, port: u16) -> SocketAddrV4 {
    SocketAddrV4::new(Ipv4Addr::new(a, b, c, d), port)
}

fn udp_packet_v4(src: SocketAddrV4, dst: SocketAddrV4) -> Ipv4Packet {
    Ipv4Packet::new_from_fields(
        Ipv4Fields { source_ip: src.ip(), dest_ip: dst.ip(), ttl: 10 },
        &Ipv4Payload::Udp(UdpPacket::new_from_fields_v4(
            &UdpFields { source_port: src.port(), dest_port: dst.port() },
            src.ip(),
            dst.ip(),
            &[],
        )),
    )
}

/// The packets the router sent down connection `conn`, as bytes.
fn received(router: &mut Ipv4Router, conn: usize) -> Vec<Vec<u8>> {
    let sent = router.take_sent();
    let mut packets = Vec::new();
    for (c, packet) in sent {
        if c == conn {
            packets.push(packet.as_bytes().to_vec());
        }
    }
    packets
}

fn sent_to(sent: &[(usize, Ipv4Packet)], conn: usize) -> Vec<Vec<u8>> {
    sent.iter().filter(|(c, _)| *c == conn).map(|(_, p)| p.as_bytes().to_vec()).collect()
}

#[test]
fn it_returns_false_when_packet_sender_is_not_found_for_packet_destination_ip() {
    let mut router = Ipv4Router::new(ipv4(192, 168, 1, 1), vec![]);
    let packet = udp_packet_v4(addrv4(192, 168, 1, 100, 5000), addrv4(192, 168, 1, 200, 6000));

    let sent = router.send_packet(packet);

    assert!(!sent);
}

#[test]
fn it_sends_packet_to_the_channel_associated_with_packet_destination_address() {
    let conns = vec![vec![Ipv4Route::new(Ipv4Range::new(ipv4(192, 168, 1, 0), 24), None)]];
    let mut router = Ipv4Router::new(ipv4(192, 168, 1, 1), conns);
    let packet = udp_packet_v4(addrv4(192, 168, 1, 100, 5000), addrv4(192, 168, 1, 200, 6000));

    let sent = router.send_packet(packet.duplicate());

    assert!(sent);
    let received_packets = received(&mut router, 0);
    assert_eq!(received_packets, vec![packet.as_bytes().to_vec()]);
}

#[test]
fn it_sends_broadcast_packet_to_the_machine_on_the_same_subnet() {
    let conns = vec![vec![Ipv4Route::new(Ipv4Range::new(ipv4(192, 168, 1, 0), 24), None)]];
    let mut router = Ipv4Router::new(ipv4(192, 168, 1, 1), conns);
    let packet = udp_packet_v4(addrv4(192, 168, 1, 100, 5000), addrv4(192, 168, 1, 255, 6000));

    let sent = router.send_packet(packet.duplicate());

    assert!(sent);
    let received_packets = received(&mut router, 0);
    assert_eq!(received_packets, vec![packet.as_bytes().to_vec()]);
}

#[test]
fn it_sends_broadcast_packet_to_all_machines_on_the_same_subnet() {
    let conns = vec![
        vec![Ipv4Route::new(Ipv4Range::new(ipv4(192, 168, 1, 0), 24), None)],
        vec![Ipv4Route::new(Ipv4Range::new(ipv4(10, 0, 0, 0), 24), None)],
        vec![Ipv4Route::new(Ipv4Range::new(ipv4(192, 168, 1, 0), 24), None)],
    ];
    let mut router = Ipv4Router::new(ipv4(192, 168, 1, 1), conns);
    let packet = udp_packet_v4(addrv4(192, 168, 1, 100, 5000), addrv4(192, 168, 1, 255, 6000));

    let sent = router.send_packet(packet.duplicate());
    assert!(sent);

    let all = router.take_sent();
    assert_eq!(sent_to(&all, 0), vec![packet.as_bytes().to_vec()]);
    assert!(sent_to(&all, 1).is_empty());
    assert_eq!(sent_to(&all, 2), vec![packet.as_bytes().to_vec()]);
}

#[test]
fn it_sends_255_255_255_255_packet_to_all_connected_machines() {
    let conns = vec![
        vec![Ipv4Route::new(Ipv4Range::new(ipv4(192, 168, 1, 0), 24), None)],
        vec![Ipv4Route::new(Ipv4Range::new(ipv4(10, 0, 0, 0), 24), None)],
        vec![Ipv4Route::new(Ipv4Range::new(ipv4(192, 168, 1, 0), 24), None)],
    ];
    let mut router = Ipv4Router::new(ipv4(192, 168, 1, 1), conns);
    let packet = udp_packet_v4(addrv4(192, 168, 1, 100, 5000), addrv4(255, 255, 255, 255, 6000));

    let sent = router.send_packet(packet.duplicate());
    assert!(sent);

    let all = router.take_sent();
    assert_eq!(sent_to(&all, 0), vec![packet.as_bytes().to_vec()]);
    assert_eq!(sent_to(&all, 1), vec![packet.as_bytes().to_vec()]);
    assert_eq!(sent_to(&all, 2), vec![packet.as_bytes().to_vec()]);
}

#[test]
fn unicast_stops_at_first_matching_connection() {
    let router = Ipv4RouterBuilder::new(ipv4(10, 0, 0, 1))
        .connect(vec![Ipv4Route::new(Ipv4Range::new(ipv4(172, 16, 0, 0), 12), None)])
        .connect(vec![Ipv4Route::new(Ipv4Range::new(ipv4(10, 0, 0, 0), 8), None)])
        .connect(vec![Ipv4Route::new(Ipv4Range::new(ipv4(0, 0, 0, 0), 0), None)]);
    let mut router = router.build();
    let packet = udp_packet_v4(addrv4(172, 16, 0, 5, 1), addrv4(10, 9, 8, 7, 2));
    assert!(router.route_packet(packet.duplicate()));
    let all = router.take_sent();
    assert_eq!(all.len(), 1);
    assert_eq!(all[0].0, 1);
    assert_eq!(all[0].1.as_bytes(), packet.as_bytes());
}

#[test]
fn packets_to_the_router_itself_are_not_sent() {
    let conns = vec![vec![Ipv4Route::new(Ipv4Range::new(ipv4(0, 0, 0, 0), 0), None)]];
    let mut router = Ipv4Router::new(ipv4(10, 0, 0, 1), conns);
    let packet = udp_packet_v4(addrv4(10, 0, 0, 2, 1), addrv4(10, 0, 0, 1, 2));
    assert!(!router.route_packet(packet));
    assert!(router.take_sent().is_empty());
}

#[test]
fn router_v4_picks_first_containing_connection() {
    let router = RouterV4Builder::new(ipv4(10, 0, 0, 1))
        .connect(vec![Ipv4Route::new(Ipv4Range::new(ipv4(192, 168, 0, 0), 16), None)])
        .connect(vec![
            Ipv4Route::new(Ipv4Range::new(ipv4(172, 16, 0, 0), 12), None),
            Ipv4Route::new(Ipv4Range::new(ipv4(10, 0, 0, 0), 8), None),
        ])
        .build();
    let to_ten = udp_packet_v4(addrv4(192, 168, 0, 2, 1), addrv4(10, 1, 1, 1, 2));
    assert_eq!(router.route(&to_ten), Some(1));
    let to_lan = udp_packet_v4(addrv4(10, 1, 1, 1, 2), addrv4(192, 168, 7, 7, 1));
    assert_eq!(router.route(&to_lan), Some(0));
    let nowhere = udp_packet_v4(addrv4(10, 1, 1, 1, 2), addrv4(8, 8, 8, 8, 53));
    assert_eq!(router.route(&nowhere), None);
    let to_me = udp_packet_v4(addrv4(10, 1, 1, 1, 2), addrv4(10, 0, 0, 1, 53));
    assert_eq!(router.route(&to_me), None);
}

#[test]
fn hop_decrements_ttl_and_drops_at_zero() {
    let hop = Ipv4Hop::new();
    let packet = udp_packet_v4(addrv4(10, 0, 0, 1, 1), addrv4(10, 0, 0, 2, 2));
    assert_eq!(packet.ttl(), 10);
    let forwarded = hop.forward(packet.duplicate()).unwrap();
    assert_eq!(forwarded.ttl(), 9);
    assert_eq!(forwarded.source_ip(), packet.source_ip());
    assert_eq!(forwarded.dest_ip(), packet.dest_ip());
    assert_eq!(&forwarded.as_bytes()[20..], &packet.as_bytes()[20..]);
    // The header checksum is rewritten: the header sums to all ones again.
    assert_eq!(netsim::checksum::data(&forwarded.as_bytes()[..20]), 0);

    let mut spent = packet.duplicate();
    spent.set_fields(Ipv4Fields { ttl: 0, ..packet.fields() });
    assert!(hop.forward(spent).is_none());
    // A packet whose TTL would reach zero on the hop is dropped too.
    let mut last = packet.duplicate();
    last.set_fields(Ipv4Fields { ttl: 1, ..packet.fields() });
    assert!(hop.forward(last).is_none());
    let mut two = packet.duplicate();
    two.set_fields(Ipv4Fields { ttl: 2, ..packet.fields() });
    assert_eq!(hop.forward(two).unwrap().ttl(), 1);
}

#[test]
fn hop_v4_decrements_ttl_and_drops_spent_packets() {
    let hop = HopV4::new();
    let packet = udp_packet_v4(addrv4(10, 0, 0, 1, 1), addrv4(10, 0, 0, 2, 2));
    let forwarded = hop.forward(packet.duplicate()).unwrap();
    assert_eq!(forwarded.ttl(), packet.ttl() - 1);
    assert_eq!(&forwarded.as_bytes()[20..], &packet.as_bytes()[20..]);
    assert_eq!(netsim::checksum::data(&forwarded.as_bytes()[..20]), 0);
    // A packet with TTL 1 still crosses, leaving with TTL 0.
    let mut last = packet.duplicate();
    last.set_fields(Ipv4Fields { ttl: 1, ..packet.fields() });
    assert_eq!(hop.forward(last).unwrap().ttl(), 0);
    let mut spent = packet.duplicate();
    spent.set_fields(Ipv4Fields { ttl: 0, ..packet.fields() });
    assert!(hop.forward(spent).is_none());
}
