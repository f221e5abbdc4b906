use netsim::datagram::{IpDatagram, Ipv4Datagram, Tcpv4Packet, Udpv4Packet};
use netsim::device::ip_nat::port_map::PortMap;
use netsim::device::ip_nat::restrictions::Restrictions;
use netsim::device::ip_nat::{NatBuilder, NatDispatch, NatTask};
use netsim::{Ipv4Addr, Ipv4Network, SocketAddrV4};

fn tcp(source: SocketAddrV4, dest: SocketAddrV4) -> IpDatagram {
    IpDatagram::V4(Ipv4Datagram::Tcp(Tcpv4Packet::new(source, dest)))
}

fn sent_out(out: NatDispatch) -> Tcpv4Packet {
    match out {
        NatDispatch::External(Ipv4Datagram::Tcp(packet)) => packet,
        other => panic!("unexpected dispatch: {:?}", other),
    }
}

fn delivered(out: NatDispatch) -> (usize, Tcpv4Packet) {
    match out {
        NatDispatch::Internal { iface, packet: IpDatagram::V4(Ipv4Datagram::Tcp(packet)) } => (iface, packet),
        other => panic!("unexpected dispatch: {:?}", other),
    }
}

fn setup(builder: NatBuilder) -> (NatTask, usize) {
    let mut task = builder.build_task();
    let iface = task.insert_iface();
    (task, iface)
}

fn external_ip() -> Ipv4Addr {
    Ipv4Addr::new(203, 0, 113, 7)
}

fn internal_net() -> Ipv4Network {
    Ipv4Network::new(Ipv4Addr::new(192, 168, 0, 0), 16)
}

#[test]
fn port_map_hands_out_ports_from_1025_and_keeps_them() {
    let mut map = PortMap::new();
    let a = SocketAddrV4::new(Ipv4Addr::new(192, 168, 0, 2), 1000);
    let b = SocketAddrV4::new(Ipv4Addr::new(192, 168, 0, 3), 1000);
    assert_eq!(map.outgoing_port(a), 1025);
    assert_eq!(map.outgoing_port(b), 1026);
    assert_eq!(map.outgoing_port(a), 1025);
    assert_eq!(map.incoming_addr(1025), Some(a));
    assert_eq!(map.incoming_addr(1026), Some(b));
    assert_eq!(map.incoming_addr(1027), None);
}

#[test]
fn restrictions_admit_replies_only() {
    let dest = SocketAddrV4::new(Ipv4Addr::new(8, 8, 8, 8), 53);
    let same_host = SocketAddrV4::new(Ipv4Addr::new(8, 8, 8, 8), 54);
    let other_host = SocketAddrV4::new(Ipv4Addr::new(9, 9, 9, 9), 53);

    let mut unrestricted = Restrictions::from_flags(false, false);
    assert!(unrestricted.incoming_allowed(1025, other_host));
    unrestricted.sending(1025, dest);
    assert!(unrestricted.incoming_allowed(1026, other_host));

    let mut by_address = Restrictions::from_flags(false, true);
    assert!(!by_address.incoming_allowed(1025, dest));
    by_address.sending(1025, dest);
    assert!(by_address.incoming_allowed(1025, dest));
    assert!(by_address.incoming_allowed(1025, same_host));
    assert!(!by_address.incoming_allowed(1025, other_host));
    assert!(!by_address.incoming_allowed(1026, dest));

    let mut by_socket = Restrictions::from_flags(true, true);
    by_socket.sending(1025, dest);
    assert!(by_socket.incoming_allowed(1025, dest));
    assert!(!by_socket.incoming_allowed(1025, same_host));
    assert!(!by_socket.incoming_allowed(1026, dest));
}

#[test]
fn outgoing_tcp_is_translated_and_reply_gets_back() {
    let (mut task, iface) = setup(NatBuilder::new(external_ip(), internal_net()).port_restricted());
    let host = SocketAddrV4::new(Ipv4Addr::new(192, 168, 1, 2), 40000);
    let server = SocketAddrV4::new(Ipv4Addr::new(93, 184, 216, 34), 443);
    let sent = sent_out(task.dispatch_incoming_internal(iface, tcp(host, server)));
    assert_eq!(sent.source_addr, SocketAddrV4::new(external_ip(), 1025));
    assert_eq!(sent.destination_addr, server);

    let (to_iface, reply) = delivered(task.dispatch_incoming_external(tcp(server, sent.source_addr)));
    assert_eq!(to_iface, iface);
    assert_eq!(reply.destination_addr, host);
    assert_eq!(reply.source_addr, server);

    let stranger = SocketAddrV4::new(Ipv4Addr::new(1, 1, 1, 1), 443);
    assert!(matches!(task.dispatch_incoming_external(tcp(stranger, sent.source_addr)), NatDispatch::Nothing));
}

#[test]
fn unexpected_tcp_gets_a_reset_when_asked() {
    let (task, _) = setup(NatBuilder::new(external_ip(), internal_net()).reply_with_rst_to_unexpected_tcp_packets());
    let remote = SocketAddrV4::new(Ipv4Addr::new(5, 5, 5, 5), 999);
    let mut probe = Tcpv4Packet::new(remote, SocketAddrV4::new(external_ip(), 2000));
    probe.seq_number = u32::MAX;
    let reply = sent_out(task.dispatch_incoming_external(IpDatagram::V4(Ipv4Datagram::Tcp(probe))));
    assert_eq!(reply.source_addr, SocketAddrV4::new(external_ip(), 2000));
    assert_eq!(reply.destination_addr, remote);
    assert_eq!(reply.ack_number, 0);
    assert_eq!(reply.seq_number, 0);
    assert!(reply.flags.rst && reply.flags.ack && !reply.flags.syn);
    assert!(reply.payload.is_empty());

    let (quiet, _) = setup(NatBuilder::new(external_ip(), internal_net()));
    let probe = Tcpv4Packet::new(remote, SocketAddrV4::new(external_ip(), 2000));
    assert!(matches!(quiet.dispatch_incoming_external(IpDatagram::V4(Ipv4Datagram::Tcp(probe))), NatDispatch::Nothing));
}

#[test]
fn internal_traffic_stays_inside_and_strangers_are_dropped() {
    let (mut task, first) = setup(NatBuilder::new(external_ip(), internal_net()));
    let second = task.insert_iface();
    let a = SocketAddrV4::new(Ipv4Addr::new(192, 168, 0, 10), 1);
    let b = SocketAddrV4::new(Ipv4Addr::new(192, 168, 0, 20), 2);
    // b is not known yet: nothing to send to.
    assert!(matches!(task.dispatch_incoming_internal(first, tcp(a, b)), NatDispatch::Nothing));
    // b speaks from the second interface; now a reaches it there.
    let _ = task.dispatch_incoming_internal(second, tcp(b, SocketAddrV4::new(Ipv4Addr::new(192, 168, 9, 9), 3)));
    let (iface, packet) = delivered(task.dispatch_incoming_internal(first, tcp(a, b)));
    assert_eq!(iface, second);
    assert_eq!(packet.source_addr, a);
    // A source outside the internal network is dropped.
    let outsider = SocketAddrV4::new(Ipv4Addr::new(10, 0, 0, 1), 1);
    assert!(matches!(task.dispatch_incoming_internal(first, tcp(outsider, b)), NatDispatch::Nothing));
    // A removed interface gets nothing.
    task.remove_iface(second);
    assert!(matches!(task.dispatch_incoming_internal(first, tcp(a, b)), NatDispatch::Nothing));
}

#[test]
fn hair_pinning_turns_packets_around() {
    let (mut task, iface) = setup(NatBuilder::new(external_ip(), internal_net()).hair_pinning());
    let server = SocketAddrV4::new(Ipv4Addr::new(192, 168, 0, 5), 80);
    let client = SocketAddrV4::new(Ipv4Addr::new(192, 168, 0, 6), 5555);
    let outside = SocketAddrV4::new(Ipv4Addr::new(100, 100, 100, 100), 1);
    let sent = sent_out(task.dispatch_incoming_internal(iface, tcp(server, outside)));
    let (to_iface, packet) = delivered(task.dispatch_incoming_internal(iface, tcp(client, sent.source_addr)));
    assert_eq!(to_iface, iface);
    assert_eq!(packet.destination_addr, server);
    assert_eq!(packet.source_addr, SocketAddrV4::new(external_ip(), 1026));

    let (mut plain, iface) = setup(NatBuilder::new(external_ip(), internal_net()));
    let sent = sent_out(plain.dispatch_incoming_internal(iface, tcp(server, outside)));
    assert!(matches!(plain.dispatch_incoming_internal(iface, tcp(client, sent.source_addr)), NatDispatch::Nothing));
}

#[test]
fn closed_external_interface_sends_nothing() {
    let (mut task, iface) = setup(NatBuilder::new(external_ip(), internal_net()));
    task.close_external();
    assert!(!task.external_open());
    let host = SocketAddrV4::new(Ipv4Addr::new(192, 168, 1, 2), 40000);
    let server = SocketAddrV4::new(Ipv4Addr::new(93, 184, 216, 34), 443);
    assert!(matches!(task.dispatch_incoming_internal(iface, tcp(host, server)), NatDispatch::Nothing));
}

#[test]
fn outgoing_udp_is_translated_and_reply_gets_back() {
    let (mut task, iface) = setup(NatBuilder::new(external_ip(), internal_net()));
    let host = SocketAddrV4::new(Ipv4Addr::new(192, 168, 1, 7), 5353);
    let server = SocketAddrV4::new(Ipv4Addr::new(8, 8, 8, 8), 53);
    let query = Udpv4Packet { source_addr: host, destination_addr: server, payload: vec![1, 2, 3] };
    let sent = match task.dispatch_incoming_internal(iface, IpDatagram::V4(Ipv4Datagram::Udp(query))) {
        NatDispatch::External(Ipv4Datagram::Udp(sent)) => sent,
        other => panic!("unexpected dispatch: {:?}", other),
    };
    assert_eq!(sent.source_addr.ip(), external_ip());
    assert_eq!(sent.destination_addr, server);
    assert_eq!(sent.payload, vec![1, 2, 3]);
    // The same endpoint keeps its port.
    let again = Udpv4Packet { source_addr: host, destination_addr: server, payload: vec![4] };
    match task.dispatch_incoming_internal(iface, IpDatagram::V4(Ipv4Datagram::Udp(again))) {
        NatDispatch::External(Ipv4Datagram::Udp(p)) => assert_eq!(p.source_addr, sent.source_addr),
        other => panic!("unexpected dispatch: {:?}", other),
    }
    let answer = Udpv4Packet { source_addr: server, destination_addr: sent.source_addr, payload: vec![9] };
    match task.dispatch_incoming_external(IpDatagram::V4(Ipv4Datagram::Udp(answer))) {
        NatDispatch::Internal { iface: to, packet: IpDatagram::V4(Ipv4Datagram::Udp(p)) } => {
            assert_eq!(to, iface);
            assert_eq!(p.destination_addr, host);
            assert_eq!(p.source_addr, server);
            assert_eq!(p.payload, vec![9]);
        }
        other => panic!("unexpected dispatch: {:?}", other),
    }
}

#[test]
fn port_map_gives_each_new_endpoint_a_port_nobody_holds() {
    let mut map = PortMap::new();
    let mut ports = Vec::new();
    for i in 0..200u16 {
        let endpoint = SocketAddrV4::new(Ipv4Addr::new(192, 168, 1, (i % 250) as u8 + 1), 2000 + i);
        let port = map.outgoing_port(endpoint);
        assert!(port >= 1025);
        assert!(!ports.contains(&port));
        ports.push(port);
        assert_eq!(map.incoming_addr(port), Some(endpoint));
        assert_eq!(map.outgoing_port(endpoint), port);
    }
}
