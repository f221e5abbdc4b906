use netsim::arp::{ArpFields, ArpPacket};
use netsim::ethernet::{new_arp, new_ipv4, new_ipv6, random_mac, respond_to_arp};
use netsim::hops::Hops;
use netsim::icmpv6::Icmpv6Packet;
use netsim::ipv4::{Ipv4Fields, Ipv4Packet, Ipv4Payload};
use netsim::ipv6::{Ipv6Packet, Ipv6Payload};
use netsim::mac::MacAddr;
use netsim::udp::UdpPacket;
use netsim::ipv4::UdpFields;
use netsim::{Ipv4Addr, Ipv6Addr};

#[test]
fn checksum_of_known_header() {
    // The example header from RFC 1071's discussion: 4500 0073 0000 4000 4011 0000 c0a8 0001 c0a8 00c7.
    let header = [
        0x45, 0x00, 0x00, 0x73, 0x00, 0x00, 0x40, 0x00, 0x40, 0x11, 0x00, 0x00, 0xc0, 0xa8,
        0x00, 0x01, 0xc0, 0xa8, 0x00, 0xc7,
    ];
    assert_eq!(netsim::checksum::data(&header), 0xb861);
    assert_eq!(netsim::checksum::data(&[]), 0xffff);
    // An odd last byte is the high byte of a word.
    assert_eq!(netsim::checksum::data(&[0x01]), 0xfeff);
    // Carries fold back in.
    assert_eq!(netsim::checksum::data(&[0xff, 0xff, 0x00, 0x01]), 0xfffe);
}

#[test]
fn ipv4_packet_round_trip() {
    let fields = Ipv4Fields {
        source_ip: Ipv4Addr::new(192, 168, 0, 1),
        dest_ip: Ipv4Addr::new(192, 168, 0, 199),
        ttl: 64,
    };
    let payload = Ipv4Payload::Unknown { protocol: 17, payload: vec![0xaa; 95] };
    let packet = Ipv4Packet::new_from_fields(fields, &payload);
    let bytes = packet.as_bytes();
    assert_eq!(bytes.len(), 115);
    assert_eq!(&bytes[..4], &[0x45, 0x00, 0x00, 0x73]);
    assert_eq!(bytes[9], 17);
    assert_eq!(&bytes[10..12], &[0xf8, 0x61]);
    assert_eq!(packet.source_ip(), fields.source_ip);
    assert_eq!(packet.dest_ip(), fields.dest_ip);
    assert_eq!(packet.ttl(), 64);
    assert_eq!(packet.fields(), fields);
    assert_eq!(netsim::checksum::data(&bytes[..20]), 0);
    match packet.payload() {
        Ipv4Payload::Unknown { protocol, payload } => {
            assert_eq!(protocol, 17);
            assert_eq!(payload, vec![0xaa; 95]);
        }
        other => panic!("unexpected payload: {:?}", other),
    }

    let mut packet = Ipv4Packet::from_bytes(bytes.to_vec());
    let moved = Ipv4Fields { ttl: 3, ..fields };
    packet.set_fields(moved);
    assert_eq!(packet.fields(), moved);
    assert_eq!(netsim::checksum::data(&packet.as_bytes()[..20]), 0);
}

#[test]
fn udp_packet_is_built_with_pseudo_header_checksum() {
    let source = Ipv4Addr::new(10, 0, 0, 1);
    let dest = Ipv4Addr::new(10, 0, 0, 2);
    let udp = UdpPacket::new_from_fields_v4(&UdpFields { source_port: 1234, dest_port: 80 }, source, dest, &[1, 2, 3, 4]);
    let bytes = udp.as_bytes();
    assert_eq!(&bytes[..6], &[0x04, 0xd2, 0x00, 0x50, 0x00, 0x0c]);
    assert_eq!(&bytes[8..], &[1, 2, 3, 4]);
    let mut summed = vec![10, 0, 0, 1, 10, 0, 0, 2, 0, 17, 0, 12];
    summed.extend_from_slice(bytes);
    assert_eq!(netsim::checksum::data(&summed), 0);
    let ipv4 = Ipv4Packet::new_from_fields(
        Ipv4Fields { source_ip: source, dest_ip: dest, ttl: 1 },
        &Ipv4Payload::Udp(udp.clone()),
    );
    assert_eq!(ipv4.as_bytes()[9], 17);
    assert_eq!(&ipv4.as_bytes()[20..], bytes);
}

#[test]
fn arp_packet_fields_read_back() {
    let source_mac = MacAddr::from_array([2, 3, 4, 5, 6, 7]);
    let dest_mac = MacAddr::from_array([8, 9, 10, 11, 12, 13]);
    let request = ArpPacket::new_from_fields(ArpFields::Request {
        source_mac,
        source_ip: Ipv4Addr::new(10, 0, 0, 1),
        dest_ip: Ipv4Addr::new(10, 0, 0, 2),
    });
    assert_eq!(request.as_bytes().len(), 28);
    assert_eq!(&request.as_bytes()[..8], &[0, 1, 8, 0, 6, 4, 0, 1]);
    assert_eq!(request.source_mac(), source_mac);
    assert_eq!(request.source_ip(), Ipv4Addr::new(10, 0, 0, 1));
    assert_eq!(request.dest_mac(), MacAddr::from_array([0; 6]));
    assert_eq!(request.dest_ip(), Ipv4Addr::new(10, 0, 0, 2));

    let response = ArpPacket::new_from_fields(ArpFields::Response {
        source_mac,
        source_ip: Ipv4Addr::new(10, 0, 0, 2),
        dest_mac,
        dest_ip: Ipv4Addr::new(10, 0, 0, 1),
    });
    assert_eq!(response.dest_mac(), dest_mac);
    assert_eq!(response.source_ip(), Ipv4Addr::new(10, 0, 0, 2));
    // A response carries operation 2 and reads back as a response.
    assert_eq!(&response.as_bytes()[6..8], &[0, 2]);
    assert_eq!(
        ArpPacket::from_bytes(response.as_bytes().to_vec()).fields(),
        Some(ArpFields::Response { source_mac, source_ip: Ipv4Addr::new(10, 0, 0, 2), dest_mac, dest_ip: Ipv4Addr::new(10, 0, 0, 1) })
    );
    assert_eq!(
        request.fields(),
        Some(ArpFields::Request { source_mac, source_ip: Ipv4Addr::new(10, 0, 0, 1), dest_ip: Ipv4Addr::new(10, 0, 0, 2) })
    );
    let mut other = response.as_bytes().to_vec();
    other[7] = 3;
    assert_eq!(ArpPacket::from_bytes(other).fields(), None);
}

#[test]
fn mac_addresses() {
    let mac = MacAddr::from_bytes(&[1, 2, 3, 4, 5, 6]);
    assert_eq!(mac.as_bytes(), &[1, 2, 3, 4, 5, 6]);
    assert!(MacAddr::broadcast().is_broadcast());
    assert!(!mac.is_broadcast());
    assert!(mac.same_as(&MacAddr::from_array([1, 2, 3, 4, 5, 6])));
    assert!(!mac.same_as(&MacAddr::broadcast()));
    for _ in 0..100 {
        let random = MacAddr::random();
        assert_eq!(random.as_bytes()[0] & 0x03, 0);
        let random = random_mac();
        assert_eq!(random.as_bytes()[0] & 0x03, 0);
    }
}

#[test]
fn frames_and_arp_replies() {
    let me = MacAddr::from_array([2, 0, 0, 0, 0, 1]);
    let asker = MacAddr::from_array([2, 0, 0, 0, 0, 2]);
    let frame = new_ipv4(asker, me, &[9, 9]);
    assert_eq!(frame, vec![2, 0, 0, 0, 0, 1, 2, 0, 0, 0, 0, 2, 0x08, 0x00, 9, 9]);
    assert_eq!(&new_ipv6(asker, me, &[])[12..], &[0x86, 0xdd]);

    let request = ArpPacket::new_from_fields(ArpFields::Request {
        source_mac: asker,
        source_ip: Ipv4Addr::new(10, 0, 0, 2),
        dest_ip: Ipv4Addr::new(10, 0, 0, 1),
    });
    let request_frame = new_arp(asker, MacAddr::broadcast(), request.as_bytes());
    let reply = respond_to_arp(&request_frame, Ipv4Addr::new(10, 0, 0, 1), me).expect("no reply");
    assert_eq!(&reply[..6], asker.as_bytes());
    assert_eq!(&reply[6..12], me.as_bytes());
    assert_eq!(&reply[12..14], &[0x08, 0x06]);
    assert_eq!(&reply[14..22], &[0, 1, 8, 0, 6, 4, 0, 2]);
    assert_eq!(&reply[22..28], me.as_bytes());
    assert_eq!(&reply[28..32], &[10, 0, 0, 1]);
    assert_eq!(&reply[32..38], asker.as_bytes());
    assert_eq!(&reply[38..42], &[10, 0, 0, 2]);

    assert!(respond_to_arp(&request_frame, Ipv4Addr::new(10, 0, 0, 9), me).is_none());
    assert!(respond_to_arp(&frame, Ipv4Addr::new(10, 0, 0, 1), me).is_none());
}

#[test]
fn hops_reduce_hop_counts() {
    let mac = MacAddr::from_array([2, 0, 0, 0, 0, 1]);
    let ipv4 = Ipv4Packet::new_from_fields(
        Ipv4Fields { source_ip: Ipv4Addr::new(1, 1, 1, 1), dest_ip: Ipv4Addr::new(2, 2, 2, 2), ttl: 5 },
        &Ipv4Payload::Unknown { protocol: 6, payload: vec![] },
    );
    let frame = new_ipv4(mac, mac, ipv4.as_bytes());
    let hops = Hops::new(3);
    let out = hops.process_frame(frame.clone()).unwrap();
    assert_eq!(out[22], 2);
    assert_eq!(&out[..22], &frame[..22]);
    assert!(Hops::new(6).process_frame(frame.clone()).is_none());

    let mut ipv6 = vec![0u8; 40];
    ipv6[7] = 10;
    let frame6 = new_ipv6(mac, mac, &ipv6);
    assert_eq!(Hops::new(4).process_frame(frame6).unwrap()[21], 6);

    let arp_frame = new_arp(mac, mac, &[0; 28]);
    assert!(Hops::new(0).process_frame(arp_frame).is_none());
}

#[test]
fn ipv6_packet_reads_header_and_payload_chain() {
    let mut data = vec![0u8; 40];
    data[6] = 0; // hop-by-hop header follows
    data[7] = 64;
    for i in 0..16 {
        data[8 + i] = i as u8;
        data[24 + i] = 0xf0 + i as u8;
    }
    // Hop-by-hop header: next header 58 (ICMPv6), extension length 0 (eight bytes).
    data.extend_from_slice(&[58, 0, 0, 0, 0, 0, 0, 0]);
    data.extend_from_slice(&[128, 0, 0x12, 0x34]);
    let packet = Ipv6Packet::from_bytes(data.clone());
    assert_eq!(packet.hop_limit(), 64);
    let source: Vec<u8> = (0..16).collect();
    assert_eq!(packet.source().octets().to_vec(), source);
    assert_eq!(packet.destination().octets()[0], 0xf0);
    match packet.payload() {
        Ipv6Payload::HopByHop(inner) => match *inner {
            Ipv6Payload::Icmp(icmp) => {
                assert_eq!(icmp.ty(), 128);
                assert_eq!(icmp.code(), 0);
                assert_eq!(icmp.as_bytes(), &vec![128, 0, 0x12, 0x34]);
            }
            other => panic!("unexpected payload: {:?}", other),
        },
        other => panic!("unexpected payload: {:?}", other),
    }
    assert_eq!(packet.as_bytes(), &data);

    let mut udp6 = vec![0u8; 40];
    udp6[6] = 17;
    udp6.extend_from_slice(&[1, 2, 3]);
    match Ipv6Packet::from_bytes(udp6).payload() {
        Ipv6Payload::Unknown(17, bytes) => assert_eq!(bytes, vec![1, 2, 3]),
        other => panic!("unexpected payload: {:?}", other),
    }
}

#[test]
fn icmpv6_fields() {
    let packet = Icmpv6Packet::from_bytes(vec![135, 0, 1, 2]);
    assert_eq!(packet.ty(), 135);
    assert_eq!(packet.code(), 0);
    let addr = Ipv6Addr::from_octets([0; 16]);
    assert_eq!(addr.to_u128(), 0);
    let mut octets = [0u8; 16];
    octets[15] = 1;
    octets[0] = 0x20;
    assert_eq!(Ipv6Addr::from_octets(octets).to_u128(), (0x20u128 << 120) | 1);
}
