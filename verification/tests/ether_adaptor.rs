use netsim::arp::{ArpFields, ArpPacket};
use netsim::device::ipv4::ether_adaptor::EtherAdaptorV4;
use netsim::ethernet::{EtherFields, EtherFrameFields, EtherPayloadFields};
use netsim::ipv4::{Ipv4Fields, Ipv4PacketFields, Ipv4PayloadFields, UdpFields};
use netsim::mac::MacAddr;
use netsim::Ipv4Addr;

fn random_udp_packet() -> Ipv4PacketFields {
    Ipv4PacketFields {
        fields: Ipv4Fields {
            source_ip: Ipv4Addr::random_global(),
            dest_ip: Ipv4Addr::random_global(),
            ttl: rand::random(),
        },
        payload: Ipv4PayloadFields::Udp {
            fields: UdpFields { source_port: rand::random(), dest_port: rand::random() },
            payload: rand::random::<[u8; 8]>().to_vec(),
        },
    }
}

fn same_packet(a: &Ipv4PacketFields, b: &Ipv4PacketFields) -> bool {
    let same_payload = match (&a.payload, &b.payload) {
        (Ipv4PayloadFields::Udp { fields: fa, payload: pa }, Ipv4PayloadFields::Udp { fields: fb, payload: pb }) => {
            fa == fb && pa == pb
        }
        _ => false,
    };
    a.fields == b.fields && same_payload
}

#[test]
fn ether_adaptor_test() {
    let veth_ip = Ipv4Addr::random_global();
    let mut veth = EtherAdaptorV4::new(veth_ip);
    let veth_mac = veth.mac_addr();

    let ipv4_packet = random_udp_packet();
    let frame_with_ipv4_packet = EtherFrameFields {
        fields: EtherFields { source_mac: MacAddr::random(), dest_mac: veth_mac },
        payload: EtherPayloadFields::Ipv4 { packet: ipv4_packet.clone() },
    };
    let out = veth.handle_frame(frame_with_ipv4_packet);
    let packet = out.to_ipv4.expect("ether channel hung up!");
    assert!(same_packet(&packet, &ipv4_packet));
    assert!(out.to_ether.is_empty());

    let requester_mac = MacAddr::random();
    let requester_ip = Ipv4Addr::random_global();
    let frame = EtherFrameFields {
        fields: EtherFields { source_mac: requester_mac, dest_mac: MacAddr::broadcast() },
        payload: EtherPayloadFields::Arp {
            fields: ArpFields::Request { source_mac: requester_mac, source_ip: requester_ip, dest_ip: veth_ip },
        },
    };
    let out = veth.handle_frame(frame);
    assert_eq!(out.to_ether.len(), 1);
    let frame = &out.to_ether[0];
    assert_eq!(frame.fields, EtherFields { source_mac: veth_mac, dest_mac: requester_mac });
    match &frame.payload {
        EtherPayloadFields::Arp { fields } => {
            // The reply crosses the wire as bytes and is read back from them.
            let bytes = ArpPacket::new_from_fields(*fields).as_bytes().to_vec();
            let arp = ArpPacket::from_bytes(bytes);
            assert_eq!(arp.fields(), Some(ArpFields::Response {
                source_mac: veth_mac,
                source_ip: veth_ip,
                dest_mac: requester_mac,
                dest_ip: requester_ip,
            }));
        }
        payload => panic!("unexpected ether payload: {:?}", payload),
    }

    let ipv4_packet = random_udp_packet();
    let dest_ip = ipv4_packet.fields.dest_ip;
    let out = veth.handle_packet(ipv4_packet.clone());
    assert_eq!(out.to_ether.len(), 1);
    let frame = &out.to_ether[0];
    assert_eq!(frame.fields.source_mac, veth_mac);
    assert!(frame.fields.dest_mac.is_broadcast());
    match &frame.payload {
        EtherPayloadFields::Arp { fields } => {
            assert_eq!(*fields, ArpFields::Request { source_mac: veth_mac, source_ip: veth_ip, dest_ip });
        }
        payload => panic!("unexpected ether payload: {:?}", payload),
    }

    let dest_mac = MacAddr::random();
    let frame = EtherFrameFields {
        fields: EtherFields { source_mac: dest_mac, dest_mac: veth_mac },
        payload: EtherPayloadFields::Arp {
            fields: ArpFields::Response { source_mac: dest_mac, source_ip: dest_ip, dest_mac: veth_mac, dest_ip: veth_ip },
        },
    };
    let out = veth.handle_frame(frame);
    assert_eq!(out.to_ether.len(), 1);
    let frame = &out.to_ether[0];
    assert_eq!(frame.fields, EtherFields { source_mac: veth_mac, dest_mac });
    match &frame.payload {
        EtherPayloadFields::Ipv4 { packet } => assert!(same_packet(packet, &ipv4_packet)),
        payload => panic!("unexpected ether payload: {:?}", payload),
    }
}

#[test]
fn held_packets_leave_in_order_and_later_ones_go_directly() {
    let veth_ip = Ipv4Addr::new(10, 0, 0, 1);
    let mut veth = EtherAdaptorV4::new(veth_ip);
    let veth_mac = veth.mac_addr();
    let target = Ipv4Addr::new(10, 0, 0, 9);
    let mut first = random_udp_packet();
    first.fields.dest_ip = target;
    let mut second = random_udp_packet();
    second.fields.dest_ip = target;
    assert_eq!(veth.handle_packet(first.clone()).to_ether.len(), 1);
    assert_eq!(veth.handle_packet(second.clone()).to_ether.len(), 1);

    let target_mac = MacAddr::from_array([2, 0, 0, 0, 0, 9]);
    let response = EtherFrameFields {
        fields: EtherFields { source_mac: target_mac, dest_mac: veth_mac },
        payload: EtherPayloadFields::Arp {
            fields: ArpFields::Response { source_mac: target_mac, source_ip: target, dest_mac: veth_mac, dest_ip: veth_ip },
        },
    };
    let out = veth.handle_frame(response);
    assert_eq!(out.to_ether.len(), 2);
    for (frame, expected) in out.to_ether.iter().zip([&first, &second]) {
        assert_eq!(frame.fields, EtherFields { source_mac: veth_mac, dest_mac: target_mac });
        match &frame.payload {
            EtherPayloadFields::Ipv4 { packet } => assert!(same_packet(packet, expected)),
            payload => panic!("unexpected ether payload: {:?}", payload),
        }
    }

    let mut third = random_udp_packet();
    third.fields.dest_ip = target;
    let out = veth.handle_packet(third.clone());
    assert_eq!(out.to_ether.len(), 1);
    assert_eq!(out.to_ether[0].fields, EtherFields { source_mac: veth_mac, dest_mac: target_mac });
}

#[test]
fn frames_for_others_are_ignored() {
    let veth_ip = Ipv4Addr::new(10, 0, 0, 1);
    let mut veth = EtherAdaptorV4::new(veth_ip);
    let stranger = MacAddr::from_array([2, 1, 1, 1, 1, 1]);
    let frame = EtherFrameFields {
        fields: EtherFields { source_mac: stranger, dest_mac: MacAddr::from_array([2, 2, 2, 2, 2, 2]) },
        payload: EtherPayloadFields::Ipv4 { packet: random_udp_packet() },
    };
    let out = veth.handle_frame(frame);
    assert!(out.to_ether.is_empty());
    assert!(out.to_ipv4.is_none());
    let request_for_other = EtherFrameFields {
        fields: EtherFields { source_mac: stranger, dest_mac: MacAddr::broadcast() },
        payload: EtherPayloadFields::Arp {
            fields: ArpFields::Request { source_mac: stranger, source_ip: Ipv4Addr::new(10, 0, 0, 3), dest_ip: Ipv4Addr::new(10, 0, 0, 4) },
        },
    };
    let out = veth.handle_frame(request_for_other);
    assert!(out.to_ether.is_empty());
}
