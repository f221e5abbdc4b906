use netsim::datagram::{IpDatagram, Ipv4Datagram, TcpPacketFlags, Tcpv4Packet, Udpv4Packet, DEFAULT_TTL};
use netsim::{Ipv4Addr, Ipv6Addr, SocketAddrV4};

fn segment() -> Tcpv4Packet {
    let mut segment = Tcpv4Packet::new(
        SocketAddrV4::new(Ipv4Addr::new(10, 0, 0, 1), 1234),
        SocketAddrV4::new(Ipv4Addr::new(10, 0, 0, 2), 80),
    );
    segment.seq_number = 0x0102_0304;
    segment.ack_number = 0x0a0b_0c0d;
    segment.flags = TcpPacketFlags { syn: true, ack: true, ..TcpPacketFlags::default() };
    segment.payload = b"hello".to_vec();
    segment
}

#[test]
fn new_segment_is_empty() {
    let segment = Tcpv4Packet::new(
        SocketAddrV4::new(Ipv4Addr::new(1, 2, 3, 4), 5),
        SocketAddrV4::new(Ipv4Addr::new(6, 7, 8, 9), 10),
    );
    assert_eq!(segment.seq_number, 0);
    assert_eq!(segment.ack_number, 0);
    assert_eq!(segment.flags, TcpPacketFlags::default());
    assert!(segment.payload.is_empty());
}

#[test]
fn tcp_datagram_round_trip() {
    let datagram = IpDatagram::V4(Ipv4Datagram::Tcp(segment()));
    let bytes = datagram.to_bytes();
    // A 20-byte IPv4 header, a 20-byte TCP header and the payload.
    assert_eq!(bytes.len(), 45);
    assert_eq!(bytes[0], 0x45);
    assert_eq!(bytes[8], DEFAULT_TTL);
    assert_eq!(bytes[9], 6);
    assert_eq!(&bytes[20..22], &[0x04, 0xd2]);
    assert_eq!(&bytes[22..24], &[0x00, 0x50]);
    assert_eq!(bytes[33], 0x12);
    assert_eq!(&bytes[34..36], &[0xff, 0xff]);
    // Both checksums hold: summing over a checked range gives zero.
    assert_eq!(netsim::checksum::data(&bytes[..20]), 0);
    let mut pseudo = vec![10, 0, 0, 1, 10, 0, 0, 2, 0, 6, 0, 25];
    pseudo.extend_from_slice(&bytes[20..]);
    assert_eq!(netsim::checksum::data(&pseudo), 0);
    match IpDatagram::parse(&bytes) {
        Some(IpDatagram::V4(Ipv4Datagram::Tcp(parsed))) => {
            let original = segment();
            assert_eq!(parsed.source_addr, original.source_addr);
            assert_eq!(parsed.destination_addr, original.destination_addr);
            assert_eq!(parsed.seq_number, original.seq_number);
            assert_eq!(parsed.ack_number, original.ack_number);
            assert_eq!(parsed.flags, original.flags);
            assert_eq!(parsed.payload, original.payload);
        }
        other => panic!("unexpected parse: {:?}", other),
    }
}

#[test]
fn other_ipv4_datagram_round_trip() {
    let datagram = IpDatagram::V4(Ipv4Datagram::Other {
        source_addr: Ipv4Addr::new(192, 168, 1, 1),
        destination_addr: Ipv4Addr::new(8, 8, 8, 8),
        protocol: 47,
        payload: vec![1, 2, 3, 4, 5, 6, 7, 8, 9],
    });
    let bytes = datagram.to_bytes();
    assert_eq!(bytes.len(), 29);
    assert_eq!(&bytes[2..4], &[0, 29]);
    match IpDatagram::parse(&bytes) {
        Some(IpDatagram::V4(Ipv4Datagram::Other { source_addr, destination_addr, protocol, payload })) => {
            assert_eq!(source_addr, Ipv4Addr::new(192, 168, 1, 1));
            assert_eq!(destination_addr, Ipv4Addr::new(8, 8, 8, 8));
            assert_eq!(protocol, 47);
            assert_eq!(payload, vec![1, 2, 3, 4, 5, 6, 7, 8, 9]);
        }
        other => panic!("unexpected parse: {:?}", other),
    }
}

#[test]
fn ipv6_datagram_round_trip() {
    let mut source = [0u8; 16];
    source[15] = 1;
    let mut destination = [0u8; 16];
    destination[0] = 0xfe;
    destination[1] = 0x80;
    destination[15] = 2;
    let datagram = IpDatagram::V6 {
        source_addr: Ipv6Addr::from_octets(source),
        destination_addr: Ipv6Addr::from_octets(destination),
        payload: vec![0xaa, 0xbb],
    };
    let bytes = datagram.to_bytes();
    assert_eq!(bytes.len(), 42);
    assert_eq!(&bytes[..8], &[0x60, 0, 0, 0, 0, 2, 59, DEFAULT_TTL]);
    match IpDatagram::parse(&bytes) {
        Some(IpDatagram::V6 { source_addr, destination_addr, payload }) => {
            assert_eq!(source_addr.octets(), source);
            assert_eq!(destination_addr.octets(), destination);
            assert_eq!(payload, vec![0xaa, 0xbb]);
        }
        other => panic!("unexpected parse: {:?}", other),
    }
}

#[test]
fn unreadable_bytes_give_nothing() {
    assert!(IpDatagram::parse(&[]).is_none());
    assert!(IpDatagram::parse(&[0x45; 19]).is_none());
    // Version 5 is neither IPv4 nor IPv6.
    let mut bytes = vec![0u8; 60];
    bytes[0] = 0x55;
    assert!(IpDatagram::parse(&bytes).is_none());
    // An IHL below five words.
    bytes[0] = 0x44;
    assert!(IpDatagram::parse(&bytes).is_none());
    // An IHL longer than the bytes.
    bytes[0] = 0x4f;
    assert!(IpDatagram::parse(&bytes[..40]).is_none());
    // An IPv6 header cut short.
    bytes[0] = 0x60;
    assert!(IpDatagram::parse(&bytes[..39]).is_none());
}

#[test]
fn tcp_with_short_header_is_read_as_other() {
    // Protocol 6, but the data offset says the TCP header is shorter than five words.
    let mut bytes = vec![0u8; 40];
    bytes[0] = 0x45;
    bytes[9] = 6;
    bytes[32] = 0x40;
    match IpDatagram::parse(&bytes) {
        Some(IpDatagram::V4(Ipv4Datagram::Other { protocol, payload, .. })) => {
            assert_eq!(protocol, 6);
            assert_eq!(payload.len(), 20);
        }
        other => panic!("unexpected parse: {:?}", other),
    }
}

#[test]
fn udp_datagram_round_trip() {
    let packet = Udpv4Packet {
        source_addr: SocketAddrV4::new(Ipv4Addr::new(10, 0, 0, 1), 5353),
        destination_addr: SocketAddrV4::new(Ipv4Addr::new(8, 8, 8, 8), 53),
        payload: vec![7, 7, 7],
    };
    let bytes = IpDatagram::V4(Ipv4Datagram::Udp(packet.clone())).to_bytes();
    assert_eq!(bytes.len(), 31);
    assert_eq!(bytes[9], 17);
    assert_eq!(&bytes[20..26], &[0x14, 0xe9, 0x00, 0x35, 0x00, 0x0b]);
    match IpDatagram::parse(&bytes) {
        Some(IpDatagram::V4(Ipv4Datagram::Udp(parsed))) => {
            assert_eq!(parsed.source_addr, packet.source_addr);
            assert_eq!(parsed.destination_addr, packet.destination_addr);
            assert_eq!(parsed.payload, packet.payload);
        }
        other => panic!("unexpected parse: {:?}", other),
    }
    // A UDP header cut short is read as another protocol.
    let mut short = bytes[..27].to_vec();
    short[3] = 27;
    assert!(matches!(IpDatagram::parse(&short), Some(IpDatagram::V4(Ipv4Datagram::Other { protocol: 17, .. }))));
}
