use netsim::cidr::{parse_ipv4_network, parse_ipv6_network, IntTextError, NetworkParseError};
use netsim::Ipv4Addr;

#[test]
fn parses_a_network() {
    assert_eq!(parse_ipv4_network("192.168.0.0/16"), Ok((Ipv4Addr::new(192, 168, 0, 0), 16)));
    assert_eq!(parse_ipv4_network("0.0.0.0/0"), Ok((Ipv4Addr::new(0, 0, 0, 0), 0)));
    assert_eq!(parse_ipv4_network("255.255.255.255/32"), Ok((Ipv4Addr::new(255, 255, 255, 255), 32)));
    // The prefix length may carry a plus sign and leading zeros.
    assert_eq!(parse_ipv4_network("10.1.2.3/+8"), Ok((Ipv4Addr::new(10, 1, 2, 3), 8)));
    assert_eq!(parse_ipv4_network("10.1.2.3/008"), Ok((Ipv4Addr::new(10, 1, 2, 3), 8)));
}

#[test]
fn missing_slash() {
    let err = parse_ipv4_network("10.0.0.0").unwrap_err();
    assert_eq!(err, NetworkParseError::MissingSlash);
    assert_eq!(err.message(), "missing '/' character");
}

#[test]
fn invalid_addresses() {
    for text in [
        "10.0.0/8",
        "10.0.0.0.0/8",
        "010.0.0.0/8",
        "256.0.0.0/8",
        "1000.0.0.0/8",
        "10..0.0/8",
        ".10.0.0/8",
        "10.0.0./8",
        "a.b.c.d/8",
        "/8",
        " 10.0.0.0/8",
    ] {
        let err = parse_ipv4_network(text).unwrap_err();
        assert_eq!(err, NetworkParseError::InvalidIpv4Addr, "{}", text);
        assert_eq!(err.message(), "invalid IPv4 address syntax");
    }
}

#[test]
fn invalid_prefix_lengths() {
    let cases = [
        ("10.0.0.0/", IntTextError::Empty, "cannot parse integer from empty string"),
        ("10.0.0.0/x", IntTextError::InvalidDigit, "invalid digit found in string"),
        ("10.0.0.0/+", IntTextError::InvalidDigit, "invalid digit found in string"),
        ("10.0.0.0/-1", IntTextError::InvalidDigit, "invalid digit found in string"),
        ("10.0.0.0/8/8", IntTextError::InvalidDigit, "invalid digit found in string"),
        ("10.0.0.0/256", IntTextError::Overflow, "number too large to fit in target type"),
        // The overflow comes before the bad character that follows it.
        ("10.0.0.0/300x", IntTextError::Overflow, "number too large to fit in target type"),
        ("10.0.0.0/25x", IntTextError::InvalidDigit, "invalid digit found in string"),
    ];
    for (text, kind, message) in cases {
        let err = parse_ipv4_network(text).unwrap_err();
        assert_eq!(err, NetworkParseError::InvalidBits(kind), "{}", text);
        assert_eq!(err.message(), message);
    }
}

#[test]
fn too_many_prefix_bits() {
    let err = parse_ipv4_network("10.0.0.0/33").unwrap_err();
    assert_eq!(err, NetworkParseError::TooManyIpv4Bits);
    assert_eq!(err.message(), "subnet mask bits cannot be greater than 32");
}

#[test]
fn addresses_and_prefixes_as_std_reads_them() {
    for (text, expected) in [
        ("1.2.3.4", Some([1, 2, 3, 4])),
        ("01.2.3.4", None),
        ("1.2.3.256", None),
        ("1.2.3", None),
        ("255.0.255.0", Some([255, 0, 255, 0])),
        ("0.0.0.0", Some([0, 0, 0, 0])),
        ("1.2.3.4 ", None),
        ("1.2.3.04", None),
        ("1.2.3.0", Some([1, 2, 3, 0])),
    ] {
        let ours = parse_ipv4_network(&format!("{}/1", text)).ok().map(|(addr, _)| addr.octets());
        assert_eq!(ours, expected, "{}", text);
    }
    for text in ["", "+", "+7", "007", "255", "256", "-0", "1a"] {
        let std_bits = text.parse::<u8>();
        let ours = parse_ipv4_network(&format!("1.2.3.4/{}", text));
        match (std_bits, ours) {
            (Ok(bits), Ok((_, ours))) => assert_eq!(bits, ours, "{}", text),
            (Ok(bits), Err(err)) => assert_eq!(err, NetworkParseError::TooManyIpv4Bits, "{} {}", text, bits),
            (Err(std_err), Err(NetworkParseError::InvalidBits(kind))) => {
                assert_eq!(std_err.to_string(), kind.message(), "{}", text)
            }
            (std_bits, ours) => panic!("{}: {:?} against {:?}", text, std_bits, ours),
        }
    }
}

fn v6(groups: [u16; 8]) -> [u8; 16] {
    let mut octets = [0u8; 16];
    for (i, g) in groups.iter().enumerate() {
        octets[2 * i] = (g >> 8) as u8;
        octets[2 * i + 1] = (g & 0xff) as u8;
    }
    octets
}

#[test]
fn parses_ipv6_networks() {
    for (text, addr, bits) in [
        ("ff00::/8", [0xff00, 0, 0, 0, 0, 0, 0, 0], 8),
        ("::/0", [0; 8], 0),
        ("::1/128", [0, 0, 0, 0, 0, 0, 0, 1], 128),
        ("fe80::1:2/64", [0xfe80, 0, 0, 0, 0, 0, 1, 2], 64),
        ("1:2:3:4:5:6:7:8/16", [1, 2, 3, 4, 5, 6, 7, 8], 16),
        ("1:2:3:4:5:6:7::/16", [1, 2, 3, 4, 5, 6, 7, 0], 16),
        ("::2:3:4:5:6:7:8/16", [0, 2, 3, 4, 5, 6, 7, 8], 16),
        ("::ffff:1.2.3.4/96", [0, 0, 0, 0, 0, 0xffff, 0x0102, 0x0304], 96),
        ("1:2:3:4:5:6:1.2.3.4/96", [1, 2, 3, 4, 5, 6, 0x0102, 0x0304], 96),
        ("ABCD:ef01::/32", [0xabcd, 0xef01, 0, 0, 0, 0, 0, 0], 32),
        ("0001:002::/32", [1, 2, 0, 0, 0, 0, 0, 0], 32),
    ] {
        let (parsed, parsed_bits) = parse_ipv6_network(text).unwrap();
        assert_eq!(parsed.octets(), v6(addr), "{}", text);
        assert_eq!(parsed_bits, bits, "{}", text);
    }
}

#[test]
fn invalid_ipv6_networks() {
    for text in [
        "/8",
        ":/8",
        ":::/8",
        "1::2::3/8",
        "1:2:3:4:5:6:7:8:9/8",
        "1:2:3:4:5:6:7/8",
        "1:2:3:4:5:6:7:8::/8",
        "::1:2:3:4:5:6:7:8/8",
        "12345::/8",
        "g::/8",
        "1.2.3.4::/8",
        "1:2:3:4:5:6:7:1.2.3.4/8",
        "1:2:3:4:5:6::1.2.3.4/8",
        "::1.2.3/8",
        "::1.2.3.4:5/8",
        ":1::/8",
    ] {
        let err = parse_ipv6_network(text).unwrap_err();
        assert_eq!(err, NetworkParseError::InvalidIpv6Addr, "{}", text);
        assert_eq!(err.message(), "invalid IPv6 address syntax");
    }
    assert_eq!(parse_ipv6_network("::1"), Err(NetworkParseError::MissingSlash));
    assert_eq!(parse_ipv6_network("::1/129"), Err(NetworkParseError::TooManyIpv6Bits));
    assert_eq!(
        parse_ipv6_network("::1/129").unwrap_err().message(),
        "subnet mask bits cannot be greater than 128"
    );
    assert_eq!(parse_ipv6_network("::1/x"), Err(NetworkParseError::InvalidBits(IntTextError::InvalidDigit)));
}

#[test]
fn ipv6_addresses_as_std_reads_them() {
    let cases: [(&str, Option<[u16; 8]>); 27] = [
        ("::", Some([0; 8])),
        ("::1", Some([0, 0, 0, 0, 0, 0, 0, 1])),
        ("1::", Some([1, 0, 0, 0, 0, 0, 0, 0])),
        ("1:2::3:4", Some([1, 2, 0, 0, 0, 0, 3, 4])),
        ("1:2:3:4:5:6:7:8", Some([1, 2, 3, 4, 5, 6, 7, 8])),
        ("1:2:3:4:5:6:7::", Some([1, 2, 3, 4, 5, 6, 7, 0])),
        ("::2:3:4:5:6:7:8", Some([0, 2, 3, 4, 5, 6, 7, 8])),
        ("1:2:3:4:5:6:7:8:9", None),
        ("1::2::3", None),
        (":::", None),
        ("::ffff:10.0.0.1", Some([0, 0, 0, 0, 0, 0xffff, 0x0a00, 0x0001])),
        ("::10.0.0.1", Some([0, 0, 0, 0, 0, 0, 0x0a00, 0x0001])),
        ("1::10.0.0.1", Some([1, 0, 0, 0, 0, 0, 0x0a00, 0x0001])),
        ("1:2:3:4:5::10.0.0.1", Some([1, 2, 3, 4, 5, 0, 0x0a00, 0x0001])),
        ("1:2:3:4:5:6::10.0.0.1", None),
        ("1:2:3:4:5:6:10.0.0.1", Some([1, 2, 3, 4, 5, 6, 0x0a00, 0x0001])),
        ("::010.0.0.1", None),
        ("::1.2.3.256", None),
        ("12345::", None),
        ("fFfF::", Some([0xffff, 0, 0, 0, 0, 0, 0, 0])),
        ("0::0", Some([0; 8])),
        ("::0:0", Some([0; 8])),
        ("1:", None),
        (":1", None),
        ("", None),
        ("1.2.3.4", None),
        ("::1.2.3.4.5", None),
    ];
    for (text, expected) in cases {
        let ours = parse_ipv6_network(&format!("{}/1", text)).ok().map(|(addr, _)| addr.octets());
        assert_eq!(ours, expected.map(v6), "{}", text);
    }
}
