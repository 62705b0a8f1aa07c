use agama_network::address::{parse_address, IpAddress, IpAddressError, IpFamily, Ipv4Addr};
use agama_network::ipv6::Ipv6Addr;

fn v4(a: u8, b: u8, c: u8, d: u8) -> Ipv4Addr {
    Ipv4Addr { a, b, c, d }
}

fn v6(g: [u16; 8]) -> Ipv6Addr {
    Ipv6Addr::from_segments(&g.to_vec())
}

#[test]
fn ipv4_reads_a_dotted_quad() {
    assert_eq!(parse_address::<Ipv4Addr>("192.168.1.20"), Some(v4(192, 168, 1, 20)));
    assert_eq!(parse_address::<Ipv4Addr>("0.0.0.0"), Some(v4(0, 0, 0, 0)));
    assert_eq!(parse_address::<Ipv4Addr>("255.255.255.255"), Some(v4(255, 255, 255, 255)));
}

#[test]
fn ipv4_refuses_what_is_no_dotted_quad() {
    for text in [
        "", "1", "1.2.3", "1.2.3.4.5", "1.2.3.", ".1.2.3", "1..2.3", "256.1.1.1", "1.2.3.256",
        "01.2.3.4", "1.2.3.04", "1.2.3.4 ", " 1.2.3.4", "a.b.c.d", "1.2.3.-4", "1.2.3.+4",
        "1111.2.3.4", "1.2.3.4/24", "::1", "١.2.3.4",
    ] {
        assert_eq!(parse_address::<Ipv4Addr>(text), None, "{:?}", text);
    }
}

#[test]
fn ipv4_writes_a_dotted_quad() {
    assert_eq!(v4(10, 0, 0, 1).to_string(), "10.0.0.1");
    assert_eq!(v4(0, 0, 0, 0).to_string(), "0.0.0.0");
    assert_eq!(v4(255, 100, 99, 9).to_string(), "255.100.99.9");
}

#[test]
fn ipv4_round_trips_every_octet_value() {
    for n in 0..=255u8 {
        let a = v4(n, 255 - n, n / 2, 7);
        assert_eq!(parse_address::<Ipv4Addr>(&a.to_string()), Some(a));
    }
}

#[test]
fn prefixed_ipv4_round_trips_in_normal_form() {
    for text in ["192.168.0.1/24", "10.0.0.1/8", "0.0.0.0/0", "1.2.3.4/32", "1.2.3.4/4294967295"] {
        let parsed = IpAddress::<Ipv4Addr>::parse(text).unwrap();
        assert_eq!(parsed.to_string(), text);
    }
}

#[test]
fn prefix_is_normalised_when_written_back() {
    let parsed = IpAddress::<Ipv4Addr>::parse("10.0.0.1/+8").unwrap();
    assert_eq!(parsed, IpAddress { addr: v4(10, 0, 0, 1), prefix: 8 });
    assert_eq!(parsed.to_string(), "10.0.0.1/8");
    let parsed = IpAddress::<Ipv4Addr>::parse("10.0.0.1/0024").unwrap();
    assert_eq!(parsed.prefix, 24);
    assert_eq!(parsed.to_string(), "10.0.0.1/24");
    assert_eq!(IpAddress::<Ipv4Addr>::parse(&parsed.to_string()), Ok(parsed));
}

#[test]
fn prefixed_address_reports_what_is_wrong() {
    assert_eq!(IpAddress::<Ipv4Addr>::parse("192.168.0.1"), Err(IpAddressError::MissingPrefix));
    assert_eq!(IpAddress::<Ipv4Addr>::parse(""), Err(IpAddressError::MissingPrefix));
    assert_eq!(IpAddress::<Ipv4Addr>::parse("192.168.0/24"), Err(IpAddressError::InvalidAddress));
    assert_eq!(IpAddress::<Ipv4Addr>::parse("/24"), Err(IpAddressError::InvalidAddress));
    assert_eq!(IpAddress::<Ipv4Addr>::parse("::1/64"), Err(IpAddressError::InvalidAddress));
    assert_eq!(IpAddress::<Ipv4Addr>::parse("bad/bad"), Err(IpAddressError::InvalidAddress));
    assert_eq!(IpAddress::<Ipv4Addr>::parse("1.2.3.4/"), Err(IpAddressError::InvalidPrefix));
    assert_eq!(IpAddress::<Ipv4Addr>::parse("1.2.3.4/ab"), Err(IpAddressError::InvalidPrefix));
    assert_eq!(IpAddress::<Ipv4Addr>::parse("1.2.3.4/-1"), Err(IpAddressError::InvalidPrefix));
    assert_eq!(IpAddress::<Ipv4Addr>::parse("1.2.3.4/+"), Err(IpAddressError::InvalidPrefix));
    assert_eq!(IpAddress::<Ipv4Addr>::parse("1.2.3.4/24/1"), Err(IpAddressError::InvalidPrefix));
    assert_eq!(
        IpAddress::<Ipv4Addr>::parse("1.2.3.4/4294967296"),
        Err(IpAddressError::InvalidPrefix)
    );
    assert_eq!(IpAddress::<Ipv6Addr>::parse("1.2.3.4/24"), Err(IpAddressError::InvalidAddress));
}

#[test]
fn ipv6_reads_the_full_and_the_short_forms() {
    let cases: Vec<(&str, [u16; 8])> = vec![
        ("::", [0, 0, 0, 0, 0, 0, 0, 0]),
        ("::1", [0, 0, 0, 0, 0, 0, 0, 1]),
        ("1::", [1, 0, 0, 0, 0, 0, 0, 0]),
        ("2001:db8::1", [0x2001, 0xdb8, 0, 0, 0, 0, 0, 1]),
        ("1:2:3:4:5:6:7:8", [1, 2, 3, 4, 5, 6, 7, 8]),
        ("1:2:3:4:5:6:7::", [1, 2, 3, 4, 5, 6, 7, 0]),
        ("::2:3:4:5:6:7:8", [0, 2, 3, 4, 5, 6, 7, 8]),
        ("1:2:3::6:7:8", [1, 2, 3, 0, 0, 6, 7, 8]),
        ("ABCD:EF01:2345:6789:abcd:ef01:2345:6789",
            [0xabcd, 0xef01, 0x2345, 0x6789, 0xabcd, 0xef01, 0x2345, 0x6789]),
        ("0001:002:03:4:0005:006:07:8", [1, 2, 3, 4, 5, 6, 7, 8]),
        ("::ffff:192.168.1.1", [0, 0, 0, 0, 0, 0xffff, 0xc0a8, 0x0101]),
        ("::192.168.1.1", [0, 0, 0, 0, 0, 0, 0xc0a8, 0x0101]),
        ("1:2:3:4:5:6:1.2.3.4", [1, 2, 3, 4, 5, 6, 0x0102, 0x0304]),
        ("64:ff9b::10.0.0.1", [0x64, 0xff9b, 0, 0, 0, 0, 0x0a00, 0x0001]),
        ("fe80::1:2", [0xfe80, 0, 0, 0, 0, 0, 1, 2]),
    ];
    for (text, groups) in cases {
        assert_eq!(parse_address::<Ipv6Addr>(text), Some(v6(groups)), "{:?}", text);
    }
}

#[test]
fn ipv6_refuses_what_is_no_address() {
    for text in [
        "", ":", ":::", "1", "1:2:3:4:5:6:7", "1:2:3:4:5:6:7:8:9", "1::2::3", "12345::", "::g",
        "1:2:3:4:5:6:7::8", "1::2:3:4:5:6:7:8", "::1.2.3", "1.2.3.4", "1.2.3.4::", "::1.2.3.4:5",
        "1:2:3:4:5:6:7:1.2.3.4", "1:2:3:4:5:1.2.3.4", ":1", "1:", "1:::2", "::1 ", "fe80::1%eth0",
        "::01.2.3.4", "1:2:3:4:5:6:7:", ":1:2:3:4:5:6:7", "::1::",
    ] {
        assert_eq!(parse_address::<Ipv6Addr>(text), None, "{:?}", text);
    }
}

#[test]
fn ipv6_writes_the_shortest_form() {
    let cases: Vec<([u16; 8], &str)> = vec![
        ([0, 0, 0, 0, 0, 0, 0, 0], "::"),
        ([0, 0, 0, 0, 0, 0, 0, 1], "::1"),
        ([1, 0, 0, 0, 0, 0, 0, 0], "1::"),
        ([0x2001, 0xdb8, 0, 0, 0, 0, 0, 1], "2001:db8::1"),
        ([0x2001, 0xdb8, 0, 0, 1, 0, 0, 1], "2001:db8::1:0:0:1"),
        ([0x2001, 0, 0, 1, 0, 0, 0, 1], "2001:0:0:1::1"),
        ([1, 0, 2, 0, 3, 0, 4, 0], "1:0:2:0:3:0:4:0"),
        ([1, 2, 3, 4, 5, 6, 7, 8], "1:2:3:4:5:6:7:8"),
        ([0xabcd, 0xef01, 0x2345, 0x6789, 0xa, 0xb0, 0xc00, 0xd000], "abcd:ef01:2345:6789:a:b0:c00:d000"),
        ([0, 0, 0, 0, 0, 0xffff, 0xc0a8, 0x0101], "::ffff:192.168.1.1"),
        ([0, 0, 0, 0, 0, 0xffff, 0, 0], "::ffff:0.0.0.0"),
        ([0, 0, 0, 0, 0, 0, 0xc0a8, 0x0101], "::c0a8:101"),
        ([1, 2, 3, 4, 5, 6, 0, 0], "1:2:3:4:5:6::"),
        ([0, 0, 3, 4, 5, 6, 7, 8], "::3:4:5:6:7:8"),
        ([0xffff, 0xffff, 0xffff, 0xffff, 0xffff, 0xffff, 0xffff, 0xffff],
            "ffff:ffff:ffff:ffff:ffff:ffff:ffff:ffff"),
    ];
    for (groups, text) in cases {
        assert_eq!(v6(groups).to_string(), text);
        assert_eq!(parse_address::<Ipv6Addr>(text), Some(v6(groups)), "{:?}", text);
    }
}

#[test]
fn ipv6_segments_round_trip() {
    let a = v6([1, 2, 3, 4, 5, 6, 7, 8]);
    assert_eq!(a.to_segments(), vec![1, 2, 3, 4, 5, 6, 7, 8]);
    assert_eq!(a.s0, 1);
    assert_eq!(a.s7, 8);
}

#[test]
fn prefixed_ipv6_round_trips() {
    for text in ["2001:db8::1/64", "::/0", "fe80::1/128", "::ffff:10.0.0.1/96"] {
        let parsed = IpAddress::<Ipv6Addr>::parse(text).unwrap();
        assert_eq!(parsed.to_string(), text);
        assert_eq!(IpAddress::<Ipv6Addr>::parse(&parsed.to_string()), Ok(parsed));
    }
}

#[test]
fn an_address_of_one_family_is_none_of_the_other() {
    assert_eq!(parse_address::<Ipv4Addr>("2001:db8::1"), None);
    assert_eq!(parse_address::<Ipv4Addr>("::ffff:1.2.3.4"), None);
    assert_eq!(parse_address::<Ipv6Addr>("192.168.1.1"), None);
    let from_chars = Ipv4Addr::from_chars(&['1', '.', '2', '.', '3', '.', '4']);
    assert_eq!(from_chars, Some(v4(1, 2, 3, 4)));
}

#[test]
fn a_prefix_reads_as_an_unsigned_number() {
    let texts = [
        "0", "24", "+24", "024", "+024", "-24", "", "+", "++1", "4294967295", "4294967296",
        "+4294967295", "1 ", " 1", "1e3", "0x10", "12345678901234567890",
    ];
    for text in texts {
        let ours = IpAddress::<Ipv4Addr>::parse(&format!("1.2.3.4/{}", text)).ok().map(|a| a.prefix);
        assert_eq!(ours, text.parse::<u32>().ok(), "{:?}", text);
    }
}
