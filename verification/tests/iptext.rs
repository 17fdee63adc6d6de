use tlstun::addr::{format_ipv4, IpAddress};
use tlstun::iptext::{
    find_pair, fold_groups, parse_group, parse_groups, parse_ip, parse_ipv6_groups,
    parse_strict_ipv4, parse_strict_octet,
};
use tlstun::pool::IpPool;
use tlstun::router::{RouteMsg, RouterAction, RouterInner};
use tlstun::session::{SessionAction, SessionBuilder};

fn v6(text: &str) -> Option<u128> {
    match parse_ip(text.as_bytes()) {
        Some(IpAddress::V6(x)) => Some(x),
        Some(IpAddress::V4(_)) => panic!("{} read as IPv4", text),
        None => None,
    }
}

#[test]
fn strict_octets() {
    assert_eq!(parse_strict_octet(b"0"), Some(0));
    assert_eq!(parse_strict_octet(b"7"), Some(7));
    assert_eq!(parse_strict_octet(b"10"), Some(10));
    assert_eq!(parse_strict_octet(b"99"), Some(99));
    assert_eq!(parse_strict_octet(b"100"), Some(100));
    assert_eq!(parse_strict_octet(b"255"), Some(255));
    for text in [&b""[..], b"00", b"01", b"007", b"256", b"999", b"1000", b"0255", b"+1", b"-1", b"1a", b"a", b" 1"] {
        assert_eq!(parse_strict_octet(text), None, "{:?}", text);
    }
}

#[test]
fn every_octet_in_its_shortest_spelling_is_strict() {
    for n in 0..=255u8 {
        assert_eq!(parse_strict_octet(n.to_string().as_bytes()), Some(n));
    }
}

#[test]
fn strict_ipv4_text() {
    assert_eq!(parse_strict_ipv4(b"10.0.0.5"), Some(0x0A000005));
    assert_eq!(parse_strict_ipv4(b"0.0.0.0"), Some(0));
    assert_eq!(parse_strict_ipv4(b"255.255.255.255"), Some(0xFFFFFFFF));
    assert_eq!(parse_strict_ipv4(b"192.168.1.254"), Some(0xC0A801FE));
    for text in [
        &b""[..],
        b"10.0.0",
        b"10.0.0.5.6",
        b"10.0.0.256",
        b"10.0.0.05",
        b"010.0.0.5",
        b"+10.0.0.5",
        b"10..0.5",
        b".10.0.0.5",
        b"10.0.0.5.",
        b"10.0.0.5 ",
        b"a.b.c.d",
    ] {
        assert_eq!(parse_strict_ipv4(text), None, "{:?}", text);
    }
}

#[test]
fn leased_addresses_are_strict_ipv4_text() {
    for a in [0u32, 1, 9, 10, 99, 100, 255, 256, 0x0A000005, 0x0A0A0A0A, 0x64646464, 0xFFFFFFFF, 0xC0A80001] {
        let text = format_ipv4(a);
        assert_eq!(parse_strict_ipv4(text.as_bytes()), Some(a), "{}", text);
        assert_eq!(parse_ip(text.as_bytes()), Some(IpAddress::V4(a)), "{}", text);
    }
}

#[test]
fn every_lease_of_a_pool_names_a_route() {
    let mut pool = IpPool::new("clients", "10.9.255.0/23").unwrap();
    let mut r: RouterInner<usize> = RouterInner::new();
    let mut n = 0;
    while let Ok(ip) = pool.get_ip() {
        assert!(r.add(&ip, n).is_ok(), "{}", ip);
        n += 1;
    }
    assert_eq!(n, 510);
}

#[test]
fn hex_groups() {
    assert_eq!(parse_group(b"0"), Some(0));
    assert_eq!(parse_group(b"1"), Some(1));
    assert_eq!(parse_group(b"a"), Some(10));
    assert_eq!(parse_group(b"F"), Some(15));
    assert_eq!(parse_group(b"10"), Some(16));
    assert_eq!(parse_group(b"0db8"), Some(0x0db8));
    assert_eq!(parse_group(b"DB8"), Some(0x0db8));
    assert_eq!(parse_group(b"ffff"), Some(0xffff));
    assert_eq!(parse_group(b"FfFf"), Some(0xffff));
    assert_eq!(parse_group(b"0000"), Some(0));
    assert_eq!(parse_group(b"8a2e"), Some(0x8a2e));
    for text in [&b""[..], b"00000", b"12345", b"g", b"1g", b"0x1", b"+1", b" 1", b"1.2"] {
        assert_eq!(parse_group(text), None, "{:?}", text);
    }
}

#[test]
fn runs_of_groups() {
    assert_eq!(parse_groups(b"", true), Some(vec![]));
    assert_eq!(parse_groups(b"", false), Some(vec![]));
    assert_eq!(parse_groups(b"1", false), Some(vec![1]));
    assert_eq!(parse_groups(b"1:2:ffff", false), Some(vec![1, 2, 0xffff]));
    assert_eq!(parse_groups(b"1:1.2.3.4", true), Some(vec![1, 0x0102, 0x0304]));
    assert_eq!(parse_groups(b"255.255.0.1", true), Some(vec![0xffff, 0x0001]));
    assert_eq!(parse_groups(b"1:1.2.3.4", false), None);
    assert_eq!(parse_groups(b"1.2.3.4:1", true), None);
    assert_eq!(parse_groups(b"1:", true), None);
    assert_eq!(parse_groups(b":1", true), None);
    assert_eq!(parse_groups(b"1::2", true), None);
    assert_eq!(parse_groups(b":", true), None);
    assert_eq!(parse_groups(b"1:2:3:4:5:6:7:8:9:a", true), Some(vec![1, 2, 3, 4, 5, 6, 7, 8, 9, 10]));
}

#[test]
fn first_double_colon() {
    assert_eq!(find_pair(b""), 0);
    assert_eq!(find_pair(b":"), 1);
    assert_eq!(find_pair(b"::"), 0);
    assert_eq!(find_pair(b"1::"), 1);
    assert_eq!(find_pair(b"1:2::3::4"), 3);
    assert_eq!(find_pair(b"1:2:3"), 5);
    assert_eq!(find_pair(b"1:2:3:"), 6);
    assert_eq!(find_pair(b":1:2"), 4);
}

#[test]
fn eight_groups_as_a_number() {
    assert_eq!(fold_groups(&[0; 8]), 0);
    assert_eq!(fold_groups(&[0, 0, 0, 0, 0, 0, 0, 1]), 1);
    assert_eq!(fold_groups(&[1, 0, 0, 0, 0, 0, 0, 0]), 1u128 << 112);
    assert_eq!(fold_groups(&[0xffff; 8]), u128::MAX);
    assert_eq!(
        fold_groups(&[0x2001, 0x0db8, 0x85a3, 0, 0, 0x8a2e, 0x0370, 0x7334]),
        0x2001_0db8_85a3_0000_0000_8a2e_0370_7334
    );
}

#[test]
fn ipv6_text_in_full() {
    assert_eq!(v6("2001:db8:85a3:0:0:8a2e:370:7334"), Some(0x2001_0db8_85a3_0000_0000_8a2e_0370_7334));
    assert_eq!(v6("2001:0db8:85a3:0000:0000:8a2e:0370:7334"), Some(0x2001_0db8_85a3_0000_0000_8a2e_0370_7334));
    assert_eq!(v6("0:0:0:0:0:0:0:0"), Some(0));
    assert_eq!(v6("0:0:0:0:0:0:0:1"), Some(1));
    assert_eq!(v6("ffff:ffff:ffff:ffff:ffff:ffff:ffff:ffff"), Some(u128::MAX));
    assert_eq!(v6("FFFF:FFFF:FFFF:FFFF:FFFF:FFFF:FFFF:FFFF"), Some(u128::MAX));
    assert_eq!(v6("1:2:3:4:5:6:7:8"), Some(0x0001_0002_0003_0004_0005_0006_0007_0008));
}

#[test]
fn ipv6_text_with_zeros_left_out() {
    assert_eq!(v6("::"), Some(0));
    assert_eq!(v6("::1"), Some(1));
    assert_eq!(v6("1::"), Some(1u128 << 112));
    assert_eq!(v6("fd00::7"), Some(0xfd00_0000_0000_0000_0000_0000_0000_0007));
    assert_eq!(v6("2001:db8::ffff"), Some(0x2001_0db8_0000_0000_0000_0000_0000_ffff));
    assert_eq!(v6("2001:0db8:85a3::8a2e:0370:7334"), Some(0x2001_0db8_85a3_0000_0000_8a2e_0370_7334));
    assert_eq!(v6("1:2:3:4:5:6:7::"), Some(0x0001_0002_0003_0004_0005_0006_0007_0000));
    assert_eq!(v6("::2:3:4:5:6:7:8"), Some(0x0000_0002_0003_0004_0005_0006_0007_0008));
    assert_eq!(v6("1:2:3::6:7:8"), Some(0x0001_0002_0003_0000_0000_0006_0007_0008));
    assert_eq!(v6("1:2:3:4::6:7:8"), Some(0x0001_0002_0003_0004_0000_0006_0007_0008));
    assert_eq!(v6("fe80::1:2"), Some(0xfe80_0000_0000_0000_0000_0000_0001_0002));
}

#[test]
fn ipv6_text_that_ends_in_ipv4() {
    assert_eq!(v6("::ffff:192.168.1.1"), Some(0xffff_c0a8_0101));
    assert_eq!(v6("::1.2.3.4"), Some(0x0102_0304));
    assert_eq!(v6("64:ff9b::10.0.0.5"), Some(0x0064_ff9b_0000_0000_0000_0000_0a00_0005));
    assert_eq!(v6("1:2:3:4:5:6:7.8.9.10"), Some(0x0001_0002_0003_0004_0005_0006_0708_090a));
    assert_eq!(v6("1:2:3:4:5::7.8.9.10"), Some(0x0001_0002_0003_0004_0005_0000_0708_090a));
    assert_eq!(v6("::255.255.255.255"), Some(0xffff_ffff));
}

#[test]
fn text_that_is_no_ipv6_address() {
    for text in [
        "",
        ":",
        ":::",
        "::::",
        "1",
        "1:2:3:4:5:6:7",
        "1:2:3:4:5:6:7:8:9",
        "1:2:3:4:5:6:7:8::",
        "::1:2:3:4:5:6:7:8",
        "1::2:3:4:5:6:7:8",
        "1:2:3:4::5:6:7:8",
        "1::2::3",
        "1:::2",
        "::1::",
        ":1:2:3:4:5:6:7:8",
        ":1:2:3:4:5:6:7",
        "1:2:3:4:5:6:7:8:",
        "1:2:3:4:5:6:7:",
        "12345::",
        "::12345",
        "g::",
        "::g",
        "1.2.3.4::",
        "1.2.3.4::1",
        "::1.2.3.4:5",
        "1:2:3:4:5:6:7:1.2.3.4",
        "1:2:3:4:5:6:1.2.3.4:7",
        "1:2:3:4:5:1.2.3.4",
        "::1:2:3:4:5:6:1.2.3.4",
        "::1.2.3",
        "::1.2.3.4.5",
        "::01.2.3.4",
        "::256.1.1.1",
        "::1.2.3.+4",
        "::1%eth0",
        "[::1]",
        " ::1",
        "::1 ",
        "::1/128",
        "0x1::",
    ] {
        assert_eq!(parse_ip(text.as_bytes()), None, "{}", text);
        assert_eq!(parse_ipv6_groups(text.as_bytes()), None, "{}", text);
    }
}

#[test]
fn ipv4_text_is_read_as_ipv4() {
    assert_eq!(parse_ip(b"10.0.0.5"), Some(IpAddress::V4(0x0A000005)));
    assert_eq!(parse_ip(b"0.0.0.0"), Some(IpAddress::V4(0)));
    assert_eq!(parse_ip(b"::10.0.0.5"), Some(IpAddress::V6(0x0A000005)));
    assert_eq!(parse_ip(b"::"), Some(IpAddress::V6(0)));
    assert_eq!(parse_ipv6_groups(b"10.0.0.5"), None);
    assert_eq!(parse_ipv6_groups(b"::ffff:10.0.0.5"), Some([0, 0, 0, 0, 0, 0xffff, 0x0a00, 0x0005]));
}

#[test]
fn session_on_an_ipv6_host_pool_gets_its_route() {
    let mut pool = IpPool::new("clients", "::1").unwrap();
    let session = SessionBuilder::new()
        .name("alice")
        .server_ip("fd00::1")
        .stream(())
        .router(())
        .build(&mut pool)
        .unwrap();
    let (inner, _, _, first) = session.start();
    assert_eq!(inner.client_ip(), "::1");
    let mut router: RouterInner<u32> = RouterInner::new();
    for action in first {
        match action {
            SessionAction::AddRoute(ip) => assert_eq!(
                router.handle(RouteMsg::AddRoute(ip, 3)),
                RouterAction::RouteAdded(IpAddress::V6(1))
            ),
            other => panic!("{:?}", other),
        }
    }
    assert!(router.has_route(IpAddress::V6(1)));
}
