use classify_client::addr::parse_address;
use classify_client::net::{in_any_range, IpAddress, NetworkRange};
use classify_client::trace::{build_trace, forwarded_tokens, resolve, trace_ips};

fn v4(a: u8, b: u8, c: u8, d: u8) -> IpAddress {
    IpAddress::V4(u32::from_be_bytes([a, b, c, d]))
}

fn net(s: &str) -> NetworkRange {
    NetworkRange::parse(s).unwrap()
}

#[test]
fn trace_ip_works() {
    assert_eq!(
        trace_ips(None, Some("1.2.3.4, 5.6.7.8, 9.10.11.12")),
        vec![v4(9, 10, 11, 12), v4(5, 6, 7, 8), v4(1, 2, 3, 4)],
        "IPs in x-forwarded-for should be iterated in reverse order",
    );
}

#[test]
fn get_client_ip_no_proxies() {
    let trusted: Vec<NetworkRange> = Vec::new();
    assert_eq!(trusted.len(), 0, "Precondition: no trusted proxies by default");
    let trace = trace_ips(None, Some("1.2.3.4, 5.6.7.8"));
    assert_eq!(
        resolve(&trace, &trusted),
        Ok(v4(5, 6, 7, 8)),
        "With no proxies, the right-most ip should be used"
    );
}

#[test]
fn get_client_ip_one_proxies() {
    let trusted = vec![net("5.6.7.8/32")];
    let trace = trace_ips(None, Some("1.2.3.4, 5.6.7.8"));
    assert_eq!(
        resolve(&trace, &trusted),
        Ok(v4(1, 2, 3, 4)),
        "With one proxy, the second-from-the-right ip should be used"
    );
}

#[test]
fn get_client_ip_too_many_proxies() {
    let trusted = vec![net("5.6.7.8/32"), net("1.2.3.4/32")];
    let trace = trace_ips(None, Some("1.2.3.4, 5.6.7.8"));
    assert!(
        resolve(&trace, &trusted).is_err(),
        "With too many proxies configured, no ip is given"
    );
}

#[test]
fn peer_address_comes_first() {
    let peer = v4(10, 0, 0, 1);
    assert_eq!(
        trace_ips(Some(peer), Some("1.2.3.4, 5.6.7.8")),
        vec![peer, v4(5, 6, 7, 8), v4(1, 2, 3, 4)]
    );
}

#[test]
fn no_peer_and_no_header_gives_empty_trace() {
    assert_eq!(trace_ips(None, None), Vec::<IpAddress>::new());
}

#[test]
fn malformed_tokens_are_dropped() {
    assert_eq!(
        trace_ips(None, Some("1.2.3.4, not-an-ip, ,2001:db8::1")),
        vec![
            IpAddress::V6(0x2001_0db8_0000_0000_0000_0000_0000_0001),
            v4(1, 2, 3, 4)
        ]
    );
}

#[test]
fn tokens_are_split_on_commas_and_trimmed() {
    assert_eq!(
        forwarded_tokens(" 1.2.3.4 ,\t5.6.7.8,,9.9.9.9  "),
        vec!["1.2.3.4", "5.6.7.8", "", "9.9.9.9"]
    );
    assert_eq!(forwarded_tokens(""), vec![""]);
    assert_eq!(forwarded_tokens("\u{3000}a\u{a0}"), vec!["a"]);
}

#[test]
fn empty_trace_never_resolves() {
    let trace: Vec<IpAddress> = Vec::new();
    assert!(resolve(&trace, &Vec::new()).is_err());
    assert!(resolve(&trace, &vec![net("0.0.0.0/0")]).is_err());
}

#[test]
fn no_trusted_ranges_takes_first_address() {
    let trace = vec![v4(127, 0, 0, 1), v4(8, 8, 8, 8)];
    assert_eq!(resolve(&trace, &Vec::new()), Ok(v4(127, 0, 0, 1)));
}

#[test]
fn resolution_stops_at_first_untrusted_address() {
    let trusted = vec![net("10.0.0.0/8")];
    let trace = vec![v4(10, 1, 2, 3), v4(8, 8, 8, 8), v4(10, 9, 9, 9), v4(1, 1, 1, 1)];
    assert_eq!(resolve(&trace, &trusted), Ok(v4(8, 8, 8, 8)));
}

#[test]
fn all_trusted_trace_fails_with_message() {
    let trusted = vec![net("10.0.0.0/8")];
    let trace = vec![v4(10, 1, 2, 3), v4(10, 9, 9, 9)];
    let err = resolve(&trace, &trusted).unwrap_err();
    assert_eq!(err.message(), "Could not determine IP");
}

#[test]
fn network_ranges_contain_their_addresses() {
    let r = net("192.168.100.14/24");
    assert!(r.contains(v4(192, 168, 100, 1)));
    assert!(r.contains(v4(192, 168, 100, 255)));
    assert!(!r.contains(v4(192, 168, 101, 0)));
    assert!(net("0.0.0.0/0").contains(v4(255, 255, 255, 255)));
    assert!(!net("0.0.0.0/0").contains(IpAddress::V6(1)));
    let v6 = net("2001:db8::/48");
    assert!(v6.contains(IpAddress::V6(0x2001_0db8_0000_ffff_0000_0000_0000_0001)));
    assert!(!v6.contains(IpAddress::V6(0x2001_0db8_0001_0000_0000_0000_0000_0001)));
    assert!(!v6.contains(v4(32, 1, 13, 184)));
    assert!(net("::/0").contains(IpAddress::V6(u128::MAX)));
    assert!(net("1.2.3.4/32").contains(v4(1, 2, 3, 4)));
    assert!(!net("1.2.3.4/32").contains(v4(1, 2, 3, 5)));
}

#[test]
fn network_parsing() {
    assert_eq!(
        NetworkRange::parse("5.6.7.8/32"),
        Some(NetworkRange { addr: v4(5, 6, 7, 8), prefix_len: 32 })
    );
    assert_eq!(NetworkRange::parse("5.6.7.8/33"), None);
    assert_eq!(NetworkRange::parse("5.6.7.8"), None);
    assert_eq!(NetworkRange::parse("nonsense"), None);
    assert_eq!(
        NetworkRange::parse("2001:db8::/48"),
        Some(NetworkRange { addr: IpAddress::V6(0x2001_0db8 << 96), prefix_len: 48 })
    );
}

#[test]
fn trusted_set_membership() {
    let trusted = vec![net("5.6.7.8/32"), net("2001:db8::/48")];
    assert!(in_any_range(&trusted, v4(5, 6, 7, 8)));
    assert!(in_any_range(&trusted, IpAddress::V6(0x2001_0db8 << 96 | 7)));
    assert!(!in_any_range(&trusted, v4(5, 6, 7, 9)));
    assert!(!in_any_range(&Vec::new(), v4(5, 6, 7, 8)));
}

#[test]
fn trace_from_parsed_tokens() {
    let parsed = vec![Some(v4(1, 1, 1, 1)), None, Some(v4(2, 2, 2, 2))];
    assert_eq!(build_trace(None, &parsed), vec![v4(2, 2, 2, 2), v4(1, 1, 1, 1)]);
    assert_eq!(
        build_trace(Some(v4(3, 3, 3, 3)), &parsed),
        vec![v4(3, 3, 3, 3), v4(2, 2, 2, 2), v4(1, 1, 1, 1)]
    );
    assert_eq!(build_trace(Some(v4(3, 3, 3, 3)), &Vec::new()), vec![v4(3, 3, 3, 3)]);
}

#[test]
fn dotted_quads() {
    assert_eq!(parse_address("1.2.3.4"), Some(v4(1, 2, 3, 4)));
    assert_eq!(parse_address("0.0.0.0"), Some(v4(0, 0, 0, 0)));
    assert_eq!(parse_address("255.255.255.255"), Some(v4(255, 255, 255, 255)));
    assert_eq!(parse_address("127.0.0.2"), Some(v4(127, 0, 0, 2)));
    assert_eq!(parse_address("256.0.0.1"), None);
    assert_eq!(parse_address("01.2.3.4"), None);
    assert_eq!(parse_address("1.2.3"), None);
    assert_eq!(parse_address("1.2.3.4.5"), None);
    assert_eq!(parse_address("1..3.4"), None);
    assert_eq!(parse_address("1.2.3.4 "), None);
    assert_eq!(parse_address("1.2.3.-4"), None);
    assert_eq!(parse_address("1234.2.3.4"), None);
    assert_eq!(parse_address(""), None);
}

#[test]
fn ipv6_addresses() {
    assert_eq!(parse_address("::"), Some(IpAddress::V6(0)));
    assert_eq!(parse_address("::1"), Some(IpAddress::V6(1)));
    assert_eq!(parse_address("1::"), Some(IpAddress::V6(1 << 112)));
    assert_eq!(
        parse_address("2001:db8::ff00:42:8329"),
        Some(IpAddress::V6(0x2001_0db8_0000_0000_0000_ff00_0042_8329))
    );
    assert_eq!(
        parse_address("2001:0DB8:0000:0000:0000:FF00:0042:8329"),
        Some(IpAddress::V6(0x2001_0db8_0000_0000_0000_ff00_0042_8329))
    );
    assert_eq!(
        parse_address("::ffff:1.2.3.4"),
        Some(IpAddress::V6(0x0000_0000_0000_0000_0000_ffff_0102_0304))
    );
    assert_eq!(
        parse_address("1:2:3:4:5:6:1.2.3.4"),
        Some(IpAddress::V6(0x0001_0002_0003_0004_0005_0006_0102_0304))
    );
    assert_eq!(
        parse_address("1:2:3:4:5:6:7::"),
        Some(IpAddress::V6(0x0001_0002_0003_0004_0005_0006_0007_0000))
    );
    assert_eq!(parse_address("1:2:3:4:5:6:7:8::"), None);
    assert_eq!(parse_address("1::2:3:4:5:6:7:8"), None);
    assert_eq!(parse_address("1::2::3"), None);
    assert_eq!(parse_address(":::"), None);
    assert_eq!(parse_address("1:::2"), None);
    assert_eq!(parse_address(":1::2"), None);
    assert_eq!(parse_address("12345::"), None);
    assert_eq!(parse_address("1.2.3.4::"), None);
    assert_eq!(parse_address("1:2:3:4:5:6:7"), None);
    assert_eq!(parse_address("1:2:3:4:5:6:7:8:9"), None);
    assert_eq!(parse_address("1:2:3:4:5:6:7:1.2.3.4"), None);
    assert_eq!(parse_address("::1.2.3"), None);
    assert_eq!(parse_address("g::"), None);
    assert_eq!(parse_address("[::1]"), None);
}
