use dns_connector::addr::classify;
use dns_connector::addr::format_ipv4;
use dns_connector::addr::parse_ipv4;
use dns_connector::endpoint::assemble;
use dns_connector::HostClass;
use dns_connector::Ipv4;

#[test]
fn literal_hosts_parse_to_their_octets() {
    assert_eq!(
        parse_ipv4(&b"10.0.0.5".to_vec()),
        Some(Ipv4 { a: 10, b: 0, c: 0, d: 5 })
    );
    assert_eq!(
        parse_ipv4(&b"255.255.255.255".to_vec()),
        Some(Ipv4 { a: 255, b: 255, c: 255, d: 255 })
    );
    assert_eq!(
        parse_ipv4(&b"0.0.0.0".to_vec()),
        Some(Ipv4 { a: 0, b: 0, c: 0, d: 0 })
    );
    assert_eq!(
        parse_ipv4(&b"192.168.1.20".to_vec()),
        Some(Ipv4 { a: 192, b: 168, c: 1, d: 20 })
    );
}

#[test]
fn malformed_literals_are_domain_names() {
    for host in [
        &b"256.0.0.1"[..],
        b"1.2.3.999",
        b"01.2.3.4",
        b"1.2.3.04",
        b"1.2.3",
        b"1.2.3.",
        b".1.2.3.4",
        b"1..2.3",
        b"1.2.3.4.5",
        b"a.b.c.d",
        b"1.2.3.4x",
        b"2001:db8::1",
        b"example.com",
        b"",
    ] {
        assert_eq!(parse_ipv4(&host.to_vec()), None, "{:?}", String::from_utf8_lossy(host));
        assert_eq!(classify(&host.to_vec()), HostClass::DomainName);
    }
}

#[test]
fn addresses_format_as_dotted_decimal() {
    assert_eq!(format_ipv4(Ipv4 { a: 10, b: 0, c: 0, d: 5 }), b"10.0.0.5".to_vec());
    assert_eq!(
        format_ipv4(Ipv4 { a: 255, b: 200, c: 45, d: 0 }),
        b"255.200.45.0".to_vec()
    );
    assert_eq!(format_ipv4(Ipv4 { a: 0, b: 0, c: 0, d: 0 }), b"0.0.0.0".to_vec());
}

#[test]
fn formatted_addresses_parse_back_to_themselves() {
    for ip in [
        Ipv4 { a: 10, b: 0, c: 0, d: 5 },
        Ipv4 { a: 0, b: 0, c: 0, d: 0 },
        Ipv4 { a: 255, b: 255, c: 255, d: 255 },
        Ipv4 { a: 1, b: 22, c: 133, d: 9 },
    ] {
        assert_eq!(parse_ipv4(&format_ipv4(ip)), Some(ip));
        assert!(matches!(classify(&format_ipv4(ip)), HostClass::Literal(p) if p == ip));
    }
}

#[test]
fn assembled_endpoints_keep_the_scheme_unless_forced() {
    let ep = assemble(
        &b"http".to_vec(),
        Ipv4 { a: 10, b: 0, c: 0, d: 5 },
        Some(8443),
        &None,
    );
    assert_eq!(ep.scheme, b"http".to_vec());
    assert_eq!(ep.host, b"10.0.0.5".to_vec());
    assert_eq!(ep.port, Some(8443));

    let ep = assemble(
        &b"http".to_vec(),
        Ipv4 { a: 10, b: 0, c: 0, d: 5 },
        None,
        &Some(b"https".to_vec()),
    );
    assert_eq!(ep.scheme, b"https".to_vec());
    assert_eq!(ep.host, b"10.0.0.5".to_vec());
    assert_eq!(ep.port, None);
}
