use obscura_net::guard::{env_allows_private_network, validate_url, SsrfGuardResolver};
use obscura_net::ip::{is_forbidden_ip, IpAddr, Ipv4Addr, Ipv6Addr};
use obscura_net::urls::Url;

fn ip(s: &str) -> IpAddr {
    let host = if s.contains(':') {
        url::Host::parse(&format!("[{s}]")).unwrap()
    } else {
        url::Host::parse(s).unwrap()
    };
    match host {
        url::Host::Ipv4(ip) => IpAddr::V4(Ipv4Addr { octets: ip.octets() }),
        url::Host::Ipv6(ip) => IpAddr::V6(Ipv6Addr { segments: ip.segments() }),
        url::Host::Domain(domain) => panic!("{domain} is no address"),
    }
}

fn refusal(url: &str, allow: bool, env: Option<&str>) -> Option<String> {
    match validate_url(&Url::parse(url).unwrap(), allow, env) {
        Ok(()) => None,
        Err(error) => Some(error.message()),
    }
}

#[test]
fn ipv4_private_and_special_ranges_are_forbidden() {
    for s in [
        "127.0.0.1",
        "127.5.6.7",
        "10.0.0.1",
        "172.16.0.1",
        "192.168.1.1",
        "169.254.169.254", // cloud-metadata endpoint
        "0.0.0.0",         // unspecified -> localhost
        "255.255.255.255", // broadcast
        "192.0.2.1",       // documentation
    ] {
        assert!(is_forbidden_ip(ip(s)), "{s} should be forbidden");
    }
}

#[test]
fn public_ipv4_is_allowed() {
    for s in ["1.1.1.1", "8.8.8.8", "93.184.216.34"] {
        assert!(!is_forbidden_ip(ip(s)), "{s} should be allowed");
    }
}

#[test]
fn ipv6_loopback_ula_linklocal_and_mapped_are_forbidden() {
    for s in [
        "::1",                    // loopback
        "::",                     // unspecified
        "fc00::1",                // unique-local
        "fd12:3456:789a::1",      // unique-local
        "fe80::1",                // link-local
        "::ffff:127.0.0.1",       // v4-mapped loopback
        "::ffff:169.254.169.254", // v4-mapped metadata
    ] {
        assert!(is_forbidden_ip(ip(s)), "{s} should be forbidden");
    }
}

#[test]
fn public_ipv6_is_allowed() {
    assert!(!is_forbidden_ip(ip("2606:4700:4700::1111")));
}

#[test]
fn the_edges_of_the_forbidden_blocks_are_exact() {
    for (s, forbidden) in [
        ("9.255.255.255", false),
        ("10.0.0.0", true),
        ("10.255.255.255", true),
        ("11.0.0.0", false),
        ("126.255.255.255", false),
        ("127.0.0.0", true),
        ("127.255.255.255", true),
        ("128.0.0.0", false),
        ("172.15.255.255", false),
        ("172.16.0.0", true),
        ("172.31.255.255", true),
        ("172.32.0.0", false),
        ("192.167.255.255", false),
        ("192.168.0.0", true),
        ("192.168.255.255", true),
        ("192.169.0.0", false),
        ("169.253.255.255", false),
        ("169.254.0.0", true),
        ("169.255.0.0", false),
        ("255.255.255.254", false),
        ("0.0.0.1", false),
        ("192.0.1.255", false),
        ("192.0.3.0", false),
        ("198.51.100.0", true),
        ("198.51.101.0", false),
        ("203.0.113.255", true),
        ("203.0.114.0", false),
        ("::2", false),
        ("::10.0.0.1", true),
        ("::8.8.8.8", false),
        ("::ffff:8.8.8.8", false),
        ("::fffe:10.0.0.1", false),
        ("fbff::1", false),
        ("fdff:ffff::", true),
        ("fe00::", false),
        ("fe7f::1", false),
        ("febf::1", true),
        ("fec0::1", false),
    ] {
        assert_eq!(is_forbidden_ip(ip(s)), forbidden, "{s}");
    }
}

#[test]
fn addresses_are_spelled_canonically() {
    for (s, text) in [
        ("127.0.0.1", "127.0.0.1"),
        ("255.10.0.99", "255.10.0.99"),
        ("::", "::"),
        ("::1", "::1"),
        ("1::", "1::"),
        ("fe80:0:0:0:1:0:0:0", "fe80::1:0:0:0"),
        ("1:0:0:2:0:0:0:3", "1:0:0:2::3"),
        ("1:0:2:3:4:5:6:7", "1:0:2:3:4:5:6:7"),
        ("2001:DB8::ABCD", "2001:db8::abcd"),
        ("1:0:0:2:3:0:0:4", "1::2:3:0:0:4"),
        ("::ffff:169.254.169.254", "::ffff:169.254.169.254"),
        ("::ffff:0:1", "::ffff:0.0.0.1"),
        ("::7f00:1", "::7f00:1"),
        ("fc00::10:0", "fc00::10:0"),
    ] {
        assert_eq!(ip(s).to_text(), text);
        // The same text as the standard library's own.
        match url::Host::parse(&(if s.contains(':') { format!("[{s}]") } else { s.to_string() })) {
            Ok(url::Host::Ipv4(std)) => assert_eq!(std.to_string(), text),
            Ok(url::Host::Ipv6(std)) => assert_eq!(std.to_string(), text),
            other => panic!("{other:?}"),
        }
    }
}

#[test]
fn every_pattern_of_zero_segments_is_spelled_as_the_standard_library_does() {
    for pattern in 0u32..256 {
        let mut segments = [0u16; 8];
        for i in 0..8 {
            if pattern & (1 << i) != 0 {
                segments[i] = 0x10 * (i as u16) + 1;
            }
        }
        let plain = segments.map(|s| format!("{s:x}")).join(":");
        match url::Host::parse(&format!("[{plain}]")) {
            Ok(url::Host::Ipv6(std)) => {
                assert_eq!(Ipv6Addr { segments }.to_text(), std.to_string());
            }
            other => panic!("{other:?}"),
        }
    }
}

#[test]
fn validate_url_blocks_unspecified_and_allows_public() {
    assert!(validate_url(&Url::parse("http://0.0.0.0:8080/").unwrap(), false, None).is_err());
    assert!(validate_url(&Url::parse("http://127.0.0.1/").unwrap(), false, None).is_err());
    assert!(validate_url(&Url::parse("http://example.com/").unwrap(), false, None).is_ok());
    // The allow flag bypasses the guard (local-dev escape hatch).
    assert!(validate_url(&Url::parse("http://127.0.0.1/").unwrap(), true, None).is_ok());
}

#[test]
fn validate_url_says_why() {
    for (url, reason) in [
        (
            "ftp://example.com/",
            "Network error: Forbidden URL scheme 'ftp' - only http, https, and file are allowed",
        ),
        (
            "http://10.1.2.3/",
            "Network error: Access to private/internal IP address 10.1.2.3 is not allowed",
        ),
        (
            "https://[fd00::5]:8443/x",
            "Network error: Access to private/internal IPv6 address fd00::5 is not allowed",
        ),
        (
            "http://[::ffff:127.0.0.1]/",
            "Network error: Access to private/internal IPv6 address ::ffff:127.0.0.1 is not allowed",
        ),
        (
            "http://LOCALHOST/",
            "Network error: Access to localhost domain 'localhost' is not allowed",
        ),
        (
            "http://db.localhost/",
            "Network error: Access to localhost domain 'db.localhost' is not allowed",
        ),
    ] {
        assert_eq!(refusal(url, false, None).as_deref(), Some(reason));
    }
    assert_eq!(refusal("http://notlocalhost/", false, None), None);
    assert_eq!(refusal("http://localhost.example/", false, None), None);
    assert_eq!(refusal("file:///etc/hosts", false, None), None);
}

#[test]
fn other_schemes_stay_forbidden_when_the_private_network_is_open() {
    assert!(refusal("ftp://example.com/", true, Some("1")).is_some());
    assert!(refusal("data:text/plain,x", true, Some("1")).is_some());
    assert_eq!(refusal("https://localhost/", true, None), None);
    // Closing the network changes nothing for what was refused anyway.
    assert_eq!(
        refusal("ftp://localhost/", true, None),
        refusal("ftp://localhost/", false, None)
    );
}

#[test]
fn the_environment_opens_the_private_network() {
    for value in ["1", "true", "YES", " On\t", "\u{a0}1\n", "\u{3000}tRuE"] {
        assert!(env_allows_private_network(Some(value)), "{value:?}");
        assert_eq!(refusal("http://127.0.0.1/", false, Some(value)), None);
    }
    for value in ["", "0", "false", "no", "off", "11", "y", "o n", "\u{200b}1"] {
        assert!(!env_allows_private_network(Some(value)), "{value:?}");
        assert!(refusal("http://127.0.0.1/", false, Some(value)).is_some());
    }
    assert!(!env_allows_private_network(None));
}

#[test]
fn resolver_blocks_hostname_that_resolves_to_loopback() {
    let r = SsrfGuardResolver::new(false);
    let res = r.resolve("localtest.me", vec![ip("127.0.0.1")], None);
    assert_eq!(
        res.unwrap_err(),
        "SSRF blocked: 'localtest.me' resolves to forbidden address 127.0.0.1"
    );
}

#[test]
fn resolver_does_not_ssrf_block_public_host() {
    let r = SsrfGuardResolver::new(false);
    let addresses = vec![ip("93.184.216.34"), ip("2606:2800:220:1:248:1893:25c8:1946")];
    assert_eq!(r.resolve("example.com", addresses.clone(), None), Ok(addresses));
}

#[test]
fn resolver_names_the_first_forbidden_address_and_refuses_them_all() {
    let r = SsrfGuardResolver::new(false);
    let addresses = vec![ip("8.8.8.8"), ip("fe80::1"), ip("10.0.0.1")];
    assert_eq!(
        r.resolve("mixed.example", addresses.clone(), None),
        Err("SSRF blocked: 'mixed.example' resolves to forbidden address fe80::1".to_string())
    );
    assert_eq!(r.resolve("mixed.example", addresses.clone(), Some("yes")), Ok(addresses.clone()));
    let open = SsrfGuardResolver::new(true);
    assert_eq!(open.resolve("mixed.example", addresses.clone(), None), Ok(addresses));
}

#[test]
fn literal_hosts_and_resolved_addresses_are_held_to_one_rule() {
    for s in ["127.0.0.1", "8.8.8.8", "::1", "::ffff:10.0.0.1", "2606:4700:4700::1111", "::2"] {
        let url = if s.contains(':') { format!("http://[{s}]/") } else { format!("http://{s}/") };
        let literal = validate_url(&Url::parse(&url).unwrap(), false, None).is_ok();
        let resolved = SsrfGuardResolver::new(false).resolve("x", vec![ip(s)], None).is_ok();
        assert_eq!(literal, resolved, "{s}");
    }
}
