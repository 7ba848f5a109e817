use std::sync::Arc;

use obscura_net::client::ObscuraHttpClient;
use obscura_net::error::ObscuraNetError;
use obscura_net::fetch::{FetchStep, Hop};
use obscura_net::headers::HeaderTable;
use obscura_net::urls::Url;
use reqwest::header::HeaderMap;

const DEFAULT_USER_AGENT: &str = "Mozilla/5.0 (X11; Linux x86_64) AppleWebKit/537.36 (KHTML, like Gecko) Chrome/145.0.0.0 Safari/537.36";

#[derive(Debug, Default, PartialEq)]
struct Jar(u8);

#[test]
fn a_new_client_has_the_defaults() {
    let client: ObscuraHttpClient<Jar> = ObscuraHttpClient::new();
    assert_eq!(*client.cookie_jar, Jar(0));
    assert_eq!(client.proxy_url(), None);
    assert_eq!(client.ca_path(), None);
    assert_eq!(client.user_agent, DEFAULT_USER_AGENT);
    assert_eq!(client.extra_headers.len(), 0);
    assert_eq!(client.timeout_secs, 30);
    assert!(!client.block_trackers);
    assert!(!client.allow_private_network);
    assert!(client.is_network_idle());
    let default: ObscuraHttpClient<Jar> = ObscuraHttpClient::default();
    assert_eq!(default.user_agent, client.user_agent);
}

#[test]
fn the_constructors_build_on_each_other() {
    let jar = Arc::new(Jar(7));
    let a = ObscuraHttpClient::with_cookie_jar(jar.clone());
    let b = ObscuraHttpClient::with_options(jar.clone(), Some("http://proxy:1"));
    let c = ObscuraHttpClient::with_full_options(jar.clone(), Some("http://proxy:1"), true);
    let d = ObscuraHttpClient::with_options_ca(jar.clone(), None, true, Some("/ca.pem"));
    for client in [&a, &b, &c, &d] {
        assert!(Arc::ptr_eq(&client.cookie_jar, &jar));
    }
    assert_eq!((a.proxy_url(), a.ca_path(), a.allow_private_network), (None, None, false));
    assert_eq!(
        (b.proxy_url(), b.ca_path(), b.allow_private_network),
        (Some("http://proxy:1"), None, false)
    );
    assert_eq!(
        (c.proxy_url(), c.ca_path(), c.allow_private_network),
        (Some("http://proxy:1"), None, true)
    );
    assert_eq!((d.proxy_url(), d.ca_path(), d.allow_private_network), (None, Some("/ca.pem"), true));
}

#[test]
fn settings_can_be_changed() {
    let mut client: ObscuraHttpClient<Jar> = ObscuraHttpClient::new();
    client.set_user_agent("Robot/1");
    assert_eq!(client.user_agent, "Robot/1");
    let mut headers = HeaderTable::new();
    headers.insert("X-A".to_string(), "1".to_string());
    client.set_extra_headers(headers);
    assert_eq!(client.extra_headers.get("X-A"), Some("1"));
    client.set_extra_headers(HeaderTable::new());
    assert_eq!(client.extra_headers.get("X-A"), None);
}

fn some_hop(client: &ObscuraHttpClient<Jar>) -> Hop {
    match client.fetch(&Url::parse("http://example.com/").unwrap(), None) {
        FetchStep::Intercept(hop) => hop,
        other => panic!("{other:?}"),
    }
}

#[test]
fn active_requests_are_counted() {
    let mut client: ObscuraHttpClient<Jar> = ObscuraHttpClient::new();
    let (one, two) = (some_hop(&client), some_hop(&client));
    assert!(client.is_network_idle());
    let one = client.begin_request(one);
    let two = client.begin_request(two);
    assert_eq!(client.active_requests(), 2);
    assert!(!client.is_network_idle());
    client.received(one, 200, &HeaderMap::new(), None);
    assert_eq!(client.active_requests(), 1);
    client.send_failed(two, "timed out");
    assert!(client.is_network_idle());
}

#[test]
fn the_count_of_active_requests_wraps() {
    let mut client: ObscuraHttpClient<Jar> = ObscuraHttpClient::new();
    client.in_flight = u32::MAX;
    let hop = some_hop(&client);
    let sent = client.begin_request(hop);
    assert_eq!(client.active_requests(), 0);
    client.send_failed(sent, "timed out");
    assert_eq!(client.active_requests(), u32::MAX);
}

#[test]
fn errors_have_messages() {
    assert_eq!(ObscuraNetError::Network("x".to_string()).message(), "Network error: x");
    assert_eq!(
        ObscuraNetError::TooManyRedirects("http://a/".to_string()).message(),
        "Too many redirects: http://a/"
    );
    assert_eq!(
        ObscuraNetError::Blocked("http://a/".to_string()).message(),
        "Request blocked: http://a/"
    );
}

#[test]
fn header_tables_hold_each_name_once() {
    let mut table = HeaderTable::new();
    table.insert("a".to_string(), "1".to_string());
    table.insert("b".to_string(), "2".to_string());
    table.insert("A".to_string(), "3".to_string());
    table.insert("a".to_string(), "4".to_string());
    assert_eq!(table.len(), 3);
    assert_eq!(table.entry(0), ("a", "4"));
    assert_eq!(table.entry(1), ("b", "2"));
    assert_eq!(table.entry(2), ("A", "3"));
    let mut more = HeaderTable::new();
    more.insert("c".to_string(), "5".to_string());
    more.insert("b".to_string(), "6".to_string());
    let copy = table.clone();
    table.extend(more);
    assert_eq!(table.len(), 4);
    assert_eq!(table.get("a"), Some("4"));
    assert_eq!(table.get("b"), Some("6"));
    assert_eq!(table.get("c"), Some("5"));
    assert_eq!(table.get("C"), None);
    assert_eq!(copy.get("b"), Some("2"));
    assert_eq!(copy.len(), 3);
}
