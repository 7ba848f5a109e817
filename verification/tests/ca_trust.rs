use std::sync::Arc;

use obscura_net::ca::{load_ca_certs, usable_ca_certs};
use obscura_net::client::{ClientConfig, ObscuraHttpClient};
use obscura_net::connection::{connection_failure, Connection};
use obscura_net::fetch::FetchStep;
use obscura_net::response::InterceptAction;
use obscura_net::urls::Url;

fn self_signed(name: &str) -> String {
    rcgen::generate_simple_self_signed(vec![name.to_string()]).unwrap().cert.pem()
}

fn client(ca_path: Option<&str>) -> ObscuraHttpClient<()> {
    ObscuraHttpClient::with_options_ca(Arc::new(()), None, true, ca_path)
}

fn missing() -> Result<Vec<u8>, String> {
    Err("No such file or directory (os error 2)".to_string())
}

#[test]
fn load_ca_certs_loads_a_valid_self_signed_pem() {
    let pem = self_signed("localhost");
    let certs = load_ca_certs("/tmp/ca.pem", Ok(pem.into_bytes()))
        .expect("a valid PEM CA must load without error");
    assert_eq!(certs.len(), 1, "exactly one cert in the bundle");
}

#[test]
fn load_ca_certs_loads_a_multi_cert_bundle() {
    let pem = format!("{}{}", self_signed("a.test"), self_signed("b.test"));
    let certs =
        load_ca_certs("/tmp/ca.pem", Ok(pem.into_bytes())).expect("multi-cert bundle must load");
    assert_eq!(certs.len(), 2, "both certs in the bundle are parsed");
}

#[test]
fn load_ca_certs_errors_on_missing_file() {
    let err = load_ca_certs("/nonexistent/obscura-ca-does-not-exist.pem", missing())
        .err()
        .expect("a missing CA file must error (fail-closed)");
    let msg = err.message();
    assert!(
        msg.contains("failed to read CA bundle"),
        "error should name the read failure: {msg}"
    );
    assert_eq!(
        msg,
        "Network error: failed to read CA bundle \
         '/nonexistent/obscura-ca-does-not-exist.pem': No such file or directory (os error 2)"
    );
}

#[test]
fn load_ca_certs_errors_on_garbage_pem() {
    let err = load_ca_certs("/tmp/ca.pem", Ok(b"this is not a certificate at all".to_vec()))
        .err()
        .expect("an invalid PEM must error (fail-closed)");
    let msg = err.message();
    assert!(
        msg.contains("invalid CA bundle") || msg.contains("contained no certificates"),
        "error should explain the bad bundle: {msg}"
    );
}

#[test]
fn a_bundle_with_a_broken_certificate_is_invalid() {
    let pem = "-----BEGIN CERTIFICATE-----\n@@@@\n-----END CERTIFICATE-----\n";
    let msg = load_ca_certs("/ca.pem", Ok(pem.as_bytes().to_vec())).err().unwrap().message();
    assert!(msg.starts_with("Network error: invalid CA bundle '/ca.pem': "), "{msg}");
}

#[test]
fn a_bundle_of_which_nothing_is_left_is_an_error() {
    assert_eq!(
        usable_ca_certs("/ca.pem", Ok(Vec::new())).err().unwrap().message(),
        "Network error: CA bundle '/ca.pem' contained no certificates"
    );
    assert_eq!(
        usable_ca_certs("/ca.pem", Err("bad".to_string())).err().unwrap().message(),
        "Network error: invalid CA bundle '/ca.pem': bad"
    );
}

#[test]
fn bogus_ca_path_fails_closed_on_fetch() {
    let bogus = client(Some("/nonexistent/obscura-bogus-ca.pem"));
    let err = bogus.connection_config(missing()).err();
    assert_eq!(
        err.expect("a bogus CA path must fail-closed").message(),
        "Network error: failed to read CA bundle '/nonexistent/obscura-bogus-ca.pem': \
         No such file or directory (os error 2)"
    );
    assert!(bogus.connection_config(Ok(Vec::new())).is_err());

    // The fetch comes to its request, and there it fails.
    let mut bogus = bogus;
    let hop = match bogus.fetch(&Url::parse("https://example.com/").unwrap(), None) {
        FetchStep::Intercept(hop) => hop,
        other => panic!("{other:?}"),
    };
    let step = bogus.intercepted(hop, InterceptAction::Continue);
    assert!(matches!(step, FetchStep::Send(_)));
    let mut connection: Connection<u8> = Connection::new();
    let res = connection.get_client(&bogus, missing(), |_| panic!("nothing must be built"));
    assert!(res.is_err(), "a bogus CA path must fail-closed; got {res:?}");
    assert!(connection.client().is_none());
    assert!(bogus.is_network_idle());
}

#[test]
fn connections_are_kept_once_they_were_set_up() {
    let pem = self_signed("localhost").into_bytes();
    let with_ca = client(Some("/ca.pem"));
    let mut connection: Connection<u8> = Connection::new();
    let build = |made: u8| {
        move |config: ClientConfig| {
            assert_eq!(config.roots.len(), 1);
            Ok(made)
        }
    };
    // Nothing is remembered of what failed.
    for _ in 0..2 {
        assert_eq!(
            connection.get_client(&with_ca, missing(), build(1)).err().unwrap().message(),
            "Network error: failed to read CA bundle '/ca.pem': \
             No such file or directory (os error 2)"
        );
        assert_eq!(
            connection
                .get_client(&with_ca, Ok(pem.clone()), |_| Err("no TLS".to_string()))
                .err()
                .unwrap()
                .message(),
            "Network error: failed to build HTTP client: no TLS"
        );
        assert_eq!(connection.client(), None);
    }
    assert!(connection.get_client(&with_ca, Ok(pem.clone()), build(2)).is_ok());
    assert_eq!(connection.client(), Some(&2));
    // What succeeded is kept, whatever comes later.
    assert!(connection.get_client(&with_ca, Ok(pem), build(3)).is_ok());
    assert!(connection.get_client(&with_ca, missing(), build(4)).is_ok());
    assert_eq!(connection.client(), Some(&2));
}

#[test]
fn a_custom_ca_is_added_and_validation_stays_on() {
    let pem = self_signed("localhost").into_bytes();
    let with_ca = client(Some("/ca.pem")).connection_config(Ok(pem)).ok().unwrap();
    assert_eq!(with_ca.roots.len(), 1);
    assert!(!with_ca.accept_invalid_certs);
    assert!(!with_ca.follow_redirects);
    assert_eq!(with_ca.timeout_secs, 30);
    // Without a CA path nothing is read and nothing is added.
    let without = client(None).connection_config(missing()).ok().unwrap();
    assert_eq!(without.roots.len(), 0);
    assert!(!without.accept_invalid_certs);
}

#[test]
fn a_proxy_is_used_unless_it_is_refused() {
    let config = |proxy: Option<&str>| {
        ObscuraHttpClient::with_options(Arc::new(()), proxy)
            .connection_config(Ok(Vec::new()))
            .ok()
            .unwrap()
    };
    assert!(config(Some("http://127.0.0.1:3128")).proxy.is_some());
    assert!(config(Some("http://")).proxy.is_none());
    assert!(config(None).proxy.is_none());
}

#[test]
fn the_guard_of_a_connection_has_the_setting_of_the_client() {
    let address = obscura_net::ip::IpAddr::V4(obscura_net::ip::Ipv4Addr { octets: [10, 0, 0, 1] });
    for allow in [false, true] {
        let client = ObscuraHttpClient::with_full_options(Arc::new(()), None, allow);
        let guard = client.connection_config(Ok(Vec::new())).ok().unwrap().guard;
        assert_eq!(guard.resolve("x", vec![address], None).is_ok(), allow);
    }
}

#[test]
fn connections_that_cannot_be_set_up_say_so() {
    assert_eq!(
        connection_failure("no TLS").message(),
        "Network error: failed to build HTTP client: no TLS"
    );
}
