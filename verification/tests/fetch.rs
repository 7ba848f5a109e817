use std::sync::Arc;

use obscura_net::client::ObscuraHttpClient;
use obscura_net::fetch::{
    fetch_file_url, open_file, FetchStep, Hop, PendingBody, Received, MAX_REQUESTS,
};
use obscura_net::headers::HeaderTable;
use obscura_net::outgoing::{cookie_header, MAX_EXTRA};
use obscura_net::response::{InterceptAction, ResourceType, Response};
use obscura_net::urls::{url_file_path, FilePath, Url};
use reqwest::header::{HeaderMap, HeaderValue};

type Client = ObscuraHttpClient<()>;

fn request_headers(user_agent: &str, cookies: &str, extra: &HeaderTable) -> HeaderMap {
    obscura_net::outgoing::request_headers(user_agent, cookies, extra).unwrap()
}

fn client() -> Client {
    ObscuraHttpClient::with_cookie_jar(Arc::new(()))
}

fn url(text: &str) -> Url {
    Url::parse(text).unwrap()
}

fn table(pairs: &[(&str, &str)]) -> HeaderTable {
    let mut table = HeaderTable::new();
    for (name, value) in pairs {
        table.insert(name.to_string(), value.to_string());
    }
    table
}

fn location(target: &str) -> HeaderMap {
    let mut map = HeaderMap::new();
    map.insert("location", HeaderValue::from_str(target).unwrap());
    map
}

fn hop(step: FetchStep) -> Hop {
    match step {
        FetchStep::Intercept(hop) | FetchStep::Send(hop) => hop,
        other => panic!("no hop: {other:?}"),
    }
}

/// Sends a request and has it answered.
fn answer(
    client: &mut Client,
    hop: Hop,
    status: u16,
    headers: &HeaderMap,
    env: Option<&str>,
) -> Received {
    let sent = client.begin_request(hop);
    client.received(sent, status, headers, env)
}

fn body(step: FetchStep) -> PendingBody {
    match step {
        FetchStep::ReadBody(pending) => pending,
        other => panic!("no body: {other:?}"),
    }
}

fn finished(step: FetchStep) -> Result<Response, String> {
    match step {
        FetchStep::Finish(outcome) => outcome.map_err(|e| e.message()),
        other => panic!("not finished: {other:?}"),
    }
}

fn failure(step: FetchStep) -> String {
    finished(step).err().expect("the fetch must fail")
}

fn names(map: &HeaderMap) -> Vec<String> {
    let mut names: Vec<String> = map.keys().map(|name| name.as_str().to_string()).collect();
    names.sort();
    names
}

#[test]
fn a_fetch_begins_with_a_get() {
    let hop = hop(client().fetch(&url("http://example.com/x"), None));
    assert_eq!(hop.method, "GET");
    assert_eq!(hop.body, None);
    assert_eq!(hop.url.as_str(), "http://example.com/x");
    assert!(hop.redirects.is_empty());
}

#[test]
fn a_form_is_posted() {
    let hop = hop(client().post_form(&url("http://example.com/"), "a=\u{e9}", None));
    assert_eq!(hop.method, "POST");
    assert_eq!(hop.body, Some("a=\u{e9}".as_bytes().to_vec()));
}

#[test]
fn a_refused_url_is_not_requested() {
    let local = url("http://127.0.0.1/");
    assert_eq!(
        failure(client().fetch(&local, None)),
        "Network error: Access to private/internal IP address 127.0.0.1 is not allowed"
    );
    assert_eq!(hop(client().fetch(&local, Some("on"))).url, local);
    let open: Client = ObscuraHttpClient::with_full_options(Arc::new(()), None, true);
    assert_eq!(hop(open.fetch_with_method("PUT", &local, None, None)).method, "PUT");
}

#[test]
fn trackers_are_looked_up_and_blocked() {
    let mut client = client();
    client.block_trackers = true;
    let target = url("http://Tracker.example/pixel");
    let check = || match client.fetch(&target, None) {
        FetchStep::CheckTracker(check) => check,
        other => panic!("{other:?}"),
    };
    assert_eq!(check().host, "tracker.example");
    assert_eq!(hop(check().decide(false)).url, target);
    let blocked = finished(check().decide(true)).unwrap();
    assert_eq!(blocked.url, target);
    assert_eq!(blocked.status, 0);
    assert_eq!(blocked.headers.len(), 0);
    assert!(blocked.body.is_empty());
    assert!(blocked.redirected_from.is_empty());
}

#[test]
fn a_file_is_read() {
    let target = url("file:///tmp/page%20one.HTML");
    let file = match client().fetch(&target, None) {
        FetchStep::ReadFile(file) => file,
        other => panic!("{other:?}"),
    };
    assert_eq!(file.url, target);
    assert_eq!(file.file.path.to_str(), Some("/tmp/page one.HTML"));
    assert_eq!(file.file.extension.as_deref(), Some("HTML"));
    let response = file.finish(Ok(b"<p>".to_vec())).unwrap();
    assert_eq!(response.status, 200);
    assert!(response.is_html());
    assert_eq!(response.body, b"<p>");
    assert_eq!(response.url, target);
}

#[test]
fn a_file_that_cannot_be_read_is_an_error() {
    let path = FilePath { path: "/x".into(), extension: None };
    let file = match open_file(&url("file:///x"), Some(path)) {
        FetchStep::ReadFile(file) => file,
        other => panic!("{other:?}"),
    };
    assert_eq!(
        file.finish(Err("denied".to_string())).err().unwrap().message(),
        "Network error: Failed to read file: denied"
    );
    assert_eq!(
        failure(open_file(&url("file:///x"), None)),
        "Network error: Invalid file URL"
    );
    assert_eq!(
        failure(client().fetch(&url("file://server/share"), None)),
        "Network error: Invalid file URL"
    );
}

#[test]
fn the_interceptor_decides() {
    let mut client = client();
    client.set_extra_headers(table(&[("X-A", "1"), ("X-B", "2")]));
    let target = url("http://example.com/");
    let first = hop(client.fetch(&target, None));
    let info = client.request_info(&first);
    assert_eq!(info.url, target);
    assert_eq!(info.method, "GET");
    assert_eq!(info.headers.len(), 2);
    assert_eq!(info.resource_type, ResourceType::Document);
    assert_eq!(info.clone().headers.get("X-B"), Some("2"));

    let step = client.intercepted(first, InterceptAction::Continue);
    assert!(matches!(step, FetchStep::Send(_)));
    let again = hop(step);
    let step = client.intercepted(
        again,
        InterceptAction::ModifyHeaders(table(&[("X-B", "3"), ("X-C", "4")])),
    );
    assert!(matches!(step, FetchStep::Send(_)));
    assert_eq!(client.extra_headers.get("X-A"), Some("1"));
    assert_eq!(client.extra_headers.get("X-B"), Some("3"));
    assert_eq!(client.extra_headers.get("X-C"), Some("4"));

    let again = hop(step);
    assert_eq!(
        failure(client.intercepted(again, InterceptAction::Block)),
        "Request blocked: http://example.com/"
    );
    let again = hop(client.fetch(&target, None));
    let made_up = Response {
        url: url("http://made.up/"),
        status: 299,
        headers: HeaderTable::new(),
        body: vec![7],
        redirected_from: Vec::new(),
    };
    let response = finished(client.intercepted(again, InterceptAction::Fulfill(made_up))).unwrap();
    assert_eq!((response.status, response.body), (299, vec![7]));
}

#[test]
fn a_request_looks_like_a_browsers() {
    let mut client = client();
    client.set_user_agent("Robot/1");
    let first = hop(client.fetch(&url("http://example.com/"), None));
    let out = client.outgoing(&first, "").unwrap();
    assert_eq!(out.method, "GET");
    assert_eq!(out.url, "http://example.com/");
    assert_eq!(out.body, None);
    assert_eq!(
        names(&out.headers),
        [
            "accept",
            "accept-language",
            "sec-ch-ua",
            "sec-ch-ua-mobile",
            "sec-ch-ua-platform",
            "sec-fetch-dest",
            "sec-fetch-mode",
            "sec-fetch-site",
            "sec-fetch-user",
            "upgrade-insecure-requests",
            "user-agent",
        ]
    );
    for (name, value) in [
        ("user-agent", "Robot/1"),
        ("accept", "text/html,application/xhtml+xml,application/xml;q=0.9,image/avif,image/webp,image/apng,*/*;q=0.8,application/signed-exchange;v=b3;q=0.7"),
        ("accept-language", "en-US,en;q=0.9"),
        ("sec-ch-ua", "\"Chromium\";v=\"145\", \"Not;A=Brand\";v=\"24\", \"Google Chrome\";v=\"145\""),
        ("sec-ch-ua-mobile", "?0"),
        ("sec-ch-ua-platform", "\"Linux\""),
        ("sec-fetch-dest", "document"),
        ("sec-fetch-mode", "navigate"),
        ("sec-fetch-site", "none"),
        ("sec-fetch-user", "?1"),
        ("upgrade-insecure-requests", "1"),
    ] {
        assert_eq!(out.headers.get(name).unwrap(), value);
    }
}

#[test]
fn a_user_agent_that_no_header_can_hold_is_replaced() {
    let headers = request_headers("bad\nagent", "", &HeaderTable::new());
    assert_eq!(
        headers.get("user-agent").unwrap(),
        "Mozilla/5.0 (X11; Linux x86_64) AppleWebKit/537.36 (KHTML, like Gecko) Chrome/145.0.0.0 Safari/537.36"
    );
    let headers = request_headers("caf\u{e9}", "", &HeaderTable::new());
    assert_eq!(headers.get("user-agent").unwrap().as_bytes(), "caf\u{e9}".as_bytes());
}

#[test]
fn cookies_are_sent_without_those_that_no_header_can_hold() {
    for (cookies, sent) in [
        ("", ""),
        ("a=1", "a=1"),
        ("a=1; b=2", "a=1; b=2"),
        ("a=1; b=\u{1}; c=3", "a=1; c=3"),
        ("\u{7f}; a=1", "a=1"),
        ("a=\n", ""),
        ("a=\n; ; b=2", "; b=2"),
        ("a=\n;b=2; c=3", "c=3"),
        ("a=\u{e9}; b=\u{0}", "a=\u{e9}"),
        ("a=\tb", "a=\tb"),
    ] {
        assert_eq!(cookie_header(cookies), sent, "{cookies:?}");
        let headers = request_headers("x", cookies, &HeaderTable::new());
        let header = headers.get("cookie").map(|value| value.as_bytes().to_vec());
        if sent.is_empty() {
            assert_eq!(header, None);
        } else {
            assert_eq!(header, Some(sent.as_bytes().to_vec()));
        }
    }
}

#[test]
fn extra_headers_win() {
    let extra = table(&[
        ("User-Agent", "Other/2"),
        ("X-Own", "1"),
        ("x-own", "2"),
        ("bad name", "3"),
        ("X-Bad", "a\nb"),
        ("", "4"),
        ("Cookie", "z=9"),
        ("\u{e9}", "5"),
    ]);
    let headers = request_headers("Robot/1", "a=1", &extra);
    assert_eq!(headers.get("user-agent").unwrap(), "Other/2");
    assert_eq!(headers.get_all("x-own").iter().count(), 1);
    assert_eq!(headers.get("x-own").unwrap(), "2");
    assert_eq!(headers.get("cookie").unwrap(), "z=9");
    assert_eq!(headers.get("x-bad"), None);
    assert_eq!(headers.get("accept-language").unwrap(), "en-US,en;q=0.9");
    assert_eq!(headers.keys_len(), 13);
}

#[test]
fn the_longest_names_are_taken() {
    let long = "X".repeat(65535);
    let longer = "Y".repeat(65536);
    let headers = request_headers("x", "", &table(&[(&long, "1"), (&longer, "2")]));
    assert_eq!(headers.keys_len(), 12);
    assert_eq!(headers.get(long.to_lowercase().as_str()).unwrap(), "1");
}

#[test]
fn a_posted_body_is_labelled_as_a_form() {
    let form = "application/x-www-form-urlencoded";
    let mut client = client();
    let target = url("http://example.com/");
    let post = hop(client.post_form(&target, "a=1", None));
    let out = client.outgoing(&post, "").unwrap();
    assert_eq!(out.headers.get("content-type").unwrap(), form);
    assert_eq!(out.body, Some(b"a=1".to_vec()));
    // The label is added to a content type that is there already.
    client.set_extra_headers(table(&[("Content-Type", "text/x")]));
    let values: Vec<String> = client
        .outgoing(&post, "")
        .unwrap()
        .headers
        .get_all("content-type")
        .iter()
        .map(|value| value.to_str().unwrap().to_string())
        .collect();
    assert_eq!(values, ["text/x", form]);
    client.set_extra_headers(HeaderTable::new());
    let put = hop(client.fetch_with_method("PUT", &target, Some(vec![1]), None));
    let out = client.outgoing(&put, "").unwrap();
    assert_eq!(out.headers.get("content-type"), None);
    assert_eq!(out.body, Some(vec![1]));
    let bare = hop(client.fetch_with_method("POST", &target, None, None));
    assert_eq!(client.outgoing(&bare, "").unwrap().headers.get("content-type"), None);
}

#[test]
fn a_response_is_read() {
    let mut client = client();
    let target = url("http://example.com/");
    let first = hop(client.fetch(&target, None));
    let mut headers = HeaderMap::new();
    headers.insert("Content-Type", HeaderValue::from_static("text/html"));
    let pending = body(answer(&mut client, first, 200, &headers, None).next);
    let response = pending.finish(Ok(b"hello".to_vec())).unwrap();
    assert_eq!(response.url, target);
    assert_eq!(response.status, 200);
    assert_eq!(response.header("CONTENT-TYPE"), Some("text/html"));
    assert_eq!(response.body, b"hello");
    assert!(response.redirected_from.is_empty());
    let again = hop(client.fetch(&target, None));
    let pending = body(answer(&mut client, again, 204, &headers, None).next);
    assert_eq!(
        pending.finish(Err("cut off".to_string())).err().unwrap().message(),
        "Network error: Failed to read body: cut off"
    );
}

#[test]
fn a_failed_request_names_its_url() {
    let mut client = client();
    let first = hop(client.fetch(&url("http://example.com/"), None));
    let sent = client.begin_request(first);
    assert_eq!(
        failure(client.send_failed(sent, "timed out")),
        "Network error: http://example.com/: timed out"
    );
}

#[test]
fn redirects_are_followed() {
    let mut client = client();
    for (status, method, body_kept) in [
        (301, "GET", false),
        (302, "GET", false),
        (303, "GET", false),
        (300, "POST", true),
        (307, "POST", true),
        (308, "POST", true),
        (399, "POST", true),
    ] {
        let first = hop(client.post_form(&url("http://example.com/a/b"), "x", None));
        let next = hop(answer(&mut client, first, status, &location("../c"), None).next);
        assert_eq!(next.url.as_str(), "http://example.com/c");
        assert_eq!(next.method, method);
        assert_eq!(next.body.is_some(), body_kept);
        assert_eq!(next.redirects, vec![url("http://example.com/a/b")]);
    }
}

#[test]
fn what_is_no_redirect_is_read() {
    let mut client = client();
    for (status, headers) in [
        (200, location("/next")),
        (201, location("/next")),
        (299, location("/next")),
        (400, location("/next")),
        (302, HeaderMap::new()),
        (304, HeaderMap::new()),
    ] {
        let first = hop(client.fetch(&url("http://example.com/"), None));
        assert_eq!(body(answer(&mut client, first, status, &headers, None).next).status, status);
    }
}

#[test]
fn the_first_location_counts() {
    let mut headers = location("/one");
    headers.append("location", HeaderValue::from_static("/two"));
    let first = hop(client().fetch(&url("http://example.com/"), None));
    let next = hop(answer(&mut client(), first, 302, &headers, None).next);
    assert_eq!(next.url.as_str(), "http://example.com/one");
}

#[test]
fn bad_redirects_fail() {
    let mut client = client();
    let start = || hop(self::client().fetch(&url("http://example.com/"), None));
    let mut headers = HeaderMap::new();
    headers.insert("location", HeaderValue::from_bytes(b"/caf\xe9").unwrap());
    assert_eq!(
        failure(answer(&mut client, start(), 302, &headers, None).next),
        "Network error: Invalid redirect Location header"
    );
    assert_eq!(
        failure(answer(&mut client, start(), 302, &location("http://["), None).next),
        "Network error: Invalid redirect URL: invalid IPv6 address"
    );
    assert_eq!(
        failure(answer(&mut client, start(), 302, &location("http://169.254.169.254/"), None).next),
        "Network error: Access to private/internal IP address 169.254.169.254 is not allowed"
    );
    assert_eq!(
        failure(answer(&mut client, start(), 302, &location("ftp://example.com/"), None).next),
        "Network error: Forbidden URL scheme 'ftp' - only http, https, and file are allowed"
    );
    let opened = answer(&mut client, start(), 302, &location("http://169.254.169.254/"), Some("1")).next;
    assert_eq!(hop(opened).url.as_str(), "http://169.254.169.254/");
    assert_eq!(
        failure(start().redirected(302, Err("why".to_string()), false, None)),
        "Network error: Invalid redirect URL: why"
    );
}

#[test]
fn a_chain_of_redirects_ends() {
    let mut client = client();
    let mut current = hop(client.post_form(&url("http://example.com/0"), "x", None));
    for i in 1..MAX_REQUESTS {
        let status = if i == 5 { 302 } else { 307 };
        let target = format!("/{i}");
        current = hop(answer(&mut client, current, status, &location(&target), None).next);
        assert_eq!(current.redirects.len(), i);
        assert_eq!(current.redirects[i - 1].as_str(), format!("http://example.com/{}", i - 1));
        assert_eq!(current.method, if i < 5 { "POST" } else { "GET" });
        assert_eq!(current.body.is_some(), i < 5);
    }
    // The twentieth request may still be answered, but not redirected.
    assert_eq!(current.redirects.len(), 19);
    let step = answer(&mut client, current, 302, &location("/20"), None).next;
    assert_eq!(failure(step), "Too many redirects: http://example.com/20");
}

#[test]
fn a_response_sets_cookies_for_the_url_that_was_requested() {
    let mut client = client();
    let target = url("http://example.com/a");
    let mut headers = location("http://169.254.169.254/");
    headers.append("set-cookie", HeaderValue::from_static("a=1"));
    headers.append("set-cookie", HeaderValue::from_bytes(b"b=\xe9").unwrap());
    headers.append("set-cookie", HeaderValue::from_static("c=3; Secure"));
    for status in [200, 302] {
        let first = hop(client.fetch(&target, None));
        let received = answer(&mut client, first, status, &headers, None);
        assert_eq!(received.cookies, ["a=1", "c=3; Secure"]);
        assert_eq!(received.cookies_from, target);
        assert_eq!(matches!(received.next, FetchStep::ReadBody(_)), status == 200);
    }
}

#[test]
fn a_whole_fetch_leaves_the_count_of_requests_as_it_was() {
    let mut client = client();
    client.in_flight = 3;
    let mut step = client.fetch(&url("http://example.com/0"), None);
    for (status, target) in [(302, "/1"), (307, "/2"), (200, "/3")] {
        assert_eq!(client.active_requests(), 3);
        let next = client.intercepted(hop(step), InterceptAction::Continue);
        assert_eq!(client.active_requests(), 3);
        let sent = client.begin_request(hop(next));
        assert_eq!(client.active_requests(), 4);
        step = client.received(sent, status, &location(target), None).next;
    }
    assert_eq!(client.active_requests(), 3);
    let response = body(step).finish(Ok(Vec::new())).unwrap();
    assert_eq!(response.url.as_str(), "http://example.com/2");
    assert_eq!(response.redirected_from.len(), 2);
    assert_eq!(client.active_requests(), 3);
    // A blocked request is not counted, and a refused redirect no longer.
    let first = hop(client.fetch(&url("http://example.com/"), None));
    client.intercepted(first, InterceptAction::Block);
    assert_eq!(client.active_requests(), 3);
    let first = hop(client.fetch(&url("http://example.com/"), None));
    failure(answer(&mut client, first, 302, &location("http://10.0.0.1/"), None).next);
    assert_eq!(client.active_requests(), 3);
}

#[test]
fn the_environment_counts_when_the_redirect_comes() {
    let mut client = client();
    let private = location("http://10.0.0.1/");
    let first = hop(client.fetch(&url("http://example.com/"), None));
    let second = hop(answer(&mut client, first, 302, &private, Some("yes")).next);
    assert_eq!(second.url.as_str(), "http://10.0.0.1/");
    assert_eq!(
        failure(answer(&mut client, second, 302, &private, None).next),
        "Network error: Access to private/internal IP address 10.0.0.1 is not allowed"
    );
}

#[test]
fn a_redirect_to_a_file_is_not_read() {
    let mut client = client();
    let first = hop(client.fetch(&url("http://example.com/"), None));
    let step = answer(&mut client, first, 302, &location("file:///etc/hosts"), None).next;
    assert!(matches!(step, FetchStep::Intercept(_)));
    let step = client.intercepted(hop(step), InterceptAction::Continue);
    assert!(matches!(step, FetchStep::Send(_)));
    let sent = client.begin_request(hop(step));
    assert_eq!(
        failure(client.send_failed(sent, "builder error")),
        "Network error: file:///etc/hosts: builder error"
    );
}

#[test]
fn a_file_is_read_whatever_the_method_and_the_client_are() {
    let target = url("file:///tmp/a.b/c.tar.gz");
    let mut other: Client =
        ObscuraHttpClient::with_options_ca(Arc::new(()), Some("http://p:1"), true, Some("/ca"));
    other.block_trackers = true;
    other.in_flight = 5;
    other.set_extra_headers(table(&[("X", "1")]));
    for step in [
        fetch_file_url(&target),
        client().fetch(&target, None),
        client().fetch(&target, Some("1")),
        client().post_form(&target, "a=1", None),
        other.fetch_with_method("DELETE", &target, Some(vec![1]), None),
    ] {
        match step {
            FetchStep::ReadFile(file) => {
                assert_eq!(file.url, target);
                assert_eq!(file.file.path.to_str(), Some("/tmp/a.b/c.tar.gz"));
                assert_eq!(file.file.extension.as_deref(), Some("gz"));
            }
            other => panic!("{other:?}"),
        }
    }
    assert_eq!(other.active_requests(), 5);
    assert_eq!(other.extra_headers.get("X"), Some("1"));
}

#[test]
fn a_url_names_a_path_and_its_extension() {
    for (text, path, extension) in [
        ("file:///a/b.TXT", "/a/b.TXT", Some("TXT")),
        ("file:///a/b.", "/a/b.", Some("")),
        ("file:///a.d/b", "/a.d/b", None),
        ("file:///a/.hidden", "/a/.hidden", None),
        ("file:///a/%41.x", "/a/A.x", Some("x")),
    ] {
        let file = url_file_path(text).unwrap();
        assert_eq!(file.path.to_str(), Some(path));
        assert_eq!(file.extension.as_deref(), extension);
    }
    let file = url_file_path("file:///a/b.%FF").unwrap();
    assert_eq!(file.path.to_str(), None);
    assert_eq!(file.extension, None);
    assert!(url_file_path("no url").is_none());
    assert!(url_file_path("mailto:someone").is_none());
}

#[test]
fn headers_that_are_passed_over_do_not_count() {
    let mut extra = table(&[("X-A", "1"), ("bad name", "2"), ("X-B", "a\nb"), ("x-a", "3")]);
    for i in 0..7000 {
        extra.insert(format!("bad name {i}"), String::new());
    }
    let headers = request_headers("x", "", &extra);
    assert_eq!(headers.keys_len(), 12);
}

#[test]
fn there_is_no_request_with_more_headers_than_a_map_can_hold() {
    let mut client = client();
    let target = url("http://example.com/");
    let mut extra = HeaderTable::new();
    for i in 0..MAX_EXTRA {
        extra.insert(format!("{i}"), "1".to_string());
    }
    client.set_extra_headers(extra.clone());
    let first = hop(client.post_form(&target, "a=1", None));
    assert_eq!(client.outgoing(&first, "a=1").unwrap().headers.keys_len(), MAX_EXTRA + 13);
    for i in MAX_EXTRA..24600 {
        extra.insert(format!("{i}"), "1".to_string());
    }
    client.set_extra_headers(extra);
    assert!(client.outgoing(&first, "").is_none());
}

#[test]
fn a_response_names_every_url_that_was_requested() {
    let mut client = client();
    let mut step = client.fetch(&url("http://example.com/a/"), None);
    for target in ["b", "/c", "http://other.example/d?e"] {
        step = answer(&mut client, hop(step), 308, &location(target), None).next;
    }
    let last = answer(&mut client, hop(step), 404, &HeaderMap::new(), None).next;
    let response = body(last).finish(Ok(Vec::new())).unwrap();
    let left: Vec<&str> = response.redirected_from.iter().map(|url| url.as_str()).collect();
    assert_eq!(left, ["http://example.com/a/", "http://example.com/a/b", "http://example.com/c"]);
    assert_eq!(response.url.as_str(), "http://other.example/d?e");
}
