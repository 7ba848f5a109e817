use std::sync::Arc;

use obscura_net::callbacks::{Due, Stage, Watch};
use obscura_net::client::ObscuraHttpClient;
use obscura_net::fetch::{FetchStep, Hop};
use obscura_net::headers::HeaderTable;
use obscura_net::response::{InterceptAction, Response};
use obscura_net::urls::Url;
use reqwest::header::{HeaderMap, HeaderValue};

type Client = ObscuraHttpClient<()>;

fn client() -> Client {
    ObscuraHttpClient::with_cookie_jar(Arc::new(()))
}

fn url(text: &str) -> Url {
    Url::parse(text).unwrap()
}

fn table(name: &str, value: &str) -> HeaderTable {
    let mut table = HeaderTable::new();
    table.insert(name.to_string(), value.to_string());
    table
}

fn location(target: &str) -> HeaderMap {
    let mut map = HeaderMap::new();
    map.insert("location", HeaderValue::from_str(target).unwrap());
    map
}

fn hop(step: FetchStep) -> Hop {
    match step {
        FetchStep::Intercept(hop) | FetchStep::Send(hop) => hop,
        other => panic!("no hop: {other:?}"),
    }
}

/// What is due, as one text.
fn told(watch: &mut Watch, client: &Client, step: &FetchStep) -> String {
    match watch.observe(client, step) {
        Due::Nothing => String::new(),
        Due::Request(info) => {
            format!("{} {} {:?}", info.method, info.url.as_str(), info.headers.get("X-A"))
        }
        Due::Response(info, response) => {
            format!("{} {} {}", info.url.as_str(), response.url.as_str(), response.status)
        }
    }
}

fn made_up() -> Response {
    Response {
        url: url("http://made.up/"),
        status: 299,
        headers: HeaderTable::new(),
        body: Vec::new(),
        redirected_from: Vec::new(),
    }
}

#[test]
fn callbacks_are_told_of_every_request_and_of_the_response() {
    let mut client = client();
    client.set_extra_headers(table("X-A", "1"));
    let mut watch = Watch::new();
    assert_eq!(watch.stage, Stage::Idle);
    assert!(watch.request().is_none());

    let step = client.post_form(&url("http://example.com/a"), "x", None);
    assert_eq!(told(&mut watch, &client, &step), "");
    assert_eq!(watch.request().unwrap().headers.get("X-A"), Some("1"));
    // The request is told of as it was before the interceptor changed headers.
    let action = InterceptAction::ModifyHeaders(table("X-A", "2"));
    let step = client.intercepted(hop(step), action);
    assert_eq!(told(&mut watch, &client, &step), "POST http://example.com/a Some(\"1\")");
    assert_eq!(watch.stage, Stage::Sending);
    let sent = client.begin_request(hop(step));
    let step = client.received(sent, 302, &location("/b"), None).next;

    assert_eq!(told(&mut watch, &client, &step), "");
    let step = client.intercepted(hop(step), InterceptAction::Continue);
    assert_eq!(told(&mut watch, &client, &step), "GET http://example.com/b Some(\"2\")");
    let sent = client.begin_request(hop(step));
    let step = client.received(sent, 200, &HeaderMap::new(), None).next;

    assert_eq!(told(&mut watch, &client, &step), "");
    let pending = match step {
        FetchStep::ReadBody(pending) => pending,
        other => panic!("{other:?}"),
    };
    let step = FetchStep::Finish(pending.finish(Ok(Vec::new())));
    assert_eq!(
        told(&mut watch, &client, &step),
        "http://example.com/b http://example.com/b 200"
    );
    assert_eq!(watch.stage, Stage::Over);
    assert_eq!(told(&mut watch, &client, &step), "");
}

#[test]
fn callbacks_are_not_told_of_what_no_server_answered() {
    let target = url("http://example.com/");
    for action in [InterceptAction::Block, InterceptAction::Fulfill(made_up())] {
        let mut client = client();
        let mut watch = Watch::new();
        let step = client.fetch(&target, None);
        assert_eq!(told(&mut watch, &client, &step), "");
        let step = client.intercepted(hop(step), action);
        assert!(matches!(step, FetchStep::Finish(_)));
        assert_eq!(told(&mut watch, &client, &step), "");
    }

    let mut client = client();
    client.block_trackers = true;
    let mut watch = Watch::new();
    let step = client.fetch(&target, None);
    assert_eq!(told(&mut watch, &client, &step), "");
    let step = match step {
        FetchStep::CheckTracker(check) => check.decide(true),
        other => panic!("{other:?}"),
    };
    assert_eq!(told(&mut watch, &client, &step), "");

    let mut watch = Watch::new();
    let step = client.fetch(&url("file:///x"), None);
    assert_eq!(told(&mut watch, &client, &step), "");
    let step = match step {
        FetchStep::ReadFile(file) => FetchStep::Finish(file.finish(Ok(Vec::new()))),
        other => panic!("{other:?}"),
    };
    assert_eq!(told(&mut watch, &client, &step), "");
}

#[test]
fn callbacks_are_told_of_no_response_after_a_failure() {
    let mut client = client();
    let target = url("http://example.com/");
    let mut watch = Watch::new();
    let step = client.fetch(&target, None);
    told(&mut watch, &client, &step);
    let step = client.intercepted(hop(step), InterceptAction::Continue);
    assert_eq!(told(&mut watch, &client, &step), "GET http://example.com/ None");
    let sent = client.begin_request(hop(step));
    let step = client.received(sent, 200, &HeaderMap::new(), None).next;
    told(&mut watch, &client, &step);
    let step = match step {
        FetchStep::ReadBody(pending) => FetchStep::Finish(pending.finish(Err("cut".to_string()))),
        other => panic!("{other:?}"),
    };
    assert_eq!(told(&mut watch, &client, &step), "");

    let mut watch = Watch::new();
    let step = client.fetch(&target, None);
    told(&mut watch, &client, &step);
    let step = client.intercepted(hop(step), InterceptAction::Continue);
    told(&mut watch, &client, &step);
    let sent = client.begin_request(hop(step));
    let step = client.send_failed(sent, "timed out");
    assert_eq!(told(&mut watch, &client, &step), "");
}
