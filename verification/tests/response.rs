use obscura_net::header_map::{response_headers, set_cookie_values};
use obscura_net::headers::HeaderTable;
use obscura_net::response::{file_response, media_type_of, Response};
use obscura_net::urls::{Host, Url};
use reqwest::header::{HeaderMap, HeaderName, HeaderValue};

fn response(headers: &[(&str, &str)]) -> Response {
    let mut table = HeaderTable::new();
    for (name, value) in headers {
        table.insert(name.to_string(), value.to_string());
    }
    Response {
        url: Url::parse("http://example.com/").unwrap(),
        status: 200,
        headers: table,
        body: b"body".to_vec(),
        redirected_from: Vec::new(),
    }
}

fn received(headers: &[(&str, &[u8])]) -> HeaderMap {
    let mut map = HeaderMap::new();
    for (name, value) in headers {
        map.append(
            HeaderName::from_bytes(name.as_bytes()).unwrap(),
            HeaderValue::from_bytes(value).unwrap(),
        );
    }
    map
}

#[test]
fn header_names_are_found_in_any_case() {
    let r = response(&[("content-type", "text/plain"), ("x-a", "1"), ("X-B", "2")]);
    assert_eq!(r.header("Content-Type"), Some("text/plain"));
    assert_eq!(r.header("X-A"), Some("1"));
    assert_eq!(r.header("x-a"), Some("1"));
    // Only names in lower case can be found.
    assert_eq!(r.header("X-B"), None);
    assert_eq!(r.header("x-c"), None);
    assert_eq!(r.content_type(), Some("text/plain"));
}

#[test]
fn lower_case_is_that_of_unicode() {
    let r = response(&[("ärger", "1"), ("k", "2")]);
    assert_eq!(r.header("ÄRGER"), Some("1"));
    assert_eq!(r.header("\u{212a}"), Some("2"));
}

#[test]
fn html_is_told_by_the_content_type() {
    assert!(response(&[("content-type", "text/html")]).is_html());
    assert!(response(&[("content-type", "text/html; charset=utf-8")]).is_html());
    assert!(response(&[("content-type", "x text/html")]).is_html());
    assert!(!response(&[("content-type", "TEXT/HTML")]).is_html());
    assert!(!response(&[("content-type", "text/plain")]).is_html());
    assert!(!response(&[]).is_html());
}

#[test]
fn text_is_decoded_by_the_kind_of_content() {
    let html = |body: &[u8], ct: Option<&str>| format!("html {} {ct:?}", body.len());
    let other = |body: &[u8], ct: Option<&str>| format!("other {} {ct:?}", body.len());
    assert_eq!(
        response(&[("content-type", "text/html")]).text(html, other),
        "html 4 Some(\"text/html\")"
    );
    assert_eq!(
        response(&[("content-type", "text/css")]).text(html, other),
        "other 4 Some(\"text/css\")"
    );
    assert_eq!(response(&[]).text(html, other), "other 4 None");
}

#[test]
fn received_headers_keep_the_last_value() {
    let map = received(&[
        ("Content-Type", b"text/html"),
        ("X-Many", b"1"),
        ("Server", b"s"),
        ("x-many", b"2"),
        ("X-MANY", b"3"),
        ("X-Latin", b"caf\xe9"),
        ("X-Tab", b"a\tb"),
        ("X-Mixed", b"ok"),
        ("X-Mixed", b"\xff"),
    ]);
    let table = response_headers(&map);
    assert_eq!(table.len(), 6);
    assert_eq!(table.get("content-type"), Some("text/html"));
    assert_eq!(table.get("x-many"), Some("3"));
    assert_eq!(table.get("server"), Some("s"));
    assert_eq!(table.get("x-latin"), Some(""));
    assert_eq!(table.get("x-tab"), Some("a\tb"));
    assert_eq!(table.get("x-mixed"), Some(""));
    assert_eq!(table.get("Server"), None);
}

#[test]
fn every_received_header_is_found_under_its_name() {
    let map = received(&[("ETag", b"1"), ("X-Y", b"2"), ("Date", b"3"), ("x-y", b"4")]);
    let mut r = response(&[]);
    r.headers = response_headers(&map);
    assert_eq!(r.headers.len(), 3);
    for i in 0..r.headers.len() {
        let (name, value) = r.headers.entry(i);
        assert_eq!(r.header(name), Some(value));
        assert_eq!(r.header(&name.to_uppercase()), Some(value));
    }
}

#[test]
fn a_received_name_may_hold_a_double_quote() {
    let name = HeaderName::from_static("a\"b");
    let mut map = HeaderMap::new();
    map.insert(name, HeaderValue::from_static("1"));
    let table = response_headers(&map);
    assert_eq!(table.len(), 1);
    assert_eq!(table.entry(0), ("a\"b", "1"));
    let mut r = response(&[]);
    r.headers = table;
    assert_eq!(r.header("A\"B"), Some("1"));
}

#[test]
fn cookies_to_set_are_the_values_that_are_text() {
    let map = received(&[
        ("Set-Cookie", b"a=1; Path=/"),
        ("X", b"y"),
        ("set-cookie", b"b=\xe9"),
        ("SET-COOKIE", b"c=3"),
    ]);
    assert_eq!(set_cookie_values(&map), vec!["a=1; Path=/".to_string(), "c=3".to_string()]);
    assert!(set_cookie_values(&HeaderMap::new()).is_empty());
}

#[test]
fn files_have_the_content_type_of_their_extension() {
    for (extension, kind) in [
        ("html", "text/html"),
        ("htm", "text/html"),
        ("css", "text/css"),
        ("js", "application/javascript"),
        ("mjs", "application/javascript"),
        ("json", "application/json"),
        ("png", "image/png"),
        ("jpg", "image/jpeg"),
        ("jpeg", "image/jpeg"),
        ("gif", "image/gif"),
        ("svg", "image/svg+xml"),
        ("webp", "image/webp"),
        ("ico", "image/x-icon"),
        ("txt", "application/octet-stream"),
        ("", "application/octet-stream"),
    ] {
        assert_eq!(media_type_of(extension), kind);
        let url = Url::parse("file:///x").unwrap();
        let upper = extension.to_uppercase();
        let r = file_response(url, Some(&upper), vec![1]);
        assert_eq!(r.content_type(), Some(kind));
        assert_eq!(r.is_html(), kind == "text/html");
        assert_eq!((r.status, r.body.len(), r.redirected_from.len()), (200, 1, 0));
    }
    let bare = file_response(Url::parse("file:///x").unwrap(), None, Vec::new());
    assert_eq!(bare.headers.len(), 0);
}

#[test]
fn urls_are_taken_apart() {
    let url = Url::parse("HTTPS://User@EXAMPLE.com:444/a/../b?c#d").unwrap();
    assert_eq!(url.as_str(), "https://User@example.com:444/b?c#d");
    assert_eq!(url.scheme(), "https");
    assert_eq!(url.host_text.as_deref(), Some("example.com"));
    assert_eq!(url.host, Some(Host::Domain("example.com".to_string())));
    let v6 = Url::parse("http://[::1]/").unwrap();
    assert_eq!(v6.host_text.as_deref(), Some("[::1]"));
    let none = Url::parse("data:x").unwrap();
    assert_eq!((none.host_text, none.host), (None, None));
    assert_eq!(Url::parse("nonsense").unwrap_err(), "relative URL without a base");
}

#[test]
fn references_are_resolved() {
    let url = Url::parse("http://example.com/a/b?c").unwrap();
    assert_eq!(url.join("d").unwrap(), Url::parse("http://example.com/a/d").unwrap());
    assert_eq!(url.join("/d").unwrap().as_str(), "http://example.com/d");
    assert_eq!(url.join("https://other/").unwrap().as_str(), "https://other/");
    assert_eq!(url.join("http://[").unwrap_err(), "invalid IPv6 address");
    assert_eq!(url.clone(), url);
}

#[test]
fn responses_can_be_copied() {
    let mut r = response(&[("content-type", "text/html")]);
    r.redirected_from.push(Url::parse("http://first/").unwrap());
    let copy = r.clone();
    assert_eq!(copy.url, r.url);
    assert_eq!(copy.status, 200);
    assert_eq!(copy.body, b"body");
    assert_eq!(copy.redirected_from, r.redirected_from);
    assert!(copy.is_html());
}
