//! What holds of the library as a whole.
pub mod access;
pub mod fetches;
pub mod messages;
pub mod texts;
pub mod values;

use reqwest::header::{HeaderMap, HeaderValue};
use reqwest::Certificate;
use vstd::prelude::*;
use vstd::utf8::{encode_utf8, is_ascii_chars};

use crate::callbacks::{fresh_watch, Notice, Stage, WatchView};
use crate::client::ClientView;
use crate::connection::{kept_of, set_up};
use crate::error::ErrorView;
use crate::fetch::{
    file_begins, file_outcome, first_hop, location_step, network_failure, next_hop, redirection,
    redirects_to_get, with_body_type, HopView, StepView, MAX_REQUESTS,
};
use crate::guard::{any_forbidden, env_allows, fetchable_scheme, private_allowed, url_refusal};
use crate::header_map::{
    held_names, kept_value, lemma_held_name_lowercase, name_text, response_pairs, text_of_value,
    value_text, values_of, HeaderValues,
};
use crate::headers::{
    distinct, lemma_lookup_at, lemma_merged_distinct, lemma_with_pair, lookup, merged, named,
    named_at, Pairs,
};
use crate::ip::{mapped_base, IpAddr, Ipv4Addr, Ipv6Addr};
use crate::outgoing::{
    all_headers, browser_headers, cookie_value, lemma_cookie_value, one, sendable,
    user_agent_value, with_cookies, with_extra, COOKIE_SEPARATOR, FORM,
};
use crate::response::{file_headers, media_type, ActionView, InfoView, ResponseView};
use crate::run::{
    begun, chained, ended, hop_in, leads_to, locations, none_fulfilled, open_at_last,
    requests_told, responses_told, web, web_answers, Answer, FetchState, Phase, Told,
};
use crate::text::{ascii_lower, joined, lowercase, occurs_at, parts};
use crate::urls::{url_joined, HostView, UrlView};

verus! {

/// The host that an address makes.
pub open spec fn literal_host(ip: IpAddr) -> HostView {
    match ip {
        IpAddr::V4(v4) => HostView::Ipv4(v4),
        IpAddr::V6(v6) => HostView::Ipv6(v6),
    }
}

/// The check of a literal host and the check of resolved addresses never
/// disagree: an `http` or `https` URL with an address as its host is refused
/// exactly if a name that resolves to this address is.
pub proof fn law_literal_and_resolved_hosts_agree(url: UrlView, ip: IpAddr, private_allowed: bool)
    requires
        url.scheme == "http"@ || url.scheme == "https"@,
        url.host == Some(literal_host(ip)),
    ensures
        url_refusal(url, private_allowed) is None <==> private_allowed || !any_forbidden(seq![ip]),
{
    reveal_strlit("http");
    reveal_strlit("https");
    reveal_strlit("file");
    assert("http"@.len() == 4 && "https"@.len() == 5 && "file"@.len() == 4);
    assert("http"@[0] != "file"@[0]);
    assert(seq![ip][0] == ip);
}

/// An IPv4-mapped IPv6 address is forbidden exactly if the IPv4 address is.
pub proof fn law_mapped_addresses(v4: Ipv4Addr, v6: Ipv6Addr)
    requires
        v6.bits() == mapped_base() + v4.bits(),
    ensures
        IpAddr::V6(v6).forbidden() == IpAddr::V4(v4).forbidden(),
{
}

/// An IPv4-compatible IPv6 address is forbidden if the IPv4 address is; of
/// the others only `::1`, the IPv6 loopback address, is.
pub proof fn law_compatible_addresses(v4: Ipv4Addr, v6: Ipv6Addr)
    requires
        v6.bits() == v4.bits(),
    ensures
        IpAddr::V6(v6).forbidden() == (IpAddr::V4(v4).forbidden() || v6.bits() == 1),
{
}

/// While the private network is open, by the setting or by the environment,
/// only the scheme of a URL counts.
pub proof fn law_open_network(url: UrlView, setting: bool, env: Option<Seq<char>>)
    requires
        setting || env_allows(env),
    ensures
        url_refusal(url, private_allowed(setting, env)) is None <==> fetchable_scheme(url.scheme),
{
}

/// What is refused while the private network is open is refused while it is
/// closed, for the same reason.
pub proof fn law_closing_the_network_only_refuses_more(url: UrlView)
    ensures
        url_refusal(url, true) matches Some(reason) ==> url_refusal(url, false) == Some(reason),
{
}

/// `file` URLs are never refused, and URLs of unknown schemes always are.
pub proof fn law_schemes(url: UrlView, private_allowed: bool)
    ensures
        url.scheme == "file"@ ==> url_refusal(url, private_allowed) is None,
        !fetchable_scheme(url.scheme) ==> url_refusal(url, private_allowed) is Some,
{
}

/// A client that was told to trust a CA bundle never goes on without it: its
/// connections are set up only if the file was read, and then with at least
/// one more certificate. One that was not told so trusts no more than usual.
pub proof fn law_ca_bundles_fail_closed<J>(
    client: ClientView<J>,
    ca_file: Result<Seq<u8>, Seq<char>>,
)
    ensures
        client.ca_path is Some && client.extra_roots(ca_file) is Ok ==> ca_file is Ok
            && client.extra_roots(ca_file)->Ok_0.len() > 0,
        client.ca_path is None ==> client.extra_roots(ca_file) is Ok && client.extra_roots(
            ca_file,
        )->Ok_0.len() == 0,
{
}

/// The client after requests, of any of its fetches, began (`true`) and ended
/// (`false`), from the first to the last of these events.
pub open spec fn client_after<J>(client: ClientView<J>, events: Seq<bool>) -> ClientView<J>
    decreases events.len(),
{
    if events.len() == 0 {
        client
    } else if events.last() {
        client_after(client, events.drop_last()).after_begin()
    } else {
        client_after(client, events.drop_last()).after_end()
    }
}

/// How many more requests began than ended.
pub open spec fn underway(events: Seq<bool>) -> int
    decreases events.len(),
{
    if events.len() == 0 {
        0
    } else if events.last() {
        underway(events.drop_last()) + 1
    } else {
        underway(events.drop_last()) - 1
    }
}

/// However the requests of several fetches overlap, a client counts those that
/// began and did not end yet, and counts as many as at first again once all
/// ended. It can count `u32::MAX` requests.
pub proof fn law_active_requests<J>(client: ClientView<J>, events: Seq<bool>)
    requires
        forall|n: int|
            0 <= n <= events.len() ==> 0 <= client.in_flight + #[trigger] underway(events.take(n))
                <= u32::MAX,
    ensures
        client_after(client, events) == (ClientView {
            in_flight: (client.in_flight + underway(events)) as u32,
            ..client
        }),
        0 <= client.in_flight + underway(events) <= u32::MAX,
    decreases events.len(),
{
    assert(events.take(events.len() as int) == events);
    if events.len() > 0 {
        let earlier = events.drop_last();
        assert(events.take(events.len() - 1) == earlier);
        assert forall|n: int| 0 <= n <= earlier.len() implies 0 <= client.in_flight
            + #[trigger] underway(earlier.take(n)) <= u32::MAX by {
            assert(earlier.take(n) == events.take(n));
        }
        law_active_requests(client, earlier);
    }
}

/// The names of response headers may be spelled in any case.
pub proof fn law_header_names_in_any_case(response: ResponseView, a: Seq<char>, b: Seq<char>)
    requires
        is_ascii_chars(a),
        is_ascii_chars(b),
        ascii_lower(a) == ascii_lower(b),
    ensures
        response.header(a) == response.header(b),
{
}

/// After one table is merged into another, a name has its value from the
/// first if it is there, else the one that it had.
pub proof fn law_merged(pairs: Pairs, more: Pairs, name: Seq<char>)
    requires
        distinct(pairs),
        distinct(more),
    ensures
        distinct(merged(pairs, more)),
        lookup(merged(pairs, more), name) == if named(more, name) {
            lookup(more, name)
        } else {
            lookup(pairs, name)
        },
    decreases more.len(),
{
    lemma_merged_distinct(pairs, more);
    if more.len() > 0 {
        let rest = more.drop_last();
        let last = more.last();
        lemma_merged_distinct(pairs, rest);
        lemma_with_pair(merged(pairs, rest), last.0, last.1);
        if name == last.0 {
            assert(named_at(more, more.len() - 1, name));
            lemma_lookup_at(more, more.len() - 1);
        } else {
            law_merged(pairs, rest, name);
            if named(more, name) {
                let i = choose|i: int| named_at(more, i, name);
                assert(named_at(rest, i, name));
                lemma_lookup_at(more, i);
                lemma_lookup_at(rest, i);
            } else if named(rest, name) {
                let i = choose|i: int| named_at(rest, i, name);
                assert(named_at(more, i, name));
            }
        }
    } else {
        assert(!named(more, name));
    }
}

/// The extra header at `i` is one that a request can have.
pub open spec fn usable(extra: Pairs, i: int) -> bool {
    0 <= i < extra.len() && name_text(extra[i].0) && value_text(extra[i].1)
}

/// An extra header wins over the header of that name that the request would
/// have otherwise, and over the extra headers before it.
pub proof fn law_extra_headers_win(headers: HeaderValues, extra: Pairs, i: int)
    requires
        usable(extra, i),
        forall|j: int|
            i < j && #[trigger] usable(extra, j) ==> ascii_lower(extra[j].0) != ascii_lower(
                extra[i].0,
            ),
    ensures
        with_extra(headers, extra).dom().contains(ascii_lower(extra[i].0)),
        with_extra(headers, extra)[ascii_lower(extra[i].0)] == one(extra[i].1),
    decreases extra.len(),
{
    let last = extra.len() - 1;
    if i < last {
        let rest = extra.drop_last();
        assert(usable(rest, i));
        assert forall|j: int| i < j && #[trigger] usable(rest, j) implies ascii_lower(rest[j].0)
            != ascii_lower(rest[i].0) by {
            assert(usable(extra, j));
        }
        law_extra_headers_win(headers, rest, i);
        if name_text(extra.last().0) && value_text(extra.last().1) {
            assert(usable(extra, last));
        }
    }
}

/// A header that no usable extra header names stays as it was.
pub proof fn law_other_headers_stay(headers: HeaderValues, extra: Pairs, name: Seq<char>)
    requires
        forall|j: int| #[trigger] usable(extra, j) ==> ascii_lower(extra[j].0) != name,
    ensures
        with_extra(headers, extra).dom().contains(name) == headers.dom().contains(name),
        headers.dom().contains(name) ==> with_extra(headers, extra)[name] == headers[name],
    decreases extra.len(),
{
    if extra.len() > 0 {
        let rest = extra.drop_last();
        assert forall|j: int| #[trigger] usable(rest, j) implies ascii_lower(rest[j].0) != name by {
            assert(usable(extra, j));
        }
        law_other_headers_stay(headers, rest, name);
        if name_text(extra.last().0) && value_text(extra.last().1) {
            assert(usable(extra, extra.len() - 1));
        }
    }
}

/// Requests name the user agent that the client was given, or the default one
/// if no header may hold it, unless an extra header names another.
pub proof fn law_user_agent_is_sent(user_agent: Seq<char>, cookies: Seq<char>, extra: Pairs)
    requires
        forall|j: int| #[trigger]
            usable(extra, j) ==> ascii_lower(extra[j].0) != "user-agent"@,
    ensures
        all_headers(user_agent, cookies, extra).dom().contains("user-agent"@),
        all_headers(user_agent, cookies, extra)["user-agent"@] == one(
            user_agent_value(user_agent),
        ),
{
    lemma_name_lengths();
    law_other_headers_stay(
        with_cookies(browser_headers(user_agent), cookies),
        extra,
        "user-agent"@,
    );
}

/// A form is labelled as one: the last content type of a `POST` request with
/// a body is that of forms, and unless an extra header names another there is
/// no other; requests of other methods get none with their body.
pub proof fn law_forms_are_labelled(
    user_agent: Seq<char>,
    cookies: Seq<char>,
    extra: Pairs,
    method: Seq<char>,
    body: Option<Seq<u8>>,
)
    ensures
        ({
            let bare = all_headers(user_agent, cookies, extra);
            let headers = with_body_type(bare, method, body);
            if method == "POST"@ && body is Some {
                &&& headers.dom().contains("content-type"@)
                &&& headers["content-type"@].last() == encode_utf8(FORM@)
                &&& (forall|j: int| #[trigger]
                    usable(extra, j) ==> ascii_lower(extra[j].0) != "content-type"@)
                    ==> headers["content-type"@] == one(FORM@)
            } else {
                headers == bare
            }
        }),
{
    lemma_name_lengths();
    let base = with_cookies(browser_headers(user_agent), cookies);
    assert(!base.dom().contains("content-type"@));
    if forall|j: int| #[trigger]
        usable(extra, j) ==> ascii_lower(extra[j].0) != "content-type"@ {
        law_other_headers_stay(base, extra, "content-type"@);
        assert(Seq::<Seq<u8>>::empty().push(encode_utf8(FORM@)) == one(FORM@));
    }
}

/// The names of the headers that requests have by themselves differ from
/// `user-agent` and from `content-type` in length.
proof fn lemma_name_lengths()
    ensures
        "user-agent"@.len() == 10,
        "content-type"@.len() == 12,
        "accept"@.len() == 6,
        "accept-language"@.len() == 15,
        "sec-ch-ua"@.len() == 9,
        "sec-ch-ua-mobile"@.len() == 16,
        "sec-ch-ua-platform"@.len() == 18,
        "sec-fetch-dest"@.len() == 14,
        "sec-fetch-mode"@.len() == 14,
        "sec-fetch-site"@.len() == 14,
        "sec-fetch-user"@.len() == 14,
        "upgrade-insecure-requests"@.len() == 25,
        "cookie"@.len() == 6,
{
    reveal_strlit("user-agent");
    reveal_strlit("content-type");
    reveal_strlit("accept");
    reveal_strlit("accept-language");
    reveal_strlit("sec-ch-ua");
    reveal_strlit("sec-ch-ua-mobile");
    reveal_strlit("sec-ch-ua-platform");
    reveal_strlit("sec-fetch-dest");
    reveal_strlit("sec-fetch-mode");
    reveal_strlit("sec-fetch-site");
    reveal_strlit("sec-fetch-user");
    reveal_strlit("upgrade-insecure-requests");
    reveal_strlit("cookie");
}

/// Cookies never keep a request from being sent: what is sent of them may
/// stand in a header, it is all of them if all of them may, and else it
/// consists of those of them that may.
pub proof fn law_cookies(cookies: Seq<char>)
    ensures
        value_text(cookie_value(cookies)),
        value_text(cookies) ==> cookie_value(cookies) == cookies,
        !value_text(cookies) ==> exists|sent: Seq<Seq<char>>| #[trigger]
            joined(sent, COOKIE_SEPARATOR@) == cookie_value(cookies) && forall|cookie: Seq<char>|
                #[trigger] sent.contains(cookie) <==> value_text(cookie) && parts(
                    cookies,
                    COOKIE_SEPARATOR@,
                ).contains(cookie),
{
    lemma_cookie_value(cookies);
    let list = parts(cookies, COOKIE_SEPARATOR@);
    let sent = sendable(list);
    let valid = |cookie: Seq<char>| value_text(cookie);
    assert forall|cookie: Seq<char>| #[trigger] sent.contains(cookie) <==> value_text(cookie)
        && list.contains(cookie) by {
        if sent.contains(cookie) {
            let i = choose|i: int| 0 <= i < sent.len() && sent[i] == cookie;
            list.lemma_filter_pred(valid, i);
            list.lemma_filter_contains_rev(valid, cookie);
        }
        if value_text(cookie) && list.contains(cookie) {
            let i = choose|i: int| 0 <= i < list.len() && list[i] == cookie;
            list.lemma_filter_contains(valid, i);
        }
    }
}

/// The header of a response is the last value that the server sent under
/// that name, the name spelled in any case; a value that is not text counts
/// as empty.
pub proof fn law_response_headers(
    received: HeaderMap<HeaderValue>,
    response: ResponseView,
    name: Seq<char>,
)
    requires
        response_pairs(received, response.headers),
    ensures
        response.header(name) == kept_value(values_of(received, lowercase(name))),
{
}

/// Every header of a received response is found under its name.
pub proof fn law_response_headers_are_found(response: ResponseView, i: int)
    requires
        held_names(response.headers),
        distinct(response.headers),
        0 <= i < response.headers.len(),
    ensures
        response.header(response.headers[i].0) == Some(response.headers[i].1),
{
    lemma_held_name_lowercase(response.headers[i].0);
    lemma_lookup_at(response.headers, i);
}

/// A file is served as HTML exactly if its extension, in any case, is `html`
/// or `htm`.
pub proof fn law_html_files(file: ResponseView, extension: Option<Seq<char>>)
    requires
        file.headers == file_headers(extension),
    ensures
        file.is_html() <==> extension is Some && (lowercase(extension->Some_0) == "html"@
            || lowercase(extension->Some_0) == "htm"@),
{
    reveal_strlit("text/html");
    reveal_strlit("text/css");
    reveal_strlit("application/javascript");
    reveal_strlit("application/json");
    reveal_strlit("image/png");
    reveal_strlit("image/jpeg");
    reveal_strlit("image/gif");
    reveal_strlit("image/svg+xml");
    reveal_strlit("image/webp");
    reveal_strlit("image/x-icon");
    reveal_strlit("application/octet-stream");
    match extension {
        Some(extension) => {
            let kind = media_type(lowercase(extension));
            assert(named_at(file.headers, 0, "content-type"@));
            lemma_lookup_at(file.headers, 0);
            assert(file.content_type() == Some(kind));
            assert("image/png"@[0] != "text/html"@[0] && "image/gif"@[0] != "text/html"@[0]);
            if kind == "text/html"@ {
                assert(kind.subrange(0, 9) == "text/html"@);
                assert(occurs_at(kind, "text/html"@, 0));
            } else {
                assert forall|i: int| !occurs_at(kind, "text/html"@, i) by {
                    if occurs_at(kind, "text/html"@, i) {
                        let found = kind.subrange(i, i + 9);
                        assert(found[4] == kind[i + 4] && found[5] == kind[i + 5]);
                    }
                }
            }
        },
        None => {
            assert(!named(file.headers, "content-type"@));
        },
    }
}

/// A response that redirects, and whether the private network was open when it
/// came.
pub struct Redirect {
    pub status: u16,
    pub location: Seq<u8>,
    pub private_allowed: bool,
}

/// The hop that a fetch has come to after these redirects, if each of them led
/// on to another request.
pub open spec fn hop_after(hop: HopView, redirects: Seq<Redirect>) -> Option<HopView>
    decreases redirects.len(),
{
    if redirects.len() == 0 {
        Some(hop)
    } else {
        let last = redirects.last();
        match hop_after(hop, redirects.drop_last()) {
            None => None,
            Some(hop) => match location_step(
                hop,
                last.status,
                last.location,
                last.private_allowed,
            ) {
                StepView::Intercept(next) => Some(next),
                _ => None,
            },
        }
    }
}

/// One of the redirects turns the fetch into a `GET`.
pub open spec fn turned_to_get(redirects: Seq<Redirect>) -> bool {
    exists|i: int| 0 <= i < redirects.len() && redirects_to_get((#[trigger] redirects[i]).status)
}

/// Whether the private network was open when the URL of the request number
/// `i`, counted from zero, was chosen: `first` says it for the first one.
pub open spec fn open_for(first: bool, redirects: Seq<Redirect>, i: int) -> bool {
    if i == 0 {
        first
    } else {
        redirects[i - 1].private_allowed
    }
}

/// However the servers answer, a fetch makes no more than `MAX_REQUESTS`
/// requests and none to a URL that may not be fetched when it is chosen; it
/// knows every URL that it left; and it keeps its method and body until a 301,
/// 302 or 303 turns it into a `GET` without one.
pub proof fn law_redirects(
    method: Seq<char>,
    url: UrlView,
    body: Option<Seq<u8>>,
    first: bool,
    redirects: Seq<Redirect>,
)
    requires
        url_refusal(url, first) is None,
    ensures
        hop_after(first_hop(method, url, body), redirects) matches Some(hop) ==> {
            &&& redirects.len() < MAX_REQUESTS
            &&& hop.redirects.len() == redirects.len()
            &&& url_refusal(hop.url, open_for(first, redirects, redirects.len() as int)) is None
            &&& forall|i: int|
                0 <= i < redirects.len() ==> url_refusal(
                    #[trigger] hop.redirects[i],
                    open_for(first, redirects, i),
                ) is None
            &&& forall|i: int|
                0 <= i < redirects.len() ==> hop_after(
                    first_hop(method, url, body),
                    #[trigger] redirects.take(i),
                ) is Some && hop.redirects[i] == hop_after(
                    first_hop(method, url, body),
                    redirects.take(i),
                )->Some_0.url
            &&& hop.method == if turned_to_get(redirects) {
                "GET"@
            } else {
                method
            }
            &&& hop.body == if turned_to_get(redirects) {
                None
            } else {
                body
            }
        },
    decreases redirects.len(),
{
    let start = first_hop(method, url, body);
    if redirects.len() > 0 && hop_after(start, redirects) is Some {
        let earlier = redirects.drop_last();
        law_redirects(method, url, body, first, earlier);
        let last = hop_after(start, earlier)->Some_0;
        let hop = hop_after(start, redirects)->Some_0;
        assert(hop == next_hop(last, redirects.last().status, hop.url));
        assert forall|i: int| 0 <= i < redirects.len() implies url_refusal(
            #[trigger] hop.redirects[i],
            open_for(first, redirects, i),
        ) is None by {
            if i < earlier.len() {
                assert(hop.redirects[i] == last.redirects[i]);
                assert(open_for(first, redirects, i) == open_for(first, earlier, i));
            } else {
                assert(hop.redirects[i] == last.url);
                assert(open_for(first, redirects, i) == open_for(first, earlier, i));
            }
        }
        assert forall|i: int| 0 <= i < redirects.len() implies hop_after(
            start,
            #[trigger] redirects.take(i),
        ) is Some && hop.redirects[i] == hop_after(start, redirects.take(i))->Some_0.url by {
            if i < earlier.len() {
                assert(earlier.take(i) == redirects.take(i));
                assert(hop.redirects[i] == last.redirects[i]);
            } else {
                assert(redirects.take(i) == earlier);
            }
        }
        if turned_to_get(earlier) {
            let i = choose|i: int|
                0 <= i < earlier.len() && redirects_to_get((#[trigger] earlier[i]).status);
            assert(redirects[i] == earlier[i]);
            assert(turned_to_get(redirects));
        } else if redirects_to_get(redirects.last().status) {
            assert(redirects_to_get(redirects[redirects.len() - 1].status));
            assert(turned_to_get(redirects));
        } else if turned_to_get(redirects) {
            let i = choose|i: int|
                0 <= i < redirects.len() && redirects_to_get((#[trigger] redirects[i]).status);
            assert(earlier[i] == redirects[i]);
        }
    }
}

/// The last request that a fetch may make is not followed by another: a
/// redirect then ends the fetch, and one to a URL that may be fetched does so
/// with an error that names this URL.
pub proof fn law_redirects_end(hop: HopView, status: u16, location: Seq<u8>, private_allowed: bool)
    requires
        hop.redirects.len() + 1 >= MAX_REQUESTS,
    ensures
        location_step(hop, status, location, private_allowed) is Finish,
        forall|url: UrlView|
            text_of_value(location) is Some && url_joined(
                hop.url.text,
                text_of_value(location)->Some_0,
            ) == Ok::<UrlView, Seq<char>>(url) && #[trigger] url_refusal(url, private_allowed)
                is None ==> location_step(hop, status, location, private_allowed)
                == StepView::Finish(Err(ErrorView::TooManyRedirects(url.text))),
{
}

/// A fetch of this client that is at this step.
pub open spec fn fetch_at<J>(client: ClientView<J>, step: StepView) -> FetchState<J> {
    FetchState { client, phase: Phase::Step(step) }
}

/// A whole fetch of a URL that is no `file` URL requests only URLs that may be
/// fetched when they are chosen, and never reads a file, whatever it is
/// answered.
pub proof fn law_only_permitted_urls_are_requested<J>(
    client: ClientView<J>,
    method: Seq<char>,
    url: UrlView,
    body: Option<Seq<u8>>,
    env: Option<Seq<char>>,
    step: StepView,
    answers: Seq<Answer>,
)
    requires
        client.begins(method, url, body, env, step),
        url.scheme != "file"@,
    ensures
        fetch_at(client, step).reached(answers) matches Some(state) ==> {
            &&& hop_in(state.phase) matches Some(hop) ==> url_refusal(
                hop.url,
                open_at_last(client.allow_private_network, env, answers),
            ) is None
            &&& !(state.phase matches Phase::Step(StepView::ReadFile { .. }))
            &&& state.client.allow_private_network == client.allow_private_network
        },
    decreases answers.len(),
{
    if answers.len() > 0 {
        law_only_permitted_urls_are_requested(
            client,
            method,
            url,
            body,
            env,
            step,
            answers.drop_last(),
        );
    }
}

/// A URL that may not be fetched is refused with the reason for it: that is
/// the end of the fetch, and nothing is asked for.
pub proof fn law_refused_urls_are_not_requested<J>(
    client: ClientView<J>,
    method: Seq<char>,
    url: UrlView,
    body: Option<Seq<u8>>,
    env: Option<Seq<char>>,
    step: StepView,
    answers: Seq<Answer>,
    reason: Seq<char>,
)
    requires
        client.begins(method, url, body, env, step),
        url_refusal(url, private_allowed(client.allow_private_network, env)) == Some(reason),
    ensures
        step == network_failure(reason),
        fetch_at(client, step).reached(answers) is Some ==> answers.len() == 0,
    decreases answers.len(),
{
    if answers.len() > 0 {
        law_refused_urls_are_not_requested(
            client,
            method,
            url,
            body,
            env,
            step,
            answers.drop_last(),
            reason,
        );
    }
}

/// The answer to a request redirects to a URL.
pub open spec fn redirected_to(hop: HopView, answer: Answer, url: UrlView) -> bool {
    &&& answer matches Answer::Head { status, location, headers, env }
    &&& redirection(status)
    &&& location matches Some(location)
    &&& leads_to(hop.url, location, url)
}

/// A redirect to a URL that may not be fetched then is refused with the reason
/// for it: that is the end of the fetch, and nothing more is asked for.
pub proof fn law_refused_redirects_are_not_followed<J>(
    state: FetchState<J>,
    hop: HopView,
    answer: Answer,
    target: UrlView,
    reason: Seq<char>,
    more: Seq<Answer>,
)
    requires
        state.phase == Phase::Awaiting(hop),
        redirected_to(hop, answer, target),
        url_refusal(target, private_allowed(state.client.allow_private_network, answer->env))
            == Some(reason),
    ensures
        state.after(answer) == Some(
            fetch_at(state.client.after_end(), network_failure(reason)),
        ),
        state.after(answer)->Some_0.reached(more) is Some ==> more.len() == 0,
    decreases more.len(),
{
    if more.len() > 0 {
        law_refused_redirects_are_not_followed(
            state,
            hop,
            answer,
            target,
            reason,
            more.drop_last(),
        );
    }
}

/// A whole fetch of an `http` or `https` URL gives no response but one of such
/// a URL: a redirect to a file ends in an error. This rests on the HTTP
/// library, which sends no other requests, and leaves out what an interceptor
/// answers in place of the server.
pub proof fn law_responses_come_from_the_web<J>(
    client: ClientView<J>,
    method: Seq<char>,
    url: UrlView,
    body: Option<Seq<u8>>,
    env: Option<Seq<char>>,
    step: StepView,
    answers: Seq<Answer>,
)
    requires
        client.begins(method, url, body, env, step),
        web(url),
        none_fulfilled(answers),
        web_answers(fetch_at(client, step), answers),
    ensures
        fetch_at(client, step).reached(answers) matches Some(state) ==> {
            &&& state.phase matches Phase::Step(StepView::Finish(Ok(response))) ==> web(
                response.url,
            )
            &&& state.phase matches Phase::Step(StepView::ReadBody { url: from, .. }) ==> web(from)
            &&& state.phase matches Phase::Step(StepView::CheckTracker { hop, .. }) ==> web(hop.url)
            &&& !(state.phase matches Phase::Step(StepView::ReadFile { .. }))
        },
    decreases answers.len(),
{
    reveal_strlit("http");
    reveal_strlit("https");
    reveal_strlit("file");
    assert("http"@[0] != "file"@[0] && "https"@[0] != "file"@[0]);
    let start = fetch_at(client, step);
    if answers.len() > 0 {
        let earlier = answers.drop_last();
        assert(none_fulfilled(earlier)) by {
            assert forall|i: int| 0 <= i < earlier.len() implies !((#[trigger] earlier[i]) matches
                Answer::Action(ActionView::Fulfill(_))) by {
                assert(earlier[i] == answers[i]);
            }
        }
        assert(web_answers(start, earlier)) by {
            assert forall|i: int| 0 <= i < earlier.len() && (#[trigger] earlier[i]) is Head implies {
                start.reached(earlier.take(i)) matches Some(state) ==> {
                    state.phase matches Phase::Awaiting(hop) ==> web(hop.url)
                }
            } by {
                assert(earlier[i] == answers[i]);
                assert(earlier.take(i) == answers.take(i));
            }
        }
        law_responses_come_from_the_web(client, method, url, body, env, step, earlier);
        assert(answers.take(answers.len() - 1) == earlier);
        assert(answers[answers.len() - 1] == answers.last());
    }
}

/// A fetch of a `file` URL begins in the same way whatever the method, the
/// body, the client and the environment are: it reads the file, or fails if the
/// URL names none.
pub proof fn law_file_fetches_begin_alike<J>(
    client: ClientView<J>,
    method: Seq<char>,
    url: UrlView,
    body: Option<Seq<u8>>,
    env: Option<Seq<char>>,
    step: StepView,
)
    requires
        url.scheme == "file"@,
    ensures
        client.begins(method, url, body, env, step) <==> file_begins(url, step),
{
}

/// A whole fetch of a `file` URL leaves the client as it was, asks for nothing
/// but the file, and ends with what reading the file gave.
pub proof fn law_file_fetches_only_read<J>(
    client: ClientView<J>,
    url: UrlView,
    step: StepView,
    answers: Seq<Answer>,
)
    requires
        file_begins(url, step),
    ensures
        fetch_at(client, step).reached(answers) matches Some(state) ==> {
            &&& state.client == client
            &&& answers.len() == 0 ==> state.phase == Phase::Step(step)
            &&& answers.len() > 0 ==> {
                &&& answers.len() == 1
                &&& step matches StepView::ReadFile { url: from, file }
                &&& from == url
                &&& answers[0] matches Answer::Read(read)
                &&& state.phase == Phase::Step(StepView::Finish(file_outcome(url, file, read)))
            }
        },
    decreases answers.len(),
{
    if answers.len() > 0 {
        law_file_fetches_only_read(client, url, step, answers.drop_last());
    }
}

/// Whatever a fetch is answered, each request that it began counts as active
/// until it ended, once, and no longer: the client counts one more request than
/// before while one is being sent, and as many as before at every other time,
/// so also at the end. A fetch begins no more than `MAX_REQUESTS` requests, one
/// after the other.
pub proof fn law_every_request_is_counted_once<J>(
    client: ClientView<J>,
    method: Seq<char>,
    url: UrlView,
    body: Option<Seq<u8>>,
    env: Option<Seq<char>>,
    step: StepView,
    answers: Seq<Answer>,
)
    requires
        client.begins(method, url, body, env, step),
    ensures
        fetch_at(client, step).reached(answers) matches Some(state) ==> {
            &&& state.client.in_flight == if state.phase is Awaiting {
                client.in_flight.wrapping_add(1)
            } else {
                client.in_flight
            }
            &&& begun(answers) == ended(answers) + if state.phase is Awaiting {
                1nat
            } else {
                0
            }
            &&& begun(answers) <= MAX_REQUESTS
            &&& hop_in(state.phase) matches Some(hop) ==> hop.redirects.len() == begun(answers)
                - if state.phase is Awaiting {
                1int
            } else {
                0
            } && hop.redirects.len() < MAX_REQUESTS
        },
    decreases answers.len(),
{
    if answers.len() > 0 {
        law_every_request_is_counted_once(
            client,
            method,
            url,
            body,
            env,
            step,
            answers.drop_last(),
        );
    }
}

/// A fetch of a URL that is no `file` URL requests that URL first, and then each
/// time exactly the URL that the `Location` of the last response refers to. The
/// response names them all, in their order, the URLs that were left and then
/// its own; what an interceptor or a block of trackers answers in place of the
/// server is left out.
pub proof fn law_requested_urls<J>(
    client: ClientView<J>,
    method: Seq<char>,
    url: UrlView,
    body: Option<Seq<u8>>,
    env: Option<Seq<char>>,
    step: StepView,
    answers: Seq<Answer>,
)
    requires
        client.begins(method, url, body, env, step),
        url.scheme != "file"@,
    ensures
        fetch_at(client, step).reached(answers) matches Some(state) ==> {
            let requested = fetch_at(client, step).requested(answers);
            &&& requested.len() == begun(answers)
            &&& requested.len() > 0 ==> requested[0] == url
            &&& chained(requested, locations(answers))
            &&& hop_in(state.phase) matches Some(hop) ==> {
                let all = hop.redirects.push(hop.url);
                &&& all[0] == url
                &&& all.len() == locations(answers).len() + 1
                &&& chained(all, locations(answers))
                &&& requested == if state.phase is Awaiting {
                    all
                } else {
                    hop.redirects
                }
            }
            &&& state.phase matches Phase::Step(StepView::ReadBody { url: from, redirects, .. })
                ==> requested == redirects.push(from)
            &&& answers.len() > 0 && answers.last() is Read ==> {
                state.phase matches Phase::Step(StepView::Finish(Ok(response))) ==> requested
                    == response.redirected_from.push(response.url)
            }
        },
    decreases answers.len(),
{
    let start = fetch_at(client, step);
    if answers.len() > 0 {
        let earlier = answers.drop_last();
        law_requested_urls(client, method, url, body, env, step, earlier);
        match (start.reached(earlier), start.reached(answers)) {
            (Some(before), Some(state)) => {
                let now = start.requested(answers);
                match before.phase {
                    Phase::Step(StepView::Send(hop)) => {
                        if answers.last() is Begun {
                            assert(now == hop.redirects.push(hop.url));
                        }
                    },
                    Phase::Awaiting(hop) => {
                        let all = hop.redirects.push(hop.url);
                        assert(now == all);
                        match hop_in(state.phase) {
                            Some(next) => {
                                assert(next.redirects == all);
                                let longer = all.push(next.url);
                                assert forall|i: int| 0 < i < longer.len() implies leads_to(
                                    longer[i - 1],
                                    locations(answers)[i - 1],
                                    #[trigger] longer[i],
                                ) by {
                                    if i < all.len() {
                                        assert(longer[i] == all[i] && longer[i - 1] == all[i - 1]);
                                    }
                                }
                            },
                            None => {},
                        }
                    },
                    _ => {},
                }
            },
            _ => {},
        }
    }
}

/// The last answer of a fetch let a request pass, which the interceptor saw as
/// `info`.
pub open spec fn passed<J>(start: FetchState<J>, answers: Seq<Answer>, info: InfoView) -> bool {
    &&& answers.len() > 0
    &&& start.reached(answers.drop_last()) matches Some(state)
    &&& state.phase matches Phase::Step(StepView::Intercept(hop))
    &&& info == state.client.request_info(hop)
    &&& answers.last() matches Answer::Action(action)
    &&& action is Continue || action is ModifyHeaders
}

/// The last answer of a fetch was the whole body of a server's response.
pub open spec fn answered<J>(start: FetchState<J>, answers: Seq<Answer>) -> bool {
    &&& answers.len() > 0
    &&& start.reached(answers.drop_last()) matches Some(state)
    &&& state.phase matches Phase::Step(StepView::ReadBody { .. })
    &&& answers.last() matches Answer::Read(Ok(body))
}

/// The callbacks are told of a request each time the interceptor lets one pass,
/// once and before it is sent, with the extra headers as they were before the
/// interceptor changed them. They are told of a response when the whole body of
/// one was read, with it and with the last request; then the fetch is over.
/// They are told nothing else: of no response after a failure, after a block,
/// of a tracker, of a file, or if an interceptor answered in place of the
/// server.
pub proof fn law_callbacks<J>(
    client: ClientView<J>,
    method: Seq<char>,
    url: UrlView,
    body: Option<Seq<u8>>,
    env: Option<Seq<char>>,
    step: StepView,
    answers: Seq<Answer>,
)
    requires
        client.begins(method, url, body, env, step),
    ensures
        fetch_at(client, step).reached(answers) matches Some(state) ==> {
            let start = fetch_at(client, step);
            let told = start.told(answers);
            let before = if answers.len() > 0 {
                start.told(answers.drop_last()).notices
            } else {
                Seq::empty()
            };
            // What the last answer led to.
            &&& forall|info: InfoView| #[trigger]
                passed(start, answers, info) ==> told.notices == before.push(Notice::Request(info))
            &&& answered(start, answers) ==> {
                &&& state.phase matches Phase::Step(StepView::Finish(Ok(response)))
                &&& before.last() matches Notice::Request(info)
                &&& info.url == response.url
                &&& told.notices == before.push(Notice::Response(info, response))
            }
            &&& told.notices == before || answered(start, answers) || exists|info: InfoView|
                #[trigger] passed(start, answers, info)
            // What all of them led to.
            &&& begun(answers) <= requests_told(told.notices) <= begun(answers) + 1
            &&& state.phase matches Phase::Step(StepView::Send(_)) ==> requests_told(told.notices)
                == begun(answers) + 1
            &&& state.phase is Awaiting ==> requests_told(told.notices) == begun(answers)
            &&& state.phase matches Phase::Step(StepView::Intercept(_)) ==> requests_told(
                told.notices,
            ) == begun(answers)
            &&& responses_told(told.notices) == if answered(start, answers) {
                1nat
            } else {
                0
            }
            &&& watching(told, state)
        },
    decreases answers.len(),
{
    let start = fetch_at(client, step);
    if answers.len() > 0 {
        let earlier = answers.drop_last();
        law_callbacks(client, method, url, body, env, step, earlier);
        let before = start.told(earlier).notices;
        match (start.reached(earlier), start.reached(answers)) {
            (Some(was), Some(state)) => {
                let told = start.told(answers);
                if told.notices.len() > before.len() {
                    assert(told.notices.drop_last() == before);
                }
                match (was.phase, answers.last()) {
                    (Phase::Step(StepView::Intercept(hop)), Answer::Action(action)) => {
                        let info = was.client.request_info(hop);
                        if action is Continue || action is ModifyHeaders {
                            assert(passed(start, answers, info));
                        }
                    },
                    _ => {},
                }
            },
            _ => {},
        }
    }
}

/// The callbacks know of the request what they need to be told more in this
/// state.
pub open spec fn watching<J>(told: Told, state: FetchState<J>) -> bool {
    match state.phase {
        Phase::Step(StepView::CheckTracker { .. }) => told.watch.stage == Stage::Idle,
        Phase::Step(StepView::ReadFile { .. }) => told.watch == fresh_watch(),
        Phase::Step(StepView::Intercept(hop)) => told.watch == (WatchView {
            stage: Stage::Asked,
            request: Some(state.client.request_info(hop)),
        }),
        Phase::Step(StepView::Send(hop)) => told_of(told, Stage::Sending, hop.url),
        Phase::Awaiting(hop) => told_of(told, Stage::Sending, hop.url),
        Phase::Step(StepView::ReadBody { url, .. }) => told_of(told, Stage::Reading, url),
        Phase::Step(StepView::Finish(_)) => told.watch.stage == Stage::Over,
    }
}

/// The last thing that the callbacks were told of is the request of `url`.
pub open spec fn told_of(told: Told, stage: Stage, url: UrlView) -> bool {
    &&& told.watch.stage == stage
    &&& told.watch.request matches Some(info)
    &&& info.url == url
    &&& told.notices.len() > 0
    &&& told.notices.last() == Notice::Request(info)
}

/// One try to set up connections.
pub struct Attempt<C> {
    /// The certificates of the CA bundle, or why they cannot be had.
    pub roots: Result<Seq<Certificate>, ErrorView>,
    /// What making the connections gives.
    pub built: Result<C, Seq<char>>,
}

/// What is kept of these tries, from the first to the last.
pub open spec fn kept_after<C>(kept: Option<C>, attempts: Seq<Attempt<C>>) -> Option<C>
    decreases attempts.len(),
{
    if attempts.len() == 0 {
        kept
    } else {
        let earlier = kept_after(kept, attempts.drop_last());
        kept_of(set_up(earlier, attempts.last().roots, attempts.last().built))
    }
}

/// Connections are set up by the first try that succeeds, and are kept from
/// then on, whatever later tries would give. Until then each try fails, with an
/// error of its own, and nothing of it is remembered.
pub proof fn law_connections_are_kept<C>(attempts: Seq<Attempt<C>>, next: Attempt<C>)
    ensures
        match kept_after(None::<C>, attempts) {
            Some(connections) => {
                &&& set_up(Some(connections), next.roots, next.built) == Ok::<C, ErrorView>(
                    connections,
                )
                &&& exists|i: int|
                    {
                        &&& 0 <= i < attempts.len()
                        &&& kept_after(None::<C>, #[trigger] attempts.take(i)) is None
                        &&& attempts[i].roots is Ok
                        &&& attempts[i].built == Ok::<C, Seq<char>>(connections)
                    }
            },
            None => {
                &&& next.roots matches Err(error) ==> set_up(None::<C>, next.roots, next.built)
                    == Err::<C, ErrorView>(error)
                &&& next.roots is Ok && next.built is Ok ==> set_up(
                    None::<C>,
                    next.roots,
                    next.built,
                ) == Ok::<C, ErrorView>(next.built->Ok_0)
                &&& forall|i: int|
                    0 <= i < attempts.len() ==> (#[trigger] attempts[i]).roots is Err
                        || attempts[i].built is Err
            },
        },
    decreases attempts.len(),
{
    if attempts.len() > 0 {
        let earlier = attempts.drop_last();
        let last = attempts.last();
        law_connections_are_kept(earlier, last);
        assert(attempts.take(attempts.len() - 1) == earlier);
        assert(attempts[attempts.len() - 1] == last);
        if kept_after(None::<C>, earlier) is Some {
            let connections = kept_after(None::<C>, earlier)->Some_0;
            let i = choose|i: int|
                {
                    &&& 0 <= i < earlier.len()
                    &&& kept_after(None::<C>, #[trigger] earlier.take(i)) is None
                    &&& earlier[i].roots is Ok
                    &&& earlier[i].built == Ok::<C, Seq<char>>(connections)
                };
            assert(attempts.take(i) == earlier.take(i) && attempts[i] == earlier[i]);
        } else {
            assert forall|i: int| 0 <= i < attempts.len() && kept_after(None::<C>, attempts)
                is None implies (#[trigger] attempts[i]).roots is Err || attempts[i].built
                is Err by {
                if i < earlier.len() {
                    assert(attempts[i] == earlier[i]);
                }
            }
        }
    }
}

/// While the CA bundle that a client was told to trust cannot be loaded, every
/// set-up of its connections fails with the reason for it, and leaves nothing
/// behind: the next one, with whatever the file then holds, gives what it would
/// have given at first.
pub proof fn law_a_failed_setup_is_forgotten<J, C>(
    client: ClientView<J>,
    ca_file: Result<Seq<u8>, Seq<char>>,
    built: Result<C, Seq<char>>,
    later: Attempt<C>,
    error: ErrorView,
)
    requires
        client.ca_path is Some,
        client.extra_roots(ca_file) == Err::<Seq<Certificate>, ErrorView>(error),
    ensures
        set_up(None::<C>, client.extra_roots(ca_file), built) == Err::<C, ErrorView>(error),
        ({
            let kept = kept_of(set_up(None::<C>, client.extra_roots(ca_file), built));
            set_up(kept, later.roots, later.built) == set_up(None::<C>, later.roots, later.built)
        }),
{
}

} // verus!
