//! What a fetch does with each answer and gives in the end, said of the answers
//! and the outcome directly.
use reqwest::header::{HeaderMap, HeaderValue};
use vstd::prelude::*;

use crate::client::ClientView;
use crate::error::ErrorView;
use crate::fetch::{file_begins, file_step, HopView, StepView, MAX_REQUESTS};
use crate::guard::{env_allows, url_refusal};
use crate::header_map::{ascii_text, kept_value, response_pairs, text_of_value, values_of};
use crate::headers::{distinct, lookup, Pairs};
use crate::laws::messages::{law_headers_of_files, law_lookup, law_merged_values, type_of_files};
use crate::laws::{fetch_at, law_html_files};
use crate::response::{ActionView, ResourceType, ResponseView};
use crate::run::{hop_in, Answer, FetchState, Phase};
use crate::text::lowercase;
use crate::urls::{extension_on, file_on, file_path_on, url_joined, FilePathView, UrlView};

verus! {

/// A fetch of a URL that may be fetched and is no `file` URL begins with a
/// request of it, with the method and the body that were asked for and with no
/// redirects before it: the list of trackers is looked at first if trackers are
/// blocked and the URL has a host, which is the one that is looked up, else the
/// interceptor is asked.
pub proof fn law_first_requests<J>(
    client: ClientView<J>,
    method: Seq<char>,
    url: UrlView,
    body: Option<Seq<u8>>,
    env: Option<Seq<char>>,
    step: StepView,
)
    requires
        client.begins(method, url, body, env, step),
        url_refusal(url, client.allow_private_network || env_allows(env)) is None,
        url.scheme != "file"@,
    ensures
        ({
            let hop = HopView { method, body, url, redirects: Seq::empty() };
            match url.host_text {
                Some(name) => if client.block_trackers {
                    step matches StepView::CheckTracker { host, hop: checked } && host == name
                        && checked == hop
                } else {
                    step == StepView::Intercept(hop)
                },
                None => step == StepView::Intercept(hop),
            }
        }),
{
}

/// A URL that may not be fetched is answered with the reason as a network error.
pub proof fn law_refused_fetches<J>(
    client: ClientView<J>,
    method: Seq<char>,
    url: UrlView,
    body: Option<Seq<u8>>,
    env: Option<Seq<char>>,
    step: StepView,
    reason: Seq<char>,
)
    requires
        client.begins(method, url, body, env, step),
        url_refusal(url, client.allow_private_network || env_allows(env)) == Some(reason),
    ensures
        step == StepView::Finish(Err(ErrorView::Network(reason))),
{
}

/// A request to a tracker is answered with an empty response of status 0 in place
/// of being made; any other goes on to the interceptor as it is.
pub proof fn law_trackers<J>(state: FetchState<J>, name: Seq<char>, hop: HopView)
    requires
        state.phase == Phase::Step(StepView::CheckTracker { host: name, hop }),
    ensures
        state.after(Answer::Tracker(false)) == Some(
            FetchState { client: state.client, phase: Phase::Step(StepView::Intercept(hop)) },
        ),
        ({
            &&& state.after(Answer::Tracker(true)) matches Some(end)
            &&& end.client == state.client
            &&& end.phase matches Phase::Step(StepView::Finish(Ok(response)))
            &&& response.url == hop.url
            &&& response.status == 0
            &&& response.headers.len() == 0
            &&& response.body.len() == 0
            &&& response.redirected_from.len() == 0
        }),
{
}

/// A request that the interceptor lets pass is sent as it was asked about; one
/// that it blocks fails and names its URL; one that it answers is answered so.
/// It changes nothing of the client but the extra headers, and those only with
/// the headers that it gives: they get their values, and the others keep theirs.
pub proof fn law_interceptors<J>(
    state: FetchState<J>,
    hop: HopView,
    response: ResponseView,
    headers: Pairs,
    i: int,
    name: Seq<char>,
)
    requires
        state.phase == Phase::Step(StepView::Intercept(hop)),
        distinct(state.client.extra_headers),
        distinct(headers),
    ensures
        state.after(Answer::Action(ActionView::Continue)) == Some(
            FetchState { client: state.client, phase: Phase::Step(StepView::Send(hop)) },
        ),
        state.after(Answer::Action(ActionView::Block)) == Some(
            FetchState {
                client: state.client,
                phase: Phase::Step(StepView::Finish(Err(ErrorView::Blocked(hop.url.text)))),
            },
        ),
        state.after(Answer::Action(ActionView::Fulfill(response))) == Some(
            FetchState {
                client: state.client,
                phase: Phase::Step(StepView::Finish(Ok(response))),
            },
        ),
        ({
            &&& state.after(Answer::Action(ActionView::ModifyHeaders(headers))) matches Some(next)
            &&& next.phase == Phase::Step(StepView::Send(hop))
            &&& next.client == (ClientView {
                extra_headers: next.client.extra_headers,
                ..state.client
            })
            &&& 0 <= i < headers.len() ==> lookup(next.client.extra_headers, headers[i].0)
                == Some(headers[i].1)
            &&& (forall|k: int| 0 <= k < headers.len() ==> (#[trigger] headers[k]).0 != name)
                ==> lookup(next.client.extra_headers, name) == lookup(
                state.client.extra_headers,
                name,
            )
        }),
{
    law_merged_values(state.client.extra_headers, headers, i, name);
}

/// The interceptor and the callbacks see the URL and the method of the request
/// and the extra headers that the client has then.
pub proof fn law_request_infos<J>(client: ClientView<J>, hop: HopView)
    ensures
        client.request_info(hop).url == hop.url,
        client.request_info(hop).method == hop.method,
        client.request_info(hop).headers == client.extra_headers,
        client.request_info(hop).resource_type == ResourceType::Document,
{
}

/// A request that could not be sent ends the fetch with an error that names its
/// URL and the reason.
pub proof fn law_failed_requests<J>(state: FetchState<J>, hop: HopView, reason: Seq<char>)
    requires
        state.phase == Phase::Awaiting(hop),
    ensures
        state.after(Answer::Failed(reason)) matches Some(end) && end.phase == Phase::Step(
            StepView::Finish(Err(ErrorView::Network(hop.url.text + ": "@ + reason))),
        ),
{
}

/// The head of a response that does not redirect, that is, one of another status
/// than 300 to 399 or without a `Location`, and then its body, are given back as
/// they came: the status, the headers, the body, the URL that was requested and
/// the URLs that were left before. If the body cannot be read, the error says
/// why.
pub proof fn law_responses_are_given_back<J>(
    state: FetchState<J>,
    hop: HopView,
    status: u16,
    location: Option<Seq<u8>>,
    headers: Pairs,
    env: Option<Seq<char>>,
    body: Seq<u8>,
    reason: Seq<char>,
)
    requires
        state.phase == Phase::Awaiting(hop),
        status < 300 || 400 <= status || location is None,
    ensures
        ({
            let head = Answer::Head { status, location, headers, env };
            &&& state.reached(seq![head, Answer::Read(Ok(body))]) matches Some(end)
            &&& end.phase matches Phase::Step(StepView::Finish(Ok(response)))
            &&& response.status == status
            &&& response.headers == headers
            &&& response.body == body
            &&& response.url == hop.url
            &&& response.redirected_from == hop.redirects
        }),
        ({
            let head = Answer::Head { status, location, headers, env };
            &&& state.reached(seq![head, Answer::Read(Err(reason))]) matches Some(end)
            &&& end.phase == Phase::Step(
                StepView::Finish(Err(ErrorView::Network("Failed to read body: "@ + reason))),
            )
        }),
{
    let head = Answer::Head { status, location, headers, env };
    let (good, bad) = (
        seq![head, Answer::Read(Ok(body))],
        seq![head, Answer::Read(Err(reason))],
    );
    reveal_with_fuel(FetchState::reached, 3);
    assert(good.drop_last() == seq![head] && bad.drop_last() == seq![head]);
    assert(seq![head].drop_last() == Seq::<Answer>::empty());
    assert(good.last() == Answer::Read(Ok(body)) && bad.last() == Answer::Read(Err(reason)));
    assert(seq![head].last() == head);
}

/// In a whole fetch over the network, the response that a fetch ends with is the
/// last one that a server gave: when the last answer was the body `b`, the one
/// before it was the head of a response, and the outcome has the status of that
/// head, what was kept of its headers, and the body `b`.
pub proof fn law_outcomes_are_the_servers<J>(
    client: ClientView<J>,
    method: Seq<char>,
    url: UrlView,
    body: Option<Seq<u8>>,
    env: Option<Seq<char>>,
    step: StepView,
    answers: Seq<Answer>,
    received: HeaderMap<HeaderValue>,
    name: Seq<char>,
)
    requires
        client.begins(method, url, body, env, step),
        url.scheme != "file"@,
    ensures
        fetch_at(client, step).reached(answers) matches Some(state) ==> {
            &&& answers.len() > 0 && answers.last() is Read ==> {
                &&& answers.len() >= 2
                &&& answers[answers.len() - 2] matches Answer::Head { status, headers, .. }
                &&& answers.last()->Read_0 matches Ok(b) ==> {
                    &&& state.phase matches Phase::Step(StepView::Finish(Ok(response)))
                    &&& response.status == status
                    &&& response.body == b
                    &&& response.headers == headers
                    &&& response_pairs(received, headers) ==> response.header(name) == kept_value(
                        values_of(received, lowercase(name)),
                    )
                }
                &&& answers.last()->Read_0 is Err ==> state.phase matches Phase::Step(
                    StepView::Finish(Err(_)),
                )
            }
            &&& state.phase matches Phase::Step(
                StepView::ReadBody { status: s, headers: h, .. },
            ) ==> answers.len() > 0 && (answers.last() matches Answer::Head {
                status,
                headers,
                ..
            } && status == s && headers == h)
            &&& !(state.phase matches Phase::Step(StepView::ReadFile { .. }))
        },
    decreases answers.len(),
{
    if answers.len() > 0 {
        let earlier = answers.drop_last();
        law_outcomes_are_the_servers(
            client,
            method,
            url,
            body,
            env,
            step,
            earlier,
            received,
            name,
        );
        if earlier.len() > 0 {
            assert(earlier.last() == answers[answers.len() - 2]);
        }
    }
}

/// The text of a `Location` that is text.
pub open spec fn reads_as(location: Seq<u8>, text: Seq<char>) -> bool {
    &&& text.len() == location.len()
    &&& forall|i: int|
        0 <= i < location.len() ==> #[trigger] text[i] as int == location[i] as int && (32
            <= location[i] <= 126 || location[i] == 9)
}

/// A redirect is followed whenever it can be: if the status is one of 300 to 399,
/// the `Location` is text, it refers to a URL that may be fetched then, and less
/// than 19 URLs were left before, the next request is one of that URL. It is a
/// `GET` without a body after a 301, 302 or 303, and has the method and the body
/// of the last one otherwise.
pub proof fn law_redirects_are_followed<J>(
    state: FetchState<J>,
    hop: HopView,
    status: u16,
    location: Seq<u8>,
    reference: Seq<char>,
    target: UrlView,
    headers: Pairs,
    env: Option<Seq<char>>,
)
    requires
        state.phase == Phase::Awaiting(hop),
        300 <= status < 400,
        reads_as(location, reference),
        url_joined(hop.url.text, reference) == Ok::<UrlView, Seq<char>>(target),
        url_refusal(target, state.client.allow_private_network || env_allows(env)) is None,
        hop.redirects.len() < 19,
    ensures
        ({
            let head = Answer::Head { status, location: Some(location), headers, env };
            &&& state.after(head) matches Some(after)
            &&& after.phase matches Phase::Step(StepView::Intercept(next))
            &&& next.url == target
            &&& next.redirects == hop.redirects.push(hop.url)
            &&& status == 301 || status == 302 || status == 303 ==> next.method == "GET"@
                && next.body is None
            &&& status != 301 && status != 302 && status != 303 ==> next.method == hop.method
                && next.body == hop.body
        }),
{
    lemma_reads_as(location, reference);
}

/// A redirect that cannot be followed ends the fetch, and the error says why: the
/// `Location` is no text, or refers to no URL, or to one that may not be fetched
/// then, or 19 URLs were left before.
pub proof fn law_redirects_that_fail<J>(
    state: FetchState<J>,
    hop: HopView,
    status: u16,
    location: Seq<u8>,
    reference: Seq<char>,
    target: UrlView,
    reason: Seq<char>,
    headers: Pairs,
    env: Option<Seq<char>>,
)
    requires
        state.phase == Phase::Awaiting(hop),
        300 <= status < 400,
    ensures
        ({
            let head = Answer::Head { status, location: Some(location), headers, env };
            let open = state.client.allow_private_network || env_allows(env);
            &&& state.after(head) matches Some(after)
            &&& (exists|i: int|
                0 <= i < location.len() && (#[trigger] location[i] < 32 && location[i] != 9
                    || location[i] > 126)) ==> after.phase == Phase::Step(
                StepView::Finish(Err(ErrorView::Network("Invalid redirect Location header"@))),
            )
            &&& reads_as(location, reference) && url_joined(hop.url.text, reference) == Err::<
                UrlView,
                Seq<char>,
            >(reason) ==> after.phase == Phase::Step(
                StepView::Finish(Err(ErrorView::Network("Invalid redirect URL: "@ + reason))),
            )
            &&& reads_as(location, reference) && url_joined(hop.url.text, reference) == Ok::<
                UrlView,
                Seq<char>,
            >(target) && url_refusal(target, open) == Some(reason) ==> after.phase == Phase::Step(
                StepView::Finish(Err(ErrorView::Network(reason))),
            )
            &&& reads_as(location, reference) && url_joined(hop.url.text, reference) == Ok::<
                UrlView,
                Seq<char>,
            >(target) && url_refusal(target, open) is None && hop.redirects.len() >= 19
                ==> after.phase == Phase::Step(
                StepView::Finish(Err(ErrorView::TooManyRedirects(target.text))),
            )
        }),
{
    if reads_as(location, reference) {
        lemma_reads_as(location, reference);
    }
}

proof fn lemma_reads_as(location: Seq<u8>, reference: Seq<char>)
    requires
        reads_as(location, reference),
    ensures
        text_of_value(location) == Some(reference),
{
    assert forall|i: int| 0 <= i < location.len() implies 32 <= #[trigger] location[i] <= 126
        || location[i] == 9 by {
        assert(reference[i] as int == location[i] as int);
    }
    assert(ascii_text(location) =~= reference);
}

/// One of the answers is a redirect that turns the fetch into a `GET`.
pub open spec fn turned(answers: Seq<Answer>) -> bool {
    exists|i: int|
        0 <= i < answers.len() && ((#[trigger] answers[i]) matches Answer::Head {
            status,
            location: Some(_),
            ..
        } && (status == 301 || status == 302 || status == 303))
}

/// In a whole fetch every request that is checked, intercepted, sent or awaited
/// has the method and the body that the fetch began with, until a 301, 302 or
/// 303 came; from then on it is a `GET` without a body.
pub proof fn law_requests_keep_their_method_and_body<J>(
    client: ClientView<J>,
    method: Seq<char>,
    url: UrlView,
    body: Option<Seq<u8>>,
    env: Option<Seq<char>>,
    step: StepView,
    answers: Seq<Answer>,
)
    requires
        client.begins(method, url, body, env, step),
    ensures
        fetch_at(client, step).reached(answers) matches Some(state) ==> {
            hop_in(state.phase) matches Some(hop) ==> {
                &&& hop.method == if turned(answers) {
                    "GET"@
                } else {
                    method
                }
                &&& hop.body == if turned(answers) {
                    None
                } else {
                    body
                }
            }
        },
    decreases answers.len(),
{
    if answers.len() > 0 {
        let earlier = answers.drop_last();
        law_requests_keep_their_method_and_body(client, method, url, body, env, step, earlier);
        let last = answers.len() - 1;
        assert(answers.last() == answers[last]);
        if turned(earlier) {
            let i = choose|i: int|
                0 <= i < earlier.len() && ((#[trigger] earlier[i]) matches Answer::Head {
                    status,
                    location: Some(_),
                    ..
                } && (status == 301 || status == 302 || status == 303));
            assert(answers[i] == earlier[i]);
            assert(turned(answers));
        } else if turned(answers) {
            let i = choose|i: int|
                0 <= i < answers.len() && ((#[trigger] answers[i]) matches Answer::Head {
                    status,
                    location: Some(_),
                    ..
                } && (status == 301 || status == 302 || status == 303));
            if i < last {
                assert(earlier[i] == answers[i]);
            }
        }
    }
}

/// A whole fetch changes nothing of the client but its extra headers and, while a
/// request is being sent, the count of requests. Without an interceptor that
/// gives headers, the extra headers stay too.
pub proof fn law_fetches_leave_the_settings<J>(
    client: ClientView<J>,
    step: StepView,
    answers: Seq<Answer>,
)
    ensures
        fetch_at(client, step).reached(answers) matches Some(state) ==> {
            &&& state.client.proxy_url == client.proxy_url
            &&& state.client.ca_path == client.ca_path
            &&& state.client.cookie_jar == client.cookie_jar
            &&& state.client.user_agent == client.user_agent
            &&& state.client.timeout_secs == client.timeout_secs
            &&& state.client.block_trackers == client.block_trackers
            &&& state.client.allow_private_network == client.allow_private_network
            &&& (forall|i: int|
                0 <= i < answers.len() ==> !((#[trigger] answers[i]) matches Answer::Action(
                    ActionView::ModifyHeaders(_),
                ))) ==> state.client.extra_headers == client.extra_headers
        },
    decreases answers.len(),
{
    if answers.len() > 0 {
        let earlier = answers.drop_last();
        law_fetches_leave_the_settings(client, step, earlier);
        assert(answers.last() == answers[answers.len() - 1]);
        assert forall|i: int| 0 <= i < earlier.len() implies #[trigger] earlier[i]
            == answers[i] by {}
    }
}

/// A request counts as active from when it begins to be sent until it is answered
/// or fails.
pub proof fn law_counting<J>(client: ClientView<J>)
    ensures
        client.after_begin() == (ClientView {
            in_flight: client.after_begin().in_flight,
            ..client
        }),
        client.in_flight < u32::MAX ==> client.after_begin().in_flight == client.in_flight + 1,
        client.in_flight == u32::MAX ==> client.after_begin().in_flight == 0,
        client.after_end() == (ClientView { in_flight: client.after_end().in_flight, ..client }),
        client.in_flight > 0 ==> client.after_end().in_flight == client.in_flight - 1,
        client.in_flight == 0 ==> client.after_end().in_flight == u32::MAX,
{
}

/// A `file` URL names the path that the `url` crate makes of it, with that path's
/// own extension, or else the fetch fails.
pub proof fn law_files_are_those_named(url: UrlView, step: StepView)
    requires
        file_begins(url, step),
    ensures
        match step {
            StepView::ReadFile { url: from, file } => {
                &&& from == url
                &&& exists|target: int| #[trigger]
                    file_path_on(target, url.text) == Some(file.path)
                &&& exists|target: int| #[trigger]
                    extension_on(target, file.path) == file.extension
            },
            StepView::Finish(outcome) => {
                &&& outcome == Err::<ResponseView, ErrorView>(
                    ErrorView::Network("Invalid file URL"@),
                )
                &&& exists|target: int| #[trigger] file_path_on(target, url.text) is None
            },
            _ => false,
        },
{
    let (target, reader) = choose|target: int, reader: int|
        step == file_step(
            url,
            #[trigger] file_on(target, reader, url.text),
        );
    match step {
        StepView::ReadFile { url: from, file } => {
            assert(file_path_on(target, url.text) == Some(file.path));
            assert(extension_on(reader, file.path) == file.extension);
        },
        _ => {},
    }
}

/// A whole fetch of a `file` URL, with any method, body and client, whose file is
/// read as `body`, ends in a response of status 200 with that body, from that
/// URL. Its content type is that of the extension of its own path, in any case,
/// and it has none if the path has no extension; it is HTML exactly if the
/// extension is `html` or `htm`. If the file cannot be read, the error says why.
pub proof fn law_files_are_served<J>(
    client: ClientView<J>,
    method: Seq<char>,
    url: UrlView,
    sent: Option<Seq<u8>>,
    env: Option<Seq<char>>,
    file: FilePathView,
    body: Seq<u8>,
    reason: Seq<char>,
)
    requires
        url.scheme == "file"@,
        client.begins(method, url, sent, env, StepView::ReadFile { url, file }),
    ensures
        ({
            let start = fetch_at(client, StepView::ReadFile { url, file });
            &&& start.reached(seq![Answer::Read(Ok(body))]) matches Some(end)
            &&& end.phase matches Phase::Step(StepView::Finish(Ok(response)))
            &&& response.status == 200
            &&& response.url == url
            &&& response.body == body
            &&& response.redirected_from.len() == 0
            &&& match file.extension {
                Some(extension) => {
                    &&& response.headers.len() == 1
                    &&& response.content_type() matches Some(kind)
                    &&& type_of_files(lowercase(extension), kind)
                    &&& response.is_html() <==> lowercase(extension) == "html"@ || lowercase(
                        extension,
                    ) == "htm"@
                },
                None => {
                    &&& response.headers.len() == 0
                    &&& response.content_type() is None
                    &&& !response.is_html()
                },
            }
        }),
        ({
            let start = fetch_at(client, StepView::ReadFile { url, file });
            &&& start.reached(seq![Answer::Read(Err(reason))]) matches Some(end)
            &&& end.phase == Phase::Step(
                StepView::Finish(Err(ErrorView::Network("Failed to read file: "@ + reason))),
            )
        }),
{
    let start = fetch_at(client, StepView::ReadFile { url, file });
    let (good, bad) = (seq![Answer::Read(Ok(body))], seq![Answer::Read(Err(reason))]);
    reveal_with_fuel(FetchState::reached, 2);
    assert(good.drop_last() == Seq::<Answer>::empty() && bad.drop_last() == Seq::<Answer>::empty());
    assert(good.last() == Answer::Read(Ok(body)) && bad.last() == Answer::Read(Err(reason)));
    law_headers_of_files(file.extension);
    let end = start.reached(good)->Some_0;
    let response = end.phase->Step_0->Finish_0->Ok_0;
    law_html_files(response, file.extension);
    law_lookup(response.headers, "content-type"@, 0);
}

/// One fetch makes up to 20 requests.
pub proof fn law_twenty_requests()
    ensures
        MAX_REQUESTS == 20,
{
}

} // verus!
