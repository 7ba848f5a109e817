//! What the mathematical values stand for, and what clients are made and set up
//! with.
use std::sync::Arc;

use reqwest::header::{HeaderMap, HeaderValue};
use reqwest::Certificate;
use vstd::prelude::*;

use crate::ca::{ca_certificates, parsed_of, pem_bundle, read_of, usable_certificates};
use crate::callbacks::{Due, Notice, Watch};
use crate::client::{fresh_client, proxy_for, ClientConfig, ClientView, ObscuraHttpClient};
use crate::connection::{built_of, kept_of, set_up};
use crate::error::{ErrorView, ObscuraNetError};
use crate::fetch::{
    bytes_of, first_of, headers_in, outcome_of, target_of, FetchStep, Hop, StepView,
};
use crate::guard::text_in;
use crate::header_map::{header_values, texts_of, values_of};
use crate::response::{ActionView, InterceptAction, RequestInfo, Response};
use crate::urls::{file_of, path_bytes, text_of, urls_of, FilePath, Host, HostView, Url};

verus! {

/// Optional values, results and lists stand for what they hold, and for nothing
/// if they hold nothing.
pub proof fn law_values_stand_for_what_they_hold<'a>(
    text: String,
    slice: &'a str,
    bytes: Vec<u8>,
    certificates: Vec<Certificate>,
    url: Url,
    urls: Seq<Url>,
    strings: Seq<String>,
    file: FilePath,
    i: int,
)
    ensures
        text_of(Some(text)) == Some(text@),
        text_of(None) is None,
        text_in(Some(slice)) == Some(slice@),
        text_in(None) is None,
        bytes_of(Some(bytes)) == Some(bytes@),
        bytes_of(None) is None,
        read_of(Ok(bytes)) == Ok::<Seq<u8>, Seq<char>>(bytes@),
        read_of(Err(text)) == Err::<Seq<u8>, Seq<char>>(text@),
        parsed_of(Ok(certificates)) == Ok::<Seq<Certificate>, Seq<char>>(certificates@),
        parsed_of(Err(text)) == Err::<Seq<Certificate>, Seq<char>>(text@),
        built_of(Ok::<Vec<u8>, String>(bytes)) == Ok::<Vec<u8>, Seq<char>>(bytes),
        built_of(Err::<Vec<u8>, String>(text)) == Err::<Vec<u8>, Seq<char>>(text@),
        target_of(Ok(url)) is Ok && target_of(Ok(url))->Ok_0 == url@,
        target_of(Err(text)) is Err && target_of(Err(text))->Err_0 == text@,
        file_of(None) is None,
        file_of(Some(file)) is Some && file_of(Some(file))->Some_0 == file@,
        file@.path == path_bytes(file.path),
        file@.extension == text_of(file.extension),
        urls_of(urls).len() == urls.len(),
        0 <= i < urls.len() ==> urls_of(urls)[i] == urls[i]@,
        texts_of(strings).len() == strings.len(),
        0 <= i < strings.len() ==> texts_of(strings)[i] == strings[i]@,
{
}

/// A URL, a request and a response stand for their fields.
pub proof fn law_messages_stand_for_their_fields(
    url: Url,
    domain: String,
    hop: Hop,
    info: RequestInfo,
    response: Response,
    error: ObscuraNetError,
)
    ensures
        url@.text == url.text@,
        url@.scheme == url.scheme@,
        url@.host_text == text_of(url.host_text),
        url.host is None <==> url@.host is None,
        url.host matches Some(host) ==> url@.host == Some(host@),
        Host::Domain(domain)@ == HostView::Domain(domain@),
        hop@.method == hop.method@,
        hop@.body == bytes_of(hop.body),
        hop@.url == hop.url@,
        hop@.redirects == urls_of(hop.redirects@),
        info@.url == info.url@,
        info@.method == info.method@,
        info@.headers == info.headers@,
        info@.resource_type == info.resource_type,
        response@.url == response.url@,
        response@.status == response.status,
        response@.headers == response.headers@,
        response@.body == response.body@,
        response@.redirected_from == urls_of(response.redirected_from@),
        error matches ObscuraNetError::Network(text) ==> error@ == ErrorView::Network(text@),
        error matches ObscuraNetError::TooManyRedirects(text) ==> error@
            == ErrorView::TooManyRedirects(text@),
        error matches ObscuraNetError::Blocked(text) ==> error@ == ErrorView::Blocked(text@),
{
}

/// An address as a host stands for itself.
pub proof fn law_hosts_stand_for_themselves(host: Host)
    ensures
        host matches Host::Ipv4(ip) ==> host@ == HostView::Ipv4(ip),
        host matches Host::Ipv6(ip) ==> host@ == HostView::Ipv6(ip),
        host matches Host::Domain(domain) ==> host@ == HostView::Domain(domain@),
{
}

/// The decision of an interceptor and a step of a fetch stand for what they hold.
pub proof fn law_steps_stand_for_what_they_hold(action: InterceptAction, step: FetchStep)
    ensures
        match action {
            InterceptAction::Continue => action@ is Continue,
            InterceptAction::Block => action@ is Block,
            InterceptAction::Fulfill(response) => action@ == ActionView::Fulfill(response@),
            InterceptAction::ModifyHeaders(headers) => action@ == ActionView::ModifyHeaders(
                headers@,
            ),
        },
        match step {
            FetchStep::Finish(Ok(response)) => step@ == StepView::Finish(Ok(response@)),
            FetchStep::Finish(Err(error)) => step@ == StepView::Finish(Err(error@)),
            FetchStep::ReadFile(fetch) => {
                &&& step@ matches StepView::ReadFile { url, file }
                &&& url == fetch.url@
                &&& file == fetch.file@
            },
            FetchStep::CheckTracker(check) => {
                &&& step@ matches StepView::CheckTracker { host, hop }
                &&& host == check.host@
                &&& hop == check.hop@
            },
            FetchStep::Intercept(hop) => step@ == StepView::Intercept(hop@),
            FetchStep::Send(hop) => step@ == StepView::Send(hop@),
            FetchStep::ReadBody(pending) => {
                &&& step@ matches StepView::ReadBody { url, status, headers, redirects }
                &&& url == pending.url@
                &&& status == pending.status
                &&& headers == pending.headers@
                &&& redirects == urls_of(pending.redirects@)
                &&& headers_in(step@) == pending.headers@
            },
        },
        step matches FetchStep::Finish(outcome) ==> step@ == StepView::Finish(outcome_of(outcome)),
{
}

/// A client stands for its settings and its state.
pub proof fn law_clients_stand_for_their_settings<J>(client: ObscuraHttpClient<J>)
    ensures
        client@.proxy_url == text_of(client.proxy_url),
        client@.ca_path == text_of(client.ca_path),
        client@.cookie_jar == client.cookie_jar,
        client@.user_agent == client.user_agent@,
        client@.extra_headers == client.extra_headers@,
        client@.timeout_secs == client.timeout_secs,
        client@.in_flight == client.in_flight,
        client@.block_trackers == client.block_trackers,
        client@.allow_private_network == client.allow_private_network,
{
}

/// A watch stands for what it keeps, and what is due for what callbacks are told.
pub proof fn law_watches_stand_for_what_they_keep<'a>(watch: Watch, due: Due<'a>)
    ensures
        watch@.stage == watch.stage,
        watch.request is None <==> watch@.request is None,
        watch.request matches Some(request) ==> watch@.request == Some(request@),
        match due {
            Due::Nothing => due@ is None,
            Due::Request(request) => due@ == Some(Notice::Request(request@)),
            Due::Response(request, response) => due@ == Some(
                Notice::Response(request@, response@),
            ),
        },
{
}

/// The values of a name are those that the header map holds of it, and the first
/// of them is the first one.
pub proof fn law_values_of_names(
    map: HeaderMap<HeaderValue>,
    name: Seq<char>,
    values: Seq<Seq<u8>>,
    first: Seq<u8>,
)
    ensures
        values_of(map, name) == if header_values(map).dom().contains(name) {
            header_values(map)[name]
        } else {
            Seq::empty()
        },
        first_of(Seq::empty()) is None,
        first_of(seq![first] + values) == Some(first),
{
    assert((seq![first] + values)[0] == first);
}

/// An error is shown with what it is about at its end.
pub proof fn law_error_messages(about: Seq<char>)
    ensures
        ErrorView::Network(about).message() == "Network error: "@ + about,
        ErrorView::TooManyRedirects(about).message() == "Too many redirects: "@ + about,
        ErrorView::Blocked(about).message() == "Request blocked: "@ + about,
{
}

/// A CA bundle gives all the certificates that the HTTP library finds in it, in
/// their order, if the file could be read and there are any. In every other case
/// it is an error that names the file and the reason.
pub proof fn law_ca_bundles(
    path: Seq<char>,
    pem: Seq<u8>,
    certificates: Seq<Certificate>,
    reason: Seq<char>,
)
    ensures
        pem_bundle(pem) == Ok::<Seq<Certificate>, Seq<char>>(certificates) && certificates.len() > 0
            ==> ca_certificates(path, Ok(pem)) == Ok::<Seq<Certificate>, ErrorView>(certificates),
        pem_bundle(pem) == Ok::<Seq<Certificate>, Seq<char>>(certificates) && certificates.len()
            == 0 ==> ca_certificates(path, Ok(pem)) == Err::<Seq<Certificate>, ErrorView>(
            ErrorView::Network("CA bundle '"@ + path + "' contained no certificates"@),
        ),
        pem_bundle(pem) == Err::<Seq<Certificate>, Seq<char>>(reason) ==> ca_certificates(
            path,
            Ok(pem),
        ) == Err::<Seq<Certificate>, ErrorView>(
            ErrorView::Network("invalid CA bundle '"@ + path + "': "@ + reason),
        ),
        ca_certificates(path, Err(reason)) == Err::<Seq<Certificate>, ErrorView>(
            ErrorView::Network("failed to read CA bundle '"@ + path + "': "@ + reason),
        ),
        certificates.len() > 0 ==> usable_certificates(path, Ok(certificates)) == Ok::<
            Seq<Certificate>,
            ErrorView,
        >(certificates),
        usable_certificates(path, Err(reason)) == Err::<Seq<Certificate>, ErrorView>(
            ErrorView::Network("invalid CA bundle '"@ + path + "': "@ + reason),
        ),
        certificates.len() == 0 ==> usable_certificates(path, Ok(certificates)) is Err,
{
}

/// A new client has the cookie jar, the proxy, the setting and the CA bundle that
/// it is made with, and otherwise the defaults: no extra headers, a time limit
/// of 30 seconds, no active requests, and trackers that are not blocked.
pub proof fn law_new_clients<J>(
    cookie_jar: Arc<J>,
    proxy_url: Option<Seq<char>>,
    allow_private_network: bool,
    ca_path: Option<Seq<char>>,
)
    ensures
        ({
            let client = fresh_client(cookie_jar, proxy_url, allow_private_network, ca_path);
            &&& client.cookie_jar == cookie_jar
            &&& client.proxy_url == proxy_url
            &&& client.allow_private_network == allow_private_network
            &&& client.ca_path == ca_path
            &&& client.user_agent
                == "Mozilla/5.0 (X11; Linux x86_64) AppleWebKit/537.36 (KHTML, like Gecko) Chrome/145.0.0.0 Safari/537.36"@
            &&& client.extra_headers.len() == 0
            &&& client.timeout_secs == 30
            &&& client.in_flight == 0
            &&& !client.block_trackers
        }),
{
}

/// The connections of a client never follow redirects by themselves and always
/// validate certificates; they go through the client's proxy if the HTTP library
/// takes it, guard against the private network as the client is set, and trust
/// the certificates of the client's CA bundle, all of them and no others,
/// besides the usual ones.
pub proof fn law_configurations<J>(
    client: ClientView<J>,
    ca_file: Result<Seq<u8>, Seq<char>>,
    roots: Seq<Certificate>,
    config: ClientConfig,
)
    requires
        client.extra_roots(ca_file) == Ok::<Seq<Certificate>, ErrorView>(roots),
        client.configured(roots, config),
    ensures
        !config.follow_redirects,
        !config.accept_invalid_certs,
        config.timeout_secs == 30,
        config.guard.allows_private() == client.allow_private_network,
        client.proxy_url matches Some(url) ==> config.proxy == proxy_for(url),
        client.proxy_url is None ==> config.proxy is None,
        client.ca_path is None ==> config.roots@.len() == 0,
        client.ca_path is Some ==> {
            &&& ca_file matches Ok(pem)
            &&& pem_bundle(pem) == Ok::<Seq<Certificate>, Seq<char>>(config.roots@)
            &&& config.roots@.len() > 0
        },
{
}

/// A CA bundle that cannot be loaded is the client's error, and nothing but that
/// keeps its certificates from being had.
pub proof fn law_roots<J>(client: ClientView<J>, ca_file: Result<Seq<u8>, Seq<char>>)
    ensures
        client.ca_path matches Some(path) ==> client.extra_roots(ca_file) == ca_certificates(
            path,
            ca_file,
        ),
        client.ca_path is None ==> client.extra_roots(ca_file) is Ok,
{
}

/// What was set up is used again. If nothing was, a CA bundle that cannot be
/// loaded is the error; else what is built is used and kept, or the error names
/// why it could not be built, and nothing is kept.
pub proof fn law_set_ups<C>(
    earlier: C,
    roots: Result<Seq<Certificate>, ErrorView>,
    built: Result<C, Seq<char>>,
)
    ensures
        set_up(Some(earlier), roots, built) == Ok::<C, ErrorView>(earlier),
        roots matches Err(error) ==> set_up(None, roots, built) == Err::<C, ErrorView>(error),
        roots is Ok ==> match built {
            Ok(client) => set_up(None, roots, built) == Ok::<C, ErrorView>(client),
            Err(reason) => set_up(None, roots, built) == Err::<C, ErrorView>(
                ErrorView::Network("failed to build HTTP client: "@ + reason),
            ),
        },
        kept_of(Ok::<C, ErrorView>(earlier)) == Some(earlier),
        forall|error: ErrorView| #[trigger] kept_of(Err::<C, ErrorView>(error)) is None,
{
}

} // verus!
