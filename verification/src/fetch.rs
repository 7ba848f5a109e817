//! One fetch, step by step. What is decided stands here; the network, the
//! file system, the interceptor and the cookie jar are asked by whoever takes
//! the steps, and their answers are handed back.
use reqwest::header::{HeaderMap, HeaderValue};
use vstd::prelude::*;
use vstd::string::*;
use vstd::utf8::encode_utf8;

use crate::ca::read_of;
use crate::client::{ClientView, ObscuraHttpClient};
use crate::error::{ErrorView, ObscuraNetError};
use crate::guard::{private_allowed, text_in, url_refusal, validate_url};
use crate::header_map::{
    append, first_value, header_values, response_headers, response_pairs, set_cookie_values,
    text_of_value, texts, texts_of, value_to_text, values_of, HeaderValues,
};
use crate::headers::{merged, HeaderTable, Pairs};
use crate::outgoing::{all_headers, request_headers, usable_count, FORM, MAX_EXTRA};
use crate::response::{
    file_headers, file_response, media_type, ActionView, InfoView, InterceptAction, RequestInfo,
    ResourceType, Response, ResponseView,
};
use crate::text::{ascii_lower, concat, concat3, lowercase, same_text};
use crate::urls::{
    file_of, file_on, url_file_path, url_joined, urls_of, FilePath, FilePathView, Url, UrlView,
};

verus! {

/// How many requests one fetch makes at most: the first and those that
/// follow a redirect.
pub const MAX_REQUESTS: usize = 20;

/// A request to make, and what was requested before it.
#[derive(Debug)]
pub struct Hop {
    pub method: String,
    pub body: Option<Vec<u8>>,
    pub url: Url,
    /// The URLs requested so far, each of which led on to another.
    pub redirects: Vec<Url>,
}

/// A hop as mathematical values.
pub struct HopView {
    pub method: Seq<char>,
    pub body: Option<Seq<u8>>,
    pub url: UrlView,
    pub redirects: Seq<UrlView>,
}

/// The bytes in an optional body.
pub open spec fn bytes_of(body: Option<Vec<u8>>) -> Option<Seq<u8>> {
    match body {
        Some(body) => Some(body@),
        None => None,
    }
}

impl View for Hop {
    type V = HopView;

    open spec fn view(&self) -> HopView {
        HopView {
            method: self.method@,
            body: bytes_of(self.body),
            url: self.url@,
            redirects: urls_of(self.redirects@),
        }
    }
}

/// A file to read for a `file` URL.
#[derive(Debug)]
pub struct FileFetch {
    pub url: Url,
    pub file: FilePath,
}

/// A host to look up in the list of trackers before the first request.
#[derive(Debug)]
pub struct TrackerCheck {
    pub host: String,
    pub hop: Hop,
}

/// A request that is being sent and was counted.
#[derive(Debug)]
pub struct SentRequest {
    pub hop: Hop,
}

/// A response whose body is still to be read.
#[derive(Debug)]
pub struct PendingBody {
    pub url: Url,
    pub status: u16,
    pub headers: HeaderTable,
    pub redirects: Vec<Url>,
}

/// What a fetch asks for next.
#[derive(Debug)]
pub enum FetchStep {
    /// The fetch is over.
    Finish(Result<Response, ObscuraNetError>),
    /// Read the file, and go on with `FileFetch::finish`.
    ReadFile(FileFetch),
    /// Look up the host in the list of trackers, and go on with
    /// `TrackerCheck::decide`.
    CheckTracker(TrackerCheck),
    /// Ask the interceptor, and go on with `ObscuraHttpClient::intercepted`.
    Intercept(Hop),
    /// Send the request, between `ObscuraHttpClient::begin_request` and
    /// `ObscuraHttpClient::received` or `ObscuraHttpClient::send_failed`.
    Send(Hop),
    /// Read the body of the response, and go on with `PendingBody::finish`.
    ReadBody(PendingBody),
}

/// A step as mathematical values.
pub enum StepView {
    Finish(Result<ResponseView, ErrorView>),
    ReadFile { url: UrlView, file: FilePathView },
    CheckTracker { host: Seq<char>, hop: HopView },
    Intercept(HopView),
    Send(HopView),
    ReadBody { url: UrlView, status: u16, headers: Pairs, redirects: Seq<UrlView> },
}

/// The response or the error in a result.
pub open spec fn outcome_of(r: Result<Response, ObscuraNetError>) -> Result<
    ResponseView,
    ErrorView,
> {
    match r {
        Ok(response) => Ok(response@),
        Err(error) => Err(error@),
    }
}

impl View for FetchStep {
    type V = StepView;

    open spec fn view(&self) -> StepView {
        match self {
            FetchStep::Finish(outcome) => StepView::Finish(outcome_of(*outcome)),
            FetchStep::ReadFile(fetch) => StepView::ReadFile {
                url: fetch.url@,
                file: fetch.file@,
            },
            FetchStep::CheckTracker(check) => StepView::CheckTracker {
                host: check.host@,
                hop: check.hop@,
            },
            FetchStep::Intercept(hop) => StepView::Intercept(hop@),
            FetchStep::Send(hop) => StepView::Send(hop@),
            FetchStep::ReadBody(pending) => StepView::ReadBody {
                url: pending.url@,
                status: pending.status,
                headers: pending.headers@,
                redirects: urls_of(pending.redirects@),
            },
        }
    }
}

/// The end of a fetch with a network error.
pub open spec fn network_failure(reason: Seq<char>) -> StepView {
    StepView::Finish(Err(ErrorView::Network(reason)))
}

/// The first hop of a fetch.
pub open spec fn first_hop(method: Seq<char>, url: UrlView, body: Option<Seq<u8>>) -> HopView {
    HopView { method, body, url, redirects: Seq::empty() }
}

/// The first step of a fetch of a URL that may be fetched and is no `file`
/// URL.
pub open spec fn first_step(block_trackers: bool, hop: HopView) -> StepView {
    match hop.url.host_text {
        Some(host) => if block_trackers {
            StepView::CheckTracker { host, hop }
        } else {
            StepView::Intercept(hop)
        },
        None => StepView::Intercept(hop),
    }
}

/// The first step of a fetch of a `file` URL that names this path, or none.
pub open spec fn file_step(url: UrlView, file: Option<FilePathView>) -> StepView {
    match file {
        Some(file) => StepView::ReadFile { url, file },
        None => network_failure("Invalid file URL"@),
    }
}

/// `step` is how a fetch of a `file` URL begins on some kind of machine. Which
/// path a URL names, and which extension the path has, depends on the
/// operating system.
pub open spec fn file_begins(url: UrlView, step: StepView) -> bool {
    exists|target: int, reader: int|
        step == file_step(url, #[trigger] file_on(target, reader, url.text))
}

/// The first step of a fetch of a `file` URL, from the path that the URL
/// names, if it names one.
pub fn open_file(url: &Url, path: Option<FilePath>) -> (r: FetchStep)
    ensures
        r@ == file_step(url@, file_of(path)),
        path matches Some(path) ==> r matches FetchStep::ReadFile(f) && f.file == path,
{
    match path {
        Some(path) => FetchStep::ReadFile(FileFetch { url: url.clone(), file: path }),
        None => FetchStep::Finish(
            Err(ObscuraNetError::Network("Invalid file URL".to_string())),
        ),
    }
}

/// The first step of a fetch of a `file` URL: to read the file, or to fail if
/// the URL names no path on this machine.
pub fn fetch_file_url(url: &Url) -> (r: FetchStep)
    ensures
        file_begins(url@, r@),
{
    open_file(url, url_file_path(url.as_str()))
}

/// The end of the fetch of a file, from what reading it gave.
pub open spec fn file_outcome(
    url: UrlView,
    file: FilePathView,
    read: Result<Seq<u8>, Seq<char>>,
) -> Result<ResponseView, ErrorView> {
    match read {
        Ok(body) => Ok(
            ResponseView {
                url,
                status: 200,
                headers: file_headers(file.extension),
                body,
                redirected_from: Seq::empty(),
            },
        ),
        Err(reason) => Err(ErrorView::Network("Failed to read file: "@ + reason)),
    }
}

impl FileFetch {
    /// The end of the fetch, from what reading the file gave.
    pub fn finish(self, read: Result<Vec<u8>, String>) -> (r: Result<Response, ObscuraNetError>)
        ensures
            outcome_of(r) == file_outcome(self.url@, self.file@, read_of(read)),
            read matches Ok(body) ==> {
                &&& r matches Ok(response)
                &&& response.url == self.url
                &&& response.status == 200
                &&& response.body == body
                &&& response.redirected_from@.len() == 0
                &&& match self.file.extension {
                    Some(extension) => response.headers@ == seq![
                        ("content-type"@, media_type(lowercase(extension@))),
                    ],
                    None => response.headers@.len() == 0,
                }
            },
            read matches Err(reason) ==> (r matches Err(ObscuraNetError::Network(text)) && text@
                == "Failed to read file: "@ + reason@),
    {
        match read {
            Ok(body) => match &self.file.extension {
                Some(extension) => Ok(file_response(self.url, Some(extension.as_str()), body)),
                None => Ok(file_response(self.url, None, body)),
            },
            Err(reason) => Err(
                ObscuraNetError::Network(concat("Failed to read file: ", reason.as_str())),
            ),
        }
    }
}

/// The answer to a request to a tracker.
pub open spec fn blocked_response(url: UrlView) -> ResponseView {
    ResponseView {
        url,
        status: 0,
        headers: Seq::empty(),
        body: Seq::empty(),
        redirected_from: Seq::empty(),
    }
}

/// What follows the look at the list of trackers.
pub open spec fn decided_step(hop: HopView, is_tracker: bool) -> StepView {
    if is_tracker {
        StepView::Finish(Ok(blocked_response(hop.url)))
    } else {
        StepView::Intercept(hop)
    }
}

impl TrackerCheck {
    /// Goes on with the request, or answers it with an empty response if its
    /// host is a tracker.
    pub fn decide(self, is_tracker: bool) -> (r: FetchStep)
        ensures
            r@ == decided_step(self.hop@, is_tracker),
            !is_tracker ==> r == FetchStep::Intercept(self.hop),
            is_tracker ==> {
                &&& r matches FetchStep::Finish(Ok(response))
                &&& response.url == self.hop.url
                &&& response.status == 0
                &&& response.headers@.len() == 0
                &&& response.body@.len() == 0
                &&& response.redirected_from@.len() == 0
            },
    {
        if is_tracker {
            let response = Response {
                url: self.hop.url,
                status: 0,
                headers: HeaderTable::new(),
                body: Vec::new(),
                redirected_from: Vec::new(),
            };
            assert(response@.redirected_from == Seq::<UrlView>::empty());
            FetchStep::Finish(Ok(response))
        } else {
            FetchStep::Intercept(self.hop)
        }
    }
}

/// A status that asks to look elsewhere.
pub open spec fn redirection(status: u16) -> bool {
    300 <= status < 400
}

/// A status after which a redirect is followed with a `GET` request.
pub open spec fn redirects_to_get(status: u16) -> bool {
    status == 301 || status == 302 || status == 303
}

/// The hop after a redirect to `url`.
pub open spec fn next_hop(hop: HopView, status: u16, url: UrlView) -> HopView {
    HopView {
        method: if redirects_to_get(status) {
            "GET"@
        } else {
            hop.method
        },
        body: if redirects_to_get(status) {
            None
        } else {
            hop.body
        },
        url,
        redirects: hop.redirects.push(hop.url),
    }
}

/// What follows a redirect whose target resolved to `target`.
pub open spec fn redirect_step(
    hop: HopView,
    status: u16,
    target: Result<UrlView, Seq<char>>,
    private_allowed: bool,
) -> StepView {
    match target {
        Err(reason) => network_failure("Invalid redirect URL: "@ + reason),
        Ok(url) => match url_refusal(url, private_allowed) {
            Some(reason) => network_failure(reason),
            None => if hop.redirects.len() + 1 < MAX_REQUESTS {
                StepView::Intercept(next_hop(hop, status, url))
            } else {
                StepView::Finish(Err(ErrorView::TooManyRedirects(url.text)))
            },
        },
    }
}

/// What follows a response that redirects to `location`.
pub open spec fn location_step(
    hop: HopView,
    status: u16,
    location: Seq<u8>,
    private_allowed: bool,
) -> StepView {
    match text_of_value(location) {
        None => network_failure("Invalid redirect Location header"@),
        Some(reference) => redirect_step(
            hop,
            status,
            url_joined(hop.url.text, reference),
            private_allowed,
        ),
    }
}

/// What follows the head of a response: its first `Location`, if it has one,
/// is followed, or its body is read.
pub open spec fn head_step(
    hop: HopView,
    status: u16,
    location: Option<Seq<u8>>,
    headers: Pairs,
    private_allowed: bool,
) -> StepView {
    if redirection(status) && location is Some {
        location_step(hop, status, location->Some_0, private_allowed)
    } else {
        StepView::ReadBody { url: hop.url, status, headers, redirects: hop.redirects }
    }
}

/// The headers of the response whose body a step reads.
pub open spec fn headers_in(step: StepView) -> Pairs {
    match step {
        StepView::ReadBody { headers, .. } => headers,
        _ => Seq::empty(),
    }
}

/// The first of these values, if there is one.
pub open spec fn first_of(values: Seq<Seq<u8>>) -> Option<Seq<u8>> {
    if values.len() > 0 {
        Some(values[0])
    } else {
        None
    }
}

/// What follows a request that could not be sent or got no response.
pub open spec fn send_failed_step(hop: HopView, reason: Seq<char>) -> StepView {
    network_failure(hop.url.text + ": "@ + reason)
}

/// The end of a fetch, from what reading the body of its response gave.
pub open spec fn body_outcome(
    url: UrlView,
    status: u16,
    headers: Pairs,
    redirects: Seq<UrlView>,
    read: Result<Seq<u8>, Seq<char>>,
) -> Result<ResponseView, ErrorView> {
    match read {
        Ok(body) => Ok(ResponseView { url, status, headers, body, redirected_from: redirects }),
        Err(reason) => Err(ErrorView::Network("Failed to read body: "@ + reason)),
    }
}

/// The URL or the message in what resolving a redirect gave.
pub open spec fn target_of(target: Result<Url, String>) -> Result<UrlView, Seq<char>> {
    match target {
        Ok(url) => Ok(url@),
        Err(reason) => Err(reason@),
    }
}

impl Hop {
    /// Follows a redirect whose target resolved to `target`: the target has
    /// to be a URL that may be fetched, and is requested unless too many
    /// requests were made already. `env` is the value of the environment
    /// variable that opens the private network.
    pub fn redirected(
        self,
        status: u16,
        target: Result<Url, String>,
        allow_private_network: bool,
        env: Option<&str>,
    ) -> (r: FetchStep)
        ensures
            r@ == redirect_step(
                self@,
                status,
                target_of(target),
                private_allowed(allow_private_network, text_in(env)),
            ),
            target is Ok && self.redirects@.len() < 19 && url_refusal(
                target->Ok_0@,
                private_allowed(allow_private_network, text_in(env)),
            ) is None ==> {
                &&& r matches FetchStep::Intercept(next)
                &&& next.url == target->Ok_0
                &&& next.redirects@ == self.redirects@.push(self.url)
                &&& if status == 301 || status == 302 || status == 303 {
                    next.method@ == "GET"@ && next.body is None
                } else {
                    next.method == self.method && next.body == self.body
                }
            },
    {
        let url = match target {
            Ok(url) => url,
            Err(reason) => {
                return FetchStep::Finish(
                    Err(
                        ObscuraNetError::Network(
                            concat("Invalid redirect URL: ", reason.as_str()),
                        ),
                    ),
                );
            },
        };
        if let Err(error) = validate_url(&url, allow_private_network, env) {
            return FetchStep::Finish(Err(error));
        }
        if self.redirects.len() >= MAX_REQUESTS - 1 {
            return FetchStep::Finish(Err(ObscuraNetError::TooManyRedirects(url.text)));
        }
        let ghost before = self@;
        let mut redirects = self.redirects;
        redirects.push(self.url);
        assert(urls_of(redirects@) == before.redirects.push(before.url));
        if status == 301 || status == 302 || status == 303 {
            FetchStep::Intercept(Hop { method: "GET".to_string(), body: None, url, redirects })
        } else {
            FetchStep::Intercept(Hop { method: self.method, body: self.body, url, redirects })
        }
    }
}

impl PendingBody {
    /// The end of the fetch, from what reading the body gave.
    pub fn finish(self, read: Result<Vec<u8>, String>) -> (r: Result<Response, ObscuraNetError>)
        ensures
            outcome_of(r) == body_outcome(
                self.url@,
                self.status,
                self.headers@,
                urls_of(self.redirects@),
                read_of(read),
            ),
            read matches Ok(body) ==> {
                &&& r matches Ok(response)
                &&& response.url == self.url
                &&& response.status == self.status
                &&& response.headers == self.headers
                &&& response.body == body
                &&& response.redirected_from == self.redirects
            },
            read matches Err(reason) ==> (r matches Err(ObscuraNetError::Network(text)) && text@
                == "Failed to read body: "@ + reason@),
    {
        match read {
            Ok(body) => Ok(
                Response {
                    url: self.url,
                    status: self.status,
                    headers: self.headers,
                    body,
                    redirected_from: self.redirects,
                },
            ),
            Err(reason) => Err(
                ObscuraNetError::Network(concat("Failed to read body: ", reason.as_str())),
            ),
        }
    }
}

/// What follows the decision of the interceptor.
pub open spec fn intercepted_step(hop: HopView, action: ActionView) -> StepView {
    match action {
        ActionView::Continue => StepView::Send(hop),
        ActionView::Block => StepView::Finish(Err(ErrorView::Blocked(hop.url.text))),
        ActionView::Fulfill(response) => StepView::Finish(Ok(response)),
        ActionView::ModifyHeaders(headers) => StepView::Send(hop),
    }
}

/// A request as it goes out.
pub struct OutgoingRequest {
    pub method: String,
    pub url: String,
    pub headers: HeaderMap<HeaderValue>,
    pub body: Option<Vec<u8>>,
}

/// `headers` with the content type of the body that is sent along: that of a
/// form with `POST` requests, none with others.
pub open spec fn with_body_type(
    headers: HeaderValues,
    method: Seq<char>,
    body: Option<Seq<u8>>,
) -> HeaderValues {
    if body is Some && method == "POST"@ {
        let earlier = if headers.dom().contains("content-type"@) {
            headers["content-type"@]
        } else {
            Seq::empty()
        };
        headers.insert("content-type"@, earlier.push(encode_utf8(FORM@)))
    } else {
        headers
    }
}

/// What the head of a response gives.
#[derive(Debug)]
pub struct Received {
    /// The cookies to set, in their order, before anything else is done.
    pub cookies: Vec<String>,
    /// The URL that the cookies come from.
    pub cookies_from: Url,
    /// What the fetch asks for next.
    pub next: FetchStep,
}

/// A copy of a body.
fn copied(body: &Option<Vec<u8>>) -> (r: Option<Vec<u8>>)
    ensures
        bytes_of(r) == bytes_of(*body),
{
    match body {
        Some(body) => Some(body.clone()),
        None => None,
    }
}

impl<J> ObscuraHttpClient<J> {
    /// Begins to fetch a URL with `GET`.
    pub fn fetch(&self, url: &Url, env: Option<&str>) -> (r: FetchStep)
        ensures
            self@.begins("GET"@, url@, None, text_in(env), r@),
            r matches FetchStep::Intercept(hop) ==> hop.method@ == "GET"@ && hop.body is None
                && hop.url@ == url@ && hop.redirects@.len() == 0,
    {
        self.fetch_with_method("GET", url, None, env)
    }

    /// Begins to send a form to a URL with `POST`.
    pub fn post_form(&self, url: &Url, body: &str, env: Option<&str>) -> (r: FetchStep)
        ensures
            self@.begins("POST"@, url@, Some(encode_utf8(body@)), text_in(env), r@),
            r matches FetchStep::Intercept(hop) ==> hop.method@ == "POST"@ && hop.body is Some
                && hop.body->Some_0@ == encode_utf8(body@) && hop.url@ == url@
                && hop.redirects@.len() == 0,
    {
        self.fetch_with_method("POST", url, Some(body.as_bytes_vec()), env)
    }

    /// Begins to fetch a URL. A URL that may not be fetched is refused; a
    /// `file` URL is read from this machine; any other is requested, after a
    /// look at the list of trackers if trackers are blocked. `env` is the
    /// value of the environment variable that opens the private network.
    pub fn fetch_with_method(
        &self,
        initial_method: &str,
        url: &Url,
        initial_body: Option<Vec<u8>>,
        env: Option<&str>,
    ) -> (r: FetchStep)
        ensures
            self@.begins(initial_method@, url@, bytes_of(initial_body), text_in(env), r@),
            r matches FetchStep::Intercept(hop) ==> hop.method@ == initial_method@ && hop.body
                == initial_body && hop.url@ == url@ && hop.redirects@.len() == 0,
            r matches FetchStep::CheckTracker(check) ==> check.hop.method@ == initial_method@
                && check.hop.body == initial_body && check.hop.url@ == url@
                && check.hop.redirects@.len() == 0,
    {
        if let Err(error) = validate_url(url, self.allow_private_network, env) {
            return FetchStep::Finish(Err(error));
        }
        if same_text(url.scheme(), "file") {
            return fetch_file_url(url);
        }
        let hop = Hop {
            method: initial_method.to_string(),
            body: initial_body,
            url: url.clone(),
            redirects: Vec::new(),
        };
        assert(hop@.redirects == Seq::<UrlView>::empty());
        if self.block_trackers {
            if let Some(host) = &url.host_text {
                return FetchStep::CheckTracker(TrackerCheck { host: host.clone(), hop });
            }
        }
        FetchStep::Intercept(hop)
    }

    /// The request as interceptors and callbacks see it.
    pub fn request_info(&self, hop: &Hop) -> (r: RequestInfo)
        ensures
            r@ == self@.request_info(hop@),
    {
        RequestInfo {
            url: hop.url.clone(),
            method: hop.method.clone(),
            headers: self.extra_headers.clone(),
            resource_type: ResourceType::Document,
        }
    }

    /// Goes on as the interceptor decided; without an interceptor, that is
    /// to continue.
    pub fn intercepted(&mut self, hop: Hop, action: InterceptAction) -> (r: FetchStep)
        ensures
            final(self)@ == old(self)@.after_action(action@),
            r@ == intercepted_step(hop@, action@),
            match action {
                InterceptAction::Continue => r == FetchStep::Send(hop),
                InterceptAction::Block => r matches FetchStep::Finish(
                    Err(ObscuraNetError::Blocked(url)),
                ) && url == hop.url.text,
                InterceptAction::Fulfill(response) => r matches FetchStep::Finish(Ok(given))
                    && given == response,
                InterceptAction::ModifyHeaders(_) => r == FetchStep::Send(hop),
            },
    {
        match action {
            InterceptAction::Continue => FetchStep::Send(hop),
            InterceptAction::Block => FetchStep::Finish(
                Err(ObscuraNetError::Blocked(hop.url.text)),
            ),
            InterceptAction::Fulfill(response) => FetchStep::Finish(Ok(response)),
            InterceptAction::ModifyHeaders(headers) => {
                self.extra_headers.extend(headers);
                FetchStep::Send(hop)
            },
        }
    }

    /// The request as it goes out, with these cookies. There is none if the
    /// header map cannot hold so many headers.
    pub fn outgoing(&self, hop: &Hop, cookies: &str) -> (r: Option<OutgoingRequest>)
        ensures
            usable_count(self@.extra_headers) <= MAX_EXTRA ==> r is Some,
            self@.extra_headers.len() <= 6541 ==> r is Some,
            r matches Some(out) ==> {
                &&& out.method@ == hop@.method
                &&& out.url@ == hop@.url.text
                &&& bytes_of(out.body) == hop@.body
                &&& header_values(out.headers) == with_body_type(
                    all_headers(self@.user_agent, cookies@, self@.extra_headers),
                    hop@.method,
                    hop@.body,
                )
            },
    {
        let mut headers = match request_headers(
            self.user_agent.as_str(),
            cookies,
            &self.extra_headers,
        ) {
            Some(headers) => headers,
            None => return None,
        };
        if hop.body.is_some() && same_text(hop.method.as_str(), "POST") {
            proof {
                reveal_strlit("content-type");
                reveal_strlit("application/x-www-form-urlencoded");
                assert(ascii_lower("content-type"@) == "content-type"@);
            }
            if !append(&mut headers, "content-type", FORM) {
                return None;
            }
        }
        Some(
            OutgoingRequest {
                method: hop.method.clone(),
                url: hop.url.text.clone(),
                headers,
                body: copied(&hop.body),
            },
        )
    }

    /// Counts a request whose sending begins.
    pub fn begin_request(&mut self, hop: Hop) -> (r: SentRequest)
        ensures
            final(self)@ == old(self)@.after_begin(),
            final(self).in_flight == old(self).in_flight.wrapping_add(1),
            r.hop == hop,
    {
        self.in_flight = self.in_flight.wrapping_add(1);
        SentRequest { hop }
    }

    /// Ends the fetch with the error of a request that could not be sent or
    /// got no response, and no longer counts the request.
    pub fn send_failed(&mut self, sent: SentRequest, reason: &str) -> (r: FetchStep)
        ensures
            final(self)@ == old(self)@.after_end(),
            final(self).in_flight == old(self).in_flight.wrapping_sub(1),
            r@ == send_failed_step(sent.hop@, reason@),
            r matches FetchStep::Finish(Err(ObscuraNetError::Network(text))) && text@
                == sent.hop.url.text@ + ": "@ + reason@,
    {
        self.in_flight = self.in_flight.wrapping_sub(1);
        FetchStep::Finish(
            Err(ObscuraNetError::Network(concat3(sent.hop.url.as_str(), ": ", reason))),
        )
    }

    /// Goes on with the head of the response to a request, which is no longer
    /// counted: takes its cookies, and follows a redirect or asks for the
    /// body. `env` is the value of the environment variable that opens the
    /// private network.
    pub fn received(
        &mut self,
        sent: SentRequest,
        status: u16,
        headers: &HeaderMap<HeaderValue>,
        env: Option<&str>,
    ) -> (r: Received)
        ensures
            final(self)@ == old(self)@.after_end(),
            final(self).in_flight == old(self).in_flight.wrapping_sub(1),
            texts_of(r.cookies@) == texts(values_of(*headers, "set-cookie"@)),
            r.cookies_from@ == sent.hop@.url,
            r.next@ == head_step(
                sent.hop@,
                status,
                first_of(values_of(*headers, "location"@)),
                headers_in(r.next@),
                private_allowed(old(self)@.allow_private_network, text_in(env)),
            ),
            r.next@ is ReadBody ==> response_pairs(*headers, headers_in(r.next@)),
            status < 300 || 400 <= status || values_of(*headers, "location"@).len() == 0 ==> {
                &&& r.next matches FetchStep::ReadBody(pending)
                &&& pending.url == sent.hop.url
                &&& pending.status == status
                &&& pending.redirects == sent.hop.redirects
            },
            300 <= status < 400 && sent.hop.redirects@.len() < 19 && values_of(
                *headers,
                "location"@,
            ).len() > 0 ==> {
                text_of_value(values_of(*headers, "location"@)[0]) matches Some(reference) ==> {
                    url_joined(sent.hop.url.text@, reference) matches Ok(target) ==> {
                        url_refusal(
                            target,
                            private_allowed(old(self).allow_private_network, text_in(env)),
                        ) is None ==> {
                            &&& r.next matches FetchStep::Intercept(next)
                            &&& next.url@ == target
                            &&& next.redirects@ == sent.hop.redirects@.push(sent.hop.url)
                            &&& if status == 301 || status == 302 || status == 303 {
                                next.method@ == "GET"@ && next.body is None
                            } else {
                                next.method == sent.hop.method && next.body == sent.hop.body
                            }
                        }
                    }
                }
            },
    {
        self.in_flight = self.in_flight.wrapping_sub(1);
        let hop = sent.hop;
        let cookies = set_cookie_values(headers);
        let cookies_from = hop.url.clone();
        if 300 <= status && status < 400 {
            proof {
                reveal_strlit("location");
                assert(ascii_lower("location"@) == "location"@);
            }
            if let Some(location) = first_value(headers, "location") {
                let next = match value_to_text(location.as_slice()) {
                    Some(reference) => {
                        let target = hop.url.join(reference.as_str());
                        hop.redirected(status, target, self.allow_private_network, env)
                    },
                    None => FetchStep::Finish(
                        Err(
                            ObscuraNetError::Network(
                                "Invalid redirect Location header".to_string(),
                            ),
                        ),
                    ),
                };
                return Received { cookies, cookies_from, next };
            }
        }
        let next = FetchStep::ReadBody(
            PendingBody {
                url: hop.url,
                status,
                headers: response_headers(headers),
                redirects: hop.redirects,
            },
        );
        Received { cookies, cookies_from, next }
    }
}

impl<J> ClientView<J> {
    /// The request as interceptors and callbacks see it: with the extra headers
    /// that the client has then.
    pub open spec fn request_info(self, hop: HopView) -> InfoView {
        InfoView {
            url: hop.url,
            method: hop.method,
            headers: self.extra_headers,
            resource_type: ResourceType::Document,
        }
    }

    /// The client after an interceptor decided so.
    pub open spec fn after_action(self, action: ActionView) -> Self {
        match action {
            ActionView::ModifyHeaders(headers) => ClientView {
                extra_headers: merged(self.extra_headers, headers),
                ..self
            },
            _ => self,
        }
    }

    /// The client after the sending of a request began.
    pub open spec fn after_begin(self) -> Self {
        ClientView { in_flight: self.in_flight.wrapping_add(1), ..self }
    }

    /// The client after the sending of a request ended, well or not.
    pub open spec fn after_end(self) -> Self {
        ClientView { in_flight: self.in_flight.wrapping_sub(1), ..self }
    }

    /// `step` is how a fetch of `url` begins.
    pub open spec fn begins(
        self,
        method: Seq<char>,
        url: UrlView,
        body: Option<Seq<u8>>,
        env: Option<Seq<char>>,
        step: StepView,
    ) -> bool {
        match url_refusal(url, private_allowed(self.allow_private_network, env)) {
            Some(reason) => step == network_failure(reason),
            None => if url.scheme == "file"@ {
                file_begins(url, step)
            } else {
                step == first_step(self.block_trackers, first_hop(method, url, body))
            },
        }
    }
}

} // verus!
