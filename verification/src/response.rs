//! Requests and responses as the client's users see them.
use vstd::prelude::*;
use vstd::utf8::is_ascii_chars;

use crate::guard::text_in;
use crate::headers::{lookup, HeaderTable, Pairs};
use crate::text::{ascii_lower, contains, lowercase, occurs_in, same_text, to_lowercase};
use crate::urls::{cloned_urls, urls_of, Url, UrlView};

verus! {

/// What a request is made for.
#[derive(Clone, Copy, Debug, PartialEq, Eq, Structural)]
pub enum ResourceType {
    Document,
    Script,
    Stylesheet,
    Image,
    Font,
    Xhr,
    Fetch,
    Other,
}

/// A request as interceptors and callbacks see it.
#[derive(Debug)]
pub struct RequestInfo {
    pub url: Url,
    pub method: String,
    pub headers: HeaderTable,
    pub resource_type: ResourceType,
}

/// A request as interceptors and callbacks see it, as mathematical values.
pub struct InfoView {
    pub url: UrlView,
    pub method: Seq<char>,
    pub headers: Pairs,
    pub resource_type: ResourceType,
}

impl View for RequestInfo {
    type V = InfoView;

    open spec fn view(&self) -> InfoView {
        InfoView {
            url: self.url@,
            method: self.method@,
            headers: self.headers@,
            resource_type: self.resource_type,
        }
    }
}

impl Clone for RequestInfo {
    fn clone(&self) -> (r: Self)
        ensures
            r@ == self@,
    {
        RequestInfo {
            url: self.url.clone(),
            method: self.method.clone(),
            headers: self.headers.clone(),
            resource_type: self.resource_type,
        }
    }
}

/// What an interceptor does with a request.
#[derive(Debug)]
pub enum InterceptAction {
    /// Let the request be made.
    Continue,
    /// Fail the request.
    Block,
    /// Answer the request in place of the server.
    Fulfill(Response),
    /// Add these to the client's extra headers and let the request be made.
    ModifyHeaders(HeaderTable),
}

/// What an interceptor does with a request, as mathematical values.
pub enum ActionView {
    Continue,
    Block,
    Fulfill(ResponseView),
    ModifyHeaders(Pairs),
}

impl View for InterceptAction {
    type V = ActionView;

    open spec fn view(&self) -> ActionView {
        match self {
            InterceptAction::Continue => ActionView::Continue,
            InterceptAction::Block => ActionView::Block,
            InterceptAction::Fulfill(response) => ActionView::Fulfill(response@),
            InterceptAction::ModifyHeaders(headers) => ActionView::ModifyHeaders(headers@),
        }
    }
}

/// A response, with its headers by their names in lower case and the URLs
/// that were left for another one on the way to it.
#[derive(Debug)]
pub struct Response {
    pub url: Url,
    pub status: u16,
    pub headers: HeaderTable,
    pub body: Vec<u8>,
    pub redirected_from: Vec<Url>,
}

/// A response as mathematical values.
pub struct ResponseView {
    pub url: UrlView,
    pub status: u16,
    pub headers: Pairs,
    pub body: Seq<u8>,
    pub redirected_from: Seq<UrlView>,
}

impl View for Response {
    type V = ResponseView;

    open spec fn view(&self) -> ResponseView {
        ResponseView {
            url: self.url@,
            status: self.status,
            headers: self.headers@,
            body: self.body@,
            redirected_from: urls_of(self.redirected_from@),
        }
    }
}

impl Clone for Response {
    fn clone(&self) -> (r: Self)
        ensures
            r@ == self@,
    {
        Response {
            url: self.url.clone(),
            status: self.status,
            headers: self.headers.clone(),
            body: self.body.clone(),
            redirected_from: cloned_urls(&self.redirected_from),
        }
    }
}

impl ResponseView {
    /// The value of a header, its name in any case.
    pub open spec fn header(self, name: Seq<char>) -> Option<Seq<char>> {
        lookup(self.headers, lowercase(name))
    }

    /// The content type.
    pub open spec fn content_type(self) -> Option<Seq<char>> {
        lookup(self.headers, "content-type"@)
    }

    /// The content type is HTML.
    pub open spec fn is_html(self) -> bool {
        match self.content_type() {
            Some(content_type) => occurs_in(content_type, "text/html"@),
            None => false,
        }
    }
}

impl Response {
    /// Decodes the body as text: an HTML body with `decode_response`, which
    /// may look for a charset in the markup, any other with
    /// `decode_non_html`. Both get the body and the content type.
    pub fn text<
        H: FnOnce(&[u8], Option<&str>) -> String,
        O: FnOnce(&[u8], Option<&str>) -> String,
    >(&self, decode_response: H, decode_non_html: O) -> (r: String)
        requires
            forall|body: &[u8], content_type: Option<&str>|
                self@.is_html() && body@ == self@.body && text_in(content_type)
                    == self@.content_type() ==> call_requires(
                    decode_response,
                    (body, content_type),
                ),
            forall|body: &[u8], content_type: Option<&str>|
                !self@.is_html() && body@ == self@.body && text_in(content_type)
                    == self@.content_type() ==> call_requires(
                    decode_non_html,
                    (body, content_type),
                ),
        ensures
            exists|body: &[u8], content_type: Option<&str>|
                body@ == self@.body && text_in(content_type) == self@.content_type() && (
                if self@.is_html() {
                    call_ensures(decode_response, (body, content_type), r)
                } else {
                    call_ensures(decode_non_html, (body, content_type), r)
                }),
    {
        let body = self.body.as_slice();
        let content_type = self.content_type();
        if self.is_html() {
            decode_response(body, content_type)
        } else {
            decode_non_html(body, content_type)
        }
    }

    /// The value of a header, its name in any case.
    pub fn header(&self, name: &str) -> (r: Option<&str>)
        ensures
            text_in(r) == self@.header(name@),
    {
        let name = to_lowercase(name);
        self.headers.get(name.as_str())
    }

    /// The content type.
    pub fn content_type(&self) -> (r: Option<&str>)
        ensures
            text_in(r) == self@.content_type(),
    {
        proof {
            reveal_strlit("content-type");
            assert(is_ascii_chars("content-type"@));
            assert(ascii_lower("content-type"@) == "content-type"@);
        }
        self.header("content-type")
    }

    /// Whether the content type is HTML.
    pub fn is_html(&self) -> (r: bool)
        ensures
            r == self@.is_html(),
    {
        match self.content_type() {
            Some(content_type) => contains(content_type, "text/html"),
            None => false,
        }
    }
}

/// The content type of files with an extension, in lower case.
pub open spec fn media_type(extension: Seq<char>) -> Seq<char> {
    if extension == "html"@ || extension == "htm"@ {
        "text/html"@
    } else if extension == "css"@ {
        "text/css"@
    } else if extension == "js"@ || extension == "mjs"@ {
        "application/javascript"@
    } else if extension == "json"@ {
        "application/json"@
    } else if extension == "png"@ {
        "image/png"@
    } else if extension == "jpg"@ || extension == "jpeg"@ {
        "image/jpeg"@
    } else if extension == "gif"@ {
        "image/gif"@
    } else if extension == "svg"@ {
        "image/svg+xml"@
    } else if extension == "webp"@ {
        "image/webp"@
    } else if extension == "ico"@ {
        "image/x-icon"@
    } else {
        "application/octet-stream"@
    }
}

/// The content type of files with an extension, which is given in lower case.
pub fn media_type_of(extension: &str) -> (r: &'static str)
    ensures
        r@ == media_type(extension@),
{
    if same_text(extension, "html") || same_text(extension, "htm") {
        "text/html"
    } else if same_text(extension, "css") {
        "text/css"
    } else if same_text(extension, "js") || same_text(extension, "mjs") {
        "application/javascript"
    } else if same_text(extension, "json") {
        "application/json"
    } else if same_text(extension, "png") {
        "image/png"
    } else if same_text(extension, "jpg") || same_text(extension, "jpeg") {
        "image/jpeg"
    } else if same_text(extension, "gif") {
        "image/gif"
    } else if same_text(extension, "svg") {
        "image/svg+xml"
    } else if same_text(extension, "webp") {
        "image/webp"
    } else if same_text(extension, "ico") {
        "image/x-icon"
    } else {
        "application/octet-stream"
    }
}

/// The headers of the response that a file with this extension makes.
pub open spec fn file_headers(extension: Option<Seq<char>>) -> Pairs {
    match extension {
        Some(extension) => seq![("content-type"@, media_type(lowercase(extension)))],
        None => Seq::empty(),
    }
}

/// The response that a file makes, by the extension of its name.
pub fn file_response(url: Url, extension: Option<&str>, body: Vec<u8>) -> (r: Response)
    ensures
        r@ == (ResponseView {
            url: url@,
            status: 200,
            headers: file_headers(text_in(extension)),
            body: body@,
            redirected_from: Seq::empty(),
        }),
        r.url == url,
        r.status == 200,
        r.body == body,
        r.redirected_from@.len() == 0,
{
    let mut headers = HeaderTable::new();
    match extension {
        Some(extension) => {
            let lower = to_lowercase(extension);
            headers.insert(
                "content-type".to_string(),
                media_type_of(lower.as_str()).to_string(),
            );
        },
        None => {},
    }
    let r = Response { url, status: 200, headers, body, redirected_from: Vec::new() };
    assert(r@.redirected_from == Seq::<UrlView>::empty());
    assert(r@.headers == file_headers(text_in(extension)));
    r
}

} // verus!
