//! What can go wrong with a request.
use vstd::prelude::*;

use crate::text::concat;

verus! {

/// Why a request failed.
#[derive(Debug)]
pub enum ObscuraNetError {
    /// The request could not be made or was refused.
    Network(String),
    /// A chain of redirects was longer than the client follows; the URL is
    /// the one that was not requested any more.
    TooManyRedirects(String),
    /// The request interceptor blocked the request to this URL.
    Blocked(String),
}

/// What an error says, as mathematical text.
pub enum ErrorView {
    Network(Seq<char>),
    TooManyRedirects(Seq<char>),
    Blocked(Seq<char>),
}

impl View for ObscuraNetError {
    type V = ErrorView;

    open spec fn view(&self) -> ErrorView {
        match self {
            ObscuraNetError::Network(text) => ErrorView::Network(text@),
            ObscuraNetError::TooManyRedirects(url) => ErrorView::TooManyRedirects(url@),
            ObscuraNetError::Blocked(url) => ErrorView::Blocked(url@),
        }
    }
}

impl ErrorView {
    /// The message shown for the error.
    pub open spec fn message(self) -> Seq<char> {
        match self {
            ErrorView::Network(text) => "Network error: "@ + text,
            ErrorView::TooManyRedirects(url) => "Too many redirects: "@ + url,
            ErrorView::Blocked(url) => "Request blocked: "@ + url,
        }
    }
}

impl ObscuraNetError {
    /// The message to show for the error.
    pub fn message(&self) -> (r: String)
        ensures
            r@ == self@.message(),
    {
        match self {
            ObscuraNetError::Network(text) => concat("Network error: ", text.as_str()),
            ObscuraNetError::TooManyRedirects(url) => concat("Too many redirects: ", url.as_str()),
            ObscuraNetError::Blocked(url) => concat("Request blocked: ", url.as_str()),
        }
    }
}

} // verus!
