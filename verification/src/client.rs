//! The client's settings and what they make of its connections.
use std::sync::Arc;

use reqwest::{Certificate, Proxy};
use vstd::prelude::*;

use crate::ca::{ca_certificates, load_ca_certs, read_of};
use crate::error::{ErrorView, ObscuraNetError};
use crate::guard::{text_in, SsrfGuardResolver};
use crate::headers::{HeaderTable, Pairs};
use crate::outgoing::USER_AGENT;
use crate::urls::text_of;

verus! {

/// The settings and the state of a client with a cookie jar of type `J`.
#[derive(Debug)]
pub struct ObscuraHttpClient<J> {
    /// The proxy that requests go through.
    pub proxy_url: Option<String>,
    /// The path of a PEM bundle whose certificates are trusted besides the
    /// usual ones. This adds to what is trusted and never weakens the
    /// validation of certificates.
    pub ca_path: Option<String>,
    /// The cookies, which clients can share.
    pub cookie_jar: Arc<J>,
    /// The user agent that requests name.
    pub user_agent: String,
    /// Headers to add to every request.
    pub extra_headers: HeaderTable,
    /// How long a request may take, in seconds.
    pub timeout_secs: u64,
    /// How many requests are being sent.
    pub in_flight: u32,
    /// Requests to known trackers are answered with an empty response.
    pub block_trackers: bool,
    /// Requests may reach private addresses.
    pub allow_private_network: bool,
}

/// A client as mathematical values.
pub struct ClientView<J> {
    pub proxy_url: Option<Seq<char>>,
    pub ca_path: Option<Seq<char>>,
    pub cookie_jar: Arc<J>,
    pub user_agent: Seq<char>,
    pub extra_headers: Pairs,
    pub timeout_secs: u64,
    pub in_flight: u32,
    pub block_trackers: bool,
    pub allow_private_network: bool,
}

/// A client with these options, and otherwise as clients start.
pub open spec fn fresh_client<J>(
    cookie_jar: Arc<J>,
    proxy_url: Option<Seq<char>>,
    allow_private_network: bool,
    ca_path: Option<Seq<char>>,
) -> ClientView<J> {
    ClientView {
        proxy_url,
        ca_path,
        cookie_jar,
        user_agent: USER_AGENT@,
        extra_headers: Seq::empty(),
        timeout_secs: 30,
        in_flight: 0,
        block_trackers: false,
        allow_private_network,
    }
}

fn owned(text: Option<&str>) -> (r: Option<String>)
    ensures
        text_of(r) == text_in(text),
{
    match text {
        Some(text) => Some(text.to_string()),
        None => None,
    }
}

fn borrowed(text: &Option<String>) -> (r: Option<&str>)
    ensures
        text_in(r) == text_of(*text),
{
    match text {
        Some(text) => Some(text.as_str()),
        None => None,
    }
}

impl<J> View for ObscuraHttpClient<J> {
    type V = ClientView<J>;

    open spec fn view(&self) -> ClientView<J> {
        ClientView {
            proxy_url: text_of(self.proxy_url),
            ca_path: text_of(self.ca_path),
            cookie_jar: self.cookie_jar,
            user_agent: self.user_agent@,
            extra_headers: self.extra_headers@,
            timeout_secs: self.timeout_secs,
            in_flight: self.in_flight,
            block_trackers: self.block_trackers,
            allow_private_network: self.allow_private_network,
        }
    }
}

impl<J> ObscuraHttpClient<J> {
    /// A client with a cookie jar.
    pub fn with_cookie_jar(cookie_jar: Arc<J>) -> (r: Self)
        ensures
            r@ == fresh_client(cookie_jar, None, false, None),
    {
        Self::with_options(cookie_jar, None)
    }

    /// A client with a cookie jar that goes through a proxy.
    pub fn with_options(cookie_jar: Arc<J>, proxy_url: Option<&str>) -> (r: Self)
        ensures
            r@ == fresh_client(cookie_jar, text_in(proxy_url), false, None),
    {
        Self::with_full_options(cookie_jar, proxy_url, false)
    }

    /// A client that may also reach the private network.
    pub fn with_full_options(
        cookie_jar: Arc<J>,
        proxy_url: Option<&str>,
        allow_private_network: bool,
    ) -> (r: Self)
        ensures
            r@ == fresh_client(cookie_jar, text_in(proxy_url), allow_private_network, None),
    {
        Self::with_options_ca(cookie_jar, proxy_url, allow_private_network, None)
    }

    /// A client that also trusts the certificates of the PEM bundle at
    /// `ca_path`.
    pub fn with_options_ca(
        cookie_jar: Arc<J>,
        proxy_url: Option<&str>,
        allow_private_network: bool,
        ca_path: Option<&str>,
    ) -> (r: Self)
        ensures
            r@ == fresh_client(
                cookie_jar,
                text_in(proxy_url),
                allow_private_network,
                text_in(ca_path),
            ),
    {
        ObscuraHttpClient {
            proxy_url: owned(proxy_url),
            ca_path: owned(ca_path),
            cookie_jar,
            user_agent: USER_AGENT.to_string(),
            extra_headers: HeaderTable::new(),
            timeout_secs: 30,
            in_flight: 0,
            block_trackers: false,
            allow_private_network,
        }
    }

    /// The proxy that the client was made with.
    pub fn proxy_url(&self) -> (r: Option<&str>)
        ensures
            text_in(r) == self@.proxy_url,
    {
        borrowed(&self.proxy_url)
    }

    /// The path of the CA bundle that the client was made with.
    pub fn ca_path(&self) -> (r: Option<&str>)
        ensures
            text_in(r) == self@.ca_path,
    {
        borrowed(&self.ca_path)
    }

    /// Makes requests name another user agent.
    pub fn set_user_agent(&mut self, user_agent: &str)
        ensures
            final(self)@ == (ClientView { user_agent: user_agent@, ..old(self)@ }),
    {
        self.user_agent = user_agent.to_string();
    }

    /// Replaces the headers that are added to every request.
    pub fn set_extra_headers(&mut self, headers: HeaderTable)
        ensures
            final(self)@ == (ClientView { extra_headers: headers@, ..old(self)@ }),
    {
        self.extra_headers = headers;
    }

    /// How many requests are being sent.
    pub fn active_requests(&self) -> (r: u32)
        ensures
            r == self@.in_flight,
    {
        self.in_flight
    }

    /// Whether no request is being sent.
    pub fn is_network_idle(&self) -> (r: bool)
        ensures
            r == (self@.in_flight == 0),
    {
        self.active_requests() == 0
    }
}

impl<J: Default> ObscuraHttpClient<J> {
    /// A client with a cookie jar of its own.
    pub fn new() -> (r: Self)
        ensures
            r@ == fresh_client(r@.cookie_jar, None, false, None),
            call_ensures(J::default, (), *r@.cookie_jar),
    {
        Self::with_cookie_jar(Arc::new(J::default()))
    }
}

impl<J: Default> Default for ObscuraHttpClient<J> {
    fn default() -> (r: Self)
        ensures
            r@ == fresh_client(r@.cookie_jar, None, false, None),
            call_ensures(J::default, (), *r@.cookie_jar),
    {
        Self::new()
    }
}

/// A proxy, which is only carried along.
#[verifier::external_type_specification]
#[verifier::external_body]
pub struct ExProxy(Proxy);

/// The proxy for all traffic that the HTTP library makes of a URL, if it
/// makes one.
pub uninterp spec fn proxy_for(url: Seq<char>) -> Option<Proxy>;

/// Calls `reqwest::Proxy::all`, which sends all traffic through the proxy at
/// a URL and refuses URLs that name none. What comes out depends on `url`
/// alone and is named `proxy_for`.
#[verifier::external_body]
fn proxy_at(url: &str) -> (r: Option<Proxy>)
    ensures
        r == proxy_for(url@),
{
    Proxy::all(url).ok()
}

/// How the connections of a client are made.
pub struct ClientConfig {
    /// Redirects are followed by the HTTP library.
    pub follow_redirects: bool,
    /// How long a request may take, in seconds.
    pub timeout_secs: u64,
    /// Certificates are accepted without being validated.
    pub accept_invalid_certs: bool,
    /// What checks the addresses that host names resolve to.
    pub guard: SsrfGuardResolver,
    /// What requests go through.
    pub proxy: Option<Proxy>,
    /// The certificates to trust besides the usual ones.
    pub roots: Vec<Certificate>,
}

impl<J> ClientView<J> {
    /// The proxy that requests go through: the one of the settings, unless
    /// the HTTP library refuses it.
    pub open spec fn used_proxy(self) -> Option<Proxy> {
        match self.proxy_url {
            Some(url) => proxy_for(url),
            None => None,
        }
    }

    /// `config` is how the connections of the client are made, with these
    /// certificates besides the usual ones.
    pub open spec fn configured(self, roots: Seq<Certificate>, config: ClientConfig) -> bool {
        &&& !config.follow_redirects
        &&& config.timeout_secs == 30
        &&& !config.accept_invalid_certs
        &&& config.guard.allows_private() == self.allow_private_network
        &&& config.proxy == self.used_proxy()
        &&& config.roots@ == roots
    }

    /// The certificates to trust besides the usual ones, or why the client
    /// cannot be used, from what reading the CA bundle gave.
    pub open spec fn extra_roots(self, ca_file: Result<Seq<u8>, Seq<char>>) -> Result<
        Seq<Certificate>,
        ErrorView,
    > {
        match self.ca_path {
            Some(path) => ca_certificates(path, ca_file),
            None => Ok(Seq::empty()),
        }
    }
}

impl<J> ObscuraHttpClient<J> {
    /// How the connections of this client are made. `ca_file` is what reading
    /// the file at `ca_path` gave; it is not looked at if there is no such
    /// path. A CA bundle that cannot be loaded is an error; a proxy that the
    /// HTTP library refuses is passed over.
    pub fn connection_config(&self, ca_file: Result<Vec<u8>, String>) -> (r: Result<
        ClientConfig,
        ObscuraNetError,
    >)
        ensures
            match self@.extra_roots(read_of(ca_file)) {
                Ok(roots) => r matches Ok(config) && self@.configured(roots, config),
                Err(error) => r matches Err(e) && e@ == error,
            },
    {
        let proxy = match &self.proxy_url {
            Some(url) => proxy_at(url.as_str()),
            None => None,
        };
        let roots = match &self.ca_path {
            Some(path) => match load_ca_certs(path.as_str(), ca_file) {
                Ok(roots) => roots,
                Err(error) => return Err(error),
            },
            None => Vec::new(),
        };
        Ok(
            ClientConfig {
                follow_redirects: false,
                timeout_secs: 30,
                accept_invalid_certs: false,
                guard: SsrfGuardResolver::new(self.allow_private_network),
                proxy,
                roots,
            },
        )
    }
}

} // verus!
