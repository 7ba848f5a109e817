//! Which URLs and addresses requests may reach.
use vstd::prelude::*;

use crate::error::{ErrorView, ObscuraNetError};
use crate::ip::{is_forbidden_ip, IpAddr};
use crate::text::{
    ascii_lower, concat, concat3, ends_in, ends_with, lowercase, same_text, to_ascii_lowercase,
    to_lowercase, trim, trimmed,
};
use crate::urls::{Host, HostView, Url, UrlView};

verus! {

/// The text in an optional string slice.
pub open spec fn text_in(s: Option<&str>) -> Option<Seq<char>> {
    match s {
        Some(s) => Some(s@),
        None => None,
    }
}

/// A value of the environment variable that opens the private network:
/// `1`, `true`, `yes` or `on`, in any case, with white space around it.
pub open spec fn env_allows(value: Option<Seq<char>>) -> bool {
    match value {
        Some(value) => {
            let word = ascii_lower(trimmed(value));
            word == "1"@ || word == "true"@ || word == "yes"@ || word == "on"@
        },
        None => false,
    }
}

/// Whether the value of `OBSCURA_ALLOW_PRIVATE_NETWORK` opens the private
/// network to the whole process; `None` when the variable is not set or is no
/// valid Unicode.
pub fn env_allows_private_network(value: Option<&str>) -> (r: bool)
    ensures
        r == env_allows(text_in(value)),
{
    match value {
        Some(value) => {
            let word = to_ascii_lowercase(trim(value));
            let word = word.as_str();
            same_text(word, "1") || same_text(word, "true") || same_text(word, "yes") || same_text(
                word,
                "on",
            )
        },
        None => false,
    }
}

/// The private network is open: by the client's own setting or by the
/// environment.
pub open spec fn private_allowed(setting: bool, env: Option<Seq<char>>) -> bool {
    setting || env_allows(env)
}

/// The domains, in lower case, that stand for this machine.
pub open spec fn local_domain(domain: Seq<char>) -> bool {
    domain == "localhost"@ || ends_in(domain, ".localhost"@) || domain == "127.0.0.1"@ || domain
        == "::1"@
}

/// Whether a domain, in lower case, stands for this machine.
pub fn is_local_domain(domain: &str) -> (r: bool)
    ensures
        r == local_domain(domain@),
{
    same_text(domain, "localhost") || ends_with(domain, ".localhost") || same_text(
        domain,
        "127.0.0.1",
    ) || same_text(domain, "::1")
}

/// The schemes of the URLs that can be fetched.
pub open spec fn fetchable_scheme(scheme: Seq<char>) -> bool {
    scheme == "http"@ || scheme == "https"@ || scheme == "file"@
}

/// Why a host may not be reached while the private network is closed, if it
/// may not.
pub open spec fn host_refusal(host: HostView) -> Option<Seq<char>> {
    match host {
        HostView::Ipv4(ip) => if IpAddr::V4(ip).forbidden() {
            Some(
                "Access to private/internal IP address "@ + IpAddr::V4(ip).text()
                    + " is not allowed"@,
            )
        } else {
            None
        },
        HostView::Ipv6(ip) => if IpAddr::V6(ip).forbidden() {
            Some(
                "Access to private/internal IPv6 address "@ + IpAddr::V6(ip).text()
                    + " is not allowed"@,
            )
        } else {
            None
        },
        HostView::Domain(domain) => if local_domain(lowercase(domain)) {
            Some("Access to localhost domain '"@ + domain + "' is not allowed"@)
        } else {
            None
        },
    }
}

/// Why a URL may not be fetched, if it may not.
pub open spec fn url_refusal(url: UrlView, private_allowed: bool) -> Option<Seq<char>> {
    if !fetchable_scheme(url.scheme) {
        Some(
            "Forbidden URL scheme '"@ + url.scheme
                + "' - only http, https, and file are allowed"@,
        )
    } else if url.scheme == "file"@ || private_allowed {
        None
    } else {
        match url.host {
            Some(host) => host_refusal(host),
            None => None,
        }
    }
}

/// Refuses the URLs that may not be fetched: those of other schemes than
/// `http`, `https` and `file`, and, while the private network is closed,
/// `http` and `https` URLs with a forbidden address or a name of this machine
/// as the host. `env` is the value of the environment variable that opens the
/// private network.
pub fn validate_url(url: &Url, allow_private_network: bool, env: Option<&str>) -> (r: Result<
    (),
    ObscuraNetError,
>)
    ensures
        match url_refusal(url@, private_allowed(allow_private_network, text_in(env))) {
            None => r is Ok,
            Some(reason) => r matches Err(e) && e@ == ErrorView::Network(reason),
        },
{
    let allow_private_network = allow_private_network || env_allows_private_network(env);
    let scheme = url.scheme();
    if !same_text(scheme, "http") && !same_text(scheme, "https") && !same_text(scheme, "file") {
        return Err(
            ObscuraNetError::Network(
                concat3(
                    "Forbidden URL scheme '",
                    scheme,
                    "' - only http, https, and file are allowed",
                ),
            ),
        );
    }
    if same_text(scheme, "file") || allow_private_network {
        return Ok(());
    }
    match &url.host {
        Some(Host::Ipv4(ip)) => {
            let ip = IpAddr::V4(*ip);
            if is_forbidden_ip(ip) {
                return Err(
                    ObscuraNetError::Network(
                        concat3(
                            "Access to private/internal IP address ",
                            ip.to_text().as_str(),
                            " is not allowed",
                        ),
                    ),
                );
            }
        },
        Some(Host::Ipv6(ip)) => {
            let ip = IpAddr::V6(*ip);
            if is_forbidden_ip(ip) {
                return Err(
                    ObscuraNetError::Network(
                        concat3(
                            "Access to private/internal IPv6 address ",
                            ip.to_text().as_str(),
                            " is not allowed",
                        ),
                    ),
                );
            }
        },
        Some(Host::Domain(domain)) => {
            let lower = to_lowercase(domain.as_str());
            if is_local_domain(lower.as_str()) {
                return Err(
                    ObscuraNetError::Network(
                        concat3(
                            "Access to localhost domain '",
                            domain.as_str(),
                            "' is not allowed",
                        ),
                    ),
                );
            }
        },
        None => {},
    }
    Ok(())
}

/// Checks the addresses that host names resolve to. A name that resolves to
/// any forbidden address is refused, so that a public name cannot lead to a
/// private address; while the private network is open, every address passes.
#[derive(Clone, Copy, Debug)]
pub struct SsrfGuardResolver {
    allow_private: bool,
}

/// The address at `i` is the first forbidden one.
pub open spec fn first_forbidden_at(addresses: Seq<IpAddr>, i: int) -> bool {
    &&& 0 <= i < addresses.len()
    &&& addresses[i].forbidden()
    &&& forall|j: int| 0 <= j < i ==> !(#[trigger] addresses[j]).forbidden()
}

/// Some address is forbidden.
pub open spec fn any_forbidden(addresses: Seq<IpAddr>) -> bool {
    exists|i: int| 0 <= i < addresses.len() && (#[trigger] addresses[i]).forbidden()
}

impl SsrfGuardResolver {
    /// The guard's own setting lets private addresses pass.
    pub closed spec fn allows_private(self) -> bool {
        self.allow_private
    }

    /// A guard that lets private addresses pass or not.
    pub fn new(allow_private: bool) -> (r: Self)
        ensures
            r.allows_private() == allow_private,
    {
        SsrfGuardResolver { allow_private }
    }

    /// Passes on the addresses that `host` resolved to, or refuses them all,
    /// naming the first forbidden one. `env` is the value of the environment
    /// variable that opens the private network.
    pub fn resolve(&self, host: &str, addresses: Vec<IpAddr>, env: Option<&str>) -> (r: Result<
        Vec<IpAddr>,
        String,
    >)
        ensures
            r is Ok == (private_allowed(self.allows_private(), text_in(env)) || !any_forbidden(
                addresses@,
            )),
            r matches Ok(passed) ==> passed@ == addresses@,
            r matches Err(reason) ==> exists|i: int|
                #[trigger] first_forbidden_at(addresses@, i) && reason@ == "SSRF blocked: '"@
                    + host@ + "' resolves to forbidden address "@ + addresses@[i].text(),
    {
        let allow = self.allow_private || env_allows_private_network(env);
        if !allow {
            for i in 0..addresses.len()
                invariant
                    !private_allowed(self.allows_private(), text_in(env)),
                    forall|j: int| 0 <= j < i ==> !(#[trigger] addresses@[j]).forbidden(),
            {
                if is_forbidden_ip(addresses[i]) {
                    let start = concat3(
                        "SSRF blocked: '",
                        host,
                        "' resolves to forbidden address ",
                    );
                    let reason = concat(start.as_str(), addresses[i].to_text().as_str());
                    assert(first_forbidden_at(addresses@, i as int));
                    return Err(reason);
                }
            }
        }
        Ok(addresses)
    }
}

} // verus!
