//! URLs, by what the client reads of them, and their resolution.
use std::path::PathBuf;

use vstd::prelude::*;

use crate::ip::{Ipv4Addr, Ipv6Addr};

verus! {

/// The host of a URL.
#[derive(Debug, PartialEq, Eq)]
pub enum Host {
    Domain(String),
    Ipv4(Ipv4Addr),
    Ipv6(Ipv6Addr),
}

/// A host, with its domain as mathematical text.
pub enum HostView {
    Domain(Seq<char>),
    Ipv4(Ipv4Addr),
    Ipv6(Ipv6Addr),
}

impl View for Host {
    type V = HostView;

    open spec fn view(&self) -> HostView {
        match self {
            Host::Domain(domain) => HostView::Domain(domain@),
            Host::Ipv4(ip) => HostView::Ipv4(*ip),
            Host::Ipv6(ip) => HostView::Ipv6(*ip),
        }
    }
}

impl Clone for Host {
    fn clone(&self) -> (r: Self)
        ensures
            r@ == self@,
    {
        match self {
            Host::Domain(domain) => Host::Domain(domain.clone()),
            Host::Ipv4(ip) => Host::Ipv4(*ip),
            Host::Ipv6(ip) => Host::Ipv6(*ip),
        }
    }
}

/// A URL, by the parts of it that the client reads.
#[derive(Debug, PartialEq, Eq)]
pub struct Url {
    /// The whole URL.
    pub text: String,
    /// The scheme, without its colon.
    pub scheme: String,
    /// The host as the URL spells it.
    pub host_text: Option<String>,
    /// The host as it is understood.
    pub host: Option<Host>,
}

/// A URL with its parts as mathematical text.
pub struct UrlView {
    pub text: Seq<char>,
    pub scheme: Seq<char>,
    pub host_text: Option<Seq<char>>,
    pub host: Option<HostView>,
}

/// The text in an optional string.
pub open spec fn text_of(s: Option<String>) -> Option<Seq<char>> {
    match s {
        Some(s) => Some(s@),
        None => None,
    }
}

impl View for Url {
    type V = UrlView;

    open spec fn view(&self) -> UrlView {
        UrlView {
            text: self.text@,
            scheme: self.scheme@,
            host_text: text_of(self.host_text),
            host: match self.host {
                Some(host) => Some(host@),
                None => None,
            },
        }
    }
}

/// The URLs in a sequence.
pub open spec fn urls_of(urls: Seq<Url>) -> Seq<UrlView> {
    urls.map_values(|url: Url| url@)
}

impl Clone for Url {
    fn clone(&self) -> (r: Self)
        ensures
            r@ == self@,
    {
        Url {
            text: self.text.clone(),
            scheme: self.scheme.clone(),
            host_text: self.host_text.clone(),
            host: match &self.host {
                Some(host) => Some(host.clone()),
                None => None,
            },
        }
    }
}

/// A copy of a list of URLs.
pub(crate) fn cloned_urls(urls: &Vec<Url>) -> (r: Vec<Url>)
    ensures
        urls_of(r@) == urls_of(urls@),
{
    let mut out: Vec<Url> = Vec::new();
    for i in 0..urls.len()
        invariant
            urls_of(out@) == urls_of(urls@).take(i as int),
    {
        let ghost before = out@;
        let url = urls[i].clone();
        out.push(url);
        assert(urls_of(out@) == urls_of(before).push(url@));
    }
    assert(urls_of(urls@).take(urls@.len() as int) == urls_of(urls@));
    out
}

/// What the `url` crate makes of a text: the URL, or why it is none.
pub uninterp spec fn url_parsed(text: Seq<char>) -> Result<UrlView, Seq<char>>;

/// What the `url` crate makes of a reference against a base URL: the URL, or
/// why it is none.
pub uninterp spec fn url_joined(base: Seq<char>, reference: Seq<char>) -> Result<
    UrlView,
    Seq<char>,
>;

/// A path in the form of this machine's operating system, which is only
/// carried along.
#[verifier::external_type_specification]
#[verifier::external_body]
pub struct ExPathBuf(PathBuf);

/// The bytes that a path consists of.
pub uninterp spec fn path_bytes(path: PathBuf) -> Seq<u8>;

/// The path that a URL names on machines of the kind `target`, if it names
/// one there.
pub uninterp spec fn file_path_on(target: int, url: Seq<char>) -> Option<Seq<u8>>;

/// The extension that a path has on machines of the kind `target`, if it has
/// one there that is valid Unicode.
pub uninterp spec fn extension_on(target: int, path: Seq<u8>) -> Option<Seq<char>>;

/// A path on this machine, with its extension where it has one that is valid
/// Unicode.
#[derive(Debug)]
pub struct FilePath {
    pub path: PathBuf,
    pub extension: Option<String>,
}

/// A path, as its bytes, with its extension.
pub struct FilePathView {
    pub path: Seq<u8>,
    pub extension: Option<Seq<char>>,
}

impl View for FilePath {
    type V = FilePathView;

    open spec fn view(&self) -> FilePathView {
        FilePathView { path: path_bytes(self.path), extension: text_of(self.extension) }
    }
}

/// The path in an optional one.
pub open spec fn file_of(file: Option<FilePath>) -> Option<FilePathView> {
    match file {
        Some(file) => Some(file@),
        None => None,
    }
}

/// The path that a URL names on machines of the kind `target`, with the
/// extension that it has on those of the kind `reader`.
pub open spec fn file_on(target: int, reader: int, url: Seq<char>) -> Option<FilePathView> {
    match file_path_on(target, url) {
        Some(path) => Some(FilePathView { path, extension: extension_on(reader, path) }),
        None => None,
    }
}

/// Calls `url::Url::parse`, which implements the WHATWG URL standard, and
/// takes the URL apart; the error is given by its message. What comes out
/// depends on `text` alone and is named `url_parsed`.
#[verifier::external_body]
fn parse_url(text: &str) -> (r: Result<Url, String>)
    ensures
        match url_parsed(text@) {
            Ok(url) => r matches Ok(u) && u@ == url,
            Err(reason) => r matches Err(e) && e@ == reason,
        },
{
    match url::Url::parse(text) {
        Ok(u) => Ok(Url {
            text: u.as_str().to_string(),
            scheme: u.scheme().to_string(),
            host_text: u.host_str().map(|h| h.to_string()),
            host: u.host().map(|h| match h {
                url::Host::Domain(domain) => Host::Domain(domain.to_string()),
                url::Host::Ipv4(ip) => Host::Ipv4(Ipv4Addr { octets: ip.octets() }),
                url::Host::Ipv6(ip) => Host::Ipv6(Ipv6Addr { segments: ip.segments() }),
            }),
        }),
        Err(e) => Err(e.to_string()),
    }
}

/// Calls `url::Url::join` on the URL that `base` spells, and takes the
/// resulting URL apart; an error, of `base` too, is given by its message. What
/// comes out depends on the two texts alone and is named `url_joined`.
#[verifier::external_body]
fn join_url(base: &str, reference: &str) -> (r: Result<Url, String>)
    ensures
        match url_joined(base@, reference@) {
            Ok(url) => r matches Ok(u) && u@ == url,
            Err(reason) => r matches Err(e) && e@ == reason,
        },
{
    match url::Url::parse(base).and_then(|b| b.join(reference)) {
        Ok(u) => Ok(Url {
            text: u.as_str().to_string(),
            scheme: u.scheme().to_string(),
            host_text: u.host_str().map(|h| h.to_string()),
            host: u.host().map(|h| match h {
                url::Host::Domain(domain) => Host::Domain(domain.to_string()),
                url::Host::Ipv4(ip) => Host::Ipv4(Ipv4Addr { octets: ip.octets() }),
                url::Host::Ipv6(ip) => Host::Ipv6(Ipv6Addr { segments: ip.segments() }),
            }),
        }),
        Err(e) => Err(e.to_string()),
    }
}

/// Calls `url::Url::to_file_path` on the URL that `text` spells; a text that
/// is no URL names no path. Which URLs name a path, and what the path is,
/// differs between operating systems: the result is the one that
/// `file_path_on` names for some kind of machine, and which kind is left open.
#[verifier::external_body]
fn path_named_by(text: &str) -> (r: Option<PathBuf>)
    ensures
        exists|target: int| #[trigger]
            file_path_on(target, text@) == match r {
                Some(path) => Some(path_bytes(path)),
                None => None,
            },
{
    url::Url::parse(text).ok().and_then(|u| u.to_file_path().ok())
}

/// Calls `std::path::Path::extension`, which gives what follows the last dot
/// of the file name, and drops an extension that is not valid Unicode. What
/// the file name is differs between operating systems: the result is the one
/// that `extension_on` names for some kind of machine, and which kind is left
/// open.
#[verifier::external_body]
fn extension_of(path: &PathBuf) -> (r: Option<String>)
    ensures
        exists|target: int| #[trigger]
            extension_on(target, path_bytes(*path)) == text_of(r),
{
    path.extension().and_then(|extension| extension.to_str()).map(|text| text.to_string())
}

/// The path on this machine that a URL names, with its extension.
pub fn url_file_path(text: &str) -> (r: Option<FilePath>)
    ensures
        exists|target: int, reader: int| #[trigger]
            file_on(target, reader, text@) == file_of(r),
{
    let named = path_named_by(text);
    let ghost target = choose|target: int| #[trigger]
        file_path_on(target, text@) == match named {
            Some(path) => Some(path_bytes(path)),
            None => None,
        };
    match named {
        Some(path) => {
            let extension = extension_of(&path);
            let ghost reader = choose|reader: int| #[trigger]
                extension_on(reader, path_bytes(path)) == text_of(extension);
            let file = FilePath { path, extension };
            assert(file_on(target, reader, text@) == Some(file@));
            Some(file)
        },
        None => {
            assert(file_on(target, target, text@) == None::<FilePathView>);
            None
        },
    }
}

impl Url {
    /// Parses an absolute URL.
    pub fn parse(text: &str) -> (r: Result<Url, String>)
        ensures
            match url_parsed(text@) {
                Ok(url) => r matches Ok(u) && u@ == url,
                Err(reason) => r matches Err(e) && e@ == reason,
            },
    {
        parse_url(text)
    }

    /// Resolves a reference, such as a redirect's target, against this URL.
    pub fn join(&self, reference: &str) -> (r: Result<Url, String>)
        ensures
            match url_joined(self@.text, reference@) {
                Ok(url) => r matches Ok(u) && u@ == url,
                Err(reason) => r matches Err(e) && e@ == reason,
            },
    {
        join_url(self.text.as_str(), reference)
    }

    /// The whole URL.
    pub fn as_str(&self) -> (r: &str)
        ensures
            r@ == self@.text,
    {
        self.text.as_str()
    }

    /// The scheme, without its colon.
    pub fn scheme(&self) -> (r: &str)
        ensures
            r@ == self@.scheme,
    {
        self.scheme.as_str()
    }
}

} // verus!
