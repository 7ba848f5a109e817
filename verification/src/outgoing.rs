//! The headers of an outgoing request.
use reqwest::header::{HeaderMap, HeaderValue};
use vstd::prelude::*;
use vstd::string::*;
use vstd::utf8::encode_utf8;

use crate::header_map::{
    append, empty_map, header_values, insert, is_value, name_text, parse_name, stored_name,
    value_text, HeaderValues,
};
use crate::headers::{HeaderTable, Pairs};
use crate::text::{ascii_lower, joined, lemma_first_occurrence, parts, split_once};

verus! {

pub const USER_AGENT: &'static str = "Mozilla/5.0 (X11; Linux x86_64) AppleWebKit/537.36 (KHTML, like Gecko) Chrome/145.0.0.0 Safari/537.36";

pub const ACCEPT: &'static str = "text/html,application/xhtml+xml,application/xml;q=0.9,image/avif,image/webp,image/apng,*/*;q=0.8,application/signed-exchange;v=b3;q=0.7";

pub const ACCEPT_LANGUAGE: &'static str = "en-US,en;q=0.9";

pub const SEC_CH_UA: &'static str = "\"Chromium\";v=\"145\", \"Not;A=Brand\";v=\"24\", \"Google Chrome\";v=\"145\"";

pub const FORM: &'static str = "application/x-www-form-urlencoded";

/// What separates the cookies in a `Cookie` header.
pub const COOKIE_SEPARATOR: &'static str = "; ";

/// The cookies, among these, that a header value may hold.
pub open spec fn sendable(cookies: Seq<Seq<char>>) -> Seq<Seq<char>> {
    cookies.filter(|cookie: Seq<char>| value_text(cookie))
}

/// The `Cookie` header to send for a list of cookies: all of it if it may
/// stand in a header, else without the cookies that may not.
pub open spec fn cookie_value(cookies: Seq<char>) -> Seq<char> {
    if value_text(cookies) {
        cookies
    } else {
        joined(sendable(parts(cookies, COOKIE_SEPARATOR@)), COOKIE_SEPARATOR@)
    }
}

proof fn lemma_joined_push(cookies: Seq<Seq<char>>, cookie: Seq<char>, separator: Seq<char>)
    ensures
        joined(cookies.push(cookie), separator) == if cookies.len() == 0 {
            cookie
        } else {
            joined(cookies, separator) + separator + cookie
        },
{
    assert(cookies.push(cookie).drop_last() == cookies);
}

proof fn lemma_joined_value_text(cookies: Seq<Seq<char>>, separator: Seq<char>)
    requires
        value_text(separator),
        forall|i: int| 0 <= i < cookies.len() ==> value_text(#[trigger] cookies[i]),
    ensures
        value_text(joined(cookies, separator)),
    decreases cookies.len(),
{
    if cookies.len() > 1 {
        lemma_joined_value_text(cookies.drop_last(), separator);
    }
}

/// A cookie header that holds what a header value may not hold still sends a
/// value that one may.
pub proof fn lemma_cookie_value(cookies: Seq<char>)
    ensures
        value_text(cookie_value(cookies)),
{
    reveal_strlit("; ");
    let valid = |cookie: Seq<char>| value_text(cookie);
    let list = parts(cookies, COOKIE_SEPARATOR@);
    assert forall|i: int| 0 <= i < sendable(list).len() implies value_text(
        #[trigger] sendable(list)[i],
    ) by {
        list.lemma_filter_pred(valid, i);
    }
    lemma_joined_value_text(sendable(list), COOKIE_SEPARATOR@);
}

/// The `Cookie` header to send for a list of cookies.
pub fn cookie_header(cookies: &str) -> (r: String)
    ensures
        r@ == cookie_value(cookies@),
{
    if is_value(cookies) {
        return cookies.to_string();
    }
    let mut out = String::new();
    let mut empty = true;
    let mut rest = cookies;
    let mut more = true;
    let ghost valid = |cookie: Seq<char>| value_text(cookie);
    let ghost mut done: Seq<Seq<char>> = Seq::empty();
    proof {
        reveal_strlit("; ");
        assert(done + parts(cookies@, COOKIE_SEPARATOR@) == parts(cookies@, COOKIE_SEPARATOR@));
        assert(sendable(done) == Seq::<Seq<char>>::empty()) by {
            reveal(Seq::filter);
        }
    }
    while more
        invariant
            COOKIE_SEPARATOR@.len() > 0,
            more ==> parts(cookies@, COOKIE_SEPARATOR@) == done + parts(
                rest@,
                COOKIE_SEPARATOR@,
            ),
            !more ==> parts(cookies@, COOKIE_SEPARATOR@) == done,
            out@ == joined(sendable(done), COOKIE_SEPARATOR@),
            empty == (sendable(done).len() == 0),
        decreases (if more { 1 + rest@.len() } else { 0 }),
    {
        let ghost before = rest@;
        let found = split_once(rest, COOKIE_SEPARATOR);
        let cookie = match found {
            Some((cookie, after)) => {
                proof {
                    lemma_first_occurrence(rest@, COOKIE_SEPARATOR@, 0);
                }
                rest = after;
                cookie
            },
            None => {
                more = false;
                rest
            },
        };
        let ghost kept = sendable(done);
        if is_value(cookie) {
            if !empty {
                out.append(COOKIE_SEPARATOR);
            }
            out.append(cookie);
            empty = false;
        }
        proof {
            lemma_joined_push(kept, cookie@, COOKIE_SEPARATOR@);
            lemma_sendable_push(done, cookie@);
            let earlier = done;
            done = done.push(cookie@);
            assert(earlier + (seq![cookie@] + parts(rest@, COOKIE_SEPARATOR@)) == done + parts(
                rest@,
                COOKIE_SEPARATOR@,
            ));
            assert(earlier + seq![cookie@] == done);
        }
    }
    out
}

proof fn lemma_sendable_push(cookies: Seq<Seq<char>>, cookie: Seq<char>)
    ensures
        sendable(cookies.push(cookie)) == if value_text(cookie) {
            sendable(cookies).push(cookie)
        } else {
            sendable(cookies)
        },
{
    reveal(Seq::filter);
    assert(cookies.push(cookie).drop_last() == cookies);
}

/// The header values that consist of one text.
pub open spec fn one(value: Seq<char>) -> Seq<Seq<u8>> {
    seq![encode_utf8(value)]
}

/// The user agent to send: the client's own, or the default one if a header
/// may not hold it.
pub open spec fn user_agent_value(user_agent: Seq<char>) -> Seq<char> {
    if value_text(user_agent) {
        user_agent
    } else {
        USER_AGENT@
    }
}

/// The headers that every request has: those of a browser that navigates to
/// a document.
pub open spec fn browser_headers(user_agent: Seq<char>) -> HeaderValues {
    HeaderValues::empty().insert("user-agent"@, one(user_agent_value(user_agent))).insert(
        "accept"@,
        one(ACCEPT@),
    ).insert("accept-language"@, one(ACCEPT_LANGUAGE@)).insert("sec-ch-ua"@, one(SEC_CH_UA@)).insert(
        "sec-ch-ua-mobile"@,
        one("?0"@),
    ).insert("sec-ch-ua-platform"@, one("\"Linux\""@)).insert(
        "sec-fetch-dest"@,
        one("document"@),
    ).insert("sec-fetch-mode"@, one("navigate"@)).insert("sec-fetch-site"@, one("none"@)).insert(
        "sec-fetch-user"@,
        one("?1"@),
    ).insert("upgrade-insecure-requests"@, one("1"@))
}

/// `headers` with a `Cookie` header for these cookies, if there are any to
/// send.
pub open spec fn with_cookies(headers: HeaderValues, cookies: Seq<char>) -> HeaderValues {
    if cookie_value(cookies).len() > 0 {
        headers.insert("cookie"@, one(cookie_value(cookies)))
    } else {
        headers
    }
}

/// `headers` with the extra ones set, one after the other; a name or a value
/// that no header may have is passed over.
pub open spec fn with_extra(headers: HeaderValues, extra: Pairs) -> HeaderValues
    decreases extra.len(),
{
    if extra.len() == 0 {
        headers
    } else {
        let rest = with_extra(headers, extra.drop_last());
        let (name, value) = extra.last();
        if name_text(name) && value_text(value) {
            rest.insert(ascii_lower(name), one(value))
        } else {
            rest
        }
    }
}

/// The headers of a request before those of its body.
pub open spec fn all_headers(user_agent: Seq<char>, cookies: Seq<char>, extra: Pairs) -> HeaderValues {
    with_extra(with_cookies(browser_headers(user_agent), cookies), extra)
}

/// How many of the extra headers have a name and a value that a header may
/// have.
pub open spec fn usable_count(extra: Pairs) -> nat
    decreases extra.len(),
{
    if extra.len() == 0 {
        0
    } else {
        let (name, value) = extra.last();
        let rest = usable_count(extra.drop_last());
        if name_text(name) && value_text(value) {
            rest + 1
        } else {
            rest
        }
    }
}

/// How many usable extra headers a request can have in any case: with them and
/// its own ones, its header map does not outgrow what it can hold.
pub const MAX_EXTRA: usize = 6541;

/// The first extra headers are no more usable ones than all of them.
proof fn lemma_usable_count(extra: Pairs, n: int)
    requires
        0 <= n <= extra.len(),
    ensures
        usable_count(extra.take(n)) <= usable_count(extra) <= extra.len(),
    decreases extra.len(),
{
    if extra.len() > 0 {
        let rest = extra.drop_last();
        if n < extra.len() {
            lemma_usable_count(rest, n);
            assert(rest.take(n) == extra.take(n));
        } else {
            lemma_usable_count(rest, rest.len() as int);
            assert(extra.take(n) == extra);
        }
    }
}

proof fn lemma_names()
    ensures
        stored_name("user-agent"@),
        stored_name("accept"@),
        stored_name("accept-language"@),
        stored_name("sec-ch-ua"@),
        stored_name("sec-ch-ua-mobile"@),
        stored_name("sec-ch-ua-platform"@),
        stored_name("sec-fetch-dest"@),
        stored_name("sec-fetch-mode"@),
        stored_name("sec-fetch-site"@),
        stored_name("sec-fetch-user"@),
        stored_name("upgrade-insecure-requests"@),
        stored_name("cookie"@),
        stored_name("content-type"@),
{
    reveal_strlit("user-agent");
    reveal_strlit("accept");
    reveal_strlit("accept-language");
    reveal_strlit("sec-ch-ua");
    reveal_strlit("sec-ch-ua-mobile");
    reveal_strlit("sec-ch-ua-platform");
    reveal_strlit("sec-fetch-dest");
    reveal_strlit("sec-fetch-mode");
    reveal_strlit("sec-fetch-site");
    reveal_strlit("sec-fetch-user");
    reveal_strlit("upgrade-insecure-requests");
    reveal_strlit("cookie");
    reveal_strlit("content-type");
    assert(ascii_lower("user-agent"@) == "user-agent"@);
    assert(ascii_lower("accept"@) == "accept"@);
    assert(ascii_lower("accept-language"@) == "accept-language"@);
    assert(ascii_lower("sec-ch-ua"@) == "sec-ch-ua"@);
    assert(ascii_lower("sec-ch-ua-mobile"@) == "sec-ch-ua-mobile"@);
    assert(ascii_lower("sec-ch-ua-platform"@) == "sec-ch-ua-platform"@);
    assert(ascii_lower("sec-fetch-dest"@) == "sec-fetch-dest"@);
    assert(ascii_lower("sec-fetch-mode"@) == "sec-fetch-mode"@);
    assert(ascii_lower("sec-fetch-site"@) == "sec-fetch-site"@);
    assert(ascii_lower("sec-fetch-user"@) == "sec-fetch-user"@);
    assert(ascii_lower("upgrade-insecure-requests"@) == "upgrade-insecure-requests"@);
    assert(ascii_lower("cookie"@) == "cookie"@);
    assert(ascii_lower("content-type"@) == "content-type"@);
}

proof fn lemma_values()
    ensures
        value_text(USER_AGENT@),
        value_text(ACCEPT@),
        value_text(ACCEPT_LANGUAGE@),
        value_text(SEC_CH_UA@),
        value_text("?0"@),
        value_text("\"Linux\""@),
        value_text("document"@),
        value_text("navigate"@),
        value_text("none"@),
        value_text("?1"@),
        value_text("1"@),
        value_text(FORM@),
{
    reveal_strlit("Mozilla/5.0 (X11; Linux x86_64) AppleWebKit/537.36 (KHTML, like Gecko) Chrome/145.0.0.0 Safari/537.36");
    reveal_strlit("text/html,application/xhtml+xml,application/xml;q=0.9,image/avif,image/webp,image/apng,*/*;q=0.8,application/signed-exchange;v=b3;q=0.7");
    reveal_strlit("en-US,en;q=0.9");
    reveal_strlit("\"Chromium\";v=\"145\", \"Not;A=Brand\";v=\"24\", \"Google Chrome\";v=\"145\"");
    reveal_strlit("?0");
    reveal_strlit("\"Linux\"");
    reveal_strlit("document");
    reveal_strlit("navigate");
    reveal_strlit("none");
    reveal_strlit("?1");
    reveal_strlit("1");
    reveal_strlit("application/x-www-form-urlencoded");
}

/// The headers of a request before those of its body: the browser's, the
/// cookies, and the extra ones, which win over the others. There are none if
/// the header map cannot hold so many.
pub fn request_headers(user_agent: &str, cookies: &str, extra: &HeaderTable) -> (r: Option<
    HeaderMap<HeaderValue>,
>)
    ensures
        usable_count(extra@) <= MAX_EXTRA ==> r is Some,
        extra@.len() <= 6541 ==> r is Some,
        r matches Some(map) ==> header_values(map) == all_headers(user_agent@, cookies@, extra@),
        r matches Some(map) ==> header_values(map).dom().finite() && header_values(map).dom().len()
            <= 12 + usable_count(extra@) <= 12 + extra@.len(),
{
    proof {
        lemma_names();
        lemma_values();
    }
    let mut headers = empty_map();
    if is_value(user_agent) {
        insert(&mut headers, "user-agent", user_agent);
    } else {
        insert(&mut headers, "user-agent", USER_AGENT);
    }
    insert(&mut headers, "accept", ACCEPT);
    insert(&mut headers, "accept-language", ACCEPT_LANGUAGE);
    insert(&mut headers, "sec-ch-ua", SEC_CH_UA);
    insert(&mut headers, "sec-ch-ua-mobile", "?0");
    insert(&mut headers, "sec-ch-ua-platform", "\"Linux\"");
    insert(&mut headers, "sec-fetch-dest", "document");
    insert(&mut headers, "sec-fetch-mode", "navigate");
    insert(&mut headers, "sec-fetch-site", "none");
    insert(&mut headers, "sec-fetch-user", "?1");
    insert(&mut headers, "upgrade-insecure-requests", "1");
    assert(header_values(headers) == browser_headers(user_agent@));
    let cookie = cookie_header(cookies);
    if !cookie.as_str().is_empty() {
        proof {
            lemma_cookie_value(cookies@);
        }
        insert(&mut headers, "cookie", cookie.as_str());
    }
    let ghost base = header_values(headers);
    proof {
        lemma_usable_count(extra@, 0);
    }
    let count: usize = extra.len();
    for i in 0..count
        invariant
            count == extra@.len(),
            header_values(headers) == with_extra(base, extra@.take(i as int)),
            header_values(headers).dom().finite(),
            header_values(headers).dom().len() <= 12 + usable_count(extra@.take(i as int)),
    {
        let (name, value) = extra.entry(i);
        assert(extra@.take(i + 1).drop_last() == extra@.take(i as int));
        proof {
            lemma_usable_count(extra@, i + 1);
        }
        match parse_name(name) {
            Some(stored) => {
                if is_value(value) {
                    proof {
                        lemma_lower_is_stored(name@);
                    }
                    if !insert(&mut headers, stored.as_str(), value) {
                        return None;
                    }
                }
            },
            None => {},
        }
    }
    assert(extra@.take(extra@.len() as int) == extra@);
    Some(headers)
}

/// The lower case of a header name is in the form in which maps hold names.
proof fn lemma_lower_is_stored(name: Seq<char>)
    requires
        name_text(name),
    ensures
        stored_name(ascii_lower(name)),
{
    assert(ascii_lower(ascii_lower(name)) == ascii_lower(name));
}

} // verus!
