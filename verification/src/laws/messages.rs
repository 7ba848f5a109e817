//! Tables of headers, what requests look like, and what is read off responses.
use reqwest::header::{HeaderMap, HeaderValue};
use vstd::prelude::*;
use vstd::utf8::encode_utf8;

use crate::fetch::with_body_type;
use crate::header_map::{
    header_values, kept_value, response_pairs, text_of_value, texts, value_text, values_of,
    HeaderValues, MAX_NAMES,
};
use crate::headers::{
    distinct, lemma_lookup_at, lemma_with_pair, lookup, merged, named, named_at, with_pair, Pairs,
};
use crate::laws::texts::{between, law_occurrences};
use crate::laws::{law_merged, law_other_headers_stay, usable};
use crate::outgoing::{
    all_headers, browser_headers, cookie_value, usable_count, with_cookies, MAX_EXTRA,
};
use crate::response::{file_headers, media_type, ResponseView};
use crate::text::{ascii_lower, joined, lowercase, parts};

verus! {

/// A name is looked up to the value that stands beside it, and to none if it
/// does not occur.
pub proof fn law_lookup(pairs: Pairs, name: Seq<char>, i: int)
    requires
        forall|a: int, b: int|
            0 <= a < b < pairs.len() ==> (#[trigger] pairs[a]).0 != (#[trigger] pairs[b]).0,
    ensures
        0 <= i < pairs.len() && pairs[i].0 == name ==> lookup(pairs, name) == Some(pairs[i].1),
        (forall|k: int| 0 <= k < pairs.len() ==> (#[trigger] pairs[k]).0 != name) ==> lookup(
            pairs,
            name,
        ) is None,
        distinct(pairs),
{
    assert(distinct(pairs));
    if 0 <= i < pairs.len() && pairs[i].0 == name {
        lemma_lookup_at(pairs, i);
    }
    if forall|k: int| 0 <= k < pairs.len() ==> (#[trigger] pairs[k]).0 != name {
        assert forall|k: int| !named_at(pairs, k, name) by {}
    }
}

/// After a name was set, it has the value, and every other name the one that it
/// had, or none. No name is lost, and none but this one is new.
pub proof fn law_with_pair(pairs: Pairs, name: Seq<char>, value: Seq<char>, other: Seq<char>)
    requires
        distinct(pairs),
    ensures
        lookup(with_pair(pairs, name, value), name) == Some(value),
        other != name ==> lookup(with_pair(pairs, name, value), other) == lookup(pairs, other),
        with_pair(pairs, name, value).len() == pairs.len() + if lookup(pairs, name) is Some {
            0int
        } else {
            1
        },
{
    lemma_with_pair(pairs, name, value);
}

/// After headers were merged into a table, those that were merged have their
/// values, and the others the ones that they had.
pub proof fn law_merged_values(pairs: Pairs, more: Pairs, i: int, name: Seq<char>)
    requires
        distinct(pairs),
        distinct(more),
    ensures
        0 <= i < more.len() ==> lookup(merged(pairs, more), more[i].0) == Some(more[i].1),
        (forall|k: int| 0 <= k < more.len() ==> (#[trigger] more[k]).0 != name) ==> lookup(
            merged(pairs, more),
            name,
        ) == lookup(pairs, name),
{
    if 0 <= i < more.len() {
        law_merged(pairs, more, more[i].0);
        assert(named_at(more, i, more[i].0));
        lemma_lookup_at(more, i);
    }
    if forall|k: int| 0 <= k < more.len() ==> (#[trigger] more[k]).0 != name {
        law_merged(pairs, more, name);
        assert forall|k: int| !named_at(more, k, name) by {}
        assert(!named(more, name));
    }
}

/// A received value is text exactly if it consists of visible ASCII characters,
/// spaces and tabs, and then it is read as these characters.
pub proof fn law_received_text(bytes: Seq<u8>)
    ensures
        match text_of_value(bytes) {
            Some(text) => {
                &&& text.len() == bytes.len()
                &&& forall|i: int|
                    0 <= i < bytes.len() ==> #[trigger] text[i] as int == bytes[i] as int && (32
                        <= bytes[i] <= 126 || bytes[i] == 9)
            },
            None => exists|i: int|
                0 <= i < bytes.len() && (#[trigger] bytes[i] < 32 && bytes[i] != 9 || bytes[i]
                    > 126),
        },
{
}

/// Of the values received under a name the last one is kept, as text, or as the
/// empty text if it is none.
pub proof fn law_last_value_is_kept(values: Seq<Seq<u8>>, last: Seq<u8>)
    ensures
        kept_value(Seq::empty()) is None,
        kept_value(values.push(last)) == Some(
            match text_of_value(last) {
                Some(text) => text,
                None => Seq::empty(),
            },
        ),
{
    assert(values.push(last).last() == last);
}

/// The cookies to set are all the values that are text, in their order.
pub proof fn law_cookies_to_set(values: Seq<Seq<u8>>, last: Seq<u8>)
    ensures
        texts(Seq::empty()) == Seq::<Seq<char>>::empty(),
        texts(values.push(last)) == match text_of_value(last) {
            Some(text) => texts(values).push(text),
            None => texts(values),
        },
{
    assert(values.push(last).drop_last() == values);
}

/// The headers of a response are those that were received, and no others: each
/// name that has values stands there, with the last one of them.
pub proof fn law_headers_are_those_received(
    received: HeaderMap<HeaderValue>,
    pairs: Pairs,
    name: Seq<char>,
    values: Seq<Seq<u8>>,
    last: Seq<u8>,
    i: int,
)
    requires
        response_pairs(received, pairs),
    ensures
        header_values(received).dom().contains(name) && header_values(received)[name]
            == values.push(last) ==> exists|k: int|
            {
                &&& 0 <= k < pairs.len()
                &&& (#[trigger] pairs[k]).0 == name
                &&& pairs[k].1 == match text_of_value(last) {
                    Some(text) => text,
                    None => Seq::empty(),
                }
            },
        0 <= i < pairs.len() ==> header_values(received).dom().contains(pairs[i].0)
            && header_values(received)[pairs[i].0].len() > 0,
        forall|a: int, b: int|
            0 <= a < b < pairs.len() ==> (#[trigger] pairs[a]).0 != (#[trigger] pairs[b]).0,
{
    law_last_value_is_kept(values, last);
    if header_values(received).dom().contains(name) && header_values(received)[name]
        == values.push(last) {
        assert(values_of(received, name) == values.push(last));
        assert(lookup(pairs, name) == kept_value(values_of(received, name)));
        let k = choose|k: int| named_at(pairs, k, name);
        assert(pairs[k].0 == name);
    }
    if 0 <= i < pairs.len() {
        lemma_lookup_at(pairs, i);
        assert(lookup(pairs, pairs[i].0) == kept_value(values_of(received, pairs[i].0)));
    }
}

/// A header of a response is asked for by its name in any case, and is the value
/// beside the name in lower case.
pub proof fn law_headers_are_found(response: ResponseView, name: Seq<char>, i: int)
    requires
        distinct(response.headers),
    ensures
        0 <= i < response.headers.len() && response.headers[i].0 == lowercase(name)
            ==> response.header(name) == Some(response.headers[i].1),
        (forall|k: int|
            0 <= k < response.headers.len() ==> (#[trigger] response.headers[k]).0 != lowercase(
                name,
            )) ==> response.header(name) is None,
        0 <= i < response.headers.len() && response.headers[i].0 == "content-type"@
            ==> response.content_type() == Some(response.headers[i].1),
        (forall|k: int|
            0 <= k < response.headers.len() ==> (#[trigger] response.headers[k]).0
                != "content-type"@) ==> response.content_type() is None,
{
    law_lookup(response.headers, lowercase(name), i);
    law_lookup(response.headers, "content-type"@, i);
}

/// A response is HTML exactly if its content type has `text/html` in it.
pub proof fn law_html(response: ResponseView)
    ensures
        response.is_html() <==> {
            &&& response.content_type() matches Some(kind)
            &&& exists|before: Seq<char>, after: Seq<char>|
                kind == #[trigger] between(before, "text/html"@, after)
        },
{
    match response.content_type() {
        Some(kind) => {
            law_occurrences(kind, "text/html"@);
        },
        None => {},
    }
}

proof fn lemma_extensions_differ()
    ensures
        "html"@ =~= seq!['h', 't', 'm', 'l'],
        "htm"@ =~= seq!['h', 't', 'm'],
        "css"@ =~= seq!['c', 's', 's'],
        "js"@ =~= seq!['j', 's'],
        "mjs"@ =~= seq!['m', 'j', 's'],
        "json"@ =~= seq!['j', 's', 'o', 'n'],
        "png"@ =~= seq!['p', 'n', 'g'],
        "jpg"@ =~= seq!['j', 'p', 'g'],
        "jpeg"@ =~= seq!['j', 'p', 'e', 'g'],
        "gif"@ =~= seq!['g', 'i', 'f'],
        "svg"@ =~= seq!['s', 'v', 'g'],
        "webp"@ =~= seq!['w', 'e', 'b', 'p'],
        "ico"@ =~= seq!['i', 'c', 'o'],
{
    reveal_strlit("html");
    reveal_strlit("htm");
    reveal_strlit("css");
    reveal_strlit("js");
    reveal_strlit("mjs");
    reveal_strlit("json");
    reveal_strlit("png");
    reveal_strlit("jpg");
    reveal_strlit("jpeg");
    reveal_strlit("gif");
    reveal_strlit("svg");
    reveal_strlit("webp");
    reveal_strlit("ico");
}

/// `kind` is the content type that browsers give files with the extension `e`,
/// which is in lower case.
pub open spec fn type_of_files(e: Seq<char>, kind: Seq<char>) -> bool {
    &&& e == "html"@ || e == "htm"@ <==> kind == "text/html"@
    &&& e == "css"@ <==> kind == "text/css"@
    &&& e == "js"@ || e == "mjs"@ <==> kind == "application/javascript"@
    &&& e == "json"@ <==> kind == "application/json"@
    &&& e == "png"@ <==> kind == "image/png"@
    &&& e == "jpg"@ || e == "jpeg"@ <==> kind == "image/jpeg"@
    &&& e == "gif"@ <==> kind == "image/gif"@
    &&& e == "svg"@ <==> kind == "image/svg+xml"@
    &&& e == "webp"@ <==> kind == "image/webp"@
    &&& e == "ico"@ <==> kind == "image/x-icon"@
    &&& !(e == "html"@ || e == "htm"@ || e == "css"@ || e == "js"@ || e == "mjs"@ || e == "json"@
        || e == "png"@ || e == "jpg"@ || e == "jpeg"@ || e == "gif"@ || e == "svg"@ || e == "webp"@
        || e == "ico"@) <==> kind == "application/octet-stream"@
}

/// Each known extension has its content type, and all others are plain bytes.
pub proof fn law_media_types(e: Seq<char>)
    ensures
        type_of_files(e, media_type(e)),
{
    lemma_extensions_differ();
    let (html, css, js, json, png) = (
        "text/html"@,
        "text/css"@,
        "application/javascript"@,
        "application/json"@,
        "image/png"@,
    );
    let (jpeg, gif, svg, webp, ico, bytes) = (
        "image/jpeg"@,
        "image/gif"@,
        "image/svg+xml"@,
        "image/webp"@,
        "image/x-icon"@,
        "application/octet-stream"@,
    );
    reveal_strlit("text/html");
    reveal_strlit("text/css");
    reveal_strlit("application/javascript");
    reveal_strlit("application/json");
    reveal_strlit("image/png");
    reveal_strlit("image/jpeg");
    reveal_strlit("image/gif");
    reveal_strlit("image/svg+xml");
    reveal_strlit("image/webp");
    reveal_strlit("image/x-icon");
    reveal_strlit("application/octet-stream");
    assert(html.len() == 9 && css.len() == 8 && js.len() == 22 && json.len() == 16 && png.len()
        == 9 && jpeg.len() == 10 && gif.len() == 9 && svg.len() == 13 && webp.len() == 10
        && ico.len() == 12 && bytes.len() == 24);
    assert(html[0] == 't' && png[0] == 'i' && gif[0] == 'i');
    assert(png[6] == 'p' && gif[6] == 'g' && jpeg[6] == 'j' && webp[6] == 'w');
    assert("htm"@.len() == 3 && "css"@.len() == 3 && "mjs"@.len() == 3 && "png"@.len() == 3);
    assert("htm"@[0] == 'h' && "css"@[0] == 'c' && "mjs"@[0] == 'm' && "png"@[0] == 'p'
        && "jpg"@[0] == 'j' && "gif"@[0] == 'g' && "svg"@[0] == 's' && "ico"@[0] == 'i');
    assert("html"@.len() == 4 && "json"@.len() == 4 && "jpeg"@.len() == 4 && "webp"@.len() == 4
        && "js"@.len() == 2);
    assert("html"@[0] == 'h' && "json"@[1] == 's' && "jpeg"@[1] == 'p' && "webp"@[0] == 'w'
        && "json"@[0] == 'j' && "jpeg"@[0] == 'j');
}

/// The one header of a file with an extension is its content type, that of the
/// extension in lower case; a file without one has no header.
pub proof fn law_headers_of_files(extension: Option<Seq<char>>)
    ensures
        match extension {
            Some(e) => {
                &&& file_headers(extension).len() == 1
                &&& file_headers(extension)[0].0 == "content-type"@
                &&& type_of_files(lowercase(e), file_headers(extension)[0].1)
            },
            None => file_headers(extension).len() == 0,
        },
{
    match extension {
        Some(e) => {
            law_media_types(lowercase(e));
        },
        None => {},
    }
}

/// No usable extra header has this name.
pub open spec fn not_extra(extra: Pairs, name: Seq<char>) -> bool {
    forall|j: int| #[trigger] usable(extra, j) ==> ascii_lower(extra[j].0) != name
}

/// The header `name` has exactly this one value.
pub open spec fn has_one(headers: HeaderValues, name: Seq<char>, value: Seq<char>) -> bool {
    headers.dom().contains(name) && headers[name] == seq![encode_utf8(value)]
}

proof fn lemma_names_differ()
    ensures
        "user-agent"@.len() == 10,
        "accept"@.len() == 6,
        "accept"@[0] == 'a',
        "accept-language"@.len() == 15,
        "sec-ch-ua"@.len() == 9,
        "sec-ch-ua-mobile"@.len() == 16,
        "sec-ch-ua-platform"@.len() == 18,
        "sec-fetch-dest"@.len() == 14,
        "sec-fetch-dest"@[10] == 'd',
        "sec-fetch-mode"@.len() == 14,
        "sec-fetch-mode"@[10] == 'm',
        "sec-fetch-site"@.len() == 14,
        "sec-fetch-site"@[10] == 's',
        "sec-fetch-user"@.len() == 14,
        "sec-fetch-user"@[10] == 'u',
        "upgrade-insecure-requests"@.len() == 25,
        "cookie"@.len() == 6,
        "cookie"@[0] == 'c',
{
    reveal_strlit("user-agent");
    reveal_strlit("accept");
    reveal_strlit("accept-language");
    reveal_strlit("sec-ch-ua");
    reveal_strlit("sec-ch-ua-mobile");
    reveal_strlit("sec-ch-ua-platform");
    reveal_strlit("sec-fetch-dest");
    reveal_strlit("sec-fetch-mode");
    reveal_strlit("sec-fetch-site");
    reveal_strlit("sec-fetch-user");
    reveal_strlit("upgrade-insecure-requests");
    reveal_strlit("cookie");
}

/// A request has the headers of a browser that navigates to a document, with the
/// client's user agent if a header may hold it, and its cookies if there are any
/// to send; each of them unless an extra header of that name takes its place.
/// It has no other headers but the extra ones.
pub proof fn law_requests_look_like_a_browsers(
    user_agent: Seq<char>,
    cookies: Seq<char>,
    extra: Pairs,
    other: Seq<char>,
)
    ensures
        ({
            let sent = all_headers(user_agent, cookies, extra);
            &&& not_extra(extra, "user-agent"@) ==> has_one(
                sent,
                "user-agent"@,
                if value_text(user_agent) {
                    user_agent
                } else {
                    "Mozilla/5.0 (X11; Linux x86_64) AppleWebKit/537.36 (KHTML, like Gecko) Chrome/145.0.0.0 Safari/537.36"@
                },
            )
            &&& not_extra(extra, "accept"@) ==> has_one(
                sent,
                "accept"@,
                "text/html,application/xhtml+xml,application/xml;q=0.9,image/avif,image/webp,image/apng,*/*;q=0.8,application/signed-exchange;v=b3;q=0.7"@,
            )
            &&& not_extra(extra, "accept-language"@) ==> has_one(
                sent,
                "accept-language"@,
                "en-US,en;q=0.9"@,
            )
            &&& not_extra(extra, "sec-ch-ua"@) ==> has_one(
                sent,
                "sec-ch-ua"@,
                "\"Chromium\";v=\"145\", \"Not;A=Brand\";v=\"24\", \"Google Chrome\";v=\"145\""@,
            )
            &&& not_extra(extra, "sec-ch-ua-mobile"@) ==> has_one(
                sent,
                "sec-ch-ua-mobile"@,
                "?0"@,
            )
            &&& not_extra(extra, "sec-ch-ua-platform"@) ==> has_one(
                sent,
                "sec-ch-ua-platform"@,
                "\"Linux\""@,
            )
            &&& not_extra(extra, "sec-fetch-dest"@) ==> has_one(
                sent,
                "sec-fetch-dest"@,
                "document"@,
            )
            &&& not_extra(extra, "sec-fetch-mode"@) ==> has_one(
                sent,
                "sec-fetch-mode"@,
                "navigate"@,
            )
            &&& not_extra(extra, "sec-fetch-site"@) ==> has_one(sent, "sec-fetch-site"@, "none"@)
            &&& not_extra(extra, "sec-fetch-user"@) ==> has_one(sent, "sec-fetch-user"@, "?1"@)
            &&& not_extra(extra, "upgrade-insecure-requests"@) ==> has_one(
                sent,
                "upgrade-insecure-requests"@,
                "1"@,
            )
            &&& not_extra(extra, "cookie"@) ==> if cookie_value(cookies).len() > 0 {
                has_one(sent, "cookie"@, cookie_value(cookies))
            } else {
                !sent.dom().contains("cookie"@)
            }
            &&& not_extra(extra, other) && other != "user-agent"@ && other != "accept"@ && other
                != "accept-language"@ && other != "sec-ch-ua"@ && other != "sec-ch-ua-mobile"@
                && other != "sec-ch-ua-platform"@ && other != "sec-fetch-dest"@ && other
                != "sec-fetch-mode"@ && other != "sec-fetch-site"@ && other != "sec-fetch-user"@
                && other != "upgrade-insecure-requests"@ && other != "cookie"@
                ==> !sent.dom().contains(other)
        }),
{
    lemma_names_differ();
    let own = with_cookies(browser_headers(user_agent), cookies);
    assert forall|name: Seq<char>| #[trigger] not_extra(extra, name) implies {
        let sent = all_headers(user_agent, cookies, extra);
        &&& sent.dom().contains(name) == own.dom().contains(name)
        &&& own.dom().contains(name) ==> sent[name] == own[name]
    } by {
        law_other_headers_stay(own, extra, name);
    }
}

/// Cookies that a header may hold are sent as they are. Of others those are sent
/// that a header may hold, in their order and with `; ` between them; the rest
/// is left out.
pub proof fn law_sent_cookies(cookies: Seq<char>)
    ensures
        cookie_value(cookies) == if value_text(cookies) {
            cookies
        } else {
            joined(
                parts(cookies, "; "@).filter(
                    |cookie: Seq<char>|
                        forall|i: int|
                            0 <= i < cookie.len() ==> (#[trigger] cookie[i] == '\t' || ' '
                                <= cookie[i] && cookie[i] != '\x7f'),
                ),
                "; "@,
            )
        },
        value_text(cookies) <==> forall|i: int|
            0 <= i < cookies.len() ==> (#[trigger] cookies[i] == '\t' || ' ' <= cookies[i]
                && cookies[i] != '\x7f'),
{
    let direct = |cookie: Seq<char>|
        forall|i: int|
            0 <= i < cookie.len() ==> (#[trigger] cookie[i] == '\t' || ' ' <= cookie[i]
                && cookie[i] != '\x7f');
    let named = |cookie: Seq<char>| value_text(cookie);
    assert forall|cookie: Seq<char>| #[trigger] direct(cookie) == named(cookie) by {
        if direct(cookie) {
            assert(value_text(cookie));
        }
    }
    assert(direct =~= named);
}

/// The content type of a form is added to those that a `POST` request with a
/// body has already; all other headers stay, and so do all headers of other
/// requests.
pub proof fn law_body_types(
    headers: HeaderValues,
    method: Seq<char>,
    body: Option<Seq<u8>>,
    name: Seq<char>,
)
    ensures
        ({
            let sent = with_body_type(headers, method, body);
            if name == "content-type"@ && method == "POST"@ && body is Some {
                &&& sent.dom().contains(name)
                &&& sent[name] == (if headers.dom().contains(name) {
                    headers[name]
                } else {
                    Seq::empty()
                }).push(encode_utf8("application/x-www-form-urlencoded"@))
            } else {
                &&& sent.dom().contains(name) == headers.dom().contains(name)
                &&& headers.dom().contains(name) ==> sent[name] == headers[name]
            }
        }),
{
}

/// A request can be made with up to 6541 extra headers in any case: those that
/// are usable are no more than all of them.
pub proof fn law_room_for_headers(extra: Pairs)
    ensures
        usable_count(extra) <= extra.len(),
        MAX_EXTRA == 6541,
        MAX_NAMES == 6553,
    decreases extra.len(),
{
    if extra.len() > 0 {
        law_room_for_headers(extra.drop_last());
    }
}

} // verus!
