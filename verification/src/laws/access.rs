//! Which URLs and addresses may be reached, said of hosts, schemes, octets and
//! words directly.
use vstd::prelude::*;

use crate::guard::{
    any_forbidden, env_allows, first_forbidden_at, private_allowed, url_refusal,
};
use crate::ip::{IpAddr, Ipv4Addr, Ipv6Addr};
use crate::text::{ascii_lower, lowercase, trimmed, trimmed_end, trimmed_start, white_space};
use crate::urls::{HostView, UrlView};

verus! {

/// The schemes that URLs may have differ from each other.
proof fn lemma_schemes_differ()
    ensures
        "http"@ != "file"@,
        "https"@ != "file"@,
{
    reveal_strlit("http");
    reveal_strlit("https");
    reveal_strlit("file");
    assert("http"@[0] == 'h' && "https"@[0] == 'h' && "file"@[0] == 'f');
}

/// While the private network is closed, an `http` or `https` URL with a domain
/// as its host is refused exactly if the domain, in lower case, is `localhost`,
/// ends in `.localhost`, or spells a loopback address. The error names the
/// domain as the URL spells it.
pub proof fn law_domains_as_hosts(url: UrlView, domain: Seq<char>)
    requires
        url.scheme == "http"@ || url.scheme == "https"@,
        url.host == Some(HostView::Domain(domain)),
    ensures
        url_refusal(url, false) is Some <==> {
            ||| lowercase(domain) == "localhost"@
            ||| exists|start: Seq<char>| lowercase(domain) == #[trigger] (start + ".localhost"@)
            ||| lowercase(domain) == "127.0.0.1"@
            ||| lowercase(domain) == "::1"@
        },
        url_refusal(url, false) matches Some(reason) ==> reason == "Access to localhost domain '"@
            + domain + "' is not allowed"@,
{
    lemma_schemes_differ();
    let name = lowercase(domain);
    let end = ".localhost"@;
    if exists|start: Seq<char>| name == #[trigger] (start + end) {
        let start = choose|start: Seq<char>| name == #[trigger] (start + end);
        assert(name.subrange(name.len() - end.len(), name.len() as int) == end);
    }
    if name.len() >= end.len() && name.subrange(name.len() - end.len(), name.len() as int) == end {
        let start = name.take(name.len() - end.len());
        assert(name == start + end);
    }
}

/// While the private network is closed, an `http` or `https` URL with an address
/// as its host is refused exactly if the address is a forbidden one. The error
/// names the address.
pub proof fn law_addresses_as_hosts(url: UrlView, v4: Ipv4Addr, v6: Ipv6Addr)
    requires
        url.scheme == "http"@ || url.scheme == "https"@,
    ensures
        url.host == Some(HostView::Ipv4(v4)) ==> url_refusal(url, false) == if IpAddr::V4(
            v4,
        ).forbidden() {
            Some(
                "Access to private/internal IP address "@ + IpAddr::V4(v4).text()
                    + " is not allowed"@,
            )
        } else {
            None
        },
        url.host == Some(HostView::Ipv6(v6)) ==> url_refusal(url, false) == if IpAddr::V6(
            v6,
        ).forbidden() {
            Some(
                "Access to private/internal IPv6 address "@ + IpAddr::V6(v6).text()
                    + " is not allowed"@,
            )
        } else {
            None
        },
{
    lemma_schemes_differ();
}

/// The answer is the same for `http` and `https`, and does not depend on
/// anything of the URL but its host; a URL without a host passes.
pub proof fn law_only_the_host_counts(a: UrlView, b: UrlView, private_allowed: bool)
    requires
        a.scheme == "http"@ || a.scheme == "https"@,
        b.scheme == "http"@ || b.scheme == "https"@,
        a.host == b.host,
    ensures
        url_refusal(a, private_allowed) == url_refusal(b, private_allowed),
        a.host is None || private_allowed ==> url_refusal(a, private_allowed) is None,
{
    lemma_schemes_differ();
}

/// `file` URLs pass, and URLs of other schemes than `http`, `https` and `file`
/// are refused with an error that names the scheme, whatever their host is and
/// whether the private network is open or not.
pub proof fn law_other_schemes(url: UrlView, private_allowed: bool)
    requires
        url.scheme != "http"@,
        url.scheme != "https"@,
    ensures
        url_refusal(url, private_allowed) == if url.scheme == "file"@ {
            None
        } else {
            Some(
                "Forbidden URL scheme '"@ + url.scheme
                    + "' - only http, https, and file are allowed"@,
            )
        },
{
}

/// The private network is open exactly if the setting or the environment opens
/// it; a variable that is not set does not.
pub proof fn law_who_opens_the_network(setting: bool, env: Option<Seq<char>>)
    ensures
        private_allowed(setting, env) <==> setting || env_allows(env),
        !env_allows(None),
{
}

/// A text that consists of white space.
pub open spec fn blank(s: Seq<char>) -> bool {
    forall|i: int| 0 <= i < s.len() ==> white_space(#[trigger] s[i])
}

/// A word with something before and after it.
pub open spec fn padded(before: Seq<char>, word: Seq<char>, after: Seq<char>) -> Seq<char> {
    before + word + after
}

/// The environment variable opens the private network exactly if it is one of
/// the words `1`, `true`, `yes` and `on`, in any case, with any white space
/// before and after it.
pub proof fn law_environment(value: Seq<char>)
    ensures
        env_allows(Some(value)) <==> exists|before: Seq<char>, word: Seq<char>, after: Seq<char>|
            {
                &&& value == #[trigger] padded(before, word, after)
                &&& blank(before)
                &&& blank(after)
                &&& ascii_lower(word) == "1"@ || ascii_lower(word) == "true"@ || ascii_lower(word)
                    == "yes"@ || ascii_lower(word) == "on"@
            },
{
    reveal_strlit("1");
    reveal_strlit("true");
    reveal_strlit("yes");
    reveal_strlit("on");
    if env_allows(Some(value)) {
        let start = trimmed_start(value);
        lemma_trimmed_start(value);
        lemma_trimmed_end(start);
        let before = value.take(value.len() - start.len());
        let word = trimmed(value);
        let after = start.skip(word.len() as int);
        assert(value == padded(before, word, after));
    }
    if exists|before: Seq<char>, word: Seq<char>, after: Seq<char>|
        {
            &&& value == #[trigger] padded(before, word, after)
            &&& blank(before)
            &&& blank(after)
            &&& ascii_lower(word) == "1"@ || ascii_lower(word) == "true"@ || ascii_lower(word)
                == "yes"@ || ascii_lower(word) == "on"@
        } {
        let (before, word, after) = choose|
            before: Seq<char>,
            word: Seq<char>,
            after: Seq<char>,
        |
            {
                &&& value == #[trigger] padded(before, word, after)
                &&& blank(before)
                &&& blank(after)
                &&& ascii_lower(word) == "1"@ || ascii_lower(word) == "true"@ || ascii_lower(word)
                    == "yes"@ || ascii_lower(word) == "on"@
            };
        let lower = ascii_lower(word);
        assert(word.len() == lower.len() && word.len() > 0);
        assert(lower[0] == '1' || lower[0] == 't' || lower[0] == 'y' || lower[0] == 'o');
        let last = word.len() - 1;
        assert(lower[last] == '1' || lower[last] == 'e' || lower[last] == 's' || lower[last]
            == 'n');
        assert(!white_space(word[0]) && !white_space(word[last]));
        lemma_trim_padding(before, word + after);
        assert(before + (word + after) == value);
        lemma_trim_padding_end(word, after);
    }
}

proof fn lemma_trimmed_start(s: Seq<char>)
    ensures
        trimmed_start(s).len() <= s.len(),
        s.skip(s.len() - trimmed_start(s).len()) == trimmed_start(s),
        blank(s.take(s.len() - trimmed_start(s).len())),
    decreases s.len(),
{
    if s.len() > 0 && white_space(s.first()) {
        let rest = s.drop_first();
        lemma_trimmed_start(rest);
        let n = s.len() - trimmed_start(s).len();
        assert(s.skip(n) == rest.skip(n - 1));
        assert forall|i: int| 0 <= i < n implies white_space(#[trigger] s.take(n)[i]) by {
            if i > 0 {
                assert(s.take(n)[i] == rest.take(n - 1)[i - 1]);
            }
        }
    } else {
        assert(s.skip(0) == s);
    }
}

proof fn lemma_trimmed_end(s: Seq<char>)
    ensures
        trimmed_end(s).len() <= s.len(),
        s.take(trimmed_end(s).len() as int) == trimmed_end(s),
        blank(s.skip(trimmed_end(s).len() as int)),
    decreases s.len(),
{
    if s.len() > 0 && white_space(s.last()) {
        let rest = s.drop_last();
        lemma_trimmed_end(rest);
        let n = trimmed_end(s).len() as int;
        assert(s.take(n) == rest.take(n));
        assert forall|i: int| 0 <= i < s.len() - n implies white_space(#[trigger] s.skip(n)[i]) by {
            if i < rest.len() - n {
                assert(s.skip(n)[i] == rest.skip(n)[i]);
            }
        }
    } else {
        assert(s.take(s.len() as int) == s);
    }
}

proof fn lemma_trim_padding(before: Seq<char>, rest: Seq<char>)
    requires
        blank(before),
        rest.len() > 0,
        !white_space(rest[0]),
    ensures
        trimmed_start(before + rest) == rest,
    decreases before.len(),
{
    if before.len() > 0 {
        assert(white_space(before[0]));
        assert((before + rest).drop_first() == before.drop_first() + rest);
        assert forall|i: int| 0 <= i < before.drop_first().len() implies white_space(
            #[trigger] before.drop_first()[i],
        ) by {
            assert(white_space(before[i + 1]));
        }
        lemma_trim_padding(before.drop_first(), rest);
    } else {
        assert(before + rest == rest);
    }
}

proof fn lemma_trim_padding_end(word: Seq<char>, after: Seq<char>)
    requires
        blank(after),
        word.len() > 0,
        !white_space(word.last()),
    ensures
        trimmed_end(word + after) == word,
    decreases after.len(),
{
    if after.len() > 0 {
        assert(white_space(after[after.len() - 1]));
        assert((word + after).drop_last() == word + after.drop_last());
        assert forall|i: int| 0 <= i < after.drop_last().len() implies white_space(
            #[trigger] after.drop_last()[i],
        ) by {
            assert(white_space(after[i]));
        }
        lemma_trim_padding_end(word, after.drop_last());
    } else {
        assert(word + after == word);
    }
}

/// The IPv4 addresses a.b.c.d that no request may reach: loopback, private,
/// link-local and documentation addresses, 255.255.255.255 and 0.0.0.0, and no
/// others.
pub proof fn law_forbidden_ipv4(ip: Ipv4Addr)
    ensures
        ({
            let (a, b, c, d) = (ip.octets@[0], ip.octets@[1], ip.octets@[2], ip.octets@[3]);
            IpAddr::V4(ip).forbidden() <==> {
                ||| a == 127
                ||| a == 10
                ||| a == 172 && 16 <= b <= 31
                ||| a == 192 && b == 168
                ||| a == 169 && b == 254
                ||| a == 192 && b == 0 && c == 2
                ||| a == 198 && b == 51 && c == 100
                ||| a == 203 && b == 0 && c == 113
                ||| a == 255 && b == 255 && c == 255 && d == 255
                ||| a == 0 && b == 0 && c == 0 && d == 0
            }
        }),
{
}

/// The IPv6 addresses that no request may reach: unique local and link-local
/// ones, `::1`, and those that hold a forbidden IPv4 address a.b.c.d as
/// `::a.b.c.d` or `::ffff:a.b.c.d`, and no others.
pub proof fn law_forbidden_ipv6(ip: Ipv6Addr, held: Ipv4Addr)
    requires
        ip.segments@[6] == 256 * held.octets@[0] + held.octets@[1],
        ip.segments@[7] == 256 * held.octets@[2] + held.octets@[3],
    ensures
        ({
            let s = ip.segments@;
            let zeros = s[0] == 0 && s[1] == 0 && s[2] == 0 && s[3] == 0 && s[4] == 0;
            IpAddr::V6(ip).forbidden() <==> {
                ||| 0xfc00 <= s[0] <= 0xfdff
                ||| 0xfe80 <= s[0] <= 0xfebf
                ||| zeros && s[5] == 0 && s[6] == 0 && s[7] == 1
                ||| zeros && (s[5] == 0 || s[5] == 0xffff) && IpAddr::V4(held).forbidden()
            }
        }),
{
    let s = ip.segments@;
    let zeros = s[0] == 0 && s[1] == 0 && s[2] == 0 && s[3] == 0 && s[4] == 0;
    if zeros && s[5] == 0 {
        assert(ip.bits() == held.bits());
    } else if zeros && s[5] == 0xffff {
        assert(ip.bits() == 0xffff_0000_0000 + held.bits());
    } else if zeros {
        assert(0x1_0000_0000 <= ip.bits());
        assert(ip.bits() < 0xffff_0000_0000 || ip.bits() >= 0x1_0000_0000_0000);
    } else {
        assert(ip.bits() >= 0x1_0000_0000_0000);
    }
}

/// Of the addresses that a name resolved to, each one counts: the name may be
/// reached exactly if each of them may.
pub proof fn law_every_address_counts(some: Seq<IpAddr>, more: Seq<IpAddr>, ip: IpAddr)
    ensures
        !any_forbidden(Seq::empty()),
        any_forbidden(seq![ip]) == ip.forbidden(),
        any_forbidden(some + more) == (any_forbidden(some) || any_forbidden(more)),
{
    assert(seq![ip][0] == ip);
    let all = some + more;
    if any_forbidden(some) {
        let i = choose|i: int| 0 <= i < some.len() && (#[trigger] some[i]).forbidden();
        assert(all[i] == some[i]);
    }
    if any_forbidden(more) {
        let i = choose|i: int| 0 <= i < more.len() && (#[trigger] more[i]).forbidden();
        assert(all[some.len() + i] == more[i]);
    }
    if any_forbidden(all) {
        let i = choose|i: int| 0 <= i < all.len() && (#[trigger] all[i]).forbidden();
        if i < some.len() {
            assert(some[i] == all[i]);
        } else {
            assert(more[i - some.len()] == all[i]);
        }
    }
}

/// The address that a refusal names is forbidden, and none before it is.
pub proof fn law_the_first_forbidden_address_is_named(addresses: Seq<IpAddr>, i: int)
    ensures
        first_forbidden_at(addresses, i) <==> 0 <= i < addresses.len() && addresses[i].forbidden()
            && !any_forbidden(addresses.take(i)),
{
    if 0 <= i < addresses.len() {
        let before = addresses.take(i);
        if any_forbidden(before) {
            let j = choose|j: int| 0 <= j < before.len() && (#[trigger] before[j]).forbidden();
            assert(addresses[j] == before[j]);
        } else {
            assert forall|j: int| 0 <= j < i implies !(#[trigger] addresses[j]).forbidden() by {
                assert(before[j] == addresses[j]);
            }
        }
    }
}

} // verus!
