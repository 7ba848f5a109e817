//! What the text operations are for, and how addresses are spelled.
use vstd::prelude::*;
use vstd::utf8::is_ascii_chars;

use crate::ip::{digit_char, digits, groups_text, longest_zero_run, v4_text, v6_text, zero_run};
use crate::text::{
    ascii_lower, ends_in, first_occurrence, joined, lowercase, occurs_at, occurs_in, parts,
};

verus! {

/// The lower case of ASCII text changes `A` to `Z` and nothing else.
pub proof fn law_lower_case(s: Seq<char>)
    ensures
        ascii_lower(s).len() == s.len(),
        forall|i: int|
            0 <= i < s.len() ==> #[trigger] ascii_lower(s)[i] as int == s[i] as int + if 'A' <= s[i]
                && s[i] <= 'Z' {
                32int
            } else {
                0
            },
        is_ascii_chars(s) ==> lowercase(s) == ascii_lower(s),
{
}

/// A text in the middle of another.
pub open spec fn between(before: Seq<char>, s: Seq<char>, after: Seq<char>) -> Seq<char> {
    before + s + after
}

/// A text occurs in another exactly if the other is this text with something
/// before and something after it; and stands at its end exactly if there is
/// nothing after it.
pub proof fn law_occurrences(s: Seq<char>, pattern: Seq<char>)
    ensures
        occurs_in(s, pattern) <==> exists|before: Seq<char>, after: Seq<char>|
            s == #[trigger] between(before, pattern, after),
        ends_in(s, pattern) <==> exists|before: Seq<char>| s == #[trigger] (before + pattern),
{
    if occurs_in(s, pattern) {
        let i = choose|i: int| occurs_at(s, pattern, i);
        let (before, after) = (s.take(i), s.skip(i + pattern.len()));
        assert(s == between(before, pattern, after));
    }
    if exists|before: Seq<char>, after: Seq<char>| s == #[trigger] between(before, pattern, after) {
        let (before, after) = choose|before: Seq<char>, after: Seq<char>|
            s == #[trigger] between(before, pattern, after);
        let i = before.len() as int;
        assert(s.subrange(i, i + pattern.len()) == pattern);
        assert(occurs_at(s, pattern, i));
    }
    if ends_in(s, pattern) {
        let before = s.take(s.len() - pattern.len());
        assert(s == before + pattern);
    }
    if exists|before: Seq<char>| s == #[trigger] (before + pattern) {
        let before = choose|before: Seq<char>| s == #[trigger] (before + pattern);
        assert(s.subrange(s.len() - pattern.len(), s.len() as int) == pattern);
    }
}

/// Joining puts the separator between the parts, and nowhere else.
pub proof fn law_joined(list: Seq<Seq<char>>, part: Seq<char>, separator: Seq<char>)
    ensures
        joined(Seq::empty(), separator) == Seq::<char>::empty(),
        joined(list.push(part), separator) == if list.len() == 0 {
            part
        } else {
            joined(list, separator) + separator + part
        },
{
    assert(list.push(part).drop_last() == list);
}

proof fn lemma_first_is_first(s: Seq<char>, pattern: Seq<char>, from: int)
    requires
        0 <= from,
    ensures
        match first_occurrence(s, pattern, from) {
            Some(i) => from <= i && occurs_at(s, pattern, i) && forall|j: int|
                from <= j < i ==> !#[trigger] occurs_at(s, pattern, j),
            None => forall|j: int| from <= j ==> !#[trigger] occurs_at(s, pattern, j),
        },
    decreases s.len() + 1 - from,
{
    if from + pattern.len() <= s.len() && !occurs_at(s, pattern, from) {
        lemma_first_is_first(s, pattern, from + 1);
    }
}

proof fn lemma_joined_front(part: Seq<char>, rest: Seq<Seq<char>>, separator: Seq<char>)
    requires
        rest.len() > 0,
    ensures
        joined(seq![part] + rest, separator) == part + separator + joined(rest, separator),
    decreases rest.len(),
{
    let all = seq![part] + rest;
    assert(all.drop_last() == seq![part] + rest.drop_last());
    if rest.len() > 1 {
        lemma_joined_front(part, rest.drop_last(), separator);
        assert(joined(all, separator) == part + separator + joined(rest, separator));
    } else {
        assert(all.drop_last() == seq![part]);
        assert(joined(seq![part], separator) == seq![part][0]);
        assert(all.last() == rest[0]);
    }
}

/// Splitting a text loses nothing: its parts, joined again, are the text. No
/// part holds the separator.
pub proof fn law_parts(s: Seq<char>, separator: Seq<char>)
    requires
        separator.len() > 0,
    ensures
        parts(s, separator).len() > 0,
        joined(parts(s, separator), separator) == s,
        forall|i: int|
            0 <= i < parts(s, separator).len() ==> !occurs_in(
                #[trigger] parts(s, separator)[i],
                separator,
            ),
    decreases s.len(),
{
    lemma_first_is_first(s, separator, 0);
    let list = parts(s, separator);
    match first_occurrence(s, separator, 0) {
        Some(i) => {
            let part = s.subrange(0, i);
            let after = s.subrange(i + separator.len(), s.len() as int);
            let rest = parts(after, separator);
            law_parts(after, separator);
            lemma_joined_front(part, rest, separator);
            assert(s == part + separator + after);
            assert forall|j: int| !#[trigger] occurs_at(part, separator, j) by {
                if occurs_at(part, separator, j) {
                    assert(s.subrange(j, j + separator.len()) == part.subrange(
                        j,
                        j + separator.len(),
                    ));
                    assert(occurs_at(s, separator, j));
                }
            }
            assert forall|k: int| 0 <= k < list.len() implies !occurs_in(
                #[trigger] list[k],
                separator,
            ) by {
                if k > 0 {
                    assert(list[k] == rest[k - 1]);
                }
            }
        },
        None => {
            assert(list == seq![s]);
            assert forall|k: int| 0 <= k < list.len() implies !occurs_in(
                #[trigger] list[k],
                separator,
            ) by {
                assert(list[k] == s);
            }
        },
    }
}

/// The value of a digit.
pub open spec fn digit_value(c: char) -> int {
    if '0' <= c && c <= '9' {
        c as int - '0' as int
    } else {
        c as int - 'a' as int + 10
    }
}

/// The number that a text of digits stands for.
pub open spec fn number(text: Seq<char>, base: int) -> int
    decreases text.len(),
{
    if text.len() == 0 {
        0
    } else {
        number(text.drop_last(), base) * base + digit_value(text.last())
    }
}

/// A number is spelled by the digits `0` to `9` and `a` to `f` that stand for
/// it, without needless zeros.
pub proof fn law_numbers(n: nat, base: nat)
    requires
        2 <= base <= 16,
    ensures
        number(digits(n, base), base as int) == n,
        digits(n, base).len() > 0,
        digits(n, base)[0] == '0' ==> n == 0,
        n < base ==> digits(n, base).len() == 1,
        forall|i: int|
            0 <= i < digits(n, base).len() ==> {
                let c = #[trigger] digits(n, base)[i];
                ('0' <= c && c <= '9' || 'a' <= c && c <= 'f') && digit_value(c) < base
            },
    decreases n,
{
    let text = digits(n, base);
    if n < base {
        assert(text == seq![digit_char(n as int)]);
        assert(text.drop_last() == Seq::<char>::empty());
        reveal_with_fuel(number, 2);
    } else {
        let rest = n / base;
        assert(n / base < n && n / base > 0) by (nonlinear_arith)
            requires
                2 <= base <= n,
        ;
        law_numbers(rest, base);
        let c = digit_char((n % base) as int);
        assert(n % base < base) by (nonlinear_arith)
            requires
                2 <= base,
        ;
        assert(text == digits(rest, base).push(c));
        assert(text.drop_last() == digits(rest, base));
        assert(digit_value(c) == n % base);
        assert(n == (n / base) * base + n % base) by (nonlinear_arith)
            requires
                2 <= base,
        ;
        assert(text[0] == digits(rest, base)[0]);
    }
}

/// An IPv4 address is spelled by its four octets in decimal, with dots between
/// them.
pub proof fn law_ipv4_text(octets: Seq<u8>)
    requires
        octets.len() == 4,
    ensures
        v4_text(octets) == digits(octets[0] as nat, 10) + "."@ + digits(octets[1] as nat, 10)
            + "."@ + digits(octets[2] as nat, 10) + "."@ + digits(octets[3] as nat, 10),
{
    let texts = octets.map_values(|octet: u8| digits(octet as nat, 10));
    assert(texts.take(1) == seq![texts[0]]);
    assert(texts.take(2).drop_last() == texts.take(1));
    assert(texts.take(3).drop_last() == texts.take(2));
    assert(texts.drop_last() == texts.take(3));
    reveal_with_fuel(joined, 5);
}

/// Segments are spelled in hexadecimal, with colons between them.
pub proof fn law_groups(segments: Seq<u16>, segment: u16)
    ensures
        groups_text(Seq::empty()) == Seq::<char>::empty(),
        groups_text(segments.push(segment)) == if segments.len() == 0 {
            digits(segment as nat, 16)
        } else {
            groups_text(segments) + ":"@ + digits(segment as nat, 16)
        },
{
    let spell = |segment: u16| digits(segment as nat, 16);
    assert(Seq::<u16>::empty().map_values(spell) == Seq::<Seq<char>>::empty());
    assert(segments.push(segment).map_values(spell) == segments.map_values(spell).push(
        spell(segment),
    ));
    law_joined(segments.map_values(spell), spell(segment), ":"@);
}

/// An IPv6 address is spelled by its segments, with `::` in place of the first
/// of the longest runs of two or more zeros, if there is one; but an IPv4-mapped
/// one with its IPv4 address.
pub proof fn law_ipv6_text(s: Seq<u16>, start: int, len: int, octets: Seq<u8>)
    requires
        s.len() == 8,
        octets.len() == 4,
        s[6] == 256 * octets[0] + octets[1],
        s[7] == 256 * octets[2] + octets[3],
        // A run of zeros, the first of the longest ones.
        0 <= start && 0 <= len && start + len <= 8,
        forall|i: int| start <= i < start + len ==> s[i] == 0,
        forall|t: int, m: int|
            #[trigger] zero_run(s, t, m) ==> m < len || m == len && start <= t,
    ensures
        v6_text(s) == if s[0] == 0 && s[1] == 0 && s[2] == 0 && s[3] == 0 && s[4] == 0 && s[5]
            == 0xffff {
            "::ffff:"@ + v4_text(octets)
        } else if len >= 2 {
            groups_text(s.take(start)) + "::"@ + groups_text(s.skip(start + len))
        } else {
            groups_text(s)
        },
{
    assert(zero_run(s, start, len));
    assert(longest_zero_run(s, 8, start, len));
    let (a, b) = choose|a: int, b: int| longest_zero_run(s, s.len() as int, a, b);
    assert(longest_zero_run(s, 8, a, b));
    assert(a == start && b == len);
    let held = seq![
        (s[6] / 256) as u8,
        (s[6] % 256) as u8,
        (s[7] / 256) as u8,
        (s[7] % 256) as u8,
    ];
    assert(held == octets);
    if s[0] == 0 && s[1] == 0 && s[2] == 0 && s[3] == 0 && s[4] == 0 {
        assert(zero_run(s, 0, 5));
    } else {
        assert(!zero_run(s, 0, 5)) by {
            if zero_run(s, 0, 5) {
                assert(s[0] == 0 && s[1] == 0 && s[2] == 0 && s[3] == 0 && s[4] == 0);
            }
        }
    }
}

} // verus!
