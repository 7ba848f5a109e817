//! Text operations: the vocabulary in which the contracts of the other
//! modules speak of strings, and the std string functions behind them.
use vstd::prelude::*;
use vstd::string::*;
use vstd::utf8::is_ascii_chars;

verus! {

/// The ASCII lower case of one character; everything but `A` to `Z` is kept.
pub open spec fn ascii_lower_char(c: char) -> char {
    if 'A' <= c && c <= 'Z' {
        (c as u8 + 32) as char
    } else {
        c
    }
}

/// The ASCII lower case of a text.
pub open spec fn ascii_lower(s: Seq<char>) -> Seq<char> {
    Seq::new(s.len(), |i: int| ascii_lower_char(s[i]))
}

/// What `str::to_lowercase` makes of a text: its Unicode lower case.
pub uninterp spec fn unicode_lowercase(s: Seq<char>) -> Seq<char>;

/// The lower case of a text: for ASCII text the ASCII lower case, for any
/// other the Unicode one.
pub open spec fn lowercase(s: Seq<char>) -> Seq<char> {
    if is_ascii_chars(s) {
        ascii_lower(s)
    } else {
        unicode_lowercase(s)
    }
}

/// The characters with the Unicode property `White_Space`.
pub open spec fn white_space(c: char) -> bool {
    ||| '\u{9}' <= c && c <= '\u{d}'
    ||| c == ' '
    ||| c == '\u{85}'
    ||| c == '\u{a0}'
    ||| c == '\u{1680}'
    ||| '\u{2000}' <= c && c <= '\u{200a}'
    ||| c == '\u{2028}'
    ||| c == '\u{2029}'
    ||| c == '\u{202f}'
    ||| c == '\u{205f}'
    ||| c == '\u{3000}'
}

/// `s` without its leading white space.
pub open spec fn trimmed_start(s: Seq<char>) -> Seq<char>
    decreases s.len(),
{
    if s.len() > 0 && white_space(s.first()) {
        trimmed_start(s.drop_first())
    } else {
        s
    }
}

/// `s` without its trailing white space.
pub open spec fn trimmed_end(s: Seq<char>) -> Seq<char>
    decreases s.len(),
{
    if s.len() > 0 && white_space(s.last()) {
        trimmed_end(s.drop_last())
    } else {
        s
    }
}

/// `s` without leading and trailing white space.
pub open spec fn trimmed(s: Seq<char>) -> Seq<char> {
    trimmed_end(trimmed_start(s))
}

/// `pattern` stands in `s` at position `i`.
pub open spec fn occurs_at(s: Seq<char>, pattern: Seq<char>, i: int) -> bool {
    &&& 0 <= i
    &&& i + pattern.len() <= s.len()
    &&& s.subrange(i, i + pattern.len()) == pattern
}

/// `pattern` stands somewhere in `s`.
pub open spec fn occurs_in(s: Seq<char>, pattern: Seq<char>) -> bool {
    exists|i: int| occurs_at(s, pattern, i)
}

/// `pattern` stands at the end of `s`.
pub open spec fn ends_in(s: Seq<char>, pattern: Seq<char>) -> bool {
    occurs_at(s, pattern, s.len() - pattern.len())
}

/// The first position from `from` on at which `pattern` stands in `s`.
pub open spec fn first_occurrence(s: Seq<char>, pattern: Seq<char>, from: int) -> Option<int>
    decreases s.len() + 1 - from,
{
    if from + pattern.len() > s.len() {
        None
    } else if occurs_at(s, pattern, from) {
        Some(from)
    } else {
        first_occurrence(s, pattern, from + 1)
    }
}

/// The parts of `s` before, between and after the occurrences of `separator`,
/// found from left to right.
pub open spec fn parts(s: Seq<char>, separator: Seq<char>) -> Seq<Seq<char>>
    decreases s.len(),
{
    match first_occurrence(s, separator, 0) {
        Some(i) => if separator.len() > 0 && 0 <= i && i + separator.len() <= s.len() {
            seq![s.subrange(0, i)] + parts(
                s.subrange(i + separator.len(), s.len() as int),
                separator,
            )
        } else {
            seq![s]
        },
        None => seq![s],
    }
}

/// The parts one after the other, with `separator` between them.
pub open spec fn joined(parts: Seq<Seq<char>>, separator: Seq<char>) -> Seq<char>
    decreases parts.len(),
{
    if parts.len() == 0 {
        Seq::empty()
    } else if parts.len() == 1 {
        parts[0]
    } else {
        joined(parts.drop_last(), separator) + separator + parts.last()
    }
}

/// `first_occurrence` looks at positions from `from` on, and finds one where
/// the pattern fits.
pub proof fn lemma_first_occurrence(s: Seq<char>, pattern: Seq<char>, from: int)
    requires
        0 <= from,
    ensures
        first_occurrence(s, pattern, from) matches Some(i) ==> from <= i && occurs_at(
            s,
            pattern,
            i,
        ),
    decreases s.len() + 1 - from,
{
    if from + pattern.len() <= s.len() && !occurs_at(s, pattern, from) {
        lemma_first_occurrence(s, pattern, from + 1);
    }
}

/// `a` followed by `b`.
pub(crate) fn concat(a: &str, b: &str) -> (r: String)
    ensures
        r@ == a@ + b@,
{
    let mut out = a.to_string();
    out.append(b);
    out
}

/// `a` followed by `b` and `c`.
pub(crate) fn concat3(a: &str, b: &str, c: &str) -> (r: String)
    ensures
        r@ == a@ + b@ + c@,
{
    let mut out = a.to_string();
    out.append(b);
    out.append(c);
    out
}

/// Compares two texts with `str`'s `==`: true when they hold the same
/// characters.
#[verifier::external_body]
pub(crate) fn same_text(a: &str, b: &str) -> (r: bool)
    ensures
        r == (a@ == b@),
{
    a == b
}

/// Calls `str::trim`: white space, in the sense of the Unicode property
/// `White_Space`, is removed at both ends.
#[verifier::external_body]
pub(crate) fn trim(s: &str) -> (r: &str)
    ensures
        r@ == trimmed(s@),
{
    s.trim()
}

/// Calls `str::to_ascii_lowercase`: `A` to `Z` become `a` to `z`, all else is
/// kept.
#[verifier::external_body]
pub(crate) fn to_ascii_lowercase(s: &str) -> (r: String)
    ensures
        r@ == ascii_lower(s@),
{
    s.to_ascii_lowercase()
}

/// Calls `str::to_lowercase`: the Unicode lower case, which is the ASCII one
/// on ASCII text.
#[verifier::external_body]
pub(crate) fn to_lowercase(s: &str) -> (r: String)
    ensures
        r@ == (if is_ascii_chars(s@) {
            ascii_lower(s@)
        } else {
            unicode_lowercase(s@)
        }),
{
    s.to_lowercase()
}

/// Calls `str::contains` with a text as the pattern: true when the pattern
/// is a sub-slice of `s`.
#[verifier::external_body]
pub(crate) fn contains(s: &str, pattern: &str) -> (r: bool)
    ensures
        r == occurs_in(s@, pattern@),
{
    s.contains(pattern)
}

/// Calls `str::ends_with` with a text as the pattern: true when the pattern
/// is a suffix of `s`.
#[verifier::external_body]
pub(crate) fn ends_with(s: &str, pattern: &str) -> (r: bool)
    ensures
        r == ends_in(s@, pattern@),
{
    s.ends_with(pattern)
}

/// Calls `str::split_once` with a text as the delimiter: the text before and
/// the text after its first occurrence.
#[verifier::external_body]
pub(crate) fn split_once<'a>(s: &'a str, delimiter: &str) -> (r: Option<(&'a str, &'a str)>)
    ensures
        match first_occurrence(s@, delimiter@, 0) {
            Some(i) => r matches Some((before, after)) && before@ == s@.subrange(0, i) && after@
                == s@.subrange(i + delimiter@.len(), s@.len() as int),
            None => r is None,
        },
{
    s.split_once(delimiter)
}

} // verus!
