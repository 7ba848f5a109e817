//! The header map of the HTTP library: which names and values it takes, and
//! what each operation on it does to the values it holds.
use reqwest::header::{HeaderMap, HeaderName, HeaderValue};
use vstd::prelude::*;
use vstd::utf8::{encode_utf8, is_ascii_chars};

use crate::headers::{distinct, lemma_with_pair, lookup, HeaderTable, Pairs};
use crate::text::{ascii_lower, lowercase, to_lowercase};

verus! {

/// A header value, only held inside a header map.
#[verifier::external_type_specification]
#[verifier::external_body]
pub struct ExHeaderValue(HeaderValue);

/// The header map of the `http` crate.
#[verifier::external_type_specification]
#[verifier::external_body]
#[verifier::reject_recursive_types(T)]
pub struct ExHeaderMap<T>(HeaderMap<T>);

/// Names with their values.
pub type HeaderValues = Map<Seq<char>, Seq<Seq<u8>>>;

/// The values of each name, in lower case, that a header map holds, in the
/// order in which they came.
pub uninterp spec fn header_values(map: HeaderMap<HeaderValue>) -> HeaderValues;

/// A header value may hold this character.
pub open spec fn value_char(c: char) -> bool {
    c == '\t' || (' ' <= c && c != '\x7f')
}

/// A header value may be this text.
pub open spec fn value_text(s: Seq<char>) -> bool {
    forall|i: int| 0 <= i < s.len() ==> value_char(#[trigger] s[i])
}

/// A header name may hold this character.
pub open spec fn name_char(c: char) -> bool {
    ||| 'a' <= c && c <= 'z'
    ||| 'A' <= c && c <= 'Z'
    ||| '0' <= c && c <= '9'
    ||| c == '!' || c == '#' || c == '$' || c == '%' || c == '&' || c == '\'' || c == '*' || c
        == '+' || c == '-' || c == '.' || c == '^' || c == '_' || c == '`' || c == '|' || c == '~'
}

/// A header name may be this text.
pub open spec fn name_text(s: Seq<char>) -> bool {
    &&& 0 < s.len() <= 65535
    &&& forall|i: int| 0 <= i < s.len() ==> name_char(#[trigger] s[i])
}

/// The form in which header maps hold such a name: in lower case.
pub open spec fn stored_name(s: Seq<char>) -> bool {
    name_text(s) && ascii_lower(s) == s
}

/// What holds of every name in a header map: it is ASCII text in lower case.
/// A name can come into a map that `name_text` does not admit, such as one
/// with a double quote.
pub open spec fn held_name(s: Seq<char>) -> bool {
    is_ascii_chars(s) && ascii_lower(s) == s
}

/// A received value that is text: visible ASCII, spaces and tabs.
pub open spec fn value_is_text(bytes: Seq<u8>) -> bool {
    forall|i: int|
        0 <= i < bytes.len() ==> 32 <= #[trigger] bytes[i] <= 126 || bytes[i] == 9
}

/// Bytes, all of them ASCII, as text.
pub open spec fn ascii_text(bytes: Seq<u8>) -> Seq<char> {
    Seq::new(bytes.len(), |i: int| bytes[i] as char)
}

/// The text of a received value, if it is text.
pub open spec fn text_of_value(bytes: Seq<u8>) -> Option<Seq<char>> {
    if value_is_text(bytes) {
        Some(ascii_text(bytes))
    } else {
        None
    }
}

/// The values that a header map holds of a name.
pub open spec fn values_of(map: HeaderMap<HeaderValue>, name: Seq<char>) -> Seq<Seq<u8>> {
    if header_values(map).dom().contains(name) {
        header_values(map)[name]
    } else {
        Seq::empty()
    }
}

/// As long as a header map holds no more names than this, it takes another
/// one: it grows to 32768 slots at most, and does not ask for more while it
/// holds less than a fifth of that.
pub const MAX_NAMES: usize = 6553;

/// Names with received values.
pub type Items = Seq<(Seq<char>, Seq<u8>)>;

/// The items of a vector.
pub open spec fn items_of(items: Seq<(String, Vec<u8>)>) -> Items {
    items.map_values(|item: (String, Vec<u8>)| (item.0@, item.1@))
}

/// The values of the items with the name `name`, in their order.
pub open spec fn values_named(items: Items, name: Seq<char>) -> Seq<Seq<u8>>
    decreases items.len(),
{
    if items.len() == 0 {
        Seq::empty()
    } else if items.last().0 == name {
        values_named(items.drop_last(), name).push(items.last().1)
    } else {
        values_named(items.drop_last(), name)
    }
}

/// Calls `HeaderValue::from_str`, which takes every text without ASCII control
/// characters other than the tab; characters above ASCII are all taken.
#[verifier::external_body]
pub(crate) fn is_value(text: &str) -> (r: bool)
    ensures
        r == value_text(text@),
{
    HeaderValue::from_str(text).is_ok()
}

/// Calls `HeaderName::from_bytes`, which takes 1 to 65535 token characters
/// and puts them in lower case.
#[verifier::external_body]
pub(crate) fn parse_name(text: &str) -> (r: Option<String>)
    ensures
        r is Some == name_text(text@),
        r matches Some(name) ==> name@ == ascii_lower(text@),
{
    HeaderName::from_bytes(text.as_bytes()).ok().map(|name| name.as_str().to_string())
}

/// Calls `HeaderValue::to_str` on a value with these bytes, which gives the
/// text of values of visible ASCII characters, spaces and tabs.
#[verifier::external_body]
pub(crate) fn value_to_text(bytes: &[u8]) -> (r: Option<String>)
    ensures
        r is Some == value_is_text(bytes@),
        r matches Some(text) ==> text@ == ascii_text(bytes@),
{
    HeaderValue::from_bytes(bytes).ok().and_then(|v| v.to_str().ok().map(|s| s.to_string()))
}

/// Calls `HeaderMap::new`, which makes an empty map.
#[verifier::external_body]
pub(crate) fn empty_map() -> (r: HeaderMap<HeaderValue>)
    ensures
        header_values(r) == HeaderValues::empty(),
{
    HeaderMap::new()
}

/// Calls `HeaderMap::try_insert`, which makes `value` the only value of `name`,
/// or leaves the map as it is if it can hold no more. Which maps can hold no
/// more is left open, but for small ones.
#[verifier::external_body]
pub(crate) fn insert(map: &mut HeaderMap<HeaderValue>, name: &str, value: &str) -> (r: bool)
    requires
        stored_name(name@),
        value_text(value@),
    ensures
        header_values(*old(map)).dom().len() <= MAX_NAMES ==> r,
        header_values(*final(map)) == if r {
            header_values(*old(map)).insert(name@, seq![encode_utf8(value@)])
        } else {
            header_values(*old(map))
        },
{
    let name = HeaderName::from_bytes(name.as_bytes()).unwrap();
    map.try_insert(name, HeaderValue::from_str(value).unwrap()).is_ok()
}

/// Calls `HeaderMap::try_append`, which adds `value` to the values of `name`,
/// or leaves the map as it is if it can hold no more. Which maps can hold no
/// more is left open, but for small ones.
#[verifier::external_body]
pub(crate) fn append(map: &mut HeaderMap<HeaderValue>, name: &str, value: &str) -> (r: bool)
    requires
        stored_name(name@),
        value_text(value@),
    ensures
        header_values(*old(map)).dom().len() <= MAX_NAMES ==> r,
        header_values(*final(map)) == if r {
            header_values(*old(map)).insert(
                name@,
                values_of(*old(map), name@).push(encode_utf8(value@)),
            )
        } else {
            header_values(*old(map))
        },
{
    let name = HeaderName::from_bytes(name.as_bytes()).unwrap();
    map.try_append(name, HeaderValue::from_str(value).unwrap()).is_ok()
}

/// Calls `HeaderMap::get`, which gives the first value of `name`.
#[verifier::external_body]
pub(crate) fn first_value(map: &HeaderMap<HeaderValue>, name: &str) -> (r: Option<Vec<u8>>)
    requires
        stored_name(name@),
    ensures
        r is Some == (values_of(*map, name@).len() > 0),
        r matches Some(value) ==> value@ == values_of(*map, name@)[0],
{
    map.get(name).map(|value| value.as_bytes().to_vec())
}

/// Calls `HeaderMap::get_all`, which gives the values of `name` in the order
/// in which they came.
#[verifier::external_body]
pub(crate) fn all_values(map: &HeaderMap<HeaderValue>, name: &str) -> (r: Vec<Vec<u8>>)
    requires
        stored_name(name@),
    ensures
        r@.map_values(|value: Vec<u8>| value@) == values_of(*map, name@),
{
    map.get_all(name).iter().map(|value| value.as_bytes().to_vec()).collect()
}

/// Calls `HeaderMap::iter`, which gives each name, ASCII text in lower case,
/// once per value, a name's values in the order in which they came. In which
/// order the names come is left open.
#[verifier::external_body]
pub(crate) fn all_items(map: &HeaderMap<HeaderValue>) -> (r: Vec<(String, Vec<u8>)>)
    ensures
        forall|name: Seq<char>| #[trigger]
            values_named(items_of(r@), name) == values_of(*map, name),
        forall|i: int| 0 <= i < r@.len() ==> held_name((#[trigger] r@[i]).0@),
{
    map.iter().map(|(name, value)| (name.as_str().to_string(), value.as_bytes().to_vec())).collect()
}

/// The values, among these, that are text.
pub open spec fn texts(values: Seq<Seq<u8>>) -> Seq<Seq<char>>
    decreases values.len(),
{
    if values.len() == 0 {
        Seq::empty()
    } else if value_is_text(values.last()) {
        texts(values.drop_last()).push(ascii_text(values.last()))
    } else {
        texts(values.drop_last())
    }
}

/// The strings of a vector.
pub open spec fn texts_of(strings: Seq<String>) -> Seq<Seq<char>> {
    strings.map_values(|s: String| s@)
}

/// What a client keeps of the values received for one header name: the last
/// one, or the empty text if it is not text.
pub open spec fn kept_value(values: Seq<Seq<u8>>) -> Option<Seq<char>> {
    if values.len() == 0 {
        None
    } else if value_is_text(values.last()) {
        Some(ascii_text(values.last()))
    } else {
        Some(Seq::empty())
    }
}

/// The cookies that a response asks to be set, in their order: the
/// `Set-Cookie` values that are text.
pub fn set_cookie_values(map: &HeaderMap<HeaderValue>) -> (r: Vec<String>)
    ensures
        texts_of(r@) == texts(values_of(*map, "set-cookie"@)),
{
    proof {
        lemma_set_cookie_name();
    }
    let values = all_values(map, "set-cookie");
    let ghost all = values_of(*map, "set-cookie"@);
    let mut out: Vec<String> = Vec::new();
    for i in 0..values.len()
        invariant
            values@.map_values(|value: Vec<u8>| value@) == all,
            texts_of(out@) == texts(all.take(i as int)),
    {
        assert(values@[i as int]@ == all[i as int]);
        assert(all.take(i + 1).drop_last() == all.take(i as int));
        let ghost before = out@;
        match value_to_text(values[i].as_slice()) {
            Some(text) => {
                out.push(text);
                assert(texts_of(out@) == texts_of(before).push(text@));
            },
            None => {},
        }
    }
    assert(all.take(all.len() as int) == all);
    out
}

proof fn lemma_set_cookie_name()
    ensures
        stored_name("set-cookie"@),
{
    reveal_strlit("set-cookie");
    assert(ascii_lower("set-cookie"@) == "set-cookie"@);
}

/// All names are such as header maps hold.
pub open spec fn held_names(pairs: Pairs) -> bool {
    forall|i: int| 0 <= i < pairs.len() ==> held_name((#[trigger] pairs[i]).0)
}

/// `pairs` are the headers of a response: each name in lower case with the
/// last of its values, a value that is not text as the empty text.
pub open spec fn response_pairs(map: HeaderMap<HeaderValue>, pairs: Pairs) -> bool {
    &&& forall|name: Seq<char>| #[trigger] lookup(pairs, name) == kept_value(values_of(map, name))
    &&& held_names(pairs)
    &&& distinct(pairs)
}

/// The headers of a response as a table: each name in lower case with the
/// last of its values, a value that is not text as the empty text.
pub fn response_headers(map: &HeaderMap<HeaderValue>) -> (r: HeaderTable)
    ensures
        response_pairs(*map, r@),
{
    let items = all_items(map);
    let ghost all = items_of(items@);
    let mut table = HeaderTable::new();
    for i in 0..items.len()
        invariant
            all == items_of(items@),
            forall|j: int| 0 <= j < items@.len() ==> held_name((#[trigger] items@[j]).0@),
            distinct(table@),
            held_names(table@),
            forall|name: Seq<char>| #[trigger]
                lookup(table@, name) == kept_value(values_named(all.take(i as int), name)),
    {
        let ghost before = table@;
        let item = &items[i];
        let name = to_lowercase(item.0.as_str());
        let value = match value_to_text(item.1.as_slice()) {
            Some(text) => text,
            None => String::new(),
        };
        proof {
            lemma_held_name_lowercase(item.0@);
            lemma_with_pair(before, name@, value@);
            assert(all.take(i + 1).drop_last() == all.take(i as int));
            assert(all.take(i + 1).last() == (name@, item.1@));
        }
        table.insert(name, value);
    }
    assert(all.take(all.len() as int) == all);
    table
}

/// A name in a header map is its own lower case.
pub proof fn lemma_held_name_lowercase(name: Seq<char>)
    requires
        held_name(name),
    ensures
        lowercase(name) == name,
{
}

} // verus!
