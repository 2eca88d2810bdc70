//! The header collection of the `http` crate as the proxy sees it: a map
//! from lower-case names to the values carried under each name, in order.

use crate::hop::fold;
use http::header::{HeaderMap, HeaderValue, InvalidHeaderValue, MaxSizeReached, ToStrError};
use vstd::prelude::*;
use vstd::utf8::encode_utf8;

verus! {

#[verifier::external_type_specification]
#[verifier::external_body]
#[verifier::reject_recursive_types(T)]
pub struct ExHeaderMap<T>(HeaderMap<T>);

#[verifier::external_type_specification]
#[verifier::external_body]
pub struct ExHeaderValue(HeaderValue);

#[verifier::external_type_specification]
#[verifier::external_body]
pub struct ExInvalidHeaderValue(InvalidHeaderValue);

#[verifier::external_type_specification]
#[verifier::external_body]
pub struct ExToStrError(ToStrError);

#[verifier::external_type_specification]
#[verifier::external_body]
pub struct ExMaxSizeReached(MaxSizeReached);

/// What a header collection holds: for each name that occurs, the bytes of
/// the values stored under it, first to last.
pub uninterp spec fn header_entries(headers: HeaderMap<HeaderValue>) -> Map<Seq<char>, Seq<Seq<u8>>>;

/// The bytes of a header value.
pub uninterp spec fn value_bytes(value: HeaderValue) -> Seq<u8>;

/// A byte that `HeaderValue::from_str` accepts: anything from the space up
/// but DEL, and the tab.
pub open spec fn is_value_byte(b: u8) -> bool {
    (b >= 32 && b != 127) || b == 9
}

/// A byte that `HeaderValue::to_str` accepts: printable ASCII and the tab.
pub open spec fn is_visible_byte(b: u8) -> bool {
    (b >= 32 && b < 127) || b == 9
}

/// Every byte of `bytes` may stand in a header value.
pub open spec fn is_value_text(bytes: Seq<u8>) -> bool {
    forall|i: int| 0 <= i < bytes.len() ==> is_value_byte(#[trigger] bytes[i])
}

/// Every byte of `bytes` is printable ASCII or a tab.
pub open spec fn is_visible_text(bytes: Seq<u8>) -> bool {
    forall|i: int| 0 <= i < bytes.len() ==> is_visible_byte(#[trigger] bytes[i])
}

/// A character of the names this library inserts under.
pub open spec fn is_name_char(c: char) -> bool {
    ('a' <= c && c <= 'z') || ('0' <= c && c <= '9') || c == '-'
}

/// A short, lower-case header name made of letters, digits and hyphens.
pub open spec fn is_plain_name(name: Seq<char>) -> bool {
    &&& 0 < name.len() <= 64
    &&& forall|i: int| 0 <= i < name.len() ==> is_name_char(#[trigger] name[i])
}

/// The number of names below which a collection never refuses one more.
pub const ROOMY_NAMES: usize = 4096;

/// A collection that holds so many names that it may refuse one more.
pub open spec fn is_crowded(entries: Map<Seq<char>, Seq<Seq<u8>>>) -> bool {
    entries.dom().finite() && entries.dom().len() >= ROOMY_NAMES
}

/// Calls `HeaderMap::clone`: the copy holds the same names and values.
#[verifier::external_body]
pub(crate) fn copy_headers(headers: &HeaderMap<HeaderValue>) -> (r: HeaderMap<HeaderValue>)
    ensures
        header_entries(r) == header_entries(*headers),
{
    headers.clone()
}

/// Calls `HeaderMap::keys` and hands each name out as text
/// (`HeaderName::as_str`). The iterator yields every name of the collection,
/// and a `HeaderName` is always held in lower case.
#[verifier::external_body]
pub(crate) fn header_names(headers: &HeaderMap<HeaderValue>) -> (r: Vec<String>)
    ensures
        forall|name: Seq<char>| #[trigger]
            header_entries(*headers).dom().contains(name) <==> r.deep_view().contains(name),
        forall|i: int| 0 <= i < r.len() ==> fold(#[trigger] r[i]@) == r[i]@,
{
    headers.keys().map(|k| k.as_str().to_string()).collect()
}

/// Calls `HeaderMap::remove` with a name given as text. The name is looked
/// up without regard to ASCII case; every value under it leaves the
/// collection, and nothing else changes. Text that is no header name finds
/// nothing.
#[verifier::external_body]
pub(crate) fn remove_header(headers: &mut HeaderMap<HeaderValue>, name: &str)
    ensures
        header_entries(*final(headers)) == header_entries(*old(headers)).remove(fold(name@)),
{
    headers.remove(name);
}

/// Calls `HeaderMap::get` with a name given as text, and copies what it
/// finds: the first value under that name, looked up without regard to ASCII
/// case, or nothing where the name does not occur.
#[verifier::external_body]
pub(crate) fn first_value(headers: &HeaderMap<HeaderValue>, name: &str) -> (r: Option<HeaderValue>)
    ensures
        match r {
            Some(v) => header_entries(*headers).dom().contains(fold(name@))
                && header_entries(*headers)[fold(name@)].len() > 0
                && value_bytes(v) == header_entries(*headers)[fold(name@)][0],
            None => !header_entries(*headers).dom().contains(fold(name@)),
        },
{
    headers.get(name).cloned()
}

/// Calls `HeaderMap::try_insert` with a name given as text. On success the
/// name carries the new value and no other; on failure nothing has changed.
/// The call fails only where the table of the collection would have to grow
/// beyond its largest size of 32768 slots, which it asks for when it is at
/// least a fifth full: the collection then holds thousands of names, at
/// least `ROOMY_NAMES` (stated with a margin). The call panics on text that
/// is no header name, so only plain names are admitted (fewer than it would
/// take).
#[verifier::external_body]
pub(crate) fn try_insert_header(
    headers: &mut HeaderMap<HeaderValue>,
    name: &'static str,
    value: HeaderValue,
) -> (r: Result<(), MaxSizeReached>)
    requires
        is_plain_name(name@),
    ensures
        r.is_ok() ==> header_entries(*final(headers)) == header_entries(*old(headers)).insert(
            name@,
            seq![value_bytes(value)],
        ),
        r.is_err() ==> header_entries(*final(headers)) == header_entries(*old(headers))
            && is_crowded(header_entries(*old(headers))),
{
    headers.try_insert(name, value).map(|_| ())
}

/// Calls `HeaderValue::from_str`: it accepts the text exactly when each byte
/// of its UTF-8 form may stand in a header value, and the value then holds
/// those bytes.
#[verifier::external_body]
pub(crate) fn parse_value(text: &str) -> (r: Result<HeaderValue, InvalidHeaderValue>)
    ensures
        r.is_ok() == is_value_text(encode_utf8(text@)),
        r.is_ok() ==> value_bytes(r.unwrap()) == encode_utf8(text@),
{
    HeaderValue::from_str(text)
}

/// Calls `HeaderValue::to_str`: it yields the value as text exactly when
/// each of its bytes is printable ASCII or a tab, and the text then has
/// those bytes as its UTF-8 form.
#[verifier::external_body]
pub(crate) fn value_text(value: &HeaderValue) -> (r: Result<String, ToStrError>)
    ensures
        r.is_ok() == is_visible_text(value_bytes(*value)),
        r.is_ok() ==> encode_utf8(r.unwrap()@) == value_bytes(*value),
{
    value.to_str().map(|s| s.to_string())
}

} // verus!
