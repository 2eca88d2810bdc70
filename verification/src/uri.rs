//! The address an outbound request is sent to.

use http::uri::{InvalidUri, Uri};
use std::str::FromStr;
use vstd::prelude::*;

verus! {

#[verifier::external_type_specification]
#[verifier::external_body]
pub struct ExUri(Uri);

#[verifier::external_type_specification]
#[verifier::external_body]
pub struct ExInvalidUri(InvalidUri);

/// What `Uri::from_str` makes of a text: the address it denotes, or the
/// reason why it denotes none.
pub uninterp spec fn parsed_uri(text: Seq<char>) -> Result<Uri, InvalidUri>;

/// The text of the outbound address: the upstream base, then the request's
/// path, then, where the request has a query, a question mark and the query
/// as it came.
pub open spec fn forward_text(base: Seq<char>, path: Seq<char>, query: Option<Seq<char>>) -> Seq<
    char,
> {
    match query {
        Some(q) => base + path + seq!['?'] + q,
        None => base + path,
    }
}

/// Calls `Uri::from_str`, which reads the text by the grammar of URIs and
/// depends on nothing but the text.
#[verifier::external_body]
pub(crate) fn parse_uri(text: &str) -> (r: Result<Uri, InvalidUri>)
    ensures
        r == parsed_uri(text@),
{
    Uri::from_str(text)
}

/// What `Debug` prints of an `InvalidUri`.
pub uninterp spec fn uri_error_debug(error: InvalidUri) -> Seq<char>;

/// Formats an `InvalidUri` with `Debug`, for the log. The impl is derived
/// over a plain enum of reasons, so the text depends on the value alone.
#[verifier::external_body]
pub(crate) fn uri_error_text(error: &InvalidUri) -> (r: String)
    ensures
        r@ == uri_error_debug(*error),
{
    format!("{:?}", error)
}

} // verus!
