//! Building the outbound request and cleaning the inbound response.

use crate::headers::{
    copy_headers, first_value, header_entries, header_names, is_crowded, is_plain_name,
    is_value_text, is_visible_text, parse_value, remove_header, try_insert_header, value_text,
};
use crate::hop::{fold, hop_match, same_name, standard_hop_names, HopHeaders};
use crate::uri::{forward_text, parse_uri, parsed_uri};
use http::header::{HeaderMap, HeaderValue, InvalidHeaderValue, MaxSizeReached, ToStrError};
use http::uri::{InvalidUri, Uri};
use vstd::prelude::*;
use vstd::std_specs::convert::FromSpecImpl;
use vstd::string::StringExecFns;
use vstd::utf8::{encode_scalar, encode_utf8, is_ascii_chars, is_ascii_chars_encode_utf8};

verus! {

#[verifier::external_type_specification]
#[verifier::external_body]
pub struct ExTransportError(hyper::Error);

/// Formats a `hyper::Error` with `Debug`, for the log. The text may hold
/// what the operating system says of the cause, so nothing is claimed of it.
#[verifier::external_body]
pub(crate) fn transport_error_text(error: &hyper::Error) -> String {
    format!("{:?}", error)
}

/// Why a request could not be relayed.
#[derive(Debug)]
pub enum ProxyError {
    /// The upstream base and the request's path and query form no address.
    InvalidUri(InvalidUri),
    /// The call to the upstream failed.
    HyperError(hyper::Error),
    /// The forwarding chain could not be read or written as a header value.
    ForwardHeaderError,
    /// The header collection could not take one more name.
    HeaderLimit,
}

impl From<hyper::Error> for ProxyError {
    fn from(err: hyper::Error) -> (r: ProxyError) {
        ProxyError::HyperError(err)
    }
}

impl FromSpecImpl<hyper::Error> for ProxyError {
    open spec fn obeys_from_spec() -> bool {
        true
    }

    open spec fn from_spec(err: hyper::Error) -> ProxyError {
        ProxyError::HyperError(err)
    }
}

impl From<InvalidUri> for ProxyError {
    fn from(err: InvalidUri) -> (r: ProxyError) {
        ProxyError::InvalidUri(err)
    }
}

impl FromSpecImpl<InvalidUri> for ProxyError {
    open spec fn obeys_from_spec() -> bool {
        true
    }

    open spec fn from_spec(err: InvalidUri) -> ProxyError {
        ProxyError::InvalidUri(err)
    }
}

impl From<ToStrError> for ProxyError {
    fn from(_err: ToStrError) -> (r: ProxyError) {
        ProxyError::ForwardHeaderError
    }
}

impl FromSpecImpl<ToStrError> for ProxyError {
    open spec fn obeys_from_spec() -> bool {
        true
    }

    open spec fn from_spec(_err: ToStrError) -> ProxyError {
        ProxyError::ForwardHeaderError
    }
}

impl From<InvalidHeaderValue> for ProxyError {
    fn from(_err: InvalidHeaderValue) -> (r: ProxyError) {
        ProxyError::ForwardHeaderError
    }
}

impl FromSpecImpl<InvalidHeaderValue> for ProxyError {
    open spec fn obeys_from_spec() -> bool {
        true
    }

    open spec fn from_spec(_err: InvalidHeaderValue) -> ProxyError {
        ProxyError::ForwardHeaderError
    }
}

impl From<MaxSizeReached> for ProxyError {
    fn from(_err: MaxSizeReached) -> (r: ProxyError) {
        ProxyError::HeaderLimit
    }
}

impl FromSpecImpl<MaxSizeReached> for ProxyError {
    open spec fn obeys_from_spec() -> bool {
        true
    }

    open spec fn from_spec(_err: MaxSizeReached) -> ProxyError {
        ProxyError::HeaderLimit
    }
}

/// The part of an inbound request that forwarding reads.
pub struct InboundRequest {
    pub path: String,
    pub query: Option<String>,
    pub headers: HeaderMap<HeaderValue>,
}

/// The part of the outbound request that forwarding decides.
pub struct OutboundRequest {
    pub uri: Uri,
    pub headers: HeaderMap<HeaderValue>,
}

/// The name of the header that records the chain of client addresses.
pub const X_FORWARDED_FOR: &'static str = "x-forwarded-for";

/// The bytes of a comma and a space, which part two addresses of the chain.
pub open spec fn chain_separator() -> Seq<u8> {
    seq![44u8, 32u8]
}

/// A collection without the names that match one of `names`; the names that
/// stay keep their values.
pub open spec fn sanitized(entries: Map<Seq<char>, Seq<Seq<u8>>>, names: Seq<Seq<char>>) -> Map<
    Seq<char>,
    Seq<Seq<u8>>,
> {
    Map::new(|k: Seq<char>| entries.dom().contains(k) && !hop_match(names, k), |k: Seq<char>| entries[k])
}

/// The value that the forwarding chain takes once `client_ip` has passed:
/// the address alone where there was no chain, else the first value of the
/// chain, a comma, a space and the address. There is none where the old
/// value is not printable text or the new one cannot stand in a header.
pub open spec fn forwarded_value(entries: Map<Seq<char>, Seq<Seq<u8>>>, client_ip: Seq<char>) -> Option<
    Seq<u8>,
> {
    if entries.dom().contains(X_FORWARDED_FOR@) {
        let before = entries[X_FORWARDED_FOR@][0];
        let after = before + chain_separator() + encode_utf8(client_ip);
        if is_visible_text(before) && is_value_text(after) {
            Some(after)
        } else {
            None
        }
    } else {
        if is_value_text(encode_utf8(client_ip)) {
            Some(encode_utf8(client_ip))
        } else {
            None
        }
    }
}

/// A collection whose forwarding chain is the one value `value`.
pub open spec fn chained(entries: Map<Seq<char>, Seq<Seq<u8>>>, value: Seq<u8>) -> Map<
    Seq<char>,
    Seq<Seq<u8>>,
> {
    entries.insert(X_FORWARDED_FOR@, seq![value])
}

/// The text of the outbound address of `request` under the upstream base
/// `base`.
pub open spec fn outbound_text(base: Seq<char>, request: InboundRequest) -> Seq<char> {
    forward_text(
        base,
        request.path@,
        match request.query {
            Some(q) => Some(q@),
            None => None,
        },
    )
}

/// The UTF-8 form of two texts joined is the two forms joined.
pub proof fn lemma_encode_concat(a: Seq<char>, b: Seq<char>)
    ensures
        encode_utf8(a + b) == encode_utf8(a) + encode_utf8(b),
    decreases a.len(),
{
    if a.len() == 0 {
        assert(a + b =~= b);
        assert(encode_utf8(a) + encode_utf8(b) =~= encode_utf8(b));
    } else {
        lemma_encode_concat(a.drop_first(), b);
        assert((a + b).drop_first() =~= a.drop_first() + b);
        assert((a + b)[0] == a[0]);
        assert(encode_utf8(a + b) =~= encode_scalar(a[0] as u32) + (encode_utf8(a.drop_first())
            + encode_utf8(b)));
        assert(encode_utf8(a) + encode_utf8(b) =~= encode_scalar(a[0] as u32) + (encode_utf8(
            a.drop_first(),
        ) + encode_utf8(b)));
    }
}

/// No name of a cleaned collection matches a name of the set, and every
/// other name of the collection is still there with the values it had.
pub proof fn law_sanitized_keeps_the_rest(entries: Map<Seq<char>, Seq<Seq<u8>>>, names: Seq<Seq<char>>)
    ensures
        forall|k: Seq<char>| #[trigger]
            sanitized(entries, names).dom().contains(k) ==> entries.dom().contains(k) && !hop_match(
                names,
                k,
            ),
        forall|k: Seq<char>|
            entries.dom().contains(k) && !hop_match(names, k) ==> #[trigger] sanitized(
                entries,
                names,
            ).dom().contains(k) && sanitized(entries, names)[k] == entries[k],
{
}

/// Cleaning a cleaned collection changes nothing.
pub proof fn law_sanitized_twice(entries: Map<Seq<char>, Seq<Seq<u8>>>, names: Seq<Seq<char>>)
    ensures
        sanitized(sanitized(entries, names), names) == sanitized(entries, names),
{
    assert(sanitized(sanitized(entries, names), names) =~= sanitized(entries, names));
}

/// Where there is no forwarding chain, it becomes the client's address and
/// nothing more.
pub proof fn law_chain_begins(entries: Map<Seq<char>, Seq<Seq<u8>>>, client_ip: Seq<char>)
    requires
        !entries.dom().contains(X_FORWARDED_FOR@),
        is_value_text(encode_utf8(client_ip)),
    ensures
        forwarded_value(entries, client_ip) == Some(encode_utf8(client_ip)),
{
}

/// Printable text, the separator and bytes that may stand in a header
/// value make bytes that may stand in a header value.
pub proof fn lemma_grown_chain_is_value(before: Seq<u8>, address: Seq<u8>)
    requires
        is_visible_text(before),
        is_value_text(address),
    ensures
        is_value_text(before + chain_separator() + address),
{
    let after = before + chain_separator() + address;
    assert forall|i: int| 0 <= i < after.len() implies crate::headers::is_value_byte(
        #[trigger] after[i],
    ) by {
        if i < before.len() {
            assert(after[i] == before[i]);
            assert(crate::headers::is_visible_byte(before[i]));
        } else if i < before.len() + 2 {
            assert(after[i] == chain_separator()[i - before.len()]);
        } else {
            assert(after[i] == address[i - before.len() - 2]);
        }
    }
}

/// Where there is a forwarding chain of printable text, it becomes that
/// text, a comma, a space and the client's address.
pub proof fn law_chain_grows(
    entries: Map<Seq<char>, Seq<Seq<u8>>>,
    chain: Seq<char>,
    client_ip: Seq<char>,
)
    requires
        entries.dom().contains(X_FORWARDED_FOR@),
        entries[X_FORWARDED_FOR@][0] == encode_utf8(chain),
        is_visible_text(encode_utf8(chain)),
        is_value_text(encode_utf8(client_ip)),
    ensures
        forwarded_value(entries, client_ip) == Some(encode_utf8(chain + ", "@ + client_ip)),
{
    lemma_separator();
    lemma_encode_concat(chain, ", "@);
    lemma_encode_concat(chain + ", "@, client_ip);
    lemma_grown_chain_is_value(encode_utf8(chain), encode_utf8(client_ip));
}

/// The forwarding chain is none of the standard connection-scoped names.
pub proof fn lemma_chain_is_relayed()
    ensures
        !hop_match(standard_hop_names(), X_FORWARDED_FOR@),
{
    reveal_strlit("x-forwarded-for");
    reveal_strlit("Connection");
    reveal_strlit("Keep-Alive");
    reveal_strlit("Proxy-Authenticate");
    reveal_strlit("Proxy-Authorization");
    reveal_strlit("Te");
    reveal_strlit("Trailers");
    reveal_strlit("Transfer-Encoding");
    reveal_strlit("Upgrade");
    let names = standard_hop_names();
    assert forall|i: int| 0 <= i < names.len() implies !same_name(
        #[trigger] names[i],
        X_FORWARDED_FOR@,
    ) by {
        assert(fold(names[i]).len() == names[i].len());
        assert(fold(X_FORWARDED_FOR@).len() == 15);
    }
}

/// With the standard set, no connection-scoped name stands among the
/// headers of a forwarded request.
pub proof fn law_forwarded_carries_no_hop_name(
    entries: Map<Seq<char>, Seq<Seq<u8>>>,
    value: Seq<u8>,
)
    ensures
        forall|k: Seq<char>| #[trigger]
            sanitized(entries, standard_hop_names()).insert(
                X_FORWARDED_FOR@,
                seq![value],
            ).dom().contains(k) ==> !hop_match(standard_hop_names(), k),
{
    lemma_chain_is_relayed();
}

proof fn lemma_forwarded_name()
    ensures
        is_plain_name(X_FORWARDED_FOR@),
        fold(X_FORWARDED_FOR@) == X_FORWARDED_FOR@,
{
    reveal_strlit("x-forwarded-for");
    assert(fold(X_FORWARDED_FOR@) =~= X_FORWARDED_FOR@);
}

proof fn lemma_separator()
    ensures
        encode_utf8(", "@) == chain_separator(),
{
    reveal_strlit(", ");
    assert(is_ascii_chars(", "@));
    is_ascii_chars_encode_utf8(", "@);
    assert(encode_utf8(", "@) =~= chain_separator());
}

pub struct Proxy;

impl Proxy {
    /// A copy of `headers` without the names of `hop`.
    pub fn remove_hop_headers(hop: &HopHeaders, headers: &HeaderMap<HeaderValue>) -> (r: HeaderMap<
        HeaderValue,
    >)
        ensures
            header_entries(r) == sanitized(header_entries(*headers), hop@),
    {
        let names = header_names(headers);
        let mut result = copy_headers(headers);
        let ghost before = header_entries(*headers);
        let mut i: usize = 0;
        while i < names.len()
            invariant
                i <= names.len(),
                before == header_entries(*headers),
                forall|j: int| 0 <= j < names.len() ==> fold(#[trigger] names[j]@) == names[j]@,
                forall|k: Seq<char>| #[trigger]
                    header_entries(result).dom().contains(k) <==> before.dom().contains(k) && !(
                    hop_match(hop@, k) && exists|j: int| 0 <= j < i && #[trigger] names[j]@ == k),
                forall|k: Seq<char>| #[trigger]
                    header_entries(result).dom().contains(k) ==> header_entries(result)[k]
                        == before[k],
            decreases names.len() - i,
        {
            let name = names[i].as_str();
            if hop.is_hop_header(name) {
                remove_header(&mut result, name);
            }
            i += 1;
        }
        proof {
            assert forall|k: Seq<char>| before.dom().contains(k) implies exists|j: int|
                0 <= j < names.len() && #[trigger] names[j]@ == k by {
                assert(names.deep_view().contains(k));
                let j = choose|j: int| 0 <= j < names.deep_view().len() && names.deep_view()[j] == k;
                assert(names[j]@ == k);
            }
            assert(header_entries(result) =~= sanitized(before, hop@));
        }
        result
    }

    /// What the call to the upstream comes to: the headers of its response,
    /// cleaned, or the failure of the transport with its cause.
    pub fn receive(hop: &HopHeaders, outcome: Result<HeaderMap<HeaderValue>, hyper::Error>) -> (r:
        Result<HeaderMap<HeaderValue>, ProxyError>)
        ensures
            match outcome {
                Ok(headers) => match r {
                    Ok(cleaned) => header_entries(cleaned) == sanitized(
                        header_entries(headers),
                        hop@,
                    ),
                    Err(_) => false,
                },
                Err(cause) => r == Err::<HeaderMap<HeaderValue>, ProxyError>(
                    ProxyError::HyperError(cause),
                ),
            },
    {
        match outcome {
            Ok(headers) => Ok(Self::create_proxied_response(hop, &headers)),
            Err(cause) => Err(ProxyError::from(cause)),
        }
    }

    /// The headers of an upstream response as they are handed to the client.
    pub fn create_proxied_response(hop: &HopHeaders, headers: &HeaderMap<HeaderValue>) -> (r:
        HeaderMap<HeaderValue>)
        ensures
            header_entries(r) == sanitized(header_entries(*headers), hop@),
    {
        Self::remove_hop_headers(hop, headers)
    }

    /// The outbound address for a request with this path and query.
    pub fn forward_uri(forward_url: &str, path: &str, query: &Option<String>) -> (r: Result<
        Uri,
        InvalidUri,
    >)
        ensures
            r == parsed_uri(
                forward_text(
                    forward_url@,
                    path@,
                    match *query {
                        Some(q) => Some(q@),
                        None => None,
                    },
                ),
            ),
    {
        let mut text = String::from_str(forward_url);
        text.append(path);
        match query {
            Some(q) => {
                proof {
                    reveal_strlit("?");
                    assert("?"@ =~= seq!['?']);
                }
                text.append("?");
                text.append(q.as_str());
            },
            None => {},
        }
        parse_uri(text.as_str())
    }

    /// What becomes of the headers once the collection has answered an
    /// insertion: they go on where it took the value, and the request fails
    /// where it could not grow.
    pub fn stored(inserted: Result<(), MaxSizeReached>, headers: HeaderMap<HeaderValue>) -> (r:
        Result<HeaderMap<HeaderValue>, ProxyError>)
        ensures
            inserted.is_ok() ==> r == Ok::<HeaderMap<HeaderValue>, ProxyError>(headers),
            inserted.is_err() ==> r == Err::<HeaderMap<HeaderValue>, ProxyError>(
                ProxyError::HeaderLimit,
            ),
    {
        match inserted {
            Ok(_) => Ok(headers),
            Err(full) => Err(ProxyError::from(full)),
        }
    }

    /// Records `client_ip` in the forwarding chain: the chain is set to the
    /// address where there was none, and else to its first value, a comma, a
    /// space and the address. Every other header stays as it was.
    pub fn add_forwarded_for(headers: HeaderMap<HeaderValue>, client_ip: &str) -> (r: Result<
        HeaderMap<HeaderValue>,
        ProxyError,
    >)
        ensures
            match r {
                Ok(h) => forwarded_value(header_entries(headers), client_ip@).is_some()
                    && header_entries(h) == header_entries(headers).insert(
                    X_FORWARDED_FOR@,
                    seq![forwarded_value(header_entries(headers), client_ip@).unwrap()],
                ),
                Err(ProxyError::ForwardHeaderError) => forwarded_value(
                    header_entries(headers),
                    client_ip@,
                ).is_none(),
                Err(ProxyError::HeaderLimit) => forwarded_value(
                    header_entries(headers),
                    client_ip@,
                ).is_some() && is_crowded(header_entries(headers)),
                Err(_) => false,
            },
            forwarded_value(header_entries(headers), client_ip@).is_some() && !is_crowded(
                header_entries(headers),
            ) ==> r.is_ok(),
            !header_entries(headers).dom().contains(X_FORWARDED_FOR@) && is_value_text(
                encode_utf8(client_ip@),
            ) && !is_crowded(header_entries(headers)) ==> match r {
                Ok(h) => header_entries(h) == chained(
                    header_entries(headers),
                    encode_utf8(client_ip@),
                ),
                Err(_) => false,
            },
            header_entries(headers).dom().contains(X_FORWARDED_FOR@) && is_visible_text(
                header_entries(headers)[X_FORWARDED_FOR@][0],
            ) && is_value_text(encode_utf8(client_ip@)) && !is_crowded(header_entries(headers))
                ==> match r {
                Ok(h) => header_entries(h) == chained(
                    header_entries(headers),
                    header_entries(headers)[X_FORWARDED_FOR@][0] + chain_separator() + encode_utf8(
                        client_ip@,
                    ),
                ),
                Err(_) => false,
            },
    {
        let mut headers = headers;
        let ghost before = header_entries(headers);
        proof {
            lemma_forwarded_name();
            lemma_separator();
            if before.dom().contains(X_FORWARDED_FOR@) && is_visible_text(
                before[X_FORWARDED_FOR@][0],
            ) && is_value_text(encode_utf8(client_ip@)) {
                lemma_grown_chain_is_value(before[X_FORWARDED_FOR@][0], encode_utf8(client_ip@));
            }
        }
        let text = match first_value(&headers, X_FORWARDED_FOR) {
            None => String::from_str(client_ip),
            Some(chain) => {
                match value_text(&chain) {
                    Err(e) => {
                        return Err(ProxyError::from(e));
                    },
                    Ok(seen) => {
                        let mut joined = seen;
                        joined.append(", ");
                        joined.append(client_ip);
                        proof {
                            lemma_encode_concat(seen@, ", "@);
                            lemma_encode_concat(seen@ + ", "@, client_ip@);
                        }
                        joined
                    },
                }
            },
        };
        assert(is_value_text(encode_utf8(text@)) ==> forwarded_value(before, client_ip@) == Some(
            encode_utf8(text@),
        ));
        assert(!is_value_text(encode_utf8(text@)) ==> forwarded_value(before, client_ip@).is_none());
        match parse_value(text.as_str()) {
            Err(e) => Err(ProxyError::from(e)),
            Ok(value) => {
                let inserted = try_insert_header(&mut headers, X_FORWARDED_FOR, value);
                Self::stored(inserted, headers)
            },
        }
    }

    /// The outbound request for `request`: its headers without the names of
    /// `hop` and with `client_ip` recorded in the forwarding chain, addressed
    /// to `forward_url` followed by the request's own path and query.
    pub fn create_proxied_request(
        hop: &HopHeaders,
        client_ip: &str,
        forward_url: &str,
        request: InboundRequest,
    ) -> (r: Result<OutboundRequest, ProxyError>)
        ensures
            match r {
                Ok(out) => parsed_uri(outbound_text(forward_url@, request))
                    == Ok::<Uri, InvalidUri>(out.uri) && forwarded_value(
                    sanitized(header_entries(request.headers), hop@),
                    client_ip@,
                ).is_some() && header_entries(out.headers) == sanitized(
                    header_entries(request.headers),
                    hop@,
                ).insert(
                    X_FORWARDED_FOR@,
                    seq![
                        forwarded_value(
                            sanitized(header_entries(request.headers), hop@),
                            client_ip@,
                        ).unwrap(),
                    ],
                ),
                Err(ProxyError::InvalidUri(e)) => parsed_uri(outbound_text(forward_url@, request))
                    == Err::<Uri, InvalidUri>(e),
                Err(ProxyError::ForwardHeaderError) => parsed_uri(
                    outbound_text(forward_url@, request),
                ).is_ok() && forwarded_value(
                    sanitized(header_entries(request.headers), hop@),
                    client_ip@,
                ).is_none(),
                Err(ProxyError::HeaderLimit) => parsed_uri(
                    outbound_text(forward_url@, request),
                ).is_ok() && forwarded_value(
                    sanitized(header_entries(request.headers), hop@),
                    client_ip@,
                ).is_some() && is_crowded(sanitized(header_entries(request.headers), hop@)),
                Err(ProxyError::HyperError(_)) => false,
            },
            parsed_uri(outbound_text(forward_url@, request)).is_ok() && forwarded_value(
                sanitized(header_entries(request.headers), hop@),
                client_ip@,
            ).is_some() && !is_crowded(sanitized(header_entries(request.headers), hop@))
                ==> r.is_ok(),
            ({
                let cleaned = sanitized(header_entries(request.headers), hop@);
                parsed_uri(outbound_text(forward_url@, request)).is_ok() && !cleaned.dom().contains(
                    X_FORWARDED_FOR@,
                ) && is_value_text(encode_utf8(client_ip@)) && !is_crowded(cleaned) ==> match r {
                    Ok(out) => header_entries(out.headers) == chained(
                        cleaned,
                        encode_utf8(client_ip@),
                    ),
                    Err(_) => false,
                }
            }),
            ({
                let cleaned = sanitized(header_entries(request.headers), hop@);
                parsed_uri(outbound_text(forward_url@, request)).is_ok() && cleaned.dom().contains(
                    X_FORWARDED_FOR@,
                ) && is_visible_text(cleaned[X_FORWARDED_FOR@][0]) && is_value_text(
                    encode_utf8(client_ip@),
                ) && !is_crowded(cleaned) ==> match r {
                    Ok(out) => header_entries(out.headers) == chained(
                        cleaned,
                        cleaned[X_FORWARDED_FOR@][0] + chain_separator() + encode_utf8(client_ip@),
                    ),
                    Err(_) => false,
                }
            }),
    {
        let headers = Self::remove_hop_headers(hop, &request.headers);
        let uri = match Self::forward_uri(forward_url, request.path.as_str(), &request.query) {
            Ok(uri) => uri,
            Err(e) => {
                return Err(ProxyError::from(e));
            },
        };
        match Self::add_forwarded_for(headers, client_ip) {
            Ok(headers) => Ok(OutboundRequest { uri, headers }),
            Err(e) => Err(e),
        }
    }
}

} // verus!
