//! The routing decision: which upstream a request goes to, and with which
//! headers.

use crate::headers::{
    header_entries, is_crowded, is_plain_name, is_value_text, parse_value, try_insert_header,
};
use crate::hop::HopHeaders;
use crate::proxy::{
    forwarded_value, outbound_text, sanitized, InboundRequest, OutboundRequest, Proxy, ProxyError,
    X_FORWARDED_FOR,
};
use crate::text::has_prefix;
use crate::uri::{parsed_uri, uri_error_debug, uri_error_text};
use http::header::{HeaderMap, HeaderValue};
use http::uri::{InvalidUri, Uri};
use vstd::prelude::*;
use vstd::string::StringExecFns;
use vstd::utf8::{encode_utf8, is_ascii_chars, is_ascii_chars_encode_utf8};

verus! {

/// Why a request was not handled.
#[derive(Debug)]
pub enum HandlerError {
    /// Something failed on this side; `detail` is for the log.
    Internal { detail: String },
    /// No rule took the path and there is no fallback.
    NotFound { path: String },
}

/// One rule of the policy: paths that begin with `prefix` go to `upstream`,
/// with the tenant header where `tenant` is set.
pub struct Rule {
    pub prefix: String,
    pub upstream: String,
    pub tenant: bool,
}

pub struct RuleSpec {
    pub prefix: Seq<char>,
    pub upstream: Seq<char>,
    pub tenant: bool,
}

impl View for Rule {
    type V = RuleSpec;

    open spec fn view(&self) -> RuleSpec {
        RuleSpec { prefix: self.prefix@, upstream: self.upstream@, tenant: self.tenant }
    }
}

/// The rules in the order in which they are tried, and the upstream for the
/// paths that none of them takes.
pub struct RoutingPolicy {
    pub rules: Vec<Rule>,
    pub fallback: Option<String>,
}

pub struct PolicySpec {
    pub rules: Seq<RuleSpec>,
    pub fallback: Option<Seq<char>>,
}

impl View for RoutingPolicy {
    type V = PolicySpec;

    open spec fn view(&self) -> PolicySpec {
        PolicySpec {
            rules: self.rules@.map_values(|r: Rule| r@),
            fallback: match self.fallback {
                Some(u) => Some(u@),
                None => None,
            },
        }
    }
}

/// Where a request goes.
pub struct Target {
    pub upstream: String,
    pub tenant: bool,
}

pub struct TargetSpec {
    pub upstream: Seq<char>,
    pub tenant: bool,
}

impl View for Target {
    type V = TargetSpec;

    open spec fn view(&self) -> TargetSpec {
        TargetSpec { upstream: self.upstream@, tenant: self.tenant }
    }
}

/// The name of the header that carries the tenant.
pub const TENANT_HEADER: &'static str = "x-workspace-id";

/// The tenant that is named until tenants are looked up.
pub const TENANT_VALUE: &'static str = "first_workspace";

pub open spec fn rule_matches(rule: RuleSpec, path: Seq<char>) -> bool {
    rule.prefix.is_prefix_of(path)
}

/// Rule `i` takes the path and no earlier rule does.
pub open spec fn is_first_match(rules: Seq<RuleSpec>, path: Seq<char>, i: int) -> bool {
    &&& 0 <= i < rules.len()
    &&& rule_matches(rules[i], path)
    &&& forall|j: int| 0 <= j < i ==> !rule_matches(#[trigger] rules[j], path)
}

/// No rule takes the path.
pub open spec fn no_match(rules: Seq<RuleSpec>, path: Seq<char>) -> bool {
    forall|j: int| 0 <= j < rules.len() ==> !rule_matches(#[trigger] rules[j], path)
}

/// Where the policy sends a path: to the first rule that takes it, else to
/// the fallback, without the tenant header; nowhere if there is neither.
pub open spec fn decided(policy: PolicySpec, path: Seq<char>) -> Option<TargetSpec> {
    if exists|i: int| is_first_match(policy.rules, path, i) {
        let i = choose|i: int| is_first_match(policy.rules, path, i);
        Some(TargetSpec { upstream: policy.rules[i].upstream, tenant: policy.rules[i].tenant })
    } else {
        match policy.fallback {
            Some(u) => Some(TargetSpec { upstream: u, tenant: false }),
            None => None,
        }
    }
}

/// The detail of a failure of the given kind with the given cause: the
/// kind, and the cause in round brackets.
pub open spec fn caused(kind: Seq<char>, cause: Seq<char>) -> Seq<char> {
    kind + "("@ + cause + ")"@
}

/// The bytes of the tenant's name.
pub open spec fn tenant_value() -> Seq<u8> {
    encode_utf8(TENANT_VALUE@)
}

/// The headers as they are handed to forwarding.
pub open spec fn routed_headers(entries: Map<Seq<char>, Seq<Seq<u8>>>, tenant: bool) -> Map<
    Seq<char>,
    Seq<Seq<u8>>,
> {
    if tenant {
        entries.insert(TENANT_HEADER@, seq![tenant_value()])
    } else {
        entries
    }
}

/// At most one rule is the first to take a path.
pub proof fn lemma_first_match_unique(rules: Seq<RuleSpec>, path: Seq<char>, i: int, j: int)
    requires
        is_first_match(rules, path, i),
        is_first_match(rules, path, j),
    ensures
        i == j,
{
    if i < j {
        assert(!rule_matches(rules[i], path));
    } else if j < i {
        assert(!rule_matches(rules[j], path));
    }
}

/// Where some rule takes a path, one of them is the first.
pub proof fn lemma_first_match_exists(rules: Seq<RuleSpec>, path: Seq<char>, k: int)
    requires
        0 <= k < rules.len(),
        rule_matches(rules[k], path),
    ensures
        exists|i: int| 0 <= i <= k && is_first_match(rules, path, i),
    decreases k,
{
    if exists|j: int| 0 <= j < k && rule_matches(#[trigger] rules[j], path) {
        let j = choose|j: int| 0 <= j < k && rule_matches(#[trigger] rules[j], path);
        lemma_first_match_exists(rules, path, j);
    } else {
        assert(is_first_match(rules, path, k));
    }
}

/// Where a path is taken by exactly one rule, the order of the rules does
/// not matter: under any reordering the same rule is the first to take it,
/// so the path goes to the same upstream.
pub proof fn law_order_of_disjoint_rules(
    policy: PolicySpec,
    reordered: PolicySpec,
    path: Seq<char>,
    i: int,
)
    requires
        policy.rules.to_multiset() == reordered.rules.to_multiset(),
        policy.fallback == reordered.fallback,
        0 <= i < policy.rules.len(),
        rule_matches(policy.rules[i], path),
        forall|j: int|
            0 <= j < policy.rules.len() && j != i ==> !rule_matches(
                #[trigger] policy.rules[j],
                path,
            ),
    ensures
        is_first_match(policy.rules, path, i),
        exists|k: int|
            is_first_match(reordered.rules, path, k) && reordered.rules[k] == policy.rules[i],
        decided(reordered, path) == decided(policy, path),
{
    broadcast use vstd::seq_lib::group_to_multiset_ensures;

    let rules = policy.rules;
    let moved = reordered.rules;
    assert(is_first_match(rules, path, i));
    assert(rules.contains(rules[i]));
    assert(rules.to_multiset().count(rules[i]) > 0);
    assert(moved.contains(rules[i]));
    let m = choose|m: int| 0 <= m < moved.len() && moved[m] == rules[i];
    lemma_first_match_exists(moved, path, m);
    let k = choose|k: int| 0 <= k <= m && is_first_match(moved, path, k);
    assert(moved.contains(moved[k]));
    assert(moved.to_multiset().count(moved[k]) > 0);
    assert(rules.contains(moved[k]));
    let n = choose|n: int| 0 <= n < rules.len() && rules[n] == moved[k];
    assert(n == i);
    assert(moved[k] == rules[i]);
    let a = choose|a: int| is_first_match(policy.rules, path, a);
    lemma_first_match_unique(rules, path, a, i);
    let b = choose|b: int| is_first_match(reordered.rules, path, b);
    lemma_first_match_unique(moved, path, b, k);
    assert(decided(policy, path) == Some(
        TargetSpec { upstream: rules[i].upstream, tenant: rules[i].tenant },
    ));
    assert(decided(reordered, path) == Some(
        TargetSpec { upstream: moved[k].upstream, tenant: moved[k].tenant },
    ));
}

proof fn lemma_tenant_texts()
    ensures
        is_plain_name(TENANT_HEADER@),
        is_value_text(tenant_value()),
{
    reveal_strlit("x-workspace-id");
    reveal_strlit("first_workspace");
    assert(is_ascii_chars(TENANT_VALUE@));
    is_ascii_chars_encode_utf8(TENANT_VALUE@);
    assert forall|i: int| 0 <= i < tenant_value().len() implies crate::headers::is_value_byte(
        #[trigger] tenant_value()[i],
    ) by {
        assert(tenant_value()[i] == TENANT_VALUE@[i] as u8);
    }
}

pub struct Router;

impl Router {
    /// The first rule of the policy that takes `path`.
    pub fn select(path: &str, policy: &RoutingPolicy) -> (r: Option<usize>)
        ensures
            match r {
                Some(i) => is_first_match(policy@.rules, path@, i as int),
                None => no_match(policy@.rules, path@),
            },
    {
        let mut i: usize = 0;
        while i < policy.rules.len()
            invariant
                i <= policy.rules.len(),
                forall|j: int| 0 <= j < i ==> !rule_matches(#[trigger] policy@.rules[j], path@),
            decreases policy.rules.len() - i,
        {
            if has_prefix(path, policy.rules[i].prefix.as_str()) {
                assert(rule_matches(policy@.rules[i as int], path@));
                return Some(i);
            }
            assert(!rule_matches(policy@.rules[i as int], path@));
            i += 1;
        }
        None
    }

    /// Where `path` goes under `policy`, or that it goes nowhere.
    pub fn resolve(path: &str, policy: &RoutingPolicy) -> (r: Result<Target, HandlerError>)
        ensures
            match r {
                Ok(t) => decided(policy@, path@) == Some(t@),
                Err(HandlerError::NotFound { path: p }) => decided(policy@, path@).is_none() && p@
                    == path@,
                Err(HandlerError::Internal { .. }) => false,
            },
    {
        match Self::select(path, policy) {
            Some(i) => {
                proof {
                    let k = choose|k: int| is_first_match(policy@.rules, path@, k);
                    lemma_first_match_unique(policy@.rules, path@, i as int, k);
                }
                let rule = &policy.rules[i];
                Ok(Target { upstream: rule.upstream.clone(), tenant: rule.tenant })
            },
            None => {
                match &policy.fallback {
                    Some(u) => Ok(Target { upstream: u.clone(), tenant: false }),
                    None => Err(HandlerError::NotFound { path: String::from_str(path) }),
                }
            },
        }
    }

    /// The internal failure of the given kind, with its cause in brackets
    /// for the log.
    pub fn with_cause(kind: &str, cause: &str) -> (r: HandlerError)
        ensures
            match r {
                HandlerError::Internal { detail } => detail@ == caused(kind@, cause@),
                HandlerError::NotFound { .. } => false,
            },
    {
        let mut detail = String::from_str(kind);
        detail.append("(");
        detail.append(cause);
        detail.append(")");
        HandlerError::Internal { detail }
    }

    /// What the client is told of a failure to relay: that something failed
    /// on this side. The detail names the kind of failure, with the cause in
    /// brackets where there is one; the cause of a failed transport is what
    /// the transport says of it.
    pub fn proxy_error(err: ProxyError) -> (r: HandlerError)
        ensures
            match r {
                HandlerError::Internal { detail } => match err {
                    ProxyError::InvalidUri(e) => detail@ == caused(
                        "InvalidUri"@,
                        uri_error_debug(e),
                    ),
                    ProxyError::HyperError(_) => exists|cause: Seq<char>|
                        detail@ == caused("HyperError"@, cause),
                    ProxyError::ForwardHeaderError => detail@ == "ForwardHeaderError"@,
                    ProxyError::HeaderLimit => detail@ == "HeaderLimit"@,
                },
                HandlerError::NotFound { .. } => false,
            },
    {
        match err {
            ProxyError::InvalidUri(e) => {
                let cause = uri_error_text(&e);
                Self::with_cause("InvalidUri", cause.as_str())
            },
            ProxyError::HyperError(e) => {
                let cause = crate::proxy::transport_error_text(&e);
                Self::with_cause("HyperError", cause.as_str())
            },
            ProxyError::ForwardHeaderError => HandlerError::Internal {
                detail: String::from_str("ForwardHeaderError"),
            },
            ProxyError::HeaderLimit => HandlerError::Internal {
                detail: String::from_str("HeaderLimit"),
            },
        }
    }

    /// Names the tenant in the headers.
    pub fn set_headers(headers: HeaderMap<HeaderValue>) -> (r: Result<
        HeaderMap<HeaderValue>,
        HandlerError,
    >)
        ensures
            match r {
                Ok(h) => header_entries(h) == routed_headers(header_entries(headers), true),
                Err(HandlerError::Internal { detail }) => detail@ == "HeaderLimit"@ && is_crowded(
                    header_entries(headers),
                ),
                Err(HandlerError::NotFound { .. }) => false,
            },
    {
        let mut headers = headers;
        proof {
            lemma_tenant_texts();
        }
        match parse_value(TENANT_VALUE) {
            Ok(value) => {
                let inserted = try_insert_header(&mut headers, TENANT_HEADER, value);
                match Proxy::stored(inserted, headers) {
                    Ok(h) => Ok(h),
                    Err(e) => Err(Self::proxy_error(e)),
                }
            },
            Err(e) => {
                // The tenant's name is printable text, so this is never reached.
                proof {
                    assert(false);
                }
                Err(Self::proxy_error(ProxyError::from(e)))
            },
        }
    }

    /// The outbound request for `request`, or why there is none. The path
    /// picks the upstream by the first rule that takes it; the tenant is
    /// named where that rule says so; then the request is made ready for the
    /// upstream.
    pub fn route(
        hop: &HopHeaders,
        request: InboundRequest,
        client_ip: &str,
        policy: &RoutingPolicy,
    ) -> (r: Result<OutboundRequest, HandlerError>)
        ensures
            match decided(policy@, request.path@) {
                None => match r {
                    Err(HandlerError::NotFound { path }) => path@ == request.path@,
                    _ => false,
                },
                Some(target) => match r {
                    Ok(out) => {
                        let cleaned = sanitized(
                            routed_headers(header_entries(request.headers), target.tenant),
                            hop@,
                        );
                        &&& parsed_uri(outbound_text(target.upstream, request)) == Ok::<
                            Uri,
                            InvalidUri,
                        >(out.uri)
                        &&& forwarded_value(cleaned, client_ip@).is_some()
                        &&& header_entries(out.headers) == cleaned.insert(
                            X_FORWARDED_FOR@,
                            seq![forwarded_value(cleaned, client_ip@).unwrap()],
                        )
                    },
                    Err(HandlerError::Internal { detail }) => {
                        let cleaned = sanitized(
                            routed_headers(header_entries(request.headers), target.tenant),
                            hop@,
                        );
                        let address = parsed_uri(outbound_text(target.upstream, request));
                        ||| detail@ == "HeaderLimit"@ && target.tenant && is_crowded(
                            header_entries(request.headers),
                        )
                        ||| detail@ == "HeaderLimit"@ && address.is_ok() && forwarded_value(
                            cleaned,
                            client_ip@,
                        ).is_some() && is_crowded(cleaned)
                        ||| match address {
                            Err(e) => detail@ == caused("InvalidUri"@, uri_error_debug(e)),
                            Ok(_) => false,
                        }
                        ||| address.is_ok() && forwarded_value(cleaned, client_ip@).is_none()
                            && detail@ == "ForwardHeaderError"@
                    },
                    Err(HandlerError::NotFound { .. }) => false,
                },
            },
            match decided(policy@, request.path@) {
                None => true,
                Some(target) => {
                    let cleaned = sanitized(
                        routed_headers(header_entries(request.headers), target.tenant),
                        hop@,
                    );
                    parsed_uri(outbound_text(target.upstream, request)).is_ok() && forwarded_value(
                        cleaned,
                        client_ip@,
                    ).is_some() && !is_crowded(cleaned) && !is_crowded(
                        header_entries(request.headers),
                    ) ==> r.is_ok()
                },
            },
    {
        let target = match Self::resolve(request.path.as_str(), policy) {
            Ok(t) => t,
            Err(e) => {
                return Err(e);
            },
        };
        let InboundRequest { path, query, headers } = request;
        let headers = if target.tenant {
            match Self::set_headers(headers) {
                Ok(h) => h,
                Err(e) => {
                    return Err(e);
                },
            }
        } else {
            headers
        };
        let prepared = InboundRequest { path, query, headers };
        match Proxy::create_proxied_request(hop, client_ip, target.upstream.as_str(), prepared) {
            Ok(out) => Ok(out),
            Err(e) => Err(Self::proxy_error(e)),
        }
    }
}

} // verus!
