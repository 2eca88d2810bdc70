//! The edge of the proxy: its configuration, the policy that follows from
//! it, and the boundary at which every failure becomes a response.

use crate::routes::{HandlerError, RoutingPolicy, Rule, RuleSpec, PolicySpec};
use std::sync::Arc;
use vstd::prelude::*;
use vstd::string::StringExecFns;

verus! {

/// What the proxy is started with.
pub struct ProxyConfig {
    /// Where the proxy listens.
    pub proxy_address: String,
    /// Socket address of the upstream that takes what no rule takes.
    pub workspace_address: String,
    /// Socket address of the upstream that serves the API.
    pub runtime_address: String,
    /// Whether one volume serves several tenants.
    pub volume_multi_workspace: bool,
    /// Whether one database serves several tenants.
    pub db_multi_workspace: bool,
}

/// How the handling of one request ended.
pub enum Outcome<R> {
    /// The upstream answered.
    Served(R),
    /// Routing or forwarding failed.
    Failed(HandlerError),
    /// The handler broke off; the text is what it left behind.
    Panicked(String),
}

/// A response made here, and the line that goes to the log with it.
pub struct ErrorResponse {
    pub status: u16,
    pub body: String,
    pub log: String,
}

/// What the client is sent.
pub enum Reply<R> {
    /// The upstream's response.
    Relayed(R),
    /// A response made here.
    Local(ErrorResponse),
}

/// The path prefix of the API.
pub const API_PREFIX: &'static str = "/api/";

/// The scheme that upstream addresses are prefixed with.
pub const UPSTREAM_SCHEME: &'static str = "http://";

/// The status of a response made here.
pub open spec fn status_of(error: HandlerError) -> u16 {
    match error {
        HandlerError::Internal { .. } => 500,
        HandlerError::NotFound { .. } => 404,
    }
}

/// The body of a response made here: it names the status and nothing else.
pub open spec fn body_of(status: u16) -> Seq<char> {
    if status == 404 {
        "Not Found"@
    } else {
        "Internal Server Error"@
    }
}

/// What is logged of a failure: the detail of an internal one, the path
/// that nothing took.
pub open spec fn log_of(error: HandlerError) -> Seq<char> {
    match error {
        HandlerError::Internal { detail } => detail@,
        HandlerError::NotFound { path } => path@,
    }
}

/// The policy that a configuration stands for: the API goes to the runtime,
/// with the tenant named where a volume or a database is shared; all else
/// goes to the workspace.
pub open spec fn policy_of(config: ProxyConfig) -> PolicySpec {
    PolicySpec {
        rules: seq![
            RuleSpec {
                prefix: API_PREFIX@,
                upstream: UPSTREAM_SCHEME@ + config.runtime_address@,
                tenant: config.volume_multi_workspace || config.db_multi_workspace,
            },
        ],
        fallback: Some(UPSTREAM_SCHEME@ + config.workspace_address@),
    }
}

pub struct ProxyServer {
    setup: Arc<ProxyConfig>,
}

impl ProxyServer {
    /// The configuration that the server was made with.
    pub closed spec fn config(&self) -> ProxyConfig {
        *self.setup
    }

    pub fn new(setup: Arc<ProxyConfig>) -> (r: Self)
        ensures
            r.config() == *setup,
    {
        Self { setup }
    }

    /// The address to listen on.
    pub fn address(&self) -> (r: String)
        ensures
            r@ == self.config().proxy_address@,
    {
        self.setup.proxy_address.clone()
    }

    /// The routing policy of this server.
    pub fn policy(&self) -> (r: RoutingPolicy)
        ensures
            r@ == policy_of(self.config()),
    {
        let mut runtime = String::from_str(UPSTREAM_SCHEME);
        runtime.append(self.setup.runtime_address.as_str());
        let mut workspace = String::from_str(UPSTREAM_SCHEME);
        workspace.append(self.setup.workspace_address.as_str());
        let tenant = self.setup.volume_multi_workspace || self.setup.db_multi_workspace;
        let mut rules: Vec<Rule> = Vec::new();
        rules.push(Rule { prefix: String::from_str(API_PREFIX), upstream: runtime, tenant });
        let r = RoutingPolicy { rules, fallback: Some(workspace) };
        assert(r@.rules =~= policy_of(self.config()).rules);
        r
    }

    /// The boundary round the handling of one request. A response of the
    /// upstream passes; a failure becomes a response with the status of its
    /// kind, and a handler that broke off one with the status of an internal
    /// failure. There is always a response.
    pub fn handler_panic_wrap<R>(outcome: Outcome<R>) -> (r: Reply<R>)
        ensures
            match outcome {
                Outcome::Served(response) => r == Reply::Relayed(response),
                Outcome::Failed(error) => match r {
                    Reply::Local(made) => made.status == status_of(error) && made.body@ == body_of(
                        made.status,
                    ) && made.log@ == log_of(error),
                    Reply::Relayed(_) => false,
                },
                Outcome::Panicked(text) => match r {
                    Reply::Local(made) => made.status == 500 && made.body@ == body_of(500)
                        && made.log@ == text@,
                    Reply::Relayed(_) => false,
                },
            },
    {
        match outcome {
            Outcome::Served(response) => Reply::Relayed(response),
            Outcome::Failed(HandlerError::Internal { detail }) => Reply::Local(
                ErrorResponse {
                    status: 500,
                    body: String::from_str("Internal Server Error"),
                    log: detail,
                },
            ),
            Outcome::Failed(HandlerError::NotFound { path }) => Reply::Local(
                ErrorResponse { status: 404, body: String::from_str("Not Found"), log: path },
            ),
            Outcome::Panicked(text) => Reply::Local(
                ErrorResponse {
                    status: 500,
                    body: String::from_str("Internal Server Error"),
                    log: text,
                },
            ),
        }
    }
}

} // verus!
