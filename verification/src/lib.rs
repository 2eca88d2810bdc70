//! Decision logic of an HTTP reverse-proxy gateway: which headers may cross
//! the proxy, how the outbound request is built, which upstream a path is
//! routed to, and what a failed request is answered with.

pub mod headers;
pub mod hop;
pub mod proxy;
pub mod routes;
pub mod server;
pub mod text;
pub mod uri;

pub use hop::HopHeaders;
pub use routes::{HandlerError, Router, RoutingPolicy, Rule, Target};
pub use server::{ErrorResponse, Outcome, ProxyConfig, ProxyServer, Reply};
