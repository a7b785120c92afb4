//! A small HTTP proxy whose requests and responses can be inspected and
//! rewritten by a filter script.
//!
//! The verified library holds the proxy's data model (requests, responses and
//! their header tables), the script-facing operations on them, the routing
//! decision taken on a freshly accepted client connection, the start-up plan
//! derived from the command line, and the script reload policy.

pub mod client;
pub mod config;
pub mod headers;
pub mod proxy_data;
pub mod script;
pub mod text;
pub mod wire;

pub use client::{route_client, ClientError, ClientRoute};
pub use config::{Args, Proxy, ProxyPlan};
pub use headers::Headers;
pub use proxy_data::{ProxyRequest, ProxyResponse};
