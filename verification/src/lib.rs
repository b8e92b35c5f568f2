//! Route selection and request authorization for an inbound proxy.
//!
//! Given an immutable policy snapshot, the transport facts of a connection and
//! a request, the library picks the most specific route that matches the
//! request and decides whether the connection may use it.

pub mod text;
pub mod authz;
pub mod http_policy;
pub mod labels;
pub mod matching;
pub mod meta;
pub mod net;
pub mod ranking;
pub mod request;
pub mod routes;
pub mod server;
pub mod specificity;
