//! Verified core of a prefix-routed reverse proxy.
//!
//! Each inbound request's path yields a two-segment routing key; the key is
//! looked up in an external store; the stored target is parsed into a dial
//! address; the request and the response (headers and textual bodies) are
//! rewritten so that links keep resolving through the gateway's prefix.
//!
//! All routing and rewriting decisions live here and are verified; the host
//! pipeline engine, the store connection and all socket I/O stay outside.

pub mod context;
pub mod errors;
pub mod limits;
pub mod logrec;
pub mod peer;
pub mod prefix;
pub mod request;
pub mod response;
pub mod route;
pub mod textops;
