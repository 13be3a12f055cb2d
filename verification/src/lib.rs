//! Transport-bridging core for a JSON-RPC gateway: wire-format framing and
//! correlation for a line-delimited daemon protocol, an event-relay decision
//! layer, a minimal HTTP/1.1 request parser, and the bearer-token
//! authorization gate. All I/O lives outside this crate; every function here
//! is pure logic over bytes and the crate's own data types.
#![verifier::loop_isolation(false)]
pub mod assets;
pub mod auth;
pub mod http;
pub mod json;
pub mod relay;
pub mod routes;
pub mod util;
pub mod wire;
