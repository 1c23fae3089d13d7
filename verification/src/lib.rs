//! Core of a forward HTTP proxy: a caller's request names its upstream in the
//! `Host` header; the proxy validates that host, forwards the request over
//! HTTPS, relays the upstream's response verbatim, and records a textual
//! artifact of both the forwarded request and the received response.
//!
//! This crate holds the decision logic of that pipeline — host extraction and
//! validation, the error taxonomy with its fixed messages, artifact rendering
//! and re-parsing, and the per-request run model — all verified. The
//! surrounding server loop and the actual socket, TLS and file work live
//! outside the crate and call into it with plain values.
pub mod artifact;
pub mod clock;
pub mod engine;
pub mod errors;
pub mod host;
pub mod ip;
pub mod model;
pub mod parse;
pub mod text;
pub mod upstream;
