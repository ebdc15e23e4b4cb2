//! Protocol core of a minimal HTTP/1.1 server.
//!
//! The library parses a single raw request from a byte buffer, extracts
//! headers (last occurrence of a header name wins), negotiates gzip
//! compression from `Accept-Encoding`, and frames complete responses
//! (status line, headers, `Content-Length`, body). Reading the socket,
//! the filesystem and process arguments are left to the surrounding
//! program, which hands the core plain byte strings and performs the
//! actions the dispatcher returns.
pub mod scan;
pub mod lit;
pub mod headers;
pub mod encoding;
pub mod response;
pub mod routes;
pub mod dispatch;
pub mod laws;
