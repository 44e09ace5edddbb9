//! An HTTP/1.1 server core: the request/response message model, a
//! Server-Sent-Events encoder, path and query parsing, base64, the route
//! table, and the live-connection registry that drives the keep-alive
//! worker. Socket and file I/O live outside this crate; every function
//! here is pure computation with a verified contract.
use vstd::prelude::*;

pub mod base64;
pub mod config;
pub mod connection;
pub mod error;
pub mod event;
pub mod headers;
pub mod http_headers;
pub mod method;
pub mod path;
pub mod registry;
pub mod request;
pub mod response;
pub mod server;
pub mod status;
pub mod text;
