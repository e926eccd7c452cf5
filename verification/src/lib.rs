//! A small verified HTTP/1.x server core: wire types, a request-head parser,
//! MIME metadata extraction, a response builder and serializer, a handler
//! registry with dispatch rules, and the FIFO queue behind the worker pool.
//!
//! Network I/O, threads and the accept loop live outside the library; the
//! library works on plain values (strings, bytes, its own types) and states
//! what it computes in `requires`/`ensures` contracts.

pub mod strutil;
pub mod headers;
pub mod request;
pub mod mime;
pub mod content_type;
pub mod body;
pub mod status;
pub mod response;
pub mod http1_1;
pub mod handlers;
pub mod dogstore;
pub mod queue;
pub mod listener;
pub mod simple_http;
