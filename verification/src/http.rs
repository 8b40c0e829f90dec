//! The HTTP endpoint.

pub mod auth;
pub mod client_laws;
pub mod content;
pub mod exchange;
pub mod frames;
pub mod gzip;
pub mod headers;
pub mod limiter;
pub mod publisher;
pub mod request;
pub mod reply_laws;
pub mod response;
pub mod response_stream;
pub mod router;
pub mod sending;
pub mod server;
pub mod server_laws;
pub mod setup;
pub mod setup_laws;
pub mod sse;
pub mod sse_laws;
pub mod stream;
pub mod stream_laws;
