//! The decision logic of a message bridge: endpoint configuration checks, HTTP
//! routing and framing, gRPC retention and acknowledgement, MongoDB documents and
//! cursors, and local inter-process framing.

pub mod bytes;
pub mod checks;
pub mod endpoint;
pub mod endpoint_laws;
pub mod fast_path;
pub mod grpc;
pub mod http;
pub mod ids;
pub mod ipc;
pub mod json;
pub mod message;
pub mod message_laws;
pub mod models;
pub mod mongo;
pub mod names;
pub mod numbers;
pub mod publishers;
pub mod resolve;
pub mod status;
pub mod text;
pub mod text_laws;
pub mod wire;
