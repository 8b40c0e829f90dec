//! The gRPC endpoint.

pub mod bridge;
pub mod pending;
pub mod router;
pub mod status;
pub mod publisher;
pub mod calls;
pub mod setup;
pub mod laws;
pub mod receive;
pub mod shapes;
pub mod sound;
pub mod descriptors;
pub mod dynamic;
pub mod dynamic_laws;
