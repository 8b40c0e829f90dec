//! The MongoDB endpoint.

pub mod bson;
pub mod json;
pub mod document;
pub mod cursor;
pub mod filters;
pub mod query;
pub mod publisher;
pub mod sending;
pub mod commit;
pub mod readers;
pub mod query_laws;
pub mod changes;
pub mod laws;
