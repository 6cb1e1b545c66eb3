//! Domain types: records, upstream payloads and the error envelope.

pub mod error;
pub mod models;
