//! Storage: the cache in front and the durable repositories behind it.

pub mod cache_repo;
pub mod iss_repo;
pub mod osdr_repo;
