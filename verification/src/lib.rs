//! Scheduled collection pipeline for space-data sources: retrying fetches,
//! a cache-aside store, an idempotent repository, advisory locks and the
//! per-source scheduler that ties them together.

pub mod calendar;
pub mod clients;
pub mod config;
pub mod domain;
pub mod keyed;
pub mod repo;
pub mod scheduler;
pub mod services;
pub mod text;
pub mod utils;
