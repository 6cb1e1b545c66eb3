//! Source collectors and the read paths in front of them.
//!
//! A collector never talks to an upstream itself: it is handed what the
//! fetch returned and does the rest. It invalidates cache entries on its
//! own; it never fills the cache, because only the caller can serialise a
//! value. Where a value is worth caching, the collector says under which
//! key and for how long.

pub mod iss_service;
pub mod jwst_service;
pub mod nasa_service;
pub mod osdr_service;
pub mod spacex_service;

use crate::clients::http::FetchPlan;
use crate::domain::error::ApiError;
use crate::repo::cache_repo::Invalidation;
use vstd::prelude::*;

verus! {

/// An invitation to cache the value just returned.
#[derive(Debug)]
pub struct CacheFill {
    pub key: String,
    pub ttl_seconds: usize,
}

/// What a cache-aside read came to: the value or the failure, and whether
/// the value should now be cached.
#[derive(Debug)]
pub struct ReadThrough<T> {
    pub value: Result<T, ApiError>,
    pub fill: Option<CacheFill>,
}

/// A fetch that sits behind the cache: look under `cache_key` first; on a
/// miss make the call and keep its payload under that key for
/// `ttl_seconds`.
#[derive(Debug)]
pub struct CachedFetch {
    pub cache_key: String,
    pub ttl_seconds: usize,
    pub plan: FetchPlan,
}

/// What a cache lookup is worth to a reader: the value on a hit, nothing on
/// a miss, and nothing when the cache could not be reached. A cache that
/// is down never fails a read; the reader goes on as if it were empty.
pub fn cached_value<T>(lookup: Result<Option<T>, ApiError>) -> (v: Option<T>)
    ensures
        v == match lookup {
            Ok(found) => found,
            Err(_) => None,
        },
{
    match lookup {
        Ok(found) => found,
        Err(_) => None,
    }
}

/// What a collector drops from the cache once the store has answered: the
/// entries the new data could have changed when the write went through,
/// nothing when it failed. A cycle that could not store leaves the cache
/// alone.
pub fn invalidations_after<T>(stored: &Result<T, ApiError>, affected: Vec<Invalidation>) -> (invs:
    Vec<Invalidation>)
    ensures
        invs@ == if stored is Ok {
            affected@
        } else {
            Seq::<Invalidation>::empty()
        },
{
    match stored {
        Ok(_) => affected,
        Err(_) => Vec::new(),
    }
}

} // verus!
