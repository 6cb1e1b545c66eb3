//! Reads of telescope images.

use crate::clients::http::FetchPlan;
use crate::clients::jwst_client::{spec_endpoints, JwstClient};
use vstd::prelude::*;

verus! {

/// Seconds the images of a program stay cached.
pub const IMAGES_TTL_SECONDS: usize = 1800;

/// Key of the cached images of a program.
pub open spec fn images_key(program_id: Seq<char>) -> Seq<char> {
    "jwst:images:"@ + program_id
}

/// A fetch behind the cache that has several addresses to try, in order.
#[derive(Debug)]
pub struct CachedImages {
    pub cache_key: String,
    pub ttl_seconds: usize,
    pub plans: Vec<FetchPlan>,
}

pub struct JwstService {
    pub jwst_client: JwstClient,
}

impl JwstService {
    pub fn new(jwst_client: JwstClient) -> (s: JwstService)
        ensures
            s.jwst_client == jwst_client,
    {
        JwstService { jwst_client }
    }

    /// The images of a program, cached for half an hour under a key of
    /// their own.
    pub fn get_images(&self, program_id: &str) -> (r: CachedImages)
        ensures
            r.cache_key@ == images_key(program_id@),
            r.ttl_seconds == IMAGES_TTL_SECONDS,
            r.plans@.len() == 3,
            forall|i: int|
                0 <= i < 3 ==> self.jwst_client.calls(
                    spec_endpoints(self.jwst_client.base_url@, program_id@)[i],
                    #[trigger] r.plans@[i],
                ),
    {
        let mut cache_key = String::from_str("jwst:images:");
        cache_key.append(program_id);
        CachedImages {
            cache_key,
            ttl_seconds: IMAGES_TTL_SECONDS,
            plans: self.jwst_client.fetch_images(program_id),
        }
    }
}

} // verus!
